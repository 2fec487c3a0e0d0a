use vstd::prelude::*;
use vstd::string::StrSliceExecFns;
use crate::config::Config;
use crate::units::RATE_UNIT;

verus! {

/// The side of a trade.
#[derive(Clone, Copy, Debug, PartialEq, Eq)]
pub enum Side {
    Buy,
    Sell,
}

/// What is recorded of an executed trade.  The cost is in cash units.
#[derive(Clone, Copy, Debug, PartialEq, Eq)]
pub struct TradeRecord {
    pub side: Side,
    pub price: u64,
    pub size: u64,
    pub cost: u128,
}

/// How a request to trade ended.
#[derive(Clone, Copy, Debug, PartialEq, Eq)]
pub enum TradeOutcome {
    /// The trade was booked.
    Executed(TradeRecord),
    /// A sale was asked for while no position was open; nothing changed.
    NoOpenPosition,
    /// The side was neither `buy` nor `sell`; nothing changed.
    UnknownSide,
    /// The amounts of the trade or the resulting balance exceed what the
    /// ledger can hold; nothing changed.
    OutOfRange,
}

/// The ledger as mathematics sees it: an unbounded cash balance and the entry
/// prices of the open positions, oldest first.
pub struct Ledger {
    pub cash: int,
    pub positions: Seq<u64>,
}

/// The side that a word names: `buy`, `sell`, or none.
pub open spec fn side_of(word: Seq<char>) -> Option<Side> {
    if word == seq!['b', 'u', 'y'] {
        Some(Side::Buy)
    } else if word == seq!['s', 'e', 'l', 'l'] {
        Some(Side::Sell)
    } else {
        None
    }
}

/// Value of a trade in cash units: price times size, at the scale of rates.
pub open spec fn trade_value(price: int, size: int) -> int {
    price * size * RATE_UNIT
}

/// Transaction cost of a trade in cash units: size times price times fee rate.
pub open spec fn trade_cost(price: int, size: int, fee: int) -> int {
    size * price * fee
}

/// Whether the value and the cost of a trade can each be held in 128 bits.
pub open spec fn amounts_fit(price: int, size: int, fee: int) -> bool {
    trade_value(price, size) <= u128::MAX && trade_cost(price, size, fee) <= u128::MAX
}

impl Ledger {
    /// Whether the cash balance can be held by the executable ledger.
    pub open spec fn in_range(self) -> bool {
        i128::MIN <= self.cash <= i128::MAX
    }

    /// The ledger after a purchase: a new position at the price, and cash
    /// less the value and the cost.
    pub open spec fn bought(self, price: u64, size: u64, fee: u64) -> Ledger {
        Ledger {
            cash: self.cash - trade_value(price as int, size as int) - trade_cost(
                price as int,
                size as int,
                fee as int,
            ),
            positions: self.positions.push(price),
        }
    }

    /// The ledger after a sale: the position opened last is gone, and cash
    /// has grown by the value less the cost.
    pub open spec fn sold(self, price: u64, size: u64, fee: u64) -> Ledger
        recommends
            self.positions.len() > 0,
    {
        Ledger {
            cash: self.cash + trade_value(price as int, size as int) - trade_cost(
                price as int,
                size as int,
                fee as int,
            ),
            positions: self.positions.drop_last(),
        }
    }

    /// Value of the portfolio at the current bid, in cash units: the cash and
    /// every open position at `size` lots valued at the bid.
    pub open spec fn value(self, bid: u64, size: u64) -> int {
        self.cash + self.positions.len() * trade_value(bid as int, size as int)
    }

    /// How a request to trade ends on this ledger.
    pub open spec fn outcome(self, side: Option<Side>, price: u64, size: u64, fee: u64)
        -> TradeOutcome {
        let record = |s: Side|
            TradeRecord {
                side: s,
                price,
                size,
                cost: trade_cost(price as int, size as int, fee as int) as u128,
            };
        match side {
            None => TradeOutcome::UnknownSide,
            Some(Side::Buy) => if amounts_fit(price as int, size as int, fee as int) && self.bought(
                price,
                size,
                fee,
            ).in_range() {
                TradeOutcome::Executed(record(Side::Buy))
            } else {
                TradeOutcome::OutOfRange
            },
            Some(Side::Sell) => if self.positions.len() == 0 {
                TradeOutcome::NoOpenPosition
            } else if amounts_fit(price as int, size as int, fee as int) && self.sold(
                price,
                size,
                fee,
            ).in_range() {
                TradeOutcome::Executed(record(Side::Sell))
            } else {
                TradeOutcome::OutOfRange
            },
        }
    }

    /// The ledger after a request to trade: changed only when the trade is
    /// executed.
    pub open spec fn executed(self, side: Option<Side>, price: u64, size: u64, fee: u64)
        -> Ledger {
        match self.outcome(side, price, size, fee) {
            TradeOutcome::Executed(record) => match record.side {
                Side::Buy => self.bought(price, size, fee),
                Side::Sell => self.sold(price, size, fee),
            },
            _ => self,
        }
    }
}

/// A purchase that is booked takes the price times the size times one whole
/// and the fee from the cash and opens one position; a sale that is booked
/// then, at the same price, size and fee, closes that position again and
/// adds the price times the size times one whole less the fee.
pub proof fn lemma_buy_then_sell(ledger: Ledger, price: u64, size: u64, fee: u64)
    requires
        ledger.outcome(Some(Side::Buy), price, size, fee) is Executed,
        ledger.executed(Some(Side::Buy), price, size, fee).outcome(
            Some(Side::Sell),
            price,
            size,
            fee,
        ) is Executed,
    ensures
        ({
            let bought = ledger.executed(Some(Side::Buy), price, size, fee);
            let sold = bought.executed(Some(Side::Sell), price, size, fee);
            &&& bought.cash == ledger.cash - price * size * (RATE_UNIT + fee)
            &&& bought.positions.len() == ledger.positions.len() + 1
            &&& bought.positions.last() == price
            &&& sold.cash == bought.cash + price * size * (RATE_UNIT - fee)
            &&& sold.positions.len() == bought.positions.len() - 1
            &&& sold.positions == ledger.positions
            &&& sold.cash == ledger.cash - 2 * trade_cost(price as int, size as int, fee as int)
        }),
{
    let p = price as int;
    let s = size as int;
    let f = fee as int;
    let r = RATE_UNIT as int;
    assert(p * s * (r + f) == p * s * r + s * p * f && p * s * (r - f) == p * s * r - s * p * f)
        by (nonlinear_arith);
    assert(ledger.positions.push(price).drop_last() =~= ledger.positions);
}

/// A sale asked of a ledger without an open position changes nothing.
pub proof fn lemma_sell_without_position(ledger: Ledger, price: u64, size: u64, fee: u64)
    requires
        ledger.positions.len() == 0,
    ensures
        ledger.outcome(Some(Side::Sell), price, size, fee) == TradeOutcome::NoOpenPosition,
        ledger.executed(Some(Side::Sell), price, size, fee) == ledger,
{
}

/// A request that is not executed changes nothing, and one that is executed
/// changes the number of open positions by exactly one.
pub proof fn lemma_position_count(ledger: Ledger, side: Option<Side>, price: u64, size: u64, fee: u64)
    ensures
        ({
            let next = ledger.executed(side, price, size, fee);
            match ledger.outcome(side, price, size, fee) {
                TradeOutcome::Executed(record) => match record.side {
                    Side::Buy => side == Some(Side::Buy) && next.positions.len()
                        == ledger.positions.len() + 1,
                    Side::Sell => side == Some(Side::Sell) && next.positions.len()
                        == ledger.positions.len() - 1,
                },
                _ => next == ledger,
            }
        }),
{
}

/// The ledger of one traded symbol: a cash balance, the entry prices of the
/// open positions in the order in which they were opened, and the
/// configuration of the run.
#[derive(Debug)]
pub struct TradingState {
    /// Cash balance in cash units; it may be negative.
    pub cash: i128,
    /// Entry price of each open position in ticks, oldest first.
    pub positions: Vec<u64>,
    /// The traded symbol.
    pub symbol: &'static str,
    /// Trade size, thresholds and fee of this run.
    pub config: Config,
}

impl View for TradingState {
    type V = Ledger;

    open spec fn view(&self) -> Ledger {
        Ledger { cash: self.cash as int, positions: self.positions@ }
    }
}

/// Reads the side of a trade from a word.
pub fn parse_side(word: &str) -> (r: Option<Side>)
    ensures
        r == side_of(word@),
{
    let n: usize = word.unicode_len();
    if n == 3 {
        if word.get_char(0) == 'b' && word.get_char(1) == 'u' && word.get_char(2) == 'y' {
            assert(word@ =~= seq!['b', 'u', 'y']);
            Some(Side::Buy)
        } else {
            None
        }
    } else if n == 4 {
        if word.get_char(0) == 's' && word.get_char(1) == 'e' && word.get_char(2) == 'l'
            && word.get_char(3) == 'l' {
            assert(word@ =~= seq!['s', 'e', 'l', 'l']);
            Some(Side::Sell)
        } else {
            None
        }
    } else {
        None
    }
}

/// Value and cost of a trade in cash units, or `None` when one of them
/// exceeds 128 bits.
pub fn trade_amounts(price: u64, size: u64, fee: u64) -> (r: Option<(u128, u128)>)
    ensures
        match r {
            Some((value, cost)) => value == trade_value(price as int, size as int) && cost
                == trade_cost(price as int, size as int, fee as int),
            None => !amounts_fit(price as int, size as int, fee as int),
        },
{
    proof {
        assert(0 <= price * size <= u128::MAX && size * price == price * size) by (nonlinear_arith)
            requires
                0 <= price <= u64::MAX,
                0 <= size <= u64::MAX,
        ;
    }
    let notional: u128 = (price as u128) * (size as u128);
    let value: Option<u128> = notional.checked_mul(RATE_UNIT as u128);
    let cost: Option<u128> = notional.checked_mul(fee as u128);
    match (value, cost) {
        (Some(v), Some(c)) => Some((v, c)),
        _ => None,
    }
}

impl TradingState {
    /// A ledger with the given cash, no open position and the standard
    /// configuration.
    pub fn new(cash: i128, symbol: &'static str) -> (state: TradingState)
        ensures
            state.cash == cash,
            state.positions@ == Seq::<u64>::empty(),
            state.symbol == symbol,
            state.config == Config::standard(),
    {
        TradingState { cash, positions: Vec::new(), symbol, config: Config::default() }
    }

    /// A ledger with the given cash, no open position and a configuration of
    /// the caller's.
    pub fn with_config(cash: i128, symbol: &'static str, config: Config) -> (state: TradingState)
        ensures
            state.cash == cash,
            state.positions@ == Seq::<u64>::empty(),
            state.symbol == symbol,
            state.config == config,
    {
        TradingState { cash, positions: Vec::new(), symbol, config }
    }

    /// Value of the portfolio at the current bid, in cash units, each open
    /// position counted at the configured trade size; `None` when the value
    /// exceeds what 128 bits can hold.  The ledger is not changed.
    pub fn calculate_portfolio_value(&self, bid: u64) -> (r: Option<i128>)
        ensures
            match r {
                Some(v) => v == self@.value(bid, self.config.trade_size),
                None => self@.value(bid, self.config.trade_size) > i128::MAX,
            },
    {
        let count: usize = self.positions.len();
        if count == 0 {
            assert(0 * trade_value(bid as int, self.config.trade_size as int) == 0);
            return Some(self.cash);
        }
        let size: u64 = self.config.trade_size;
        proof {
            assert(0 <= bid * size <= u128::MAX) by (nonlinear_arith)
                requires
                    0 <= bid <= u64::MAX,
                    0 <= size <= u64::MAX,
            ;
            assert(count * trade_value(bid as int, size as int) >= trade_value(
                bid as int,
                size as int,
            ) >= 0) by (nonlinear_arith)
                requires
                    count >= 1,
                    bid >= 0,
                    size >= 0,
                    trade_value(bid as int, size as int) == bid * size * RATE_UNIT,
                    RATE_UNIT > 0,
            ;
        }
        let notional: u128 = (bid as u128) * (size as u128);
        let each: u128 = match notional.checked_mul(RATE_UNIT as u128) {
            Some(v) => v,
            None => {
                return None;
            },
        };
        proof {
            assert(count * each == each * count) by (nonlinear_arith);
        }
        let total: u128 = match each.checked_mul(count as u128) {
            Some(v) => v,
            None => {
                return None;
            },
        };
        self.cash.checked_add_unsigned(total)
    }

    /// Books one trade given by a word for its side: `buy`, `sell`, or any
    /// other word, which changes nothing.  See [`TradingState::execute`].
    pub fn execute_trade(&mut self, price: u64, side: &str, trade_size: u64, fee: u64) -> (r:
        TradeOutcome)
        ensures
            r == old(self)@.outcome(side_of(side@), price, trade_size, fee),
            final(self)@ == old(self)@.executed(side_of(side@), price, trade_size, fee),
            final(self).symbol == old(self).symbol,
            final(self).config == old(self).config,
    {
        match parse_side(side) {
            Some(known) => self.execute(price, known, trade_size, fee),
            None => TradeOutcome::UnknownSide,
        }
    }

    /// Books one trade.  A purchase opens a position at the price and takes
    /// the value and the cost of the trade from the cash.  A sale closes the
    /// position opened last and adds the value less the cost to the cash;
    /// with no open position it changes nothing.  A trade whose amounts or
    /// resulting balance cannot be held changes nothing either.
    pub fn execute(&mut self, price: u64, side: Side, trade_size: u64, fee: u64) -> (r:
        TradeOutcome)
        ensures
            r == old(self)@.outcome(Some(side), price, trade_size, fee),
            final(self)@ == old(self)@.executed(Some(side), price, trade_size, fee),
            final(self).symbol == old(self).symbol,
            final(self).config == old(self).config,
    {
        match side {
            Side::Buy => {
                let (value, cost) = match trade_amounts(price, trade_size, fee) {
                    Some(amounts) => amounts,
                    None => {
                        return TradeOutcome::OutOfRange;
                    },
                };
                let after_value: i128 = match self.cash.checked_sub_unsigned(value) {
                    Some(c) => c,
                    None => {
                        return TradeOutcome::OutOfRange;
                    },
                };
                let after_cost: i128 = match after_value.checked_sub_unsigned(cost) {
                    Some(c) => c,
                    None => {
                        return TradeOutcome::OutOfRange;
                    },
                };
                self.positions.push(price);
                self.cash = after_cost;
                TradeOutcome::Executed(TradeRecord { side: Side::Buy, price, size: trade_size, cost })
            },
            Side::Sell => {
                if self.positions.len() == 0 {
                    return TradeOutcome::NoOpenPosition;
                }
                let (value, cost) = match trade_amounts(price, trade_size, fee) {
                    Some(amounts) => amounts,
                    None => {
                        return TradeOutcome::OutOfRange;
                    },
                };
                let after: Option<i128> = if cost <= value {
                    self.cash.checked_add_unsigned(value - cost)
                } else {
                    self.cash.checked_sub_unsigned(cost - value)
                };
                match after {
                    Some(c) => {
                        self.positions.pop();
                        self.cash = c;
                        assert(self.positions@ =~= old(self).positions@.drop_last());
                        TradeOutcome::Executed(
                            TradeRecord { side: Side::Sell, price, size: trade_size, cost },
                        )
                    },
                    None => TradeOutcome::OutOfRange,
                }
            },
        }
    }
}

} // verus!
