use vstd::prelude::*;
use crate::config::Config;
use crate::ledger::{Ledger, Side, TradeOutcome, TradingState};
use crate::risk::RiskExit;
use crate::signals::{
    lemma_oir_above_exact, lemma_spread_within_exact, lemma_volume_prefix, mid_price, oir, spread,
    tradable, voi, volume, widen, Level, OrderBook,
};
use crate::units::{MPB_THRESHOLD, OIR_THRESHOLD, RATE_UNIT};

verus! {

/// The signals of one snapshot.  A spread is `None` for a bid of zero; the
/// imbalance is `None` when the volume of a side exceeds `u64`; the ratio is
/// `None` when it is undefined or the imbalance is.
#[derive(Clone, Copy, Debug, PartialEq, Eq)]
pub struct Signals {
    /// Best bid in ticks.
    pub bid: u64,
    /// Best ask in ticks.
    pub ask: u64,
    /// Spread in parts per million of one percent.
    pub spread: Option<i128>,
    /// Volume order imbalance in lots.
    pub voi: Option<i128>,
    /// Order imbalance ratio in parts per million.
    pub oir: Option<i128>,
    /// Mid price in ticks.
    pub mid_price: u64,
    /// Mid-price basis in ticks.
    pub mpb: i128,
}

/// The signals of one snapshot as mathematics sees them.
pub struct SignalValues {
    pub bid: int,
    pub ask: int,
    pub spread: Option<int>,
    pub voi: Option<int>,
    pub oir: Option<int>,
    pub mid_price: int,
    pub mpb: int,
}

impl View for Signals {
    type V = SignalValues;

    open spec fn view(&self) -> SignalValues {
        SignalValues {
            bid: self.bid as int,
            ask: self.ask as int,
            spread: widen(self.spread),
            voi: widen(self.voi),
            oir: widen(self.oir),
            mid_price: self.mid_price as int,
            mpb: self.mpb as int,
        }
    }
}

/// What the entry rule decides for one snapshot.
#[derive(Clone, Copy, Debug, PartialEq, Eq)]
pub enum Action {
    /// Open a position at the best bid.
    Buy,
    /// Close the position opened last at the best ask.
    Sell,
    /// Do nothing.
    Hold,
}

/// The signals of a book whose sides both hold a level.  No last traded
/// price is carried from tick to tick: the last price of a snapshot is its
/// own mid price, so the mid-price basis is zero.
pub open spec fn signals_of(bids: Seq<Level>, asks: Seq<Level>) -> SignalValues
    recommends
        bids.len() > 0,
        asks.len() > 0,
{
    let bid = bids[0].price as int;
    let ask = asks[0].price as int;
    let in_range = volume(bids) <= u64::MAX && volume(asks) <= u64::MAX;
    SignalValues {
        bid,
        ask,
        spread: spread(bid, ask),
        voi: if in_range {
            Some(voi(bids, asks))
        } else {
            None
        },
        oir: if in_range {
            oir(volume(bids), volume(asks))
        } else {
            None
        },
        mid_price: mid_price(bid, ask),
        mpb: mid_price(bid, ask) - mid_price(bid, ask),
    }
}

/// The entry rule.  Nothing is done unless the imbalance is known and not
/// zero and the spread is defined and within the threshold.  Then a positive
/// imbalance with a ratio above `OIR_THRESHOLD` buys; failing that, a
/// negative imbalance with a basis below `MPB_THRESHOLD` sells if a position
/// is open.
pub open spec fn entry_action(s: SignalValues, has_position: bool, spread_threshold: int)
    -> Action {
    if s.voi is Some && tradable(s.spread, s.voi->Some_0, spread_threshold) {
        if s.voi->Some_0 > 0 && s.oir is Some && s.oir->Some_0 > OIR_THRESHOLD {
            Action::Buy
        } else if s.voi->Some_0 < 0 && s.mpb < MPB_THRESHOLD && has_position {
            Action::Sell
        } else {
            Action::Hold
        }
    } else {
        Action::Hold
    }
}

impl Ledger {
    /// The ledger after the entry rule has acted: a purchase at the bid, a
    /// sale at the ask, or nothing, each at the configured size and fee.
    pub open spec fn after_entry(self, config: Config, action: Action, bid: u64, ask: u64)
        -> Ledger {
        match action {
            Action::Buy => self.executed(Some(Side::Buy), bid, config.trade_size, config.fee_rate),
            Action::Sell => self.executed(
                Some(Side::Sell),
                ask,
                config.trade_size,
                config.fee_rate,
            ),
            Action::Hold => self,
        }
    }

    /// The ledger after the risk sweep of a tick: swept at the configured
    /// thresholds where the result can be held, else unchanged.
    pub open spec fn after_sweep(self, config: Config, bid: u64) -> Ledger {
        if self.sweep_fits(
            bid,
            config.take_profit,
            config.stop_loss,
            config.trade_size,
            config.fee_rate,
        ) {
            self.swept(
                bid,
                config.take_profit,
                config.stop_loss,
                config.trade_size,
                config.fee_rate,
            )
        } else {
            self
        }
    }

    /// The ledger after one snapshot: unchanged when a side of the book is
    /// empty; else the entry rule acts, then the risk sweep runs at the best
    /// bid.
    pub open spec fn after_tick(self, config: Config, bids: Seq<Level>, asks: Seq<Level>)
        -> Ledger {
        if bids.len() == 0 || asks.len() == 0 {
            self
        } else {
            let action = entry_action(
                signals_of(bids, asks),
                self.positions.len() > 0,
                config.spread_threshold as int,
            );
            self.after_entry(config, action, bids[0].price, asks[0].price).after_sweep(
                config,
                bids[0].price,
            )
        }
    }
}

/// Without a defined imbalance ratio the entry rule never buys.
pub proof fn lemma_no_purchase_without_ratio(
    s: SignalValues,
    has_position: bool,
    spread_threshold: int,
)
    requires
        s.oir is None,
    ensures
        entry_action(s, has_position, spread_threshold) != Action::Buy,
{
}

/// On a book without volume on either side the ratio is undefined and the
/// entry rule does nothing.
pub proof fn lemma_empty_volume_holds(
    bids: Seq<Level>,
    asks: Seq<Level>,
    has_position: bool,
    spread_threshold: int,
)
    requires
        volume(bids) == 0,
        volume(asks) == 0,
    ensures
        signals_of(bids, asks).oir is None,
        entry_action(signals_of(bids, asks), has_position, spread_threshold) == Action::Hold,
{
}

/// Without a defined spread the entry rule does nothing.
pub proof fn lemma_undefined_spread_holds(
    s: SignalValues,
    has_position: bool,
    spread_threshold: int,
)
    requires
        s.spread is None,
    ensures
        entry_action(s, has_position, spread_threshold) == Action::Hold,
{
}

/// The basis of a snapshot is zero, so the entry rule never sells on the
/// signals of a book: positions are closed by the risk sweep alone.
pub proof fn lemma_book_never_sells(
    bids: Seq<Level>,
    asks: Seq<Level>,
    has_position: bool,
    spread_threshold: int,
)
    ensures
        signals_of(bids, asks).mpb == 0,
        entry_action(signals_of(bids, asks), has_position, spread_threshold) != Action::Sell,
{
}

/// On the signals of a book the entry rule decides on exact quotients.  It
/// buys exactly when both volumes are known, the bid is not zero, a hundred
/// times the gap between ask and bid, in parts, is at most the threshold
/// times the bid, the bid volume exceeds the ask volume, and the imbalance in
/// parts exceeds `OIR_THRESHOLD` times the total volume.  Otherwise it does
/// nothing.
pub proof fn lemma_entry_rule_exact(
    bids: Seq<Level>,
    asks: Seq<Level>,
    has_position: bool,
    spread_threshold: nat,
)
    requires
        bids.len() > 0,
        asks.len() > 0,
    ensures
        ({
            let bid = bids[0].price as int;
            let ask = asks[0].price as int;
            let buys = {
                &&& volume(bids) <= u64::MAX
                &&& volume(asks) <= u64::MAX
                &&& bid > 0
                &&& (ask - bid) * 100 * RATE_UNIT <= spread_threshold * bid
                &&& volume(bids) > volume(asks)
                &&& (volume(bids) - volume(asks)) * RATE_UNIT > OIR_THRESHOLD * (volume(bids)
                    + volume(asks))
            };
            entry_action(signals_of(bids, asks), has_position, spread_threshold as int) == (if buys {
                Action::Buy
            } else {
                Action::Hold
            })
        }),
{
    let bid = bids[0].price as nat;
    let ask = asks[0].price as nat;
    lemma_volume_prefix(bids, bids.len() as int);
    lemma_volume_prefix(asks, asks.len() as int);
    let b = volume(bids) as nat;
    let a = volume(asks) as nat;
    if bid > 0 {
        lemma_spread_within_exact(bid, ask, spread_threshold);
    }
    if b + a > 0 {
        lemma_oir_above_exact(b, a, OIR_THRESHOLD as nat);
    }
}

/// What one snapshot did to the ledger.
#[derive(Debug)]
pub struct TickReport {
    /// The signals, or `None` when a side of the book was empty and nothing
    /// was evaluated.
    pub signals: Option<Signals>,
    /// What the entry rule decided.
    pub action: Action,
    /// How the trade of the entry rule ended, if it asked for one.
    pub trade: Option<TradeOutcome>,
    /// The positions that the risk sweep closed, or `None` when its result
    /// could not be held and it closed none.
    pub exits: Option<Vec<RiskExit>>,
    /// Value of the portfolio at the best bid after the tick, or `None` when
    /// there is no bid or the value cannot be held.
    pub value: Option<i128>,
}

impl TradingState {
    /// The signals of a book, or `None` when one of its sides is empty.
    pub fn calculate_signals(order_book: &OrderBook) -> (r: Option<Signals>)
        ensures
            r is None <==> order_book.bids@.len() == 0 || order_book.asks@.len() == 0,
            r is Some ==> r->Some_0@ == signals_of(order_book.bids@, order_book.asks@),
    {
        if order_book.bids.len() == 0 || order_book.asks.len() == 0 {
            return None;
        }
        let bid: u64 = order_book.bids[0].price;
        let ask: u64 = order_book.asks[0].price;
        let spread: Option<i128> = TradingState::calculate_spread(bid, ask);
        let mid: u64 = TradingState::calculate_mid_price(bid, ask);
        let last_price: u64 = mid;
        let mpb: i128 = TradingState::calculate_mpb(last_price, mid);
        let (voi, oir) = match TradingState::calculate_voi(order_book) {
            Some((imbalance, bid_volume, ask_volume)) => (
                Some(imbalance),
                TradingState::calculate_oir(bid_volume, ask_volume),
            ),
            None => (None, None),
        };
        Some(Signals { bid, ask, spread, voi, oir, mid_price: mid, mpb })
    }

    /// The entry rule on the signals of one snapshot.
    pub fn decide(signals: &Signals, has_position: bool, spread_threshold: u64) -> (r: Action)
        ensures
            r == entry_action(signals@, has_position, spread_threshold as int),
    {
        let imbalance: i128 = match signals.voi {
            Some(v) => v,
            None => {
                return Action::Hold;
            },
        };
        if !TradingState::should_trade(signals.spread, imbalance, spread_threshold) {
            return Action::Hold;
        }
        let strong_buy: bool = match signals.oir {
            Some(ratio) => ratio > OIR_THRESHOLD,
            None => false,
        };
        if imbalance > 0 && strong_buy {
            Action::Buy
        } else if imbalance < 0 && signals.mpb < MPB_THRESHOLD && has_position {
            Action::Sell
        } else {
            Action::Hold
        }
    }

    /// Takes one snapshot through the ledger.  With an empty side nothing is
    /// evaluated and the ledger stays as it is.  Otherwise the entry rule
    /// acts at most once, then the risk sweep runs at the best bid with the
    /// configured thresholds.  The portfolio is valued at the best bid
    /// whenever there is one.
    pub fn on_order_book(&mut self, order_book: &OrderBook) -> (report: TickReport)
        ensures
            final(self)@ == old(self)@.after_tick(
                old(self).config,
                order_book.bids@,
                order_book.asks@,
            ),
            final(self).symbol == old(self).symbol,
            final(self).config == old(self).config,
            report.signals is None <==> order_book.bids@.len() == 0 || order_book.asks@.len()
                == 0,
            report.signals is Some ==> {
                let signals = signals_of(order_book.bids@, order_book.asks@);
                let bid = order_book.bids@[0].price;
                let ask = order_book.asks@[0].price;
                let config = old(self).config;
                let entered = old(self)@.after_entry(config, report.action, bid, ask);
                &&& report.signals->Some_0@ == signals
                &&& report.action == entry_action(
                    signals,
                    old(self)@.positions.len() > 0,
                    config.spread_threshold as int,
                )
                &&& report.trade == match report.action {
                    Action::Buy => Some(
                        old(self)@.outcome(
                            Some(Side::Buy),
                            bid,
                            config.trade_size,
                            config.fee_rate,
                        ),
                    ),
                    Action::Sell => Some(
                        old(self)@.outcome(
                            Some(Side::Sell),
                            ask,
                            config.trade_size,
                            config.fee_rate,
                        ),
                    ),
                    Action::Hold => None,
                }
                &&& match report.exits {
                    Some(records) => records@ == entered.exits(
                        bid,
                        config.take_profit,
                        config.stop_loss,
                    ) && entered.sweep_fits(
                        bid,
                        config.take_profit,
                        config.stop_loss,
                        config.trade_size,
                        config.fee_rate,
                    ),
                    None => !entered.sweep_fits(
                        bid,
                        config.take_profit,
                        config.stop_loss,
                        config.trade_size,
                        config.fee_rate,
                    ),
                }
            },
            report.signals is None ==> {
                &&& report.action == Action::Hold
                &&& report.trade is None
                &&& report.exits is Some
                &&& report.exits->Some_0@.len() == 0
            },
            match report.value {
                Some(v) => order_book.bids@.len() > 0 && v == final(self)@.value(
                    order_book.bids@[0].price,
                    old(self).config.trade_size,
                ),
                None => order_book.bids@.len() == 0 || final(self)@.value(
                    order_book.bids@[0].price,
                    old(self).config.trade_size,
                ) > i128::MAX,
            },
    {
        let signals: Signals = match TradingState::calculate_signals(order_book) {
            Some(s) => s,
            None => {
                let value: Option<i128> = match order_book.best_bid() {
                    Some(bid) => self.calculate_portfolio_value(bid),
                    None => None,
                };
                return TickReport {
                    signals: None,
                    action: Action::Hold,
                    trade: None,
                    exits: Some(Vec::new()),
                    value,
                };
            },
        };
        let action: Action = TradingState::decide(
            &signals,
            self.positions.len() > 0,
            self.config.spread_threshold,
        );
        let size: u64 = self.config.trade_size;
        let fee: u64 = self.config.fee_rate;
        let trade: Option<TradeOutcome> = match action {
            Action::Buy => Some(self.execute(signals.bid, Side::Buy, size, fee)),
            Action::Sell => Some(self.execute(signals.ask, Side::Sell, size, fee)),
            Action::Hold => None,
        };
        let exits: Option<Vec<RiskExit>> = self.check_tp_sl(
            signals.bid,
            self.config.take_profit,
            self.config.stop_loss,
        );
        let value: Option<i128> = self.calculate_portfolio_value(signals.bid);
        TickReport { signals: Some(signals), action, trade, exits, value }
    }
}

} // verus!
