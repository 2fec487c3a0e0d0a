use vstd::prelude::*;
use crate::ledger::{amounts_fit, trade_amounts, trade_cost, trade_value, Ledger, TradingState};
use crate::units::{
    div_away, div_away_from_zero, lemma_div_away_le, lemma_div_away_sign, RATE_UNIT,
};

verus! {

/// Why a position is closed by the risk sweep.
#[derive(Clone, Copy, Debug, PartialEq, Eq)]
pub enum ExitReason {
    TakeProfit,
    StopLoss,
}

/// What is recorded of a position that the risk sweep closed: its entry
/// price, its return in parts per million, and the reason.
#[derive(Clone, Copy, Debug, PartialEq, Eq)]
pub struct RiskExit {
    pub entry_price: u64,
    pub pnl: i128,
    pub reason: ExitReason,
}

/// Return of a position at the current bid in parts per million of its entry
/// price, rounded away from zero; undefined for an entry price of zero.  It
/// is what a record shows; the sweep decides on the exact return.
pub open spec fn pnl(entry: int, bid: int) -> Option<int> {
    if entry == 0 {
        None
    } else {
        Some(div_away((bid - entry) * RATE_UNIT, entry))
    }
}

/// Whether and why a position is closed at the current bid: take-profit when
/// its exact return, the gain over the entry price, is at least `tp` parts;
/// else stop-loss when it is at most minus `sl` parts.  Both are decided
/// without rounding, on the gain in parts against the threshold times the
/// entry price.  A position entered at a price of zero has no return and
/// stays.
pub open spec fn exit_reason(entry: u64, bid: u64, tp: u64, sl: u64) -> Option<ExitReason> {
    if entry == 0 {
        None
    } else if (bid - entry) * RATE_UNIT >= tp * entry {
        Some(ExitReason::TakeProfit)
    } else if (bid - entry) * RATE_UNIT <= -(sl * entry) {
        Some(ExitReason::StopLoss)
    } else {
        None
    }
}

/// The positions that the sweep closes.
pub open spec fn closes(bid: u64, tp: u64, sl: u64) -> spec_fn(u64) -> bool {
    |entry: u64| exit_reason(entry, bid, tp, sl) is Some
}

/// The positions that the sweep leaves open.
pub open spec fn keeps(bid: u64, tp: u64, sl: u64) -> spec_fn(u64) -> bool {
    |entry: u64| exit_reason(entry, bid, tp, sl) is None
}

/// The record of a position that the sweep closes.
pub open spec fn exit_record(bid: u64, tp: u64, sl: u64) -> spec_fn(u64) -> RiskExit {
    |entry: u64|
        RiskExit {
            entry_price: entry,
            pnl: pnl(entry as int, bid as int).unwrap() as i128,
            reason: exit_reason(entry, bid, tp, sl).unwrap(),
        }
}

impl Ledger {
    /// Records of the positions that a sweep at this bid closes, oldest first.
    pub open spec fn exits(self, bid: u64, tp: u64, sl: u64) -> Seq<RiskExit> {
        self.positions.filter(closes(bid, tp, sl)).map_values(exit_record(bid, tp, sl))
    }

    /// The ledger after a sweep: every position that qualifies is closed once,
    /// each sold at the bid for `size` at the fee; the others stay in order.
    pub open spec fn swept(self, bid: u64, tp: u64, sl: u64, size: u64, fee: u64) -> Ledger {
        Ledger {
            cash: self.cash + self.positions.filter(closes(bid, tp, sl)).len() * (trade_value(
                bid as int,
                size as int,
            ) - trade_cost(bid as int, size as int, fee as int)),
            positions: self.positions.filter(keeps(bid, tp, sl)),
        }
    }

    /// Whether the executable ledger can hold the result of a sweep: nothing
    /// is closed, or the amounts of one sale and the resulting balance fit.
    pub open spec fn sweep_fits(self, bid: u64, tp: u64, sl: u64, size: u64, fee: u64) -> bool {
        self.positions.filter(closes(bid, tp, sl)).len() == 0 || (amounts_fit(
            bid as int,
            size as int,
            fee as int,
        ) && self.swept(bid, tp, sl, size, fee).in_range())
    }
}

/// A position with an entry price above zero stays exactly when its gain in
/// parts lies strictly between minus `sl` times and `tp` times the entry
/// price; and the return that a record shows agrees with the reason it
/// gives: at least `tp` for a take-profit, at most minus `sl` for a
/// stop-loss.
pub proof fn lemma_exit_exact(entry: u64, bid: u64, tp: u64, sl: u64)
    requires
        entry > 0,
    ensures
        exit_reason(entry, bid, tp, sl) is None <==> -(sl * entry) < (bid - entry) * RATE_UNIT < tp
            * entry,
        exit_reason(entry, bid, tp, sl) == Some(ExitReason::TakeProfit) ==> pnl(
            entry as int,
            bid as int,
        )->Some_0 >= tp,
        exit_reason(entry, bid, tp, sl) == Some(ExitReason::StopLoss) ==> pnl(
            entry as int,
            bid as int,
        )->Some_0 <= -sl,
{
    let n = (bid - entry) * RATE_UNIT;
    let d = entry as int;
    assert(tp * d >= 0 && sl * d >= 0 && (tp >= 1 ==> (tp - 1) * d < tp * d) && (sl >= 1 ==> (sl
        - 1) * d < sl * d)) by (nonlinear_arith)
        requires
            d > 0,
            tp >= 0,
            sl >= 0,
    ;
    lemma_div_away_sign(n, d);
    if tp >= 1 {
        lemma_div_away_le(n, d, tp - 1);
    }
    if sl >= 1 {
        lemma_div_away_le(n, d, sl - 1);
    }
}

/// A sweep closes each position once or leaves it: the positions that stay
/// and the records of those that left make up the positions there were, and
/// the cash grows by one sale at the bid for each that left.
pub proof fn lemma_sweep_accounts(ledger: Ledger, bid: u64, tp: u64, sl: u64, size: u64, fee: u64)
    ensures
        ({
            let next = ledger.swept(bid, tp, sl, size, fee);
            let exits = ledger.exits(bid, tp, sl);
            &&& next.positions.len() + exits.len() == ledger.positions.len()
            &&& next.cash == ledger.cash + exits.len() * (bid * size * (RATE_UNIT - fee))
            &&& forall|i: int|
                0 <= i < next.positions.len() ==> exit_reason(
                    #[trigger] next.positions[i],
                    bid,
                    tp,
                    sl,
                ) is None
            &&& forall|i: int|
                0 <= i < exits.len() ==> exit_reason(
                    (#[trigger] exits[i]).entry_price,
                    bid,
                    tp,
                    sl,
                ) == Some(exits[i].reason)
        }),
{
    let closing = ledger.positions.filter(closes(bid, tp, sl));
    let staying = ledger.positions.filter(keeps(bid, tp, sl));
    lemma_partition_len(ledger.positions, bid, tp, sl);
    let b = bid as int;
    let s = size as int;
    let f = fee as int;
    let r = RATE_UNIT as int;
    assert(b * s * r - s * b * f == b * s * (r - f)) by (nonlinear_arith);
    assert forall|i: int| 0 <= i < staying.len() implies exit_reason(
        #[trigger] staying[i],
        bid,
        tp,
        sl,
    ) is None by {
        ledger.positions.lemma_filter_pred(keeps(bid, tp, sl), i);
    }
    assert forall|i: int| 0 <= i < closing.len() implies exit_reason(
        #[trigger] closing[i],
        bid,
        tp,
        sl,
    ) is Some by {
        ledger.positions.lemma_filter_pred(closes(bid, tp, sl), i);
    }
}

/// Every position either stays or leaves.
pub proof fn lemma_partition_len(positions: Seq<u64>, bid: u64, tp: u64, sl: u64)
    ensures
        positions.filter(keeps(bid, tp, sl)).len() + positions.filter(closes(bid, tp, sl)).len()
            == positions.len(),
    decreases positions.len(),
{
    reveal(Seq::filter);
    if positions.len() > 0 {
        lemma_partition_len(positions.drop_last(), bid, tp, sl);
    }
}

/// Positions that a sweep would leave are all that a second look finds.
pub proof fn lemma_settled_stays(positions: Seq<u64>, bid: u64, tp: u64, sl: u64)
    requires
        forall|i: int|
            0 <= i < positions.len() ==> exit_reason(#[trigger] positions[i], bid, tp, sl) is None,
    ensures
        positions.filter(keeps(bid, tp, sl)) == positions,
        positions.filter(closes(bid, tp, sl)).len() == 0,
    decreases positions.len(),
{
    reveal(Seq::filter);
    if positions.len() > 0 {
        lemma_settled_stays(positions.drop_last(), bid, tp, sl);
        assert(positions.drop_last().push(positions.last()) =~= positions);
    }
}

/// A second sweep at the same bid and thresholds closes nothing and leaves
/// the ledger as the first left it.
pub proof fn lemma_sweep_twice(ledger: Ledger, bid: u64, tp: u64, sl: u64, size: u64, fee: u64)
    ensures
        ({
            let once = ledger.swept(bid, tp, sl, size, fee);
            &&& once.exits(bid, tp, sl).len() == 0
            &&& once.sweep_fits(bid, tp, sl, size, fee)
            &&& once.swept(bid, tp, sl, size, fee) == once
        }),
{
    let once = ledger.swept(bid, tp, sl, size, fee);
    lemma_sweep_accounts(ledger, bid, tp, sl, size, fee);
    lemma_settled_stays(once.positions, bid, tp, sl);
    assert(0 * (trade_value(bid as int, size as int) - trade_cost(
        bid as int,
        size as int,
        fee as int,
    )) == 0);
}

/// Return of a position at the current bid in parts per million, rounded
/// away from zero, or `None` for an entry price of zero.
pub fn position_pnl(entry: u64, bid: u64) -> (r: Option<i128>)
    ensures
        match r {
            Some(x) => pnl(entry as int, bid as int) == Some(x as int),
            None => pnl(entry as int, bid as int) is None,
        },
{
    if entry == 0 {
        return None;
    }
    let negative: bool = bid < entry;
    let distance: u64 = if negative {
        entry - bid
    } else {
        bid - entry
    };
    proof {
        assert(0 <= distance * RATE_UNIT <= i128::MAX) by (nonlinear_arith)
            requires
                0 <= distance <= u64::MAX,
                RATE_UNIT == 1_000_000,
        ;
        assert((bid - entry) * RATE_UNIT == if negative {
            -(distance * RATE_UNIT)
        } else {
            distance * RATE_UNIT
        }) by (nonlinear_arith)
            requires
                negative ==> distance == entry - bid,
                !negative ==> distance == bid - entry,
        ;
    }
    let magnitude: u128 = (distance as u128) * (RATE_UNIT as u128);
    Some(div_away_from_zero(negative, magnitude, entry as u128))
}

/// Decides whether a position is closed at the current bid, and gives its
/// record if it is.
pub fn check_position(entry: u64, bid: u64, tp: u64, sl: u64) -> (r: Option<RiskExit>)
    ensures
        r == (if closes(bid, tp, sl)(entry) {
            Some(exit_record(bid, tp, sl)(entry))
        } else {
            None
        }),
{
    let shown: i128 = match position_pnl(entry, bid) {
        Some(x) => x,
        None => {
            return None;
        },
    };
    proof {
        assert(0 <= tp * entry <= u128::MAX && 0 <= sl * entry <= u128::MAX) by (nonlinear_arith)
            requires
                0 <= tp <= u64::MAX,
                0 <= sl <= u64::MAX,
                0 <= entry <= u64::MAX,
        ;
    }
    let profit_bar: u128 = (tp as u128) * (entry as u128);
    let loss_bar: u128 = (sl as u128) * (entry as u128);
    let reason: Option<ExitReason> = if bid >= entry {
        let gain: u128 = ((bid - entry) as u128) * (RATE_UNIT as u128);
        if gain >= profit_bar {
            Some(ExitReason::TakeProfit)
        } else if gain == 0 && loss_bar == 0 {
            Some(ExitReason::StopLoss)
        } else {
            None
        }
    } else {
        let loss: u128 = ((entry - bid) as u128) * (RATE_UNIT as u128);
        proof {
            assert((bid - entry) * RATE_UNIT == -(loss as int) && loss > 0) by (nonlinear_arith)
                requires
                    loss == (entry - bid) * RATE_UNIT,
                    entry > bid,
                    RATE_UNIT > 0,
            ;
        }
        if loss >= loss_bar {
            Some(ExitReason::StopLoss)
        } else {
            None
        }
    };
    match reason {
        Some(reason) => Some(RiskExit { entry_price: entry, pnl: shown, reason }),
        None => None,
    }
}

impl TradingState {
    /// The risk sweep.  Every open position whose exact return at the bid is
    /// at least `tp` or at most `-sl` is closed once: it leaves the ledger and
    /// is sold at the bid, for the configured trade size and fee.  The other
    /// positions stay in their order.  Returns the records of the closed
    /// positions, oldest first, or `None`, with the ledger unchanged, when
    /// the result cannot be held.
    pub fn check_tp_sl(&mut self, bid: u64, tp: u64, sl: u64) -> (r: Option<Vec<RiskExit>>)
        ensures
            match r {
                Some(records) => {
                    &&& old(self)@.sweep_fits(
                        bid,
                        tp,
                        sl,
                        old(self).config.trade_size,
                        old(self).config.fee_rate,
                    )
                    &&& records@ == old(self)@.exits(bid, tp, sl)
                    &&& final(self)@ == old(self)@.swept(
                        bid,
                        tp,
                        sl,
                        old(self).config.trade_size,
                        old(self).config.fee_rate,
                    )
                },
                None => {
                    &&& !old(self)@.sweep_fits(
                        bid,
                        tp,
                        sl,
                        old(self).config.trade_size,
                        old(self).config.fee_rate,
                    )
                    &&& final(self)@ == old(self)@
                },
            },
            final(self).symbol == old(self).symbol,
            final(self).config == old(self).config,
    {
        let mut kept: Vec<u64> = Vec::new();
        let mut closed: Vec<RiskExit> = Vec::new();
        let mut i: usize = 0;
        proof {
            reveal(Seq::filter);
        }
        while i < self.positions.len()
            invariant
                *self == *old(self),
                0 <= i <= self.positions.len(),
                kept@ == self.positions@.take(i as int).filter(keeps(bid, tp, sl)),
                closed@ == self.positions@.take(i as int).filter(closes(bid, tp, sl)).map_values(
                    exit_record(bid, tp, sl),
                ),
            decreases self.positions.len() - i,
        {
            let entry: u64 = self.positions[i];
            proof {
                let prefix = self.positions@.take(i as int);
                prefix.lemma_filter_push(entry, keeps(bid, tp, sl));
                prefix.lemma_filter_push(entry, closes(bid, tp, sl));
                prefix.filter(closes(bid, tp, sl)).lemma_push_map_commute(
                    exit_record(bid, tp, sl),
                    entry,
                );
                self.positions@.lemma_take_succ_push(i as int);
            }
            match check_position(entry, bid, tp, sl) {
                Some(record) => {
                    closed.push(record);
                },
                None => {
                    kept.push(entry);
                },
            }
            i += 1;
        }
        proof {
            assert(self.positions@.take(i as int) =~= self.positions@);
        }
        let count: usize = closed.len();
        let ghost closing = self.positions@.filter(closes(bid, tp, sl));
        assert(closing.len() == count);
        if count == 0 {
            assert(0 * (trade_value(bid as int, self.config.trade_size as int) - trade_cost(
                bid as int,
                self.config.trade_size as int,
                self.config.fee_rate as int,
            )) == 0);
            self.positions = kept;
            return Some(closed);
        }
        let (value, cost) = match trade_amounts(bid, self.config.trade_size, self.config.fee_rate) {
            Some(amounts) => amounts,
            None => {
                return None;
            },
        };
        let ghost net: int = value - cost;
        let after: Option<i128> = if cost <= value {
            let gain: u128 = value - cost;
            proof {
                assert(count * net == gain * count) by (nonlinear_arith)
                    requires
                        gain == net,
                ;
            }
            match gain.checked_mul(count as u128) {
                Some(total) => self.cash.checked_add_unsigned(total),
                None => None,
            }
        } else {
            let loss: u128 = cost - value;
            proof {
                assert(count * net == -(loss * count)) by (nonlinear_arith)
                    requires
                        loss == -net,
                ;
            }
            match loss.checked_mul(count as u128) {
                Some(total) => self.cash.checked_sub_unsigned(total),
                None => None,
            }
        };
        match after {
            Some(cash) => {
                self.positions = kept;
                self.cash = cash;
                Some(closed)
            },
            None => None,
        }
    }
}

} // verus!
