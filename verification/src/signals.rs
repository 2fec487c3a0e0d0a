use vstd::prelude::*;
use crate::ledger::TradingState;
use crate::units::{
    div_away, div_away_from_zero, lemma_div_away_le, lemma_div_away_neg, lemma_div_away_sign,
    RATE_UNIT,
};

verus! {

/// One price level of an order book: a price in ticks and the amount resting
/// at it in lots.
#[derive(Clone, Copy, Debug, PartialEq, Eq)]
pub struct Level {
    pub price: u64,
    pub amount: u64,
}

/// A point-in-time view of an order book, each side with its best level first.
#[derive(Clone, Debug)]
pub struct OrderBook {
    pub bids: Vec<Level>,
    pub asks: Vec<Level>,
}

/// Sum of the amounts of all levels of one side.
pub open spec fn volume(levels: Seq<Level>) -> int
    decreases levels.len(),
{
    if levels.len() == 0 {
        0
    } else {
        volume(levels.drop_last()) + levels.last().amount
    }
}

/// Volume order imbalance: bid volume less ask volume.
pub open spec fn voi(bids: Seq<Level>, asks: Seq<Level>) -> int {
    volume(bids) - volume(asks)
}

/// Order imbalance ratio in parts per million, rounded away from zero;
/// undefined when both volumes are zero.
pub open spec fn oir(bid_volume: int, ask_volume: int) -> Option<int> {
    if bid_volume + ask_volume == 0 {
        None
    } else {
        Some(div_away((bid_volume - ask_volume) * RATE_UNIT, bid_volume + ask_volume))
    }
}

/// Spread in parts per million of one percent of the bid, rounded away from
/// zero; undefined when the bid is zero.
pub open spec fn spread(bid: int, ask: int) -> Option<int> {
    if bid == 0 {
        None
    } else {
        Some(div_away((ask - bid) * 100 * RATE_UNIT, bid))
    }
}

/// Mid price in ticks, rounded down.
pub open spec fn mid_price(bid: int, ask: int) -> int {
    (bid + ask) / 2
}

/// Whether a spread and an imbalance allow an entry at all: the spread is
/// defined and within the threshold, and the imbalance is not zero.
pub open spec fn tradable(spread: Option<int>, voi: int, spread_threshold: int) -> bool {
    spread is Some && spread->Some_0 <= spread_threshold && voi != 0
}

/// The volume of a prefix never exceeds the volume of the whole side.
pub proof fn lemma_volume_prefix(levels: Seq<Level>, n: int)
    requires
        0 <= n <= levels.len(),
    ensures
        0 <= volume(levels.take(n)) <= volume(levels),
    decreases levels.len(),
{
    if n == levels.len() {
        assert(levels.take(n) =~= levels);
        if levels.len() > 0 {
            lemma_volume_prefix(levels.drop_last(), n - 1);
            assert(levels.drop_last().take(n - 1) =~= levels.drop_last());
        }
    } else {
        lemma_volume_prefix(levels.drop_last(), n);
        assert(levels.drop_last().take(n) =~= levels.take(n));
    }
}

/// Taking one more level adds its amount to the volume.
pub proof fn lemma_volume_step(levels: Seq<Level>, n: int)
    requires
        0 <= n < levels.len(),
    ensures
        volume(levels.take(n + 1)) == volume(levels.take(n)) + levels[n].amount,
{
    assert(levels.take(n + 1).drop_last() =~= levels.take(n));
}

/// Total amount on one side of the book, or `None` when it exceeds `u64`.
pub fn side_volume(levels: &Vec<Level>) -> (r: Option<u64>)
    ensures
        match r {
            Some(v) => v == volume(levels@),
            None => volume(levels@) > u64::MAX,
        },
{
    let mut total: u64 = 0;
    let mut i: usize = 0;
    while i < levels.len()
        invariant
            0 <= i <= levels.len(),
            total == volume(levels@.take(i as int)),
        decreases levels.len() - i,
    {
        proof {
            lemma_volume_step(levels@, i as int);
            lemma_volume_prefix(levels@, i + 1);
        }
        match total.checked_add(levels[i].amount) {
            Some(t) => {
                total = t;
            },
            None => {
                return None;
            },
        }
        i += 1;
    }
    proof {
        assert(levels@.take(i as int) =~= levels@);
    }
    Some(total)
}

impl OrderBook {
    /// Assembles a book from its two sides, best level first.
    pub fn new(bids: Vec<Level>, asks: Vec<Level>) -> (book: OrderBook)
        ensures
            book.bids == bids,
            book.asks == asks,
    {
        OrderBook { bids, asks }
    }

    /// Price of the best bid, if the bid side holds a level.
    pub fn best_bid(&self) -> (r: Option<u64>)
        ensures
            r == (if self.bids@.len() == 0 {
                None
            } else {
                Some(self.bids@[0].price)
            }),
    {
        if self.bids.len() == 0 {
            None
        } else {
            Some(self.bids[0].price)
        }
    }

    /// Price of the best ask, if the ask side holds a level.
    pub fn best_ask(&self) -> (r: Option<u64>)
        ensures
            r == (if self.asks@.len() == 0 {
                None
            } else {
                Some(self.asks@[0].price)
            }),
    {
        if self.asks.len() == 0 {
            None
        } else {
            Some(self.asks[0].price)
        }
    }
}

/// The imbalance of a book is zero exactly when its two sides hold the same
/// volume.
pub proof fn lemma_voi_balanced(bids: Seq<Level>, asks: Seq<Level>)
    ensures
        voi(bids, asks) == volume(bids) - volume(asks),
        volume(bids) == volume(asks) <==> voi(bids, asks) == 0,
{
}

/// The negation of an optional ratio.
pub open spec fn negated(x: Option<int>) -> Option<int> {
    match x {
        Some(v) => Some(-v),
        None => None,
    }
}

/// Exchanging the two volumes negates the imbalance ratio.
pub proof fn lemma_oir_antisymmetric(bid_volume: nat, ask_volume: nat)
    ensures
        oir(bid_volume as int, ask_volume as int) == negated(
            oir(ask_volume as int, bid_volume as int),
        ),
{
    if bid_volume + ask_volume != 0 {
        let n = (ask_volume - bid_volume) * RATE_UNIT;
        assert((bid_volume - ask_volume) * RATE_UNIT == -n) by (nonlinear_arith)
            requires
                n == (ask_volume - bid_volume) * RATE_UNIT,
        ;
        lemma_div_away_neg(n, (ask_volume + bid_volume) as int);
    }
}

/// Equal volumes that are not zero give a ratio of zero.
pub proof fn lemma_oir_balanced(volume: nat)
    requires
        volume > 0,
    ensures
        oir(volume as int, volume as int) == Some(0int),
{
    assert((volume - volume) * RATE_UNIT == 0) by (nonlinear_arith);
    lemma_div_away_sign(0, (volume + volume) as int);
}

/// With no volume on either side the ratio is undefined.
pub proof fn lemma_oir_undefined()
    ensures
        oir(0, 0) is None,
{
}

/// The ratio lies between minus one and one whole, and it has the sign of
/// the imbalance: it is zero only when the two volumes are equal.
pub proof fn lemma_oir_bounded(bid_volume: nat, ask_volume: nat)
    requires
        bid_volume + ask_volume > 0,
    ensures
        -RATE_UNIT <= oir(bid_volume as int, ask_volume as int)->Some_0 <= RATE_UNIT,
        bid_volume > ask_volume <==> oir(bid_volume as int, ask_volume as int)->Some_0 > 0,
        bid_volume < ask_volume <==> oir(bid_volume as int, ask_volume as int)->Some_0 < 0,
        ask_volume == 0 ==> oir(bid_volume as int, ask_volume as int) == Some(RATE_UNIT as int),
        bid_volume == 0 ==> oir(bid_volume as int, ask_volume as int) == Some(-RATE_UNIT),
{
    let b = bid_volume as int;
    let a = ask_volume as int;
    let d = b + a;
    let r = RATE_UNIT as int;
    let n = (b - a) * r;
    assert(-(r * d) <= n <= r * d && (b > a <==> n > 0) && (b < a <==> n < 0) && (a == 0 ==> n
        == r * d) && (b == 0 ==> n == -(r * d)) && r * d == (r - 1) * d + d) by (nonlinear_arith)
        requires
            a >= 0,
            b >= 0,
            d == b + a,
            n == (b - a) * r,
            r > 0,
    ;
    lemma_div_away_le(n, d, r);
    lemma_div_away_le(n, d, r - 1);
    lemma_div_away_sign(n, d);
}

/// The ratio exceeds a threshold that is not negative exactly when the
/// exact quotient of the imbalance by the total volume does.
pub proof fn lemma_oir_above_exact(bid_volume: nat, ask_volume: nat, threshold: nat)
    requires
        bid_volume + ask_volume > 0,
    ensures
        oir(bid_volume as int, ask_volume as int)->Some_0 > threshold <==> (bid_volume
            - ask_volume) * RATE_UNIT > threshold * (bid_volume + ask_volume),
{
    lemma_div_away_le(
        (bid_volume - ask_volume) * RATE_UNIT,
        (bid_volume + ask_volume) as int,
        threshold as int,
    );
}

/// The spread is at most a threshold exactly when the exact quotient is:
/// when a hundred times the gap, in parts, is at most the threshold times
/// the bid.
pub proof fn lemma_spread_within_exact(bid: nat, ask: nat, threshold: nat)
    requires
        bid > 0,
    ensures
        spread(bid as int, ask as int)->Some_0 <= threshold <==> (ask - bid) * 100 * RATE_UNIT
            <= threshold * bid,
{
    lemma_div_away_le((ask - bid) * 100 * RATE_UNIT, bid as int, threshold as int);
}

/// The spread is not negative whenever the ask is not below the bid.
pub proof fn lemma_spread_nonnegative(bid: nat, ask: nat)
    requires
        bid > 0,
        ask >= bid,
    ensures
        spread(bid as int, ask as int) is Some,
        spread(bid as int, ask as int)->Some_0 >= 0,
{
    let n = (ask - bid) * 100 * RATE_UNIT;
    assert(n >= 0) by (nonlinear_arith)
        requires
            n == (ask - bid) * 100 * RATE_UNIT,
            ask >= bid,
    ;
    lemma_div_away_sign(n, bid as int);
}

/// An optional machine integer as an optional mathematical integer.
pub open spec fn widen(x: Option<i128>) -> Option<int> {
    match x {
        Some(v) => Some(v as int),
        None => None,
    }
}

impl TradingState {
    /// Volume order imbalance of a book with the volumes of its two sides:
    /// `(voi, bid_volume, ask_volume)`, or `None` when the volume of a side
    /// exceeds `u64`.
    pub fn calculate_voi(order_book: &OrderBook) -> (r: Option<(i128, u64, u64)>)
        ensures
            match r {
                Some((imbalance, bid_volume, ask_volume)) => {
                    &&& bid_volume == volume(order_book.bids@)
                    &&& ask_volume == volume(order_book.asks@)
                    &&& imbalance == voi(order_book.bids@, order_book.asks@)
                    &&& imbalance == bid_volume - ask_volume
                },
                None => volume(order_book.bids@) > u64::MAX || volume(order_book.asks@)
                    > u64::MAX,
            },
    {
        let bid_volume: u64 = match side_volume(&order_book.bids) {
            Some(v) => v,
            None => {
                return None;
            },
        };
        let ask_volume: u64 = match side_volume(&order_book.asks) {
            Some(v) => v,
            None => {
                return None;
            },
        };
        let imbalance: i128 = bid_volume as i128 - ask_volume as i128;
        Some((imbalance, bid_volume, ask_volume))
    }

    /// Order imbalance ratio of two volumes in parts per million, rounded
    /// away from zero; `None` when both volumes are zero.
    pub fn calculate_oir(bid_volume: u64, ask_volume: u64) -> (r: Option<i128>)
        ensures
            widen(r) == oir(bid_volume as int, ask_volume as int),
    {
        if bid_volume == 0 && ask_volume == 0 {
            return None;
        }
        let negative: bool = bid_volume < ask_volume;
        let distance: u64 = if negative {
            ask_volume - bid_volume
        } else {
            bid_volume - ask_volume
        };
        proof {
            assert(0 <= distance * RATE_UNIT <= i128::MAX) by (nonlinear_arith)
                requires
                    0 <= distance <= u64::MAX,
                    RATE_UNIT == 1_000_000,
            ;
            assert((bid_volume - ask_volume) * RATE_UNIT == if negative {
                -(distance * RATE_UNIT)
            } else {
                distance * RATE_UNIT
            }) by (nonlinear_arith)
                requires
                    negative ==> distance == ask_volume - bid_volume,
                    !negative ==> distance == bid_volume - ask_volume,
            ;
        }
        let magnitude: u128 = (distance as u128) * (RATE_UNIT as u128);
        let total: u128 = bid_volume as u128 + ask_volume as u128;
        Some(div_away_from_zero(negative, magnitude, total))
    }

    /// Mid-price basis in ticks: the last price less the mid price.
    pub fn calculate_mpb(last_price: u64, mid_price: u64) -> (r: i128)
        ensures
            r == last_price - mid_price,
    {
        last_price as i128 - mid_price as i128
    }

    /// Mid price of a quote in ticks, rounded down.
    pub fn calculate_mid_price(bid: u64, ask: u64) -> (r: u64)
        ensures
            r == mid_price(bid as int, ask as int),
    {
        ((bid as u128 + ask as u128) / 2) as u64
    }

    /// Spread of a quote in parts per million of one percent of the bid,
    /// rounded away from zero; `None` when the bid is zero.
    pub fn calculate_spread(bid: u64, ask: u64) -> (r: Option<i128>)
        ensures
            widen(r) == spread(bid as int, ask as int),
    {
        if bid == 0 {
            return None;
        }
        let negative: bool = ask < bid;
        let distance: u64 = if negative {
            bid - ask
        } else {
            ask - bid
        };
        proof {
            assert(0 <= distance * 100 * RATE_UNIT <= i128::MAX) by (nonlinear_arith)
                requires
                    0 <= distance <= u64::MAX,
                    RATE_UNIT == 1_000_000,
            ;
            assert((ask - bid) * 100 * RATE_UNIT == if negative {
                -(distance * 100 * RATE_UNIT)
            } else {
                distance * 100 * RATE_UNIT
            }) by (nonlinear_arith)
                requires
                    negative ==> distance == bid - ask,
                    !negative ==> distance == ask - bid,
            ;
        }
        let magnitude: u128 = (distance as u128) * 100 * (RATE_UNIT as u128);
        Some(div_away_from_zero(negative, magnitude, bid as u128))
    }

    /// Whether a spread and an imbalance allow an entry at all: the spread is
    /// defined and at most the threshold, and the imbalance is not zero.
    pub fn should_trade(spread: Option<i128>, voi: i128, spread_threshold: u64) -> (r: bool)
        ensures
            r == tradable(widen(spread), voi as int, spread_threshold as int),
    {
        match spread {
            Some(s) => s <= spread_threshold as i128 && voi != 0,
            None => false,
        }
    }
}

} // verus!
