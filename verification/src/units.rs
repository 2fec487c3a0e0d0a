use vstd::prelude::*;

verus! {

/// Price ticks in one unit of the quote currency.
pub const PRICE_UNIT: u64 = 100_000_000;

/// Lots in one unit of the traded instrument.
pub const AMOUNT_UNIT: u64 = 100_000_000;

/// Parts in one whole, for rates and ratios (fees, thresholds, signals).
pub const RATE_UNIT: u64 = 1_000_000;

/// Cash units in one unit of the quote currency: one cash unit is the value of
/// one lot at one tick, taken at one part in `RATE_UNIT`.  Cash is kept at this
/// scale so that every product of a price, a size and a rate is exact.
pub const CASH_UNIT: i128 = 10_000_000_000_000_000_000_000;

/// Size of every position, in lots (one thousandth of the instrument).
pub const TRADE_SIZE: u64 = 100_000;

/// Widest spread at which an entry is considered, in parts of one percent
/// (five hundredths of a percent).
pub const SPREAD_THRESHOLD: u64 = 50_000;

/// Return at which a position is closed with a profit, in parts (one percent).
pub const TAKE_PROFIT: u64 = 10_000;

/// Loss at which a position is closed, in parts (two percent).
pub const STOP_LOSS: u64 = 20_000;

/// Fee charged on the value of every trade, in parts (half a percent).
pub const TRANSACTION_COST: u64 = 5_000;

/// The order imbalance ratio above which a positive imbalance opens a position
/// (one tenth).
pub const OIR_THRESHOLD: i128 = 100_000;

/// The mid-price basis below which a negative imbalance closes a position, in
/// ticks (minus one tenth of the quote currency).
pub const MPB_THRESHOLD: i128 = -10_000_000;

/// Quotient of a non-negative `n` by a positive `d`, rounded up.
pub open spec fn ceil_div(n: int, d: int) -> int
    recommends
        n >= 0,
        d > 0,
{
    if n % d == 0 {
        n / d
    } else {
        n / d + 1
    }
}

/// Quotient of `n` by a positive `d`, rounded away from zero: the nearest
/// integer that is not closer to zero than the exact quotient.
pub open spec fn div_away(n: int, d: int) -> int
    recommends
        d > 0,
{
    if n >= 0 {
        ceil_div(n, d)
    } else {
        -ceil_div(-n, d)
    }
}

/// Rounding up keeps every comparison with an integer bound: the rounded
/// quotient is at most `t` exactly when the exact one is.
pub proof fn lemma_ceil_div_le(n: int, d: int, t: int)
    requires
        n >= 0,
        d > 0,
    ensures
        ceil_div(n, d) <= t <==> n <= t * d,
        ceil_div(n, d) >= 0,
{
    let q = n / d;
    let r = n % d;
    assert(n == q * d + r && 0 <= r < d && q >= 0) by (nonlinear_arith)
        requires
            n >= 0,
            d > 0,
            q == n / d,
            r == n % d,
    ;
    if r == 0 {
        assert(q <= t <==> q * d <= t * d) by (nonlinear_arith)
            requires
                d > 0,
        ;
    } else {
        assert(q + 1 <= t <==> q * d + r <= t * d) by (nonlinear_arith)
            requires
                d > 0,
                0 < r < d,
        ;
    }
}

/// Rounding away from zero commutes with negation.
pub proof fn lemma_div_away_neg(n: int, d: int)
    requires
        d > 0,
    ensures
        div_away(-n, d) == -div_away(n, d),
{
    if n == 0 {
        lemma_ceil_div_le(0, d, 0);
        lemma_ceil_div_le(0, d, -1);
        assert(0 * d == 0 && -1 * d < 0) by (nonlinear_arith)
            requires
                d > 0,
        ;
    }
}

/// A quotient rounded away from zero has the sign of the numerator: it is
/// zero only for a numerator of zero.
pub proof fn lemma_div_away_sign(n: int, d: int)
    requires
        d > 0,
    ensures
        n > 0 ==> div_away(n, d) > 0,
        n < 0 ==> div_away(n, d) < 0,
        n == 0 ==> div_away(n, d) == 0,
{
    assert(0 * d == 0 && -1 * d < 0) by (nonlinear_arith)
        requires
            d > 0,
    ;
    if n >= 0 {
        lemma_ceil_div_le(n, d, 0);
        lemma_ceil_div_le(n, d, -1);
    } else {
        lemma_ceil_div_le(-n, d, 0);
    }
}

/// A quotient rounded away from zero compares with a bound that is not
/// negative as the exact quotient does.
pub proof fn lemma_div_away_le(n: int, d: int, t: int)
    requires
        d > 0,
        t >= 0,
    ensures
        div_away(n, d) <= t <==> n <= t * d,
        div_away(n, d) >= -t <==> n >= -(t * d),
{
    assert(t * d >= 0) by (nonlinear_arith)
        requires
            d > 0,
            t >= 0,
    ;
    if n >= 0 {
        lemma_ceil_div_le(n, d, t);
    } else {
        lemma_ceil_div_le(-n, d, t);
    }
}

/// Divides a signed numerator, given by its sign and magnitude, by a positive
/// divisor and rounds away from zero.
pub fn div_away_from_zero(negative: bool, magnitude: u128, divisor: u128) -> (r: i128)
    requires
        divisor > 0,
        magnitude <= i128::MAX,
    ensures
        r == div_away(
            if negative {
                -(magnitude as int)
            } else {
                magnitude as int
            },
            divisor as int,
        ),
{
    let whole: u128 = magnitude / divisor;
    let rest: u128 = magnitude % divisor;
    proof {
        lemma_ceil_div_le(magnitude as int, divisor as int, magnitude as int);
        assert(magnitude <= magnitude * divisor) by (nonlinear_arith)
            requires
                divisor > 0,
                magnitude >= 0,
        ;
        if magnitude == 0 {
            lemma_div_away_sign(0, divisor as int);
        }
    }
    let quotient: u128 = if rest == 0 {
        whole
    } else {
        whole + 1
    };
    if negative {
        -(quotient as i128)
    } else {
        quotient as i128
    }
}

} // verus!
