//! The fixed-point scales shared by the whole library.
//!
//! Prices and volumes are whole numbers of ticks. Ratios, scores and
//! oscillator values are whole numbers of parts, [`UNIT`] parts making one.
//! A derived value is always the exact rational value rounded down to a whole
//! part.

use vstd::prelude::*;
use vstd::arithmetic::div_mod::{
    lemma_fundamental_div_mod, lemma_fundamental_div_mod_converse_div,
};

verus! {

/// Parts in one: a score of 25 is stored as `25 * UNIT`.
pub const UNIT: u64 = 10_000;

/// The largest price or volume, in ticks, that a candle holds.
pub const MAX_TICKS: u64 = 10_000_000_000_000;

/// Ticks in one unit of price.
pub const TICKS_PER_PRICE_UNIT: u64 = 1_000_000;

/// The smaller of two integers.
pub open spec fn min_int(a: int, b: int) -> int {
    if a <= b {
        a
    } else {
        b
    }
}

/// The larger of two integers.
pub open spec fn max_int(a: int, b: int) -> int {
    if a >= b {
        a
    } else {
        b
    }
}

/// The distance between two integers.
pub open spec fn abs_diff(a: int, b: int) -> int {
    if a >= b {
        a - b
    } else {
        b - a
    }
}

/// The distance between two tick counts.
pub fn tick_distance(a: u64, b: u64) -> (d: u64)
    ensures
        d == abs_diff(a as int, b as int),
{
    if a >= b {
        a - b
    } else {
        b - a
    }
}

/// Taking whole multiples of the divisor off the dividend takes as many
/// off the quotient.
pub proof fn lemma_div_minus_multiple(x: int, k: int, d: int)
    requires
        d > 0,
    ensures
        (x - k * d) / d == x / d - k,
{
    lemma_fundamental_div_mod(x, d);
    let q = x / d - k;
    let r = x % d;
    assert(x - k * d == q * d + r) by (nonlinear_arith)
        requires
            x == d * (x / d) + r,
            q == x / d - k,
    ;
    lemma_fundamental_div_mod_converse_div(x - k * d, d, q, r);
}

} // verus!
