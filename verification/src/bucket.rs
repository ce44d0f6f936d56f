//! Mapping of trade timestamps to the start of their candle bucket.

use vstd::prelude::*;

verus! {

/// Width of a candle bucket.
#[derive(Clone, Copy, Debug, PartialEq, Eq, Structural)]
pub enum CandleType {
    Minute1,
    Minute3,
    Day,
}

/// Milliseconds in a one-minute bucket.
pub const MINUTE1_MS: u64 = 60_000;

/// Milliseconds in a three-minute bucket.
pub const MINUTE3_MS: u64 = 180_000;

/// Milliseconds in a one-day bucket.
pub const DAY_MS: u64 = 86_400_000;

impl CandleType {
    /// The bucket width in milliseconds.
    pub open spec fn width(self) -> int {
        match self {
            CandleType::Minute1 => 60_000,
            CandleType::Minute3 => 180_000,
            CandleType::Day => 86_400_000,
        }
    }

    /// The bucket width in milliseconds.
    pub fn bucket_width(self) -> (w: u64)
        ensures
            w == self.width(),
            w > 0,
    {
        match self {
            CandleType::Minute1 => MINUTE1_MS,
            CandleType::Minute3 => MINUTE3_MS,
            CandleType::Day => DAY_MS,
        }
    }

    /// The label under which the granularity is offered for selection.
    pub fn label(self) -> (s: &'static str)
        ensures
            s@ == match self {
                CandleType::Minute1 => "1Minute"@,
                CandleType::Minute3 => "3Minute"@,
                CandleType::Day => "Day"@,
            },
    {
        match self {
            CandleType::Minute1 => "1Minute",
            CandleType::Minute3 => "3Minute",
            CandleType::Day => "Day",
        }
    }
}

/// The start of the bucket that holds `t`: the largest multiple of the
/// bucket width that does not exceed `t`.
pub open spec fn bucket_of(t: int, g: CandleType) -> int {
    t - t % g.width()
}

/// Whether `t` is the start of a bucket.
pub open spec fn is_aligned(t: int, g: CandleType) -> bool {
    t % g.width() == 0
}

/// The start of the bucket that holds the timestamp.
pub fn bucket_start(timestamp_ms: u64, granularity: CandleType) -> (start: u64)
    ensures
        start == bucket_of(timestamp_ms as int, granularity),
        start <= timestamp_ms,
        timestamp_ms - start < granularity.width(),
        is_aligned(start as int, granularity),
{
    let w: u64 = granularity.bucket_width();
    proof {
        lemma_bucket_of_aligned(timestamp_ms as int, granularity);
    }
    timestamp_ms - timestamp_ms % w
}

/// The start of a bucket is aligned and lies at most one width below the
/// timestamp.
pub proof fn lemma_bucket_of_aligned(t: int, g: CandleType)
    requires
        0 <= t,
    ensures
        0 <= bucket_of(t, g) <= t,
        t - bucket_of(t, g) < g.width(),
        is_aligned(bucket_of(t, g), g),
{
    let w = g.width();
    assert(0 <= t % w < w);
    assert(t == w * (t / w) + t % w) by (nonlinear_arith)
        requires
            w > 0,
    ;
    assert((w * (t / w)) % w == 0) by (nonlinear_arith)
        requires
            w > 0,
    ;
}

/// Taking the bucket start twice gives the same as taking it once.
pub proof fn lemma_bucket_start_idempotent(t: int, g: CandleType)
    requires
        0 <= t,
    ensures
        bucket_of(bucket_of(t, g), g) == bucket_of(t, g),
{
    lemma_bucket_of_aligned(t, g);
}

/// A later timestamp never falls into an earlier bucket.
pub proof fn lemma_bucket_start_monotonic(t1: int, t2: int, g: CandleType)
    requires
        0 <= t1 <= t2,
    ensures
        bucket_of(t1, g) <= bucket_of(t2, g),
{
    let w = g.width();
    assert(t1 / w <= t2 / w) by (nonlinear_arith)
        requires
            w > 0,
            0 <= t1 <= t2,
    ;
    assert(t1 - t1 % w == w * (t1 / w)) by (nonlinear_arith)
        requires
            w > 0,
    ;
    assert(t2 - t2 % w == w * (t2 / w)) by (nonlinear_arith)
        requires
            w > 0,
    ;
    assert(w * (t1 / w) <= w * (t2 / w)) by (nonlinear_arith)
        requires
            w > 0,
            t1 / w <= t2 / w,
    ;
}

/// Two aligned timestamps of one granularity that differ lie at least one
/// width apart, so their bucket windows do not overlap.
pub proof fn lemma_aligned_apart(a: int, b: int, g: CandleType)
    requires
        is_aligned(a, g),
        is_aligned(b, g),
        a < b,
    ensures
        a + g.width() <= b,
{
    let w = g.width();
    assert(a + w <= b) by (nonlinear_arith)
        requires
            w > 0,
            a % w == 0,
            b % w == 0,
            a < b,
    ;
}

} // verus!
