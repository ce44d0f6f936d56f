//! Detectors of two-candle and three-candle reversal patterns.
//!
//! Each detector looks at the candles that end at one position and gives a
//! score in parts: zero where the pattern is not there, otherwise between
//! zero and [`MAX_PATTERN_SCORE`].

use vstd::prelude::*;
use vstd::arithmetic::div_mod::{lemma_div_is_ordered, lemma_div_pos_is_pos};
use crate::candle::Candlestick;
use crate::fixed::{
    abs_diff, lemma_div_minus_multiple, max_int, min_int, tick_distance, UNIT,
};

verus! {

/// The score of a pattern that is there in its weakest form: 15.
pub const BASE_PATTERN_SCORE: u64 = 150_000;

/// The most that a pattern scores: 25.
pub const MAX_PATTERN_SCORE: u64 = 250_000;

/// The body below which the earlier candle of an engulfing pair counts as
/// having this body: one ten-thousandth of a unit of price.
pub const MIN_BODY_TICKS: u64 = 100;

/// The scores of the four patterns at one position, and their total for
/// one direction.
#[derive(Clone, Copy, Debug, PartialEq, Eq, Structural)]
pub struct SignalScoring {
    pub bullish_engulfing: u64,
    pub bearish_engulfing: u64,
    pub morning_star: u64,
    pub evening_star: u64,
    pub total_score: u64,
}

impl SignalScoring {
    /// The scoring with every score at zero.
    pub open spec fn zero() -> SignalScoring {
        SignalScoring {
            bullish_engulfing: 0,
            bearish_engulfing: 0,
            morning_star: 0,
            evening_star: 0,
            total_score: 0,
        }
    }

    /// A scoring with every score at zero.
    pub fn new() -> (s: SignalScoring)
        ensures
            s == SignalScoring::zero(),
    {
        SignalScoring {
            bullish_engulfing: 0,
            bearish_engulfing: 0,
            morning_star: 0,
            evening_star: 0,
            total_score: 0,
        }
    }
}

/// The size of a candle's body.
pub open spec fn body(c: Candlestick) -> int {
    abs_diff(c.close as int, c.open as int)
}

/// Whether the candle closed above its open.
pub open spec fn is_rising(c: Candlestick) -> bool {
    c.close > c.open
}

/// Whether the candle closed below its open.
pub open spec fn is_falling(c: Candlestick) -> bool {
    c.close < c.open
}

/// Whether the candle's body is more than six tenths of its range.
pub open spec fn is_strong(c: Candlestick) -> bool {
    5 * body(c) > 3 * (c.high - c.low)
}

/// Whether the body of `middle` is less than three tenths of the body of
/// `first`.
pub open spec fn is_small_beside(middle: Candlestick, first: Candlestick) -> bool {
    10 * body(middle) < 3 * body(first)
}

/// The score of an engulfing pair with the given bodies: 15, plus 10 times
/// what the ratio of the later body to the earlier has above one, rounded
/// down, the bonus being at most 10 and below zero where the ratio is below
/// one; at most 25 in all. An earlier body below [`MIN_BODY_TICKS`] counts
/// as that.
pub open spec fn engulfing_score(prev_body: int, curr_body: int) -> int {
    let base = max_int(prev_body, MIN_BODY_TICKS as int);
    let bonus = min_int((curr_body - base) * 10 * UNIT / base, 10 * UNIT);
    min_int(BASE_PATTERN_SCORE + bonus, MAX_PATTERN_SCORE as int)
}

/// The score of a star with the given first and last bodies: 15, plus 10
/// times the ratio of the last body to the first, the ratio counted up to
/// one and a half; at most 25 in all.
pub open spec fn star_score(first_body: int, last_body: int) -> int {
    let bonus = min_int(last_body * 10 * UNIT / first_body, 15 * UNIT);
    min_int(BASE_PATTERN_SCORE + bonus, MAX_PATTERN_SCORE as int)
}

/// Whether a falling candle is followed by a rising one whose body spans
/// the earlier body.
pub open spec fn is_bullish_engulfing(prev: Candlestick, curr: Candlestick) -> bool {
    &&& is_falling(prev)
    &&& is_rising(curr)
    &&& curr.open <= prev.close
    &&& curr.close >= prev.open
}

/// Whether a rising candle is followed by a falling one whose body spans
/// the earlier body.
pub open spec fn is_bearish_engulfing(prev: Candlestick, curr: Candlestick) -> bool {
    &&& is_rising(prev)
    &&& is_falling(curr)
    &&& curr.open >= prev.close
    &&& curr.close <= prev.open
}

/// Whether a strong fall, a small candle that gaps below it and a strong
/// rise that gaps above that one follow each other, the last close above
/// the middle of the first body.
pub open spec fn is_morning_star(
    first: Candlestick,
    middle: Candlestick,
    last: Candlestick,
) -> bool {
    &&& is_falling(first)
    &&& is_strong(first)
    &&& is_small_beside(middle, first)
    &&& middle.high < first.close
    &&& is_rising(last)
    &&& is_strong(last)
    &&& last.low > middle.high
    &&& 2 * last.close > first.open + first.close
}

/// Whether a strong rise, a small candle that gaps above it and a strong
/// fall that gaps below that one follow each other, the last close below
/// the middle of the first body.
pub open spec fn is_evening_star(
    first: Candlestick,
    middle: Candlestick,
    last: Candlestick,
) -> bool {
    &&& is_rising(first)
    &&& is_strong(first)
    &&& is_small_beside(middle, first)
    &&& middle.low > first.close
    &&& is_falling(last)
    &&& is_strong(last)
    &&& last.high < middle.low
    &&& 2 * last.close < first.open + first.close
}

/// The bullish-engulfing score at position `i`.
pub open spec fn bullish_engulfing_at(s: Seq<(u64, Candlestick)>, i: int) -> int {
    if i >= 1 && is_bullish_engulfing(s[i - 1].1, s[i].1) {
        engulfing_score(body(s[i - 1].1), body(s[i].1))
    } else {
        0
    }
}

/// The bearish-engulfing score at position `i`.
pub open spec fn bearish_engulfing_at(s: Seq<(u64, Candlestick)>, i: int) -> int {
    if i >= 1 && is_bearish_engulfing(s[i - 1].1, s[i].1) {
        engulfing_score(body(s[i - 1].1), body(s[i].1))
    } else {
        0
    }
}

/// The morning-star score at position `i`.
pub open spec fn morning_star_at(s: Seq<(u64, Candlestick)>, i: int) -> int {
    if i >= 2 && is_morning_star(s[i - 2].1, s[i - 1].1, s[i].1) {
        star_score(body(s[i - 2].1), body(s[i].1))
    } else {
        0
    }
}

/// The evening-star score at position `i`.
pub open spec fn evening_star_at(s: Seq<(u64, Candlestick)>, i: int) -> int {
    if i >= 2 && is_evening_star(s[i - 2].1, s[i - 1].1, s[i].1) {
        star_score(body(s[i - 2].1), body(s[i].1))
    } else {
        0
    }
}

/// An engulfing score lies between 5 and 25, and at or above 15 where the
/// later body is no smaller than the earlier body as it is counted. It is 5
/// plus 10 times the ratio of the bodies, at most 25.
pub proof fn lemma_engulfing_score_range(prev_body: int, curr_body: int)
    requires
        0 <= prev_body,
        0 <= curr_body,
    ensures
        5 * UNIT <= engulfing_score(prev_body, curr_body) <= MAX_PATTERN_SCORE,
        engulfing_score(prev_body, curr_body) == min_int(
            5 * UNIT + curr_body * 10 * UNIT / max_int(prev_body, MIN_BODY_TICKS as int),
            MAX_PATTERN_SCORE as int,
        ),
        curr_body >= max_int(prev_body, MIN_BODY_TICKS as int) ==> engulfing_score(
            prev_body,
            curr_body,
        ) >= BASE_PATTERN_SCORE,
{
    let base = max_int(prev_body, MIN_BODY_TICKS as int);
    let x = curr_body * 10 * UNIT;
    assert((curr_body - base) * 10 * UNIT == x - (10 * UNIT) * base) by (nonlinear_arith)
        requires
            x == curr_body * 10 * UNIT,
    ;
    lemma_div_minus_multiple(x, 10 * UNIT, base);
    assert(x >= 0) by (nonlinear_arith)
        requires
            x == curr_body * 10 * UNIT,
            curr_body >= 0,
    ;
    lemma_div_pos_is_pos(x, base);
    if curr_body >= base {
        assert(x >= (10 * UNIT) * base) by (nonlinear_arith)
            requires
                x == curr_body * 10 * UNIT,
                curr_body >= base,
        ;
        lemma_div_is_ordered((10 * UNIT) * base, x, base);
        lemma_div_minus_multiple((10 * UNIT) * base, 10 * UNIT, base);
        assert(((10 * UNIT) * base - (10 * UNIT) * base) / base == 0);
    }
}

/// A star score lies at or above 15 and at or below 25.
pub proof fn lemma_star_score_range(first_body: int, last_body: int)
    requires
        0 < first_body,
        0 <= last_body,
    ensures
        BASE_PATTERN_SCORE <= star_score(first_body, last_body) <= MAX_PATTERN_SCORE,
{
    assert(last_body * 10 * UNIT >= 0) by (nonlinear_arith)
        requires
            last_body >= 0,
    ;
    lemma_div_pos_is_pos(last_body * 10 * UNIT, first_body);
}

/// A bullish engulfing whose earlier body is at least [`MIN_BODY_TICKS`]
/// scores between 15 and 25: the later body spans the earlier one, so it is
/// no smaller.
pub proof fn lemma_bullish_engulfing_score(prev: Candlestick, curr: Candlestick)
    requires
        is_bullish_engulfing(prev, curr),
        body(prev) >= MIN_BODY_TICKS,
    ensures
        BASE_PATTERN_SCORE <= engulfing_score(body(prev), body(curr)) <= MAX_PATTERN_SCORE,
{
    lemma_engulfing_score_range(body(prev), body(curr));
}

/// A bearish engulfing whose earlier body is at least [`MIN_BODY_TICKS`]
/// scores between 15 and 25.
pub proof fn lemma_bearish_engulfing_score(prev: Candlestick, curr: Candlestick)
    requires
        is_bearish_engulfing(prev, curr),
        body(prev) >= MIN_BODY_TICKS,
    ensures
        BASE_PATTERN_SCORE <= engulfing_score(body(prev), body(curr)) <= MAX_PATTERN_SCORE,
{
    lemma_engulfing_score_range(body(prev), body(curr));
}

/// Each of the four scores at a position lies between 0 and 25.
pub proof fn lemma_pattern_scores_bounded(s: Seq<(u64, Candlestick)>, i: int)
    requires
        0 <= i < s.len(),
    ensures
        0 <= bullish_engulfing_at(s, i) <= MAX_PATTERN_SCORE,
        0 <= bearish_engulfing_at(s, i) <= MAX_PATTERN_SCORE,
        0 <= morning_star_at(s, i) <= MAX_PATTERN_SCORE,
        0 <= evening_star_at(s, i) <= MAX_PATTERN_SCORE,
{
    if i >= 1 {
        lemma_engulfing_score_range(body(s[i - 1].1), body(s[i].1));
    }
    if i >= 2 {
        if is_morning_star(s[i - 2].1, s[i - 1].1, s[i].1) || is_evening_star(
            s[i - 2].1,
            s[i - 1].1,
            s[i].1,
        ) {
            lemma_star_score_range(body(s[i - 2].1), body(s[i].1));
        }
    }
}

/// The size of a candle's body.
fn body_of(c: &Candlestick) -> (b: u64)
    ensures
        b == body(*c),
{
    tick_distance(c.close, c.open)
}

/// Whether the candle's body is more than six tenths of its range.
fn strong(c: &Candlestick) -> (b: bool)
    ensures
        b == is_strong(*c),
{
    if c.high < c.low {
        true
    } else {
        5 * (body_of(c) as u128) > 3 * ((c.high - c.low) as u128)
    }
}

/// Computes the score of an engulfing pair.
fn engulfing_score_of(prev_body: u64, curr_body: u64) -> (score: u64)
    ensures
        score == engulfing_score(prev_body as int, curr_body as int),
        score <= MAX_PATTERN_SCORE,
{
    let base: u64 = if prev_body > MIN_BODY_TICKS {
        prev_body
    } else {
        MIN_BODY_TICKS
    };
    proof {
        lemma_engulfing_score_range(prev_body as int, curr_body as int);
        assert(curr_body * 10 * UNIT == curr_body * 100_000) by (nonlinear_arith)
            requires
                UNIT == 10_000,
        ;
    }
    let ratio: u128 = curr_body as u128 * 100_000 / (base as u128);
    if ratio >= 200_000 {
        MAX_PATTERN_SCORE
    } else {
        50_000 + ratio as u64
    }
}

/// Computes the score of a star.
fn star_score_of(first_body: u64, last_body: u64) -> (score: u64)
    requires
        first_body > 0,
    ensures
        score == star_score(first_body as int, last_body as int),
        score <= MAX_PATTERN_SCORE,
{
    proof {
        assert(last_body * 10 * UNIT == last_body * 100_000) by (nonlinear_arith)
            requires
                UNIT == 10_000,
        ;
    }
    let ratio: u128 = last_body as u128 * 100_000 / (first_body as u128);
    if ratio >= 100_000 {
        MAX_PATTERN_SCORE
    } else {
        BASE_PATTERN_SCORE + ratio as u64
    }
}

/// The pattern detectors.
pub struct CandlestickPatterns;

impl CandlestickPatterns {
    /// Scores the bullish engulfing that ends at `current_idx`.
    pub fn detect_bullish_engulfing(data: &[(u64, Candlestick)], current_idx: usize) -> (score:
        u64)
        requires
            current_idx < data@.len(),
        ensures
            score == bullish_engulfing_at(data@, current_idx as int),
            score <= MAX_PATTERN_SCORE,
    {
        if current_idx == 0 {
            return 0;
        }
        let prev: Candlestick = data[current_idx - 1].1;
        let curr: Candlestick = data[current_idx].1;
        if prev.close < prev.open && curr.close > curr.open && curr.open <= prev.close
            && curr.close >= prev.open {
            engulfing_score_of(body_of(&prev), body_of(&curr))
        } else {
            0
        }
    }

    /// Scores the bearish engulfing that ends at `current_idx`.
    pub fn detect_bearish_engulfing(data: &[(u64, Candlestick)], current_idx: usize) -> (score:
        u64)
        requires
            current_idx < data@.len(),
        ensures
            score == bearish_engulfing_at(data@, current_idx as int),
            score <= MAX_PATTERN_SCORE,
    {
        if current_idx == 0 {
            return 0;
        }
        let prev: Candlestick = data[current_idx - 1].1;
        let curr: Candlestick = data[current_idx].1;
        if prev.close > prev.open && curr.close < curr.open && curr.open >= prev.close
            && curr.close <= prev.open {
            engulfing_score_of(body_of(&prev), body_of(&curr))
        } else {
            0
        }
    }

    /// Scores the morning star that ends at `current_idx`.
    pub fn detect_morning_star(data: &[(u64, Candlestick)], current_idx: usize) -> (score: u64)
        requires
            current_idx < data@.len(),
        ensures
            score == morning_star_at(data@, current_idx as int),
            score <= MAX_PATTERN_SCORE,
    {
        if current_idx < 2 {
            return 0;
        }
        let first: Candlestick = data[current_idx - 2].1;
        let middle: Candlestick = data[current_idx - 1].1;
        let last: Candlestick = data[current_idx].1;
        let first_body: u64 = body_of(&first);
        let middle_small: bool = 10 * (body_of(&middle) as u128) < 3 * (first_body as u128);
        let recovery: bool = 2 * (last.close as u128) > first.open as u128 + first.close as u128;
        if first.close < first.open && strong(&first) && middle_small && middle.high < first.close
            && last.close > last.open && strong(&last) && last.low > middle.high && recovery {
            star_score_of(first_body, body_of(&last))
        } else {
            0
        }
    }

    /// Scores the evening star that ends at `current_idx`.
    pub fn detect_evening_star(data: &[(u64, Candlestick)], current_idx: usize) -> (score: u64)
        requires
            current_idx < data@.len(),
        ensures
            score == evening_star_at(data@, current_idx as int),
            score <= MAX_PATTERN_SCORE,
    {
        if current_idx < 2 {
            return 0;
        }
        let first: Candlestick = data[current_idx - 2].1;
        let middle: Candlestick = data[current_idx - 1].1;
        let last: Candlestick = data[current_idx].1;
        let first_body: u64 = body_of(&first);
        let middle_small: bool = 10 * (body_of(&middle) as u128) < 3 * (first_body as u128);
        let decline: bool = 2 * (last.close as u128) < first.open as u128 + first.close as u128;
        if first.close > first.open && strong(&first) && middle_small && middle.low > first.close
            && last.close < last.open && strong(&last) && last.high < middle.low && decline {
            star_score_of(first_body, body_of(&last))
        } else {
            0
        }
    }
}

} // verus!
