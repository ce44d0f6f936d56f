//! Moving average and relative strength index over a series.
//!
//! Both give a list of bucket start and value in ascending order of bucket
//! start, with no entry where the window is not full.

use vstd::prelude::*;
use vstd::arithmetic::div_mod::{
    lemma_div_is_ordered, lemma_div_multiples_vanish, lemma_div_pos_is_pos,
};
use crate::candle::Candlestick;
use crate::fixed::{MAX_TICKS, UNIT};
use crate::series::CandlestickSeries;
use crate::window::{
    closes, gains, lemma_columns_are_ticks, lemma_range_sum_bounds, lemma_range_sum_first, losses,
    range_sum, ticks_column,
};

verus! {

/// The value of an RSI that stands at its top: 100.
pub const RSI_TOP: u64 = 1_000_000;

/// The mean of the `period` closes that end at position `i`, rounded down
/// to a tick.
pub open spec fn moving_average_at(s: Seq<(u64, Candlestick)>, period: int, i: int) -> int {
    range_sum(closes(s), i - period + 1, i + 1) / period
}

/// The moving averages of a series: one for each position that has
/// `period - 1` candles before it.
pub open spec fn moving_average_of(s: Seq<(u64, Candlestick)>, period: int) -> Seq<(u64, u64)> {
    if period <= 0 || s.len() < period {
        Seq::empty()
    } else {
        Seq::new(
            (s.len() - period + 1) as nat,
            |j: int| (s[j + period - 1].0, moving_average_at(s, period, j + period - 1) as u64),
        )
    }
}

/// The RSI, in parts, of a window whose rises sum to `gain_sum` and whose
/// falls sum to `loss_sum`: 100 where nothing fell, otherwise the share of
/// the rises in all moves, times 100, rounded down.
pub open spec fn rsi_value(gain_sum: int, loss_sum: int) -> int {
    if loss_sum <= 0 {
        RSI_TOP as int
    } else {
        100 * UNIT * gain_sum / (gain_sum + loss_sum)
    }
}

/// The RSI over the `period` moves that end at position `i`.
pub open spec fn rsi_at(s: Seq<(u64, Candlestick)>, period: int, i: int) -> int {
    rsi_value(
        range_sum(gains(s), i - period + 1, i + 1),
        range_sum(losses(s), i - period + 1, i + 1),
    )
}

/// The RSI values of a series: one for each position that has `period`
/// candles before it.
pub open spec fn rsi_of(s: Seq<(u64, Candlestick)>, period: int) -> Seq<(u64, u64)> {
    if period <= 0 || s.len() <= period {
        Seq::empty()
    } else {
        Seq::new(
            (s.len() - period) as nat,
            |j: int| (s[j + period].0, rsi_at(s, period, j + period) as u64),
        )
    }
}

/// An RSI value lies between 0 and 100.
pub proof fn lemma_rsi_value_range(gain_sum: int, loss_sum: int)
    requires
        0 <= gain_sum,
        0 <= loss_sum,
    ensures
        0 <= rsi_value(gain_sum, loss_sum) <= RSI_TOP,
{
    if loss_sum > 0 {
        let d = gain_sum + loss_sum;
        let x = 100 * UNIT * gain_sum;
        assert(0 <= x <= d * RSI_TOP) by (nonlinear_arith)
            requires
                x == 100 * UNIT * gain_sum,
                0 <= gain_sum <= d,
                UNIT == 10_000,
                RSI_TOP == 1_000_000,
        ;
        lemma_div_pos_is_pos(x, d);
        lemma_div_is_ordered(x, d * RSI_TOP, d);
        lemma_div_multiples_vanish(RSI_TOP as int, d);
    }
}

/// A series with fewer candles than the period has no moving average.
pub proof fn lemma_moving_average_needs_full_window(s: Seq<(u64, Candlestick)>, period: int)
    requires
        s.len() < period,
    ensures
        moving_average_of(s, period).len() == 0,
{
}

/// A series with at least `period` candles has one moving average for each
/// position from `period - 1` on, under the bucket start of that position.
pub proof fn lemma_moving_average_positions(s: Seq<(u64, Candlestick)>, period: int, i: int)
    requires
        1 <= period <= s.len(),
        period - 1 <= i < s.len(),
    ensures
        moving_average_of(s, period).len() == s.len() - period + 1,
        moving_average_of(s, period)[i - period + 1].0 == s[i].0,
        moving_average_of(s, period)[i - period + 1].1 == moving_average_at(s, period, i) as u64,
{
}

/// Where the `period` closes that end at position `i` are all `v`, the
/// moving average there is `v`.
pub proof fn lemma_moving_average_of_equal_closes(
    s: Seq<(u64, Candlestick)>,
    period: int,
    i: int,
    v: u64,
)
    requires
        1 <= period,
        period - 1 <= i < s.len(),
        forall|j: int| i - period + 1 <= j <= i ==> (#[trigger] s[j]).1.close == v,
    ensures
        moving_average_at(s, period, i) == v,
{
    let c = closes(s);
    assert forall|j: int| i - period + 1 <= j < i + 1 implies #[trigger] c[j] == v as int by {
        assert(s[j].1.close == v);
    }
    crate::window::lemma_range_sum_constant(c, i - period + 1, i + 1, v as int);
    assert((i + 1 - (i - period + 1)) * v == period * v) by (nonlinear_arith);
    lemma_div_multiples_vanish(v as int, period);
}

/// Where no close is below the close before it over the `period` moves
/// that end at position `i`, the RSI there is 100.
pub proof fn lemma_rsi_of_rising_closes(s: Seq<(u64, Candlestick)>, period: int, i: int)
    requires
        1 <= period <= i < s.len(),
        forall|j: int| i - period + 1 <= j <= i ==> (#[trigger] s[j]).1.close >= s[j - 1].1.close,
    ensures
        rsi_at(s, period, i) == RSI_TOP,
{
    let l = losses(s);
    assert forall|j: int| i - period + 1 <= j < i + 1 implies #[trigger] l[j] == 0 by {
        assert(s[j].1.close >= s[j - 1].1.close);
    }
    crate::window::lemma_range_sum_zero(l, i - period + 1, i + 1);
}

/// In a series whose closes never fall, every RSI value is 100.
pub proof fn lemma_rsi_of_rising_series(s: Seq<(u64, Candlestick)>, period: int, j: int)
    requires
        forall|k: int| 1 <= k < s.len() ==> (#[trigger] s[k]).1.close >= s[k - 1].1.close,
        0 <= j < rsi_of(s, period).len(),
    ensures
        rsi_of(s, period)[j].1 == RSI_TOP,
{
    lemma_rsi_of_rising_closes(s, period, j + period);
}

/// The rise and the fall from one close to the next; one of them is zero.
fn move_between(previous: u64, current: u64) -> (m: (u64, u64))
    ensures
        m.0 == if current > previous {
            current - previous
        } else {
            0
        },
        m.1 == if current < previous {
            previous - current
        } else {
            0
        },
{
    if current > previous {
        (current - previous, 0)
    } else {
        (0, previous - current)
    }
}

/// Computes an RSI value from the sums of a window.
fn rsi_from_sums(gain_sum: u128, loss_sum: u128) -> (r: u64)
    requires
        gain_sum <= usize::MAX * MAX_TICKS,
        loss_sum <= usize::MAX * MAX_TICKS,
    ensures
        r == rsi_value(gain_sum as int, loss_sum as int),
        r <= RSI_TOP,
{
    proof {
        lemma_rsi_value_range(gain_sum as int, loss_sum as int);
        assert(usize::MAX * MAX_TICKS <= 0xffff_ffff_ffff_ffff * 10_000_000_000_000)
            by (nonlinear_arith)
            requires
                usize::MAX <= 0xffff_ffff_ffff_ffff,
                MAX_TICKS == 10_000_000_000_000,
        ;
        assert(100 * UNIT * gain_sum == 1_000_000 * gain_sum) by (nonlinear_arith)
            requires
                UNIT == 10_000,
        ;
    }
    if loss_sum == 0 {
        RSI_TOP
    } else {
        (1_000_000 * gain_sum / (gain_sum + loss_sum)) as u64
    }
}

/// The simple moving average of the closes over `period` candles.
///
/// A series with fewer than `period` candles, and a period of zero, give an
/// empty list.
pub fn calculate_moving_average(candlesticks: &CandlestickSeries, period: usize) -> (r: Vec<
    (u64, u64),
>)
    requires
        candlesticks.wf(),
    ensures
        r@ == moving_average_of(candlesticks@, period as int),
{
    let data = candlesticks.entries();
    let n: usize = data.len();
    let ghost s = candlesticks@;
    let mut result: Vec<(u64, u64)> = Vec::new();
    if period == 0 || n < period {
        return result;
    }
    proof {
        lemma_columns_are_ticks(s);
    }
    let mut sum: u128 = 0;
    let mut k: usize = 0;
    while k < period - 1
        invariant
            k <= period - 1,
            1 <= period <= n,
            n == s.len(),
            data@ == s,
            ticks_column(closes(s)),
            sum == range_sum(closes(s), 0, k as int),
        decreases period - 1 - k,
    {
        proof {
            lemma_range_sum_bounds(closes(s), 0, k as int);
            lemma_window_fits(k as int);
        }
        sum = sum + data[k].1.close as u128;
        k = k + 1;
    }
    let mut i: usize = period - 1;
    while i < n
        invariant
            period - 1 <= i <= n,
            1 <= period <= n,
            n == s.len(),
            data@ == s,
            ticks_column(closes(s)),
            sum == range_sum(closes(s), i - period + 1, i as int),
            result@.len() == i - (period - 1),
            forall|j: int|
                0 <= j < result@.len() ==> #[trigger] result@[j] == (
                    s[j + period - 1].0,
                    moving_average_at(s, period as int, j + period - 1) as u64,
                ),
        decreases n - i,
    {
        proof {
            lemma_range_sum_bounds(closes(s), i - period + 1, i as int);
            lemma_range_sum_bounds(closes(s), i - period + 1, i + 1);
            lemma_window_fits(i - period + 1);
            lemma_window_fits(period as int);
            lemma_range_sum_first(closes(s), i - period + 1, i + 1);
            lemma_range_sum_bounds(closes(s), i - period + 2, i + 1);
        }
        sum = sum + data[i].1.close as u128;
        let mean: u128 = sum / (period as u128);
        proof {
            lemma_div_is_ordered(sum as int, period * MAX_TICKS, period as int);
            lemma_div_multiples_vanish(MAX_TICKS as int, period as int);
            lemma_div_pos_is_pos(sum as int, period as int);
        }
        result.push((data[i].0, mean as u64));
        sum = sum - data[i + 1 - period].1.close as u128;
        i = i + 1;
    }
    proof {
        assert(result@ =~= moving_average_of(s, period as int));
    }
    result
}

/// The relative strength index over `period` moves of the close, each
/// window's rises and falls averaged plainly.
///
/// A series with no more than `period` candles, and a period of zero, give
/// an empty list.
pub fn calculate_rsi(candlesticks: &CandlestickSeries, period: usize) -> (r: Vec<(u64, u64)>)
    requires
        candlesticks.wf(),
    ensures
        r@ == rsi_of(candlesticks@, period as int),
{
    let data = candlesticks.entries();
    let n: usize = data.len();
    let ghost s = candlesticks@;
    let mut result: Vec<(u64, u64)> = Vec::new();
    if period == 0 || n <= period {
        return result;
    }
    proof {
        lemma_columns_are_ticks(s);
    }
    let mut gain_sum: u128 = 0;
    let mut loss_sum: u128 = 0;
    let mut k: usize = 1;
    while k < period
        invariant
            1 <= k <= period < n,
            n == s.len(),
            data@ == s,
            ticks_column(gains(s)),
            ticks_column(losses(s)),
            gain_sum == range_sum(gains(s), 1, k as int),
            loss_sum == range_sum(losses(s), 1, k as int),
        decreases period - k,
    {
        proof {
            lemma_range_sum_bounds(gains(s), 1, k as int);
            lemma_range_sum_bounds(losses(s), 1, k as int);
            lemma_window_fits(k - 1);
        }
        let step: (u64, u64) = move_between(data[k - 1].1.close, data[k].1.close);
        gain_sum = gain_sum + step.0 as u128;
        loss_sum = loss_sum + step.1 as u128;
        k = k + 1;
    }
    let mut i: usize = period;
    while i < n
        invariant
            1 <= period <= i <= n,
            period < n,
            n == s.len(),
            data@ == s,
            ticks_column(gains(s)),
            ticks_column(losses(s)),
            gain_sum == range_sum(gains(s), i - period + 1, i as int),
            loss_sum == range_sum(losses(s), i - period + 1, i as int),
            result@.len() == i - period,
            forall|j: int|
                0 <= j < result@.len() ==> #[trigger] result@[j] == (
                    s[j + period].0,
                    rsi_at(s, period as int, j + period) as u64,
                ),
        decreases n - i,
    {
        proof {
            lemma_range_sum_bounds(gains(s), i - period + 1, i as int);
            lemma_range_sum_bounds(losses(s), i - period + 1, i as int);
            lemma_range_sum_bounds(gains(s), i - period + 1, i + 1);
            lemma_range_sum_bounds(losses(s), i - period + 1, i + 1);
            lemma_window_fits(period - 1);
            lemma_window_fits(period as int);
            lemma_range_sum_first(gains(s), i - period + 1, i + 1);
            lemma_range_sum_first(losses(s), i - period + 1, i + 1);
            lemma_range_sum_bounds(gains(s), i - period + 2, i + 1);
            lemma_range_sum_bounds(losses(s), i - period + 2, i + 1);
        }
        let step: (u64, u64) = move_between(data[i - 1].1.close, data[i].1.close);
        gain_sum = gain_sum + step.0 as u128;
        loss_sum = loss_sum + step.1 as u128;
        let value: u64 = rsi_from_sums(gain_sum, loss_sum);
        result.push((data[i].0, value));
        let leaving: (u64, u64) = move_between(
            data[i - period].1.close,
            data[i + 1 - period].1.close,
        );
        gain_sum = gain_sum - leaving.0 as u128;
        loss_sum = loss_sum - leaving.1 as u128;
        i = i + 1;
    }
    proof {
        assert(result@ =~= rsi_of(s, period as int));
    }
    result
}

/// A window of at most `usize::MAX` ticks values sums to less than what a
/// `u128` holds, with room for one more value and for the RSI's scale.
proof fn lemma_window_fits(len: int)
    requires
        0 <= len <= usize::MAX,
    ensures
        len * MAX_TICKS <= usize::MAX * MAX_TICKS,
        usize::MAX * MAX_TICKS + MAX_TICKS <= 0x1_0000_0000_0000_0000 * 10_000_000_000_000,
{
    assert(len * MAX_TICKS <= usize::MAX * MAX_TICKS) by (nonlinear_arith)
        requires
            0 <= len <= usize::MAX,
    ;
    assert(usize::MAX * MAX_TICKS + MAX_TICKS <= 0x1_0000_0000_0000_0000 * 10_000_000_000_000)
        by (nonlinear_arith)
        requires
            usize::MAX <= 0xffff_ffff_ffff_ffff,
            MAX_TICKS == 10_000_000_000_000,
    ;
}

} // verus!
