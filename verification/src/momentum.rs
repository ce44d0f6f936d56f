//! Momentum signals with a volume filter.
//!
//! At each position that has a full lookback the close is held against the
//! close one period earlier, and the candle's volume against the mean volume
//! of the period before it. All tests are made on cross-multiplied integers,
//! so none of them rounds, and a zero denominator reads as an unbounded
//! ratio.

use vstd::prelude::*;
use vstd::arithmetic::div_mod::{
    lemma_div_is_ordered, lemma_div_multiples_vanish, lemma_div_pos_is_pos,
};
use crate::bucket::CandleType;
use crate::candle::Candlestick;
use crate::fixed::{lemma_div_minus_multiple, min_int, MAX_TICKS, UNIT};
use crate::series::CandlestickSeries;
use crate::window::{
    lemma_columns_are_ticks, lemma_range_sum_bounds, lemma_range_sum_first, range_sum,
    ticks_column, volumes,
};

verus! {

/// The lookback and the two thresholds of the momentum signals.
#[derive(Clone, Copy, Debug, PartialEq, Eq, Structural)]
pub struct MomentumParams {
    /// The number of candles to look back.
    pub period: u32,
    /// The least move of the close, in parts of one percent, that counts.
    pub momentum_threshold: u32,
    /// The least ratio of volume to mean volume, in parts, that counts.
    pub volume_threshold: u32,
}

/// A signal at the latest candle that is strong enough to be reported.
#[derive(Clone, Copy, Debug, PartialEq, Eq, Structural)]
pub struct MomentumEvent {
    pub timestamp: u64,
    pub price: u64,
    pub strength: u64,
}

/// The buy and sell signals of a series, each a list of bucket start and
/// strength in ascending order of bucket start, and what is to be reported
/// of the latest candle.
pub struct MomentumSignals {
    pub buy: Vec<(u64, u64)>,
    pub sell: Vec<(u64, u64)>,
    pub strong_buy: Option<MomentumEvent>,
    pub strong_sell: Option<MomentumEvent>,
}

/// The strength with which every signal starts: one half.
pub const BASE_STRENGTH: u64 = 5_000;

/// The most that the size of the move adds to the strength: three tenths.
pub const MOMENTUM_BONUS_CAP: u64 = 3_000;

/// The most that the volume adds to the strength: two tenths.
pub const VOLUME_BONUS_CAP: u64 = 2_000;

/// The strength above which a signal at the latest candle is reported:
/// seven tenths.
pub const STRONG_SIGNAL: u64 = 7_000;

/// The parameters in use for a granularity.
pub open spec fn params_for(g: CandleType) -> MomentumParams {
    match g {
        CandleType::Minute1 => MomentumParams {
            period: 5,
            momentum_threshold: 500,
            volume_threshold: 11_000,
        },
        CandleType::Minute3 => MomentumParams {
            period: 5,
            momentum_threshold: 1_000,
            volume_threshold: 12_000,
        },
        CandleType::Day => MomentumParams {
            period: 10,
            momentum_threshold: 20_000,
            volume_threshold: 15_000,
        },
    }
}

/// The parameters in use for a granularity.
pub fn momentum_params(g: CandleType) -> (p: MomentumParams)
    ensures
        p == params_for(g),
{
    match g {
        CandleType::Minute1 => MomentumParams {
            period: 5,
            momentum_threshold: 500,
            volume_threshold: 11_000,
        },
        CandleType::Minute3 => MomentumParams {
            period: 5,
            momentum_threshold: 1_000,
            volume_threshold: 12_000,
        },
        CandleType::Day => MomentumParams {
            period: 10,
            momentum_threshold: 20_000,
            volume_threshold: 15_000,
        },
    }
}

/// Whether a move of `moved` ticks away from `past` is more than
/// `threshold` parts of one percent of `past`.
pub open spec fn move_exceeds(moved: int, past: int, threshold: int) -> bool {
    moved * 100 * UNIT > threshold * past
}

/// Whether `volume` is more than `threshold` parts of the mean of a window
/// of `period` volumes that sum to `volume_sum`.
pub open spec fn volume_exceeds(volume: int, period: int, volume_sum: int, threshold: int) -> bool {
    volume * period * UNIT > threshold * volume_sum
}

/// The ratio `num / den` in parts, rounded down and capped; zero where the
/// numerator is not positive, the cap where only the denominator is not.
pub open spec fn capped_ratio(num: int, den: int, cap: int) -> int {
    if num <= 0 {
        0
    } else if den <= 0 {
        cap
    } else {
        min_int(num * UNIT / den, cap)
    }
}

/// What the size of a move adds to the strength: a tenth of the move in
/// percent, up to the cap.
pub open spec fn momentum_bonus(moved: int, past: int) -> int {
    capped_ratio(moved * 10, past, MOMENTUM_BONUS_CAP as int)
}

/// What the volume adds to the strength: half of what the ratio of volume
/// to mean volume has above 1.2, up to the cap.
pub open spec fn volume_bonus(volume: int, period: int, volume_sum: int) -> int {
    capped_ratio(5 * volume * period - 6 * volume_sum, 10 * volume_sum, VOLUME_BONUS_CAP as int)
}

/// The strength of a signal, in parts: one half, plus the two bonuses, at
/// most one.
pub open spec fn signal_strength(
    moved: int,
    past: int,
    volume: int,
    period: int,
    volume_sum: int,
) -> int {
    min_int(
        BASE_STRENGTH + momentum_bonus(moved, past) + volume_bonus(volume, period, volume_sum),
        UNIT as int,
    )
}

/// The sum of the volumes of the `period` candles before position `i`.
pub open spec fn lookback_volume(s: Seq<(u64, Candlestick)>, p: MomentumParams, i: int) -> int {
    range_sum(volumes(s), i - p.period, i)
}

/// Whether position `i` gives a buy signal.
pub open spec fn is_buy_at(s: Seq<(u64, Candlestick)>, p: MomentumParams, i: int) -> bool {
    &&& move_exceeds(
        s[i].1.close - s[i - p.period].1.close,
        s[i - p.period].1.close as int,
        p.momentum_threshold as int,
    )
    &&& volume_exceeds(
        s[i].1.volume as int,
        p.period as int,
        lookback_volume(s, p, i),
        p.volume_threshold as int,
    )
}

/// Whether position `i` gives a sell signal.
pub open spec fn is_sell_at(s: Seq<(u64, Candlestick)>, p: MomentumParams, i: int) -> bool {
    &&& move_exceeds(
        s[i - p.period].1.close - s[i].1.close,
        s[i - p.period].1.close as int,
        p.momentum_threshold as int,
    )
    &&& volume_exceeds(
        s[i].1.volume as int,
        p.period as int,
        lookback_volume(s, p, i),
        p.volume_threshold as int,
    )
}

/// The strength of the buy signal at position `i`.
pub open spec fn buy_strength_at(s: Seq<(u64, Candlestick)>, p: MomentumParams, i: int) -> int {
    signal_strength(
        s[i].1.close - s[i - p.period].1.close,
        s[i - p.period].1.close as int,
        s[i].1.volume as int,
        p.period as int,
        lookback_volume(s, p, i),
    )
}

/// The strength of the sell signal at position `i`.
pub open spec fn sell_strength_at(s: Seq<(u64, Candlestick)>, p: MomentumParams, i: int) -> int {
    signal_strength(
        s[i - p.period].1.close - s[i].1.close,
        s[i - p.period].1.close as int,
        s[i].1.volume as int,
        p.period as int,
        lookback_volume(s, p, i),
    )
}

/// The buy signals at the positions from `p.period` up to, not including,
/// `hi`, in ascending order.
pub open spec fn buy_signals(s: Seq<(u64, Candlestick)>, p: MomentumParams, hi: int) -> Seq<
    (u64, u64),
>
    decreases hi,
{
    if hi <= p.period || hi <= 0 {
        Seq::empty()
    } else if is_buy_at(s, p, hi - 1) {
        buy_signals(s, p, hi - 1).push((s[hi - 1].0, buy_strength_at(s, p, hi - 1) as u64))
    } else {
        buy_signals(s, p, hi - 1)
    }
}

/// The sell signals at the positions from `p.period` up to, not including,
/// `hi`, in ascending order.
pub open spec fn sell_signals(s: Seq<(u64, Candlestick)>, p: MomentumParams, hi: int) -> Seq<
    (u64, u64),
>
    decreases hi,
{
    if hi <= p.period || hi <= 0 {
        Seq::empty()
    } else if is_sell_at(s, p, hi - 1) {
        sell_signals(s, p, hi - 1).push((s[hi - 1].0, sell_strength_at(s, p, hi - 1) as u64))
    } else {
        sell_signals(s, p, hi - 1)
    }
}

/// What is reported of a buy signal at the latest candle: the signal, if
/// the update is live and the strength is above [`STRONG_SIGNAL`].
pub open spec fn strong_buy_of(
    s: Seq<(u64, Candlestick)>,
    p: MomentumParams,
    is_realtime: bool,
) -> Option<MomentumEvent> {
    let i = s.len() - 1;
    if is_realtime && s.len() > p.period && is_buy_at(s, p, i) && buy_strength_at(s, p, i)
        > STRONG_SIGNAL {
        Some(
            MomentumEvent {
                timestamp: s[i].0,
                price: s[i].1.close,
                strength: buy_strength_at(s, p, i) as u64,
            },
        )
    } else {
        None
    }
}

/// What is reported of a sell signal at the latest candle: the signal, if
/// the update is live and the strength is above [`STRONG_SIGNAL`].
pub open spec fn strong_sell_of(
    s: Seq<(u64, Candlestick)>,
    p: MomentumParams,
    is_realtime: bool,
) -> Option<MomentumEvent> {
    let i = s.len() - 1;
    if is_realtime && s.len() > p.period && is_sell_at(s, p, i) && sell_strength_at(s, p, i)
        > STRONG_SIGNAL {
        Some(
            MomentumEvent {
                timestamp: s[i].0,
                price: s[i].1.close,
                strength: sell_strength_at(s, p, i) as u64,
            },
        )
    } else {
        None
    }
}

/// A capped ratio lies between zero and the cap and does not shrink when
/// the numerator grows.
pub proof fn lemma_capped_ratio_monotonic(num1: int, num2: int, den: int, cap: int)
    requires
        num1 <= num2,
        0 <= cap,
    ensures
        0 <= capped_ratio(num1, den, cap) <= capped_ratio(num2, den, cap) <= cap,
{
    if num1 > 0 && den > 0 {
        assert(0 <= num1 * UNIT <= num2 * UNIT) by (nonlinear_arith)
            requires
                0 < num1 <= num2,
                UNIT == 10_000,
        ;
        lemma_div_pos_is_pos(num1 * UNIT, den);
        lemma_div_is_ordered(num1 * UNIT, num2 * UNIT, den);
    } else if num2 > 0 && den > 0 {
        assert(0 <= num2 * UNIT) by (nonlinear_arith)
            requires
                0 < num2,
                UNIT == 10_000,
        ;
        lemma_div_pos_is_pos(num2 * UNIT, den);
    }
}

/// The strength of a signal is the base and the two bonuses, with no more
/// to cap: it lies between one half and one.
pub proof fn lemma_strength_range(moved: int, past: int, volume: int, period: int, volume_sum: int)
    ensures
        BASE_STRENGTH <= signal_strength(moved, past, volume, period, volume_sum) <= UNIT,
        signal_strength(moved, past, volume, period, volume_sum) == BASE_STRENGTH + momentum_bonus(
            moved,
            past,
        ) + volume_bonus(volume, period, volume_sum),
{
    lemma_capped_ratio_monotonic(moved * 10, moved * 10, past, MOMENTUM_BONUS_CAP as int);
    lemma_capped_ratio_monotonic(
        5 * volume * period - 6 * volume_sum,
        5 * volume * period - 6 * volume_sum,
        10 * volume_sum,
        VOLUME_BONUS_CAP as int,
    );
}

/// A move that exceeds a threshold of at least a thousandth of a percent
/// gives a strength above one half.
pub proof fn lemma_signal_is_stronger_than_base(
    moved: int,
    past: int,
    threshold: int,
    volume: int,
    period: int,
    volume_sum: int,
)
    requires
        0 <= past,
        10 <= threshold,
        move_exceeds(moved, past, threshold),
    ensures
        BASE_STRENGTH < signal_strength(moved, past, volume, period, volume_sum) <= UNIT,
{
    lemma_strength_range(moved, past, volume, period, volume_sum);
    lemma_move_exceeds_positive(moved, past, threshold);
    if past > 0 {
        assert(moved * 10 * UNIT >= past) by (nonlinear_arith)
            requires
                moved * 100 * UNIT > threshold * past,
                threshold >= 10,
                past > 0,
        ;
        lemma_div_is_ordered(past, moved * 10 * UNIT, past);
        lemma_div_multiples_vanish(1, past);
        assert(past * 1 == past);
    }
    lemma_capped_ratio_monotonic(
        5 * volume * period - 6 * volume_sum,
        5 * volume * period - 6 * volume_sum,
        10 * volume_sum,
        VOLUME_BONUS_CAP as int,
    );
}

/// The strength does not shrink when the move grows, all else the same.
pub proof fn lemma_strength_monotonic(
    moved1: int,
    moved2: int,
    past: int,
    volume: int,
    period: int,
    volume_sum: int,
)
    requires
        moved1 <= moved2,
    ensures
        signal_strength(moved1, past, volume, period, volume_sum) <= signal_strength(
            moved2,
            past,
            volume,
            period,
            volume_sum,
        ),
{
    lemma_strength_range(moved1, past, volume, period, volume_sum);
    lemma_strength_range(moved2, past, volume, period, volume_sum);
    lemma_capped_ratio_monotonic(moved1 * 10, moved2 * 10, past, MOMENTUM_BONUS_CAP as int);
}

/// Below the cap of the momentum bonus the strength grows with the move:
/// a move that is larger by a thousandth of a percent of the past close or
/// more gives a larger strength.
pub proof fn lemma_strength_grows_below_cap(
    moved1: int,
    moved2: int,
    past: int,
    volume: int,
    period: int,
    volume_sum: int,
)
    requires
        0 < moved1,
        0 < past,
        moved2 * 10 * UNIT >= moved1 * 10 * UNIT + past,
        momentum_bonus(moved2, past) < MOMENTUM_BONUS_CAP,
    ensures
        signal_strength(moved1, past, volume, period, volume_sum) < signal_strength(
            moved2,
            past,
            volume,
            period,
            volume_sum,
        ),
{
    lemma_strength_range(moved1, past, volume, period, volume_sum);
    lemma_strength_range(moved2, past, volume, period, volume_sum);
    let x1 = moved1 * 10 * UNIT;
    let x2 = moved2 * 10 * UNIT;
    assert(moved2 > 0) by (nonlinear_arith)
        requires
            moved2 * 10 * UNIT >= moved1 * 10 * UNIT + past,
            0 < moved1,
            0 < past,
            UNIT == 10_000,
    ;
    lemma_div_is_ordered(x1 + past, x2, past);
    lemma_div_minus_multiple(x1 + past, 1, past);
    assert(x1 + past - 1 * past == x1);
    assert(x1 / past + 1 <= x2 / past);
}

/// Computes a capped ratio in parts.
fn capped_ratio_of(num: u128, den: u128, cap: u64) -> (r: u64)
    requires
        num * UNIT <= u128::MAX,
    ensures
        r == capped_ratio(num as int, den as int, cap as int),
        r <= cap,
{
    if num == 0 {
        0
    } else if den == 0 {
        cap
    } else {
        let q: u128 = num * (UNIT as u128) / den;
        if q < cap as u128 {
            q as u64
        } else {
            cap
        }
    }
}

/// Computes the strength of a signal.
fn strength_of(moved: u64, past: u64, volume: u64, period: u32, volume_sum: u128) -> (r: u64)
    requires
        moved <= MAX_TICKS,
        volume <= MAX_TICKS,
        volume_sum <= period * MAX_TICKS,
    ensures
        r == signal_strength(
            moved as int,
            past as int,
            volume as int,
            period as int,
            volume_sum as int,
        ),
        BASE_STRENGTH <= r <= UNIT,
{
    assert(period * MAX_TICKS <= 0xffff_ffff * 10_000_000_000_000) by (nonlinear_arith)
        requires
            period <= 0xffff_ffff,
    ;
    assert(volume * period <= 10_000_000_000_000 * 0xffff_ffff) by (nonlinear_arith)
        requires
            volume <= 10_000_000_000_000,
            period <= 0xffff_ffff,
    ;
    let from_move: u64 = capped_ratio_of(moved as u128 * 10, past as u128, MOMENTUM_BONUS_CAP);
    let weighted: u128 = 5 * (volume as u128 * period as u128);
    let floor: u128 = 6 * volume_sum;
    assert(weighted == 5 * volume * period) by (nonlinear_arith)
        requires
            weighted == 5 * (volume * period),
    ;
    let from_volume: u64 = if weighted > floor {
        capped_ratio_of(weighted - floor, 10 * volume_sum, VOLUME_BONUS_CAP)
    } else {
        0
    };
    let total: u64 = BASE_STRENGTH + from_move + from_volume;
    if total > UNIT {
        UNIT
    } else {
        total
    }
}

/// Tests whether a move exceeds a threshold.
fn move_exceeds_threshold(moved: u64, past: u64, threshold: u32) -> (b: bool)
    ensures
        b == move_exceeds(moved as int, past as int, threshold as int),
{
    assert(threshold * past <= 0xffff_ffff * 0xffff_ffff_ffff_ffff) by (nonlinear_arith)
        requires
            threshold <= 0xffff_ffff,
            past <= 0xffff_ffff_ffff_ffff,
    ;
    assert(moved * 100 * UNIT <= 0xffff_ffff_ffff_ffff * 1_000_000) by (nonlinear_arith)
        requires
            moved <= 0xffff_ffff_ffff_ffff,
            UNIT == 10_000,
    ;
    moved as u128 * 100 * (UNIT as u128) > threshold as u128 * past as u128
}

/// Tests whether a volume exceeds a threshold.
fn volume_exceeds_threshold(volume: u64, period: u32, volume_sum: u128, threshold: u32) -> (b:
    bool)
    requires
        volume <= MAX_TICKS,
        volume_sum <= period * MAX_TICKS,
    ensures
        b == volume_exceeds(volume as int, period as int, volume_sum as int, threshold as int),
{
    assert(period * MAX_TICKS <= 0xffff_ffff * 10_000_000_000_000) by (nonlinear_arith)
        requires
            period <= 0xffff_ffff,
    ;
    assert(volume * period <= 10_000_000_000_000 * 0xffff_ffff) by (nonlinear_arith)
        requires
            volume <= 10_000_000_000_000,
            period <= 0xffff_ffff,
    ;
    assert(threshold * volume_sum <= 0xffff_ffff * (0xffff_ffff * 10_000_000_000_000))
        by (nonlinear_arith)
        requires
            threshold <= 0xffff_ffff,
            volume_sum <= 0xffff_ffff * 10_000_000_000_000,
    ;
    assert(volume * period * UNIT <= 10_000_000_000_000 * 0xffff_ffff * 10_000)
        by (nonlinear_arith)
        requires
            volume * period <= 10_000_000_000_000 * 0xffff_ffff,
            0 <= volume * period,
            UNIT == 10_000,
    ;
    volume as u128 * period as u128 * (UNIT as u128) > threshold as u128 * volume_sum
}

/// The ratio, in parts, of the volume at position `i` to the mean volume of
/// the `period` candles before it, rounded down and at most `u64::MAX`; zero
/// where the lookback is not full or holds no volume.
pub open spec fn volume_ratio_at(s: Seq<(u64, Candlestick)>, period: int, i: int) -> int {
    let volume_sum = range_sum(volumes(s), i - period, i);
    if i < period || i >= s.len() || volume_sum <= 0 {
        0
    } else {
        min_int(s[i].1.volume * period * UNIT / volume_sum, u64::MAX as int)
    }
}

/// The ratio of the latest candle's volume to the mean volume of the
/// `period` candles before it.
pub fn latest_volume_ratio(series: &CandlestickSeries, period: u32) -> (ratio: u64)
    requires
        series.wf(),
    ensures
        ratio == volume_ratio_at(series@, period as int, series@.len() - 1),
{
    let data = series.entries();
    let n: usize = data.len();
    let p: usize = period as usize;
    let ghost s = series@;
    if n <= p {
        return 0;
    }
    proof {
        lemma_columns_are_ticks(s);
    }
    let first: usize = n - 1 - p;
    let mut volume_sum: u128 = 0;
    let mut k: usize = first;
    while k < n - 1
        invariant
            first <= k <= n - 1,
            first == n - 1 - p,
            n == s.len(),
            data@ == s,
            p == period,
            ticks_column(volumes(s)),
            volume_sum == range_sum(volumes(s), first as int, k as int),
        decreases n - 1 - k,
    {
        proof {
            lemma_range_sum_bounds(volumes(s), first as int, k as int);
            assert((k - first) * MAX_TICKS <= 0xffff_ffff * 10_000_000_000_000)
                by (nonlinear_arith)
                requires
                    0 <= k - first <= 0xffff_ffff,
                    MAX_TICKS == 10_000_000_000_000,
            ;
        }
        volume_sum = volume_sum + data[k].1.volume as u128;
        k = k + 1;
    }
    if volume_sum == 0 {
        return 0;
    }
    let volume: u64 = data[n - 1].1.volume;
    proof {
        assert(s[n - 1].1.wf());
        assert(volume * period <= 10_000_000_000_000 * 0xffff_ffff) by (nonlinear_arith)
            requires
                volume <= 10_000_000_000_000,
                period <= 0xffff_ffff,
        ;
        assert(volume * period * UNIT <= 10_000_000_000_000 * 0xffff_ffff * 10_000)
            by (nonlinear_arith)
            requires
                volume * period <= 10_000_000_000_000 * 0xffff_ffff,
                0 <= volume * period,
                UNIT == 10_000,
        ;
    }
    let ratio: u128 = volume as u128 * period as u128 * (UNIT as u128) / volume_sum;
    if ratio > u64::MAX as u128 {
        u64::MAX
    } else {
        ratio as u64
    }
}

/// The momentum signals of a series under the given parameters.
///
/// A position with fewer than `period` candles before it gives no signal.
pub fn momentum_signals(
    series: &CandlestickSeries,
    params: MomentumParams,
    is_realtime: bool,
) -> (r: MomentumSignals)
    requires
        series.wf(),
    ensures
        r.buy@ == buy_signals(series@, params, series@.len() as int),
        r.sell@ == sell_signals(series@, params, series@.len() as int),
        r.strong_buy == strong_buy_of(series@, params, is_realtime),
        r.strong_sell == strong_sell_of(series@, params, is_realtime),
{
    let data = series.entries();
    let n: usize = data.len();
    let p: usize = params.period as usize;
    let ghost s = series@;
    let mut buy: Vec<(u64, u64)> = Vec::new();
    let mut sell: Vec<(u64, u64)> = Vec::new();
    let mut strong_buy: Option<MomentumEvent> = None;
    let mut strong_sell: Option<MomentumEvent> = None;
    if n <= p {
        return MomentumSignals { buy, sell, strong_buy, strong_sell };
    }
    proof {
        lemma_columns_are_ticks(s);
    }
    let mut volume_sum: u128 = 0;
    let mut k: usize = 0;
    while k < p
        invariant
            k <= p < n,
            n == s.len(),
            data@ == s,
            p == params.period,
            ticks_column(volumes(s)),
            volume_sum == range_sum(volumes(s), 0, k as int),
        decreases p - k,
    {
        proof {
            lemma_range_sum_bounds(volumes(s), 0, k as int);
            lemma_range_sum_bounds(volumes(s), 0, k + 1);
            assert(k * MAX_TICKS <= 0xffff_ffff * 10_000_000_000_000) by (nonlinear_arith)
                requires
                    k <= 0xffff_ffff,
            ;
        }
        volume_sum = volume_sum + data[k].1.volume as u128;
        k = k + 1;
    }
    let mut i: usize = p;
    while i < n
        invariant
            p <= i <= n,
            p < n,
            n == s.len(),
            data@ == s,
            p == params.period,
            series.wf(),
            s == series@,
            ticks_column(volumes(s)),
            volume_sum == range_sum(volumes(s), i - p, i as int),
            buy@ == buy_signals(s, params, i as int),
            sell@ == sell_signals(s, params, i as int),
            i < n ==> strong_buy.is_none() && strong_sell.is_none(),
            i == n ==> strong_buy == strong_buy_of(s, params, is_realtime) && strong_sell
                == strong_sell_of(s, params, is_realtime),
        decreases n - i,
    {
        let timestamp: u64 = data[i].0;
        let current: u64 = data[i].1.close;
        let past: u64 = data[i - p].1.close;
        let volume: u64 = data[i].1.volume;
        proof {
            assert(s[i as int].1.wf());
            assert(s[i - p].1.wf());
            lemma_range_sum_bounds(volumes(s), i - p, i as int);
            assert((i - (i - p)) * MAX_TICKS == params.period * MAX_TICKS) by (nonlinear_arith)
                requires
                    i - (i - p) == params.period,
            ;
        }
        let loud: bool = volume_exceeds_threshold(
            volume,
            params.period,
            volume_sum,
            params.volume_threshold,
        );
        let rise: u64 = if current > past {
            current - past
        } else {
            0
        };
        let fall: u64 = if past > current {
            past - current
        } else {
            0
        };
        let rises: bool = move_exceeds_threshold(rise, past, params.momentum_threshold);
        let falls: bool = move_exceeds_threshold(fall, past, params.momentum_threshold);
        proof {
            lemma_move_exceeds_positive(
                current - past,
                past as int,
                params.momentum_threshold as int,
            );
            lemma_move_exceeds_positive(
                past - current,
                past as int,
                params.momentum_threshold as int,
            );
        }
        if rises && loud {
            let strength: u64 = strength_of(rise, past, volume, params.period, volume_sum);
            if strength > STRONG_SIGNAL && is_realtime && i == n - 1 {
                strong_buy = Some(MomentumEvent { timestamp, price: current, strength });
            }
            buy.push((timestamp, strength));
        }
        if falls && loud {
            let strength: u64 = strength_of(fall, past, volume, params.period, volume_sum);
            if strength > STRONG_SIGNAL && is_realtime && i == n - 1 {
                strong_sell = Some(MomentumEvent { timestamp, price: current, strength });
            }
            sell.push((timestamp, strength));
        }
        proof {
            lemma_range_sum_first(volumes(s), i - p, i + 1);
            lemma_range_sum_bounds(volumes(s), i - p + 1, i + 1);
        }
        volume_sum = volume_sum + volume as u128 - data[i - p].1.volume as u128;
        i = i + 1;
    }
    MomentumSignals { buy, sell, strong_buy, strong_sell }
}

/// The momentum signals of a series under the parameters of a granularity.
pub fn calculate_momentum_signals(
    candlesticks: &CandlestickSeries,
    is_realtime: bool,
    candle_type: &CandleType,
) -> (r: MomentumSignals)
    requires
        candlesticks.wf(),
    ensures
        r.buy@ == buy_signals(candlesticks@, params_for(*candle_type), candlesticks@.len() as int),
        r.sell@ == sell_signals(
            candlesticks@,
            params_for(*candle_type),
            candlesticks@.len() as int,
        ),
        r.strong_buy == strong_buy_of(candlesticks@, params_for(*candle_type), is_realtime),
        r.strong_sell == strong_sell_of(candlesticks@, params_for(*candle_type), is_realtime),
{
    momentum_signals(candlesticks, momentum_params(*candle_type), is_realtime)
}

/// A move that is not positive exceeds no threshold.
pub proof fn lemma_move_exceeds_positive(moved: int, past: int, threshold: int)
    requires
        0 <= past,
        0 <= threshold,
    ensures
        move_exceeds(moved, past, threshold) ==> moved > 0,
        moved <= 0 ==> move_exceeds(moved, past, threshold) == move_exceeds(0, past, threshold),
{
    assert(threshold * past >= 0) by (nonlinear_arith)
        requires
            0 <= past,
            0 <= threshold,
    ;
}

} // verus!
