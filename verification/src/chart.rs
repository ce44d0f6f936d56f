//! What a chart of the series shows: the newest candles, the indicator
//! lines, the published scorings and the price range to draw them in.

use vstd::prelude::*;
use std::collections::VecDeque;
use vstd::arithmetic::div_mod::{lemma_div_is_ordered, lemma_div_multiples_vanish};
use crate::bucket::CandleType;
use crate::candle::Candlestick;
use crate::fixed::{max_int, min_int, MAX_TICKS};
use crate::indicators::{
    calculate_moving_average, calculate_rsi, moving_average_at, moving_average_of, rsi_of,
};
use crate::patterns::SignalScoring;
use crate::series::CandlestickSeries;
use crate::window::{closes, range_sum};

verus! {

/// The most candles that a chart holds.
pub const MAX_DATA_POINTS: usize = 1000;

/// The period of the RSI line.
pub const RSI_PERIOD: usize = 14;

/// The top of the price range of a chart without candles: 100 units of
/// price.
pub const EMPTY_RANGE_TOP: i64 = 100_000_000;

/// The candles, lines and marks of a chart, and which of them are shown.
pub struct Chart {
    pub candlesticks: VecDeque<(u64, Candlestick)>,
    pub max_data_points: usize,
    pub price_range: Option<(i64, i64)>,
    pub candle_type: CandleType,
    pub show_ma5: bool,
    pub show_ma10: bool,
    pub show_ma20: bool,
    pub show_ma200: bool,
    pub ma5_values: Vec<(u64, u64)>,
    pub ma10_values: Vec<(u64, u64)>,
    pub ma20_values: Vec<(u64, u64)>,
    pub ma200_values: Vec<(u64, u64)>,
    pub rsi_values: Vec<(u64, u64)>,
    pub show_rsi: bool,
    pub scored_signals_enabled: bool,
    pub buy_scored_signals: Vec<(u64, SignalScoring)>,
    pub sell_scored_signals: Vec<(u64, SignalScoring)>,
}

/// The least low of the candles; the largest number where there is none.
pub open spec fn lowest_low(s: Seq<(u64, Candlestick)>) -> int
    decreases s.len(),
{
    if s.len() == 0 {
        u64::MAX as int
    } else {
        min_int(lowest_low(s.drop_last()), s.last().1.low as int)
    }
}

/// The greatest high of the candles; zero where there is none.
pub open spec fn highest_high(s: Seq<(u64, Candlestick)>) -> int
    decreases s.len(),
{
    if s.len() == 0 {
        0
    } else {
        max_int(highest_high(s.drop_last()), s.last().1.high as int)
    }
}

/// The price range of a chart: from the least low to the greatest high,
/// widened at both ends by a tenth of their distance, rounded down. Without
/// candles, from zero to [`EMPTY_RANGE_TOP`].
pub open spec fn price_range_of(s: Seq<(u64, Candlestick)>) -> (int, int) {
    if s.len() == 0 {
        (0, EMPTY_RANGE_TOP as int)
    } else {
        let margin = (highest_high(s) - lowest_low(s)) / 10;
        (lowest_low(s) - margin, highest_high(s) + margin)
    }
}

/// The newest candles of a listing, at most `max_len` of them.
pub open spec fn newest_candles(s: Seq<(u64, Candlestick)>, max_len: int) -> Seq<
    (u64, Candlestick),
> {
    if s.len() > max_len {
        s.skip(s.len() - max_len)
    } else {
        s
    }
}

/// Every candle lies between the least low and the greatest high.
pub proof fn lemma_extremes_bound_candles(s: Seq<(u64, Candlestick)>, i: int)
    requires
        0 <= i < s.len(),
    ensures
        lowest_low(s) <= s[i].1.low,
        s[i].1.high <= highest_high(s),
    decreases s.len(),
{
    if i < s.len() - 1 {
        lemma_extremes_bound_candles(s.drop_last(), i);
    }
}

/// Of valid candles the least low is not above the greatest high, and
/// both are prices within [`MAX_TICKS`].
pub proof fn lemma_extremes_in_range(s: Seq<(u64, Candlestick)>)
    requires
        s.len() > 0,
        forall|i: int| 0 <= i < s.len() ==> (#[trigger] s[i]).1.wf(),
    ensures
        0 <= lowest_low(s) <= highest_high(s) <= MAX_TICKS,
    decreases s.len(),
{
    assert(s.last().1.wf());
    let rest = s.drop_last();
    if s.len() > 1 {
        assert forall|i: int| 0 <= i < rest.len() implies (#[trigger] rest[i]).1.wf() by {
            assert(s[i].1.wf());
        }
        lemma_extremes_in_range(rest);
    } else {
        assert(rest.len() == 0);
        assert(lowest_low(rest) == u64::MAX);
        assert(highest_high(rest) == 0);
    }
}

/// A window sum lies between the window's length times a lower bound of
/// its values and the length times an upper bound.
pub proof fn lemma_range_sum_between(v: Seq<int>, lo: int, hi: int, a: int, b: int)
    requires
        0 <= lo <= hi <= v.len(),
        forall|j: int| lo <= j < hi ==> a <= #[trigger] v[j] <= b,
    ensures
        (hi - lo) * a <= range_sum(v, lo, hi) <= (hi - lo) * b,
    decreases hi - lo,
{
    if hi > lo {
        lemma_range_sum_between(v, lo, hi - 1, a, b);
        assert(a <= v[hi - 1] <= b);
        assert((hi - lo) * a == (hi - 1 - lo) * a + a) by (nonlinear_arith);
        assert((hi - lo) * b == (hi - 1 - lo) * b + b) by (nonlinear_arith);
    } else {
        assert((hi - lo) * a == 0 && (hi - lo) * b == 0) by (nonlinear_arith)
            requires
                hi - lo == 0,
        ;
    }
}

/// A moving average of valid candles lies between the least low and the
/// greatest high, so the indicator lines never leave the price range.
pub proof fn lemma_moving_average_within_extremes(s: Seq<(u64, Candlestick)>, period: int, i: int)
    requires
        1 <= period,
        period - 1 <= i < s.len(),
        forall|j: int| 0 <= j < s.len() ==> (#[trigger] s[j]).1.wf(),
    ensures
        lowest_low(s) <= moving_average_at(s, period, i) <= highest_high(s),
{
    let c = closes(s);
    let a = lowest_low(s);
    let b = highest_high(s);
    assert forall|j: int| i - period + 1 <= j < i + 1 implies a <= #[trigger] c[j] <= b by {
        lemma_extremes_bound_candles(s, j);
        assert(s[j].1.wf());
    }
    lemma_range_sum_between(c, i - period + 1, i + 1, a, b);
    let sum = range_sum(c, i - period + 1, i + 1);
    assert((i + 1 - (i - period + 1)) * a == period * a) by (nonlinear_arith);
    assert((i + 1 - (i - period + 1)) * b == period * b) by (nonlinear_arith);
    lemma_div_is_ordered(period * a, sum, period);
    lemma_div_is_ordered(sum, period * b, period);
    lemma_div_multiples_vanish(a, period);
    lemma_div_multiples_vanish(b, period);
}

/// Copies the newest candles of a listing, at most `max_len` of them.
fn newest_of(data: &[(u64, Candlestick)], max_len: usize) -> (newest: VecDeque<(u64, Candlestick)>)
    ensures
        newest@ == newest_candles(data@, max_len as int),
{
    let n: usize = data.len();
    let start: usize = if n > max_len {
        n - max_len
    } else {
        0
    };
    let mut newest: VecDeque<(u64, Candlestick)> = VecDeque::new();
    let mut i: usize = start;
    while i < n
        invariant
            start <= i <= n,
            n == data@.len(),
            newest@ == data@.subrange(start as int, i as int),
        decreases n - i,
    {
        newest.push_back(data[i]);
        proof {
            assert(newest@ =~= data@.subrange(start as int, i + 1));
        }
        i = i + 1;
    }
    proof {
        assert(data@.subrange(start as int, n as int) =~= data@.skip(start as int));
        assert(data@.skip(0) =~= data@);
    }
    newest
}

/// The price range in which a chart of the series is drawn.
pub fn price_range(candlesticks: &CandlestickSeries) -> (range: (i64, i64))
    requires
        candlesticks.wf(),
    ensures
        (range.0 as int, range.1 as int) == price_range_of(candlesticks@),
{
    let data = candlesticks.entries();
    let n: usize = data.len();
    let ghost s = candlesticks@;
    if n == 0 {
        return (0, EMPTY_RANGE_TOP);
    }
    let mut low: u64 = u64::MAX;
    let mut high: u64 = 0;
    let mut i: usize = 0;
    while i < n
        invariant
            i <= n,
            n == s.len(),
            data@ == s,
            low == lowest_low(s.take(i as int)),
            high == highest_high(s.take(i as int)),
        decreases n - i,
    {
        proof {
            assert(s.take(i + 1).drop_last() =~= s.take(i as int));
            assert(s.take(i + 1).last() == s[i as int]);
        }
        if data[i].1.low < low {
            low = data[i].1.low;
        }
        if data[i].1.high > high {
            high = data[i].1.high;
        }
        i = i + 1;
    }
    proof {
        assert(s.take(n as int) =~= s);
        lemma_extremes_in_range(s);
    }
    let margin: u64 = (high - low) / 10;
    ((low as i64) - (margin as i64), (high as i64) + (margin as i64))
}

impl Chart {
    /// Makes the chart of a series: the newest [`MAX_DATA_POINTS`] candles,
    /// the moving averages over 5, 10, 20 and 200 candles and the RSI over
    /// [`RSI_PERIOD`] moves, all computed over the whole series, and the
    /// price range of the whole series. The RSI line is shown.
    pub fn new(
        candlesticks: &CandlestickSeries,
        candle_type: CandleType,
        show_ma5: bool,
        show_ma10: bool,
        show_ma20: bool,
        show_ma200: bool,
        scored_signals_enabled: bool,
        buy_scored_signals: Vec<(u64, SignalScoring)>,
        sell_scored_signals: Vec<(u64, SignalScoring)>,
    ) -> (chart: Chart)
        requires
            candlesticks.wf(),
        ensures
            chart.candlesticks@ == newest_candles(candlesticks@, MAX_DATA_POINTS as int),
            chart.max_data_points == MAX_DATA_POINTS,
            chart.price_range matches Some(range) && (range.0 as int, range.1 as int)
                == price_range_of(candlesticks@),
            chart.candle_type == candle_type,
            chart.show_ma5 == show_ma5,
            chart.show_ma10 == show_ma10,
            chart.show_ma20 == show_ma20,
            chart.show_ma200 == show_ma200,
            chart.ma5_values@ == moving_average_of(candlesticks@, 5),
            chart.ma10_values@ == moving_average_of(candlesticks@, 10),
            chart.ma20_values@ == moving_average_of(candlesticks@, 20),
            chart.ma200_values@ == moving_average_of(candlesticks@, 200),
            chart.rsi_values@ == rsi_of(candlesticks@, RSI_PERIOD as int),
            chart.show_rsi,
            chart.scored_signals_enabled == scored_signals_enabled,
            chart.buy_scored_signals == buy_scored_signals,
            chart.sell_scored_signals == sell_scored_signals,
    {
        let ma5_values = calculate_moving_average(candlesticks, 5);
        let ma10_values = calculate_moving_average(candlesticks, 10);
        let ma20_values = calculate_moving_average(candlesticks, 20);
        let ma200_values = calculate_moving_average(candlesticks, 200);
        let rsi_values = calculate_rsi(candlesticks, RSI_PERIOD);
        let data = candlesticks.entries();
        let newest = newest_of(data, MAX_DATA_POINTS);
        let price_range = Some(price_range(candlesticks));
        Chart {
            candlesticks: newest,
            max_data_points: MAX_DATA_POINTS,
            price_range,
            candle_type,
            show_ma5,
            show_ma10,
            show_ma20,
            show_ma200,
            ma5_values,
            ma10_values,
            ma20_values,
            ma200_values,
            rsi_values,
            show_rsi: true,
            scored_signals_enabled,
            buy_scored_signals,
            sell_scored_signals,
        }
    }
}

} // verus!
