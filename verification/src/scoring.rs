//! Pattern scores combined into a buy track and a sell track.

use vstd::prelude::*;
use crate::bucket::CandleType;
use crate::candle::Candlestick;
use crate::patterns::{
    bearish_engulfing_at, bullish_engulfing_at, evening_star_at, lemma_pattern_scores_bounded,
    morning_star_at, CandlestickPatterns, SignalScoring, MAX_PATTERN_SCORE,
};
use crate::series::{count_below, lemma_count_below_is, CandlestickSeries};

verus! {

/// The number of candles that a position needs before it to be scored.
pub const MIN_LOOKBACK: usize = 20;

/// The total from which a position is published: 70.
pub const PUBLISH_THRESHOLD: u64 = 700_000;

/// The published positions of both tracks, each a list of bucket start and
/// scoring in ascending order of bucket start, and what is to be announced
/// of the latest candle.
pub struct ScoredSignals {
    pub buy: Vec<(u64, SignalScoring)>,
    pub sell: Vec<(u64, SignalScoring)>,
    pub announced_buy: Option<SignalScoring>,
    pub announced_sell: Option<SignalScoring>,
}

/// The buy scoring of position `i`: bullish engulfing and morning star,
/// and their sum.
pub open spec fn buy_scoring_at(s: Seq<(u64, Candlestick)>, i: int) -> SignalScoring {
    SignalScoring {
        bullish_engulfing: bullish_engulfing_at(s, i) as u64,
        bearish_engulfing: 0,
        morning_star: morning_star_at(s, i) as u64,
        evening_star: 0,
        total_score: (bullish_engulfing_at(s, i) + morning_star_at(s, i)) as u64,
    }
}

/// The sell scoring of position `i`: bearish engulfing and evening star,
/// and their sum.
pub open spec fn sell_scoring_at(s: Seq<(u64, Candlestick)>, i: int) -> SignalScoring {
    SignalScoring {
        bullish_engulfing: 0,
        bearish_engulfing: bearish_engulfing_at(s, i) as u64,
        morning_star: 0,
        evening_star: evening_star_at(s, i) as u64,
        total_score: (bearish_engulfing_at(s, i) + evening_star_at(s, i)) as u64,
    }
}

/// The published buy scorings at the positions from `window` up to, not
/// including, `hi`, in ascending order.
pub open spec fn buy_scores(
    s: Seq<(u64, Candlestick)>,
    window: int,
    threshold: int,
    hi: int,
) -> Seq<(u64, SignalScoring)>
    decreases hi,
{
    if hi <= window || hi <= 0 {
        Seq::empty()
    } else if buy_scoring_at(s, hi - 1).total_score >= threshold {
        buy_scores(s, window, threshold, hi - 1).push((s[hi - 1].0, buy_scoring_at(s, hi - 1)))
    } else {
        buy_scores(s, window, threshold, hi - 1)
    }
}

/// The published sell scorings at the positions from `window` up to, not
/// including, `hi`, in ascending order.
pub open spec fn sell_scores(
    s: Seq<(u64, Candlestick)>,
    window: int,
    threshold: int,
    hi: int,
) -> Seq<(u64, SignalScoring)>
    decreases hi,
{
    if hi <= window || hi <= 0 {
        Seq::empty()
    } else if sell_scoring_at(s, hi - 1).total_score >= threshold {
        sell_scores(s, window, threshold, hi - 1).push((s[hi - 1].0, sell_scoring_at(s, hi - 1)))
    } else {
        sell_scores(s, window, threshold, hi - 1)
    }
}

/// What is announced of the buy track: the scoring of the latest candle, if
/// the update is live and that candle is published.
pub open spec fn announced_buy_of(
    s: Seq<(u64, Candlestick)>,
    window: int,
    threshold: int,
    is_realtime: bool,
) -> Option<SignalScoring> {
    let i = s.len() - 1;
    if is_realtime && s.len() > window && buy_scoring_at(s, i).total_score >= threshold {
        Some(buy_scoring_at(s, i))
    } else {
        None
    }
}

/// What is announced of the sell track: the scoring of the latest candle,
/// if the update is live and that candle is published.
pub open spec fn announced_sell_of(
    s: Seq<(u64, Candlestick)>,
    window: int,
    threshold: int,
    is_realtime: bool,
) -> Option<SignalScoring> {
    let i = s.len() - 1;
    if is_realtime && s.len() > window && sell_scoring_at(s, i).total_score >= threshold {
        Some(sell_scoring_at(s, i))
    } else {
        None
    }
}

/// The buy scorings published for a series as it stands.
pub open spec fn published_buy(s: Seq<(u64, Candlestick)>) -> Seq<(u64, SignalScoring)> {
    buy_scores(s, MIN_LOOKBACK as int, PUBLISH_THRESHOLD as int, s.len() as int)
}

/// The sell scorings published for a series as it stands.
pub open spec fn published_sell(s: Seq<(u64, Candlestick)>) -> Seq<(u64, SignalScoring)> {
    sell_scores(s, MIN_LOOKBACK as int, PUBLISH_THRESHOLD as int, s.len() as int)
}

/// A total is the sum of two pattern scores, so it is at most 50.
pub proof fn lemma_total_score_bounded(s: Seq<(u64, Candlestick)>, i: int)
    requires
        0 <= i < s.len(),
    ensures
        buy_scoring_at(s, i).total_score == bullish_engulfing_at(s, i) + morning_star_at(s, i),
        sell_scoring_at(s, i).total_score == bearish_engulfing_at(s, i) + evening_star_at(s, i),
        buy_scoring_at(s, i).total_score <= 2 * MAX_PATTERN_SCORE,
        sell_scoring_at(s, i).total_score <= 2 * MAX_PATTERN_SCORE,
{
    lemma_pattern_scores_bounded(s, i);
}

/// Every published scoring has a total at or above the threshold, and
/// stands under the bucket start of a position with a full lookback.
pub proof fn lemma_published_reach_threshold(
    s: Seq<(u64, Candlestick)>,
    window: int,
    threshold: int,
    hi: int,
    j: int,
)
    requires
        0 <= window,
        hi <= s.len(),
        0 <= j < buy_scores(s, window, threshold, hi).len(),
    ensures
        buy_scores(s, window, threshold, hi)[j].1.total_score >= threshold,
        exists|i: int|
            window <= i < hi && buy_scores(s, window, threshold, hi)[j] == (
                s[i].0,
                #[trigger] buy_scoring_at(s, i),
            ),
    decreases hi,
{
    if hi > window && hi > 0 {
        let rest = buy_scores(s, window, threshold, hi - 1);
        if j < rest.len() {
            lemma_published_reach_threshold(s, window, threshold, hi - 1, j);
            let i = choose|i: int|
                window <= i < hi - 1 && rest[j] == (s[i].0, #[trigger] buy_scoring_at(s, i));
            assert(window <= i < hi && buy_scores(s, window, threshold, hi)[j] == (
                s[i].0,
                buy_scoring_at(s, i),
            ));
        } else {
            assert(buy_scores(s, window, threshold, hi)[j] == (
                s[hi - 1].0,
                buy_scoring_at(s, hi - 1),
            ));
        }
    }
}

/// What is published for the positions below `hi` depends on the candles
/// below `hi` alone: a change at or after `hi` changes nothing before it.
pub proof fn lemma_scores_are_local(
    a: Seq<(u64, Candlestick)>,
    b: Seq<(u64, Candlestick)>,
    window: int,
    threshold: int,
    hi: int,
)
    requires
        hi <= a.len(),
        hi <= b.len(),
        forall|i: int| 0 <= i < hi ==> #[trigger] a[i] == b[i],
    ensures
        buy_scores(a, window, threshold, hi) == buy_scores(b, window, threshold, hi),
        sell_scores(a, window, threshold, hi) == sell_scores(b, window, threshold, hi),
    decreases hi,
{
    if hi > window && hi > 0 {
        lemma_scores_are_local(a, b, window, threshold, hi - 1);
        assert(a[hi - 1] == b[hi - 1]);
        if hi >= 2 {
            assert(a[hi - 2] == b[hi - 2]);
        }
        if hi >= 3 {
            assert(a[hi - 3] == b[hi - 3]);
        }
    }
}

/// With the publish threshold at 70 and a total of at most 50, no position
/// of any series is published on either track.
pub proof fn lemma_publish_threshold_out_of_reach(s: Seq<(u64, Candlestick)>, hi: int)
    requires
        hi <= s.len(),
    ensures
        buy_scores(s, MIN_LOOKBACK as int, PUBLISH_THRESHOLD as int, hi).len() == 0,
        sell_scores(s, MIN_LOOKBACK as int, PUBLISH_THRESHOLD as int, hi).len() == 0,
    decreases hi,
{
    if hi > MIN_LOOKBACK {
        lemma_publish_threshold_out_of_reach(s, hi - 1);
        lemma_total_score_bounded(s, hi - 1);
    }
}

/// The scorings of a list whose bucket start is below `k`.
pub open spec fn scorings_below(list: Seq<(u64, SignalScoring)>, k: u64) -> Seq<
    (u64, SignalScoring),
> {
    list.filter(|e: (u64, SignalScoring)| e.0 < k)
}

/// Where the first `p` bucket starts of a listing are below `k` and the
/// others are not, the published scorings below `k` are those of the
/// positions below `p`.
pub proof fn lemma_published_below(
    s: Seq<(u64, Candlestick)>,
    window: int,
    threshold: int,
    hi: int,
    k: u64,
    p: int,
)
    requires
        0 <= p <= s.len(),
        hi <= s.len(),
        forall|i: int| 0 <= i < p ==> (#[trigger] s[i]).0 < k,
        forall|i: int| p <= i < s.len() ==> (#[trigger] s[i]).0 >= k,
    ensures
        scorings_below(buy_scores(s, window, threshold, hi), k) == buy_scores(
            s,
            window,
            threshold,
            if hi < p {
                hi
            } else {
                p
            },
        ),
        scorings_below(sell_scores(s, window, threshold, hi), k) == sell_scores(
            s,
            window,
            threshold,
            if hi < p {
                hi
            } else {
                p
            },
        ),
    decreases hi,
{
    reveal(Seq::filter);
    if hi <= window || hi <= 0 {
        assert(buy_scores(s, window, threshold, hi).len() == 0);
        assert(sell_scores(s, window, threshold, hi).len() == 0);
        let lo = if hi < p {
            hi
        } else {
            p
        };
        assert(buy_scores(s, window, threshold, lo).len() == 0);
        assert(sell_scores(s, window, threshold, lo).len() == 0);
        assert(scorings_below(buy_scores(s, window, threshold, hi), k) =~= buy_scores(
            s,
            window,
            threshold,
            lo,
        ));
        assert(scorings_below(sell_scores(s, window, threshold, hi), k) =~= sell_scores(
            s,
            window,
            threshold,
            lo,
        ));
    } else {
        lemma_published_below(s, window, threshold, hi - 1, k, p);
        let buy_rest = buy_scores(s, window, threshold, hi - 1);
        let sell_rest = sell_scores(s, window, threshold, hi - 1);
        let buy_entry = (s[hi - 1].0, buy_scoring_at(s, hi - 1));
        let sell_entry = (s[hi - 1].0, sell_scoring_at(s, hi - 1));
        assert(buy_rest.push(buy_entry).drop_last() =~= buy_rest);
        assert(sell_rest.push(sell_entry).drop_last() =~= sell_rest);
        if hi - 1 < p {
            assert(s[hi - 1].0 < k);
        } else {
            assert(s[hi - 1].0 >= k);
        }
    }
}

/// Keeps the scorings of a list whose bucket start is below `k`.
fn keep_below(list: Vec<(u64, SignalScoring)>, k: u64) -> (kept: Vec<(u64, SignalScoring)>)
    ensures
        kept@ == scorings_below(list@, k),
{
    let mut kept: Vec<(u64, SignalScoring)> = Vec::new();
    let n: usize = list.len();
    let mut i: usize = 0;
    proof {
        reveal(Seq::filter);
        assert(list@.take(0).len() == 0);
    }
    while i < n
        invariant
            i <= n,
            n == list@.len(),
            kept@ == scorings_below(list@.take(i as int), k),
        decreases n - i,
    {
        proof {
            reveal(Seq::filter);
            assert(list@.take(i + 1).drop_last() =~= list@.take(i as int));
            assert(list@.take(i + 1).last() == list@[i as int]);
        }
        if list[i].0 < k {
            kept.push(list[i]);
        }
        i = i + 1;
    }
    proof {
        assert(list@.take(n as int) =~= list@);
    }
    kept
}

/// Scores the positions from `from` on and adds those that are published
/// to lists that hold what is published of the positions before.
fn continue_scoring(
    data: &[(u64, Candlestick)],
    window: usize,
    threshold: u64,
    is_realtime: bool,
    from: usize,
    published_buy: Vec<(u64, SignalScoring)>,
    published_sell: Vec<(u64, SignalScoring)>,
) -> (r: ScoredSignals)
    requires
        window <= from < data@.len(),
        published_buy@ == buy_scores(data@, window as int, threshold as int, from as int),
        published_sell@ == sell_scores(data@, window as int, threshold as int, from as int),
    ensures
        r.buy@ == buy_scores(data@, window as int, threshold as int, data@.len() as int),
        r.sell@ == sell_scores(data@, window as int, threshold as int, data@.len() as int),
        r.announced_buy == announced_buy_of(data@, window as int, threshold as int, is_realtime),
        r.announced_sell == announced_sell_of(
            data@,
            window as int,
            threshold as int,
            is_realtime,
        ),
{
    let n: usize = data.len();
    let ghost s = data@;
    let mut buy: Vec<(u64, SignalScoring)> = published_buy;
    let mut sell: Vec<(u64, SignalScoring)> = published_sell;
    let mut announced_buy: Option<SignalScoring> = None;
    let mut announced_sell: Option<SignalScoring> = None;
    let mut i: usize = from;
    while i < n
        invariant
            window <= i <= n,
            window < n,
            n == s.len(),
            data@ == s,
            buy@ == buy_scores(s, window as int, threshold as int, i as int),
            sell@ == sell_scores(s, window as int, threshold as int, i as int),
            i < n ==> announced_buy.is_none() && announced_sell.is_none(),
            i == n ==> announced_buy == announced_buy_of(
                s,
                window as int,
                threshold as int,
                is_realtime,
            ) && announced_sell == announced_sell_of(
                s,
                window as int,
                threshold as int,
                is_realtime,
            ),
        decreases n - i,
    {
        let timestamp: u64 = data[i].0;
        let mut scoring: SignalScoring = SignalScoring::new();
        scoring.bullish_engulfing = CandlestickPatterns::detect_bullish_engulfing(data, i);
        scoring.morning_star = CandlestickPatterns::detect_morning_star(data, i);
        let buy_total: u64 = scoring.bullish_engulfing + scoring.morning_star;
        scoring.total_score = buy_total;
        if buy_total >= threshold {
            buy.push((timestamp, scoring));
            if is_realtime && i == n - 1 {
                announced_buy = Some(scoring);
            }
        }
        let mut sell_scoring: SignalScoring = SignalScoring::new();
        sell_scoring.bearish_engulfing = CandlestickPatterns::detect_bearish_engulfing(data, i);
        sell_scoring.evening_star = CandlestickPatterns::detect_evening_star(data, i);
        let sell_total: u64 = sell_scoring.bearish_engulfing + sell_scoring.evening_star;
        sell_scoring.total_score = sell_total;
        if sell_total >= threshold {
            sell.push((timestamp, sell_scoring));
            if is_realtime && i == n - 1 {
                announced_sell = Some(sell_scoring);
            }
        }
        i = i + 1;
    }
    ScoredSignals { buy, sell, announced_buy, announced_sell }
}

/// Scores every position that has `window` candles before it and publishes
/// those whose total reaches `threshold`.
pub fn scored_signals(
    series: &CandlestickSeries,
    window: usize,
    threshold: u64,
    is_realtime: bool,
) -> (r: ScoredSignals)
    ensures
        r.buy@ == buy_scores(series@, window as int, threshold as int, series@.len() as int),
        r.sell@ == sell_scores(series@, window as int, threshold as int, series@.len() as int),
        r.announced_buy == announced_buy_of(series@, window as int, threshold as int, is_realtime),
        r.announced_sell == announced_sell_of(
            series@,
            window as int,
            threshold as int,
            is_realtime,
        ),
{
    let data = series.entries();
    if data.len() <= window {
        return ScoredSignals {
            buy: Vec::new(),
            sell: Vec::new(),
            announced_buy: None,
            announced_sell: None,
        };
    }
    continue_scoring(data, window, threshold, is_realtime, window, Vec::new(), Vec::new())
}

/// Brings published scorings up to date after a change of the series
/// that left every candle before the bucket start `changed_from` as it was,
/// by scoring only the positions from that bucket on. The lists handed in
/// may hold anything at or after `changed_from`; below it they hold what is
/// published of the series. The result is that of scoring the whole series.
pub fn update_scored_signals(
    series: &CandlestickSeries,
    window: usize,
    threshold: u64,
    changed_from: u64,
    buy: Vec<(u64, SignalScoring)>,
    sell: Vec<(u64, SignalScoring)>,
    is_realtime: bool,
) -> (r: ScoredSignals)
    requires
        series.wf(),
        count_below(series@, changed_from) < series@.len(),
        scorings_below(buy@, changed_from) == buy_scores(
            series@,
            window as int,
            threshold as int,
            count_below(series@, changed_from),
        ),
        scorings_below(sell@, changed_from) == sell_scores(
            series@,
            window as int,
            threshold as int,
            count_below(series@, changed_from),
        ),
    ensures
        r.buy@ == buy_scores(series@, window as int, threshold as int, series@.len() as int),
        r.sell@ == sell_scores(series@, window as int, threshold as int, series@.len() as int),
        r.announced_buy == announced_buy_of(series@, window as int, threshold as int, is_realtime),
        r.announced_sell == announced_sell_of(
            series@,
            window as int,
            threshold as int,
            is_realtime,
        ),
{
    let data = series.entries();
    let n: usize = data.len();
    let ghost s = series@;
    let mut p: usize = n;
    while p > 0 && data[p - 1].0 >= changed_from
        invariant
            p <= n,
            n == s.len(),
            data@ == s,
            forall|i: int| p <= i < n ==> (#[trigger] s[i]).0 >= changed_from,
        decreases p,
    {
        p = p - 1;
    }
    proof {
        assert forall|i: int| 0 <= i < p implies (#[trigger] s[i]).0 < changed_from by {
            if i < p - 1 {
                assert(s[i].0 < s[p - 1].0);
            }
        }
        lemma_count_below_is(s, changed_from, p as int);
    }
    if n <= window {
        return ScoredSignals {
            buy: Vec::new(),
            sell: Vec::new(),
            announced_buy: None,
            announced_sell: None,
        };
    }
    let kept_buy = keep_below(buy, changed_from);
    let kept_sell = keep_below(sell, changed_from);
    let from: usize = if p < window {
        window
    } else {
        p
    };
    continue_scoring(data, window, threshold, is_realtime, from, kept_buy, kept_sell)
}

/// Scores every position that has [`MIN_LOOKBACK`] candles before it and
/// publishes those whose total reaches [`PUBLISH_THRESHOLD`]. The scoring
/// is the same for every granularity.
pub fn calculate_scored_signals(
    candlesticks: &CandlestickSeries,
    is_realtime: bool,
    candle_type: &CandleType,
) -> (r: ScoredSignals)
    ensures
        r.buy@ == buy_scores(
            candlesticks@,
            MIN_LOOKBACK as int,
            PUBLISH_THRESHOLD as int,
            candlesticks@.len() as int,
        ),
        r.sell@ == sell_scores(
            candlesticks@,
            MIN_LOOKBACK as int,
            PUBLISH_THRESHOLD as int,
            candlesticks@.len() as int,
        ),
        r.announced_buy == announced_buy_of(
            candlesticks@,
            MIN_LOOKBACK as int,
            PUBLISH_THRESHOLD as int,
            is_realtime,
        ),
        r.announced_sell == announced_sell_of(
            candlesticks@,
            MIN_LOOKBACK as int,
            PUBLISH_THRESHOLD as int,
            is_realtime,
        ),
{
    scored_signals(candlesticks, MIN_LOOKBACK, PUBLISH_THRESHOLD, is_realtime)
}

} // verus!
