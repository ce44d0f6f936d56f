//! The aggregation engine: the series with the scorings derived from it.
//!
//! All change goes through the engine. A trade is folded into the series,
//! the scorings are brought up to date with the series as it stands then, and
//! the alerts of the latest candle are read off them. Where the scorings were
//! up to date before a live trade, only the positions from the trade's bucket
//! on are scored again; what comes out is what scoring the whole series gives.

use vstd::prelude::*;
use crate::candle::Candlestick;
use crate::fixed::MAX_TICKS;
use crate::bucket::{bucket_of, bucket_start, CandleType};
use crate::gate::{alert_for, latest_alerts, LatestAlerts};
use crate::patterns::SignalScoring;
use crate::scoring::{
    announced_buy_of, announced_sell_of, buy_scores, calculate_scored_signals,
    lemma_published_below, lemma_scores_are_local, published_buy, published_sell, scorings_below,
    sell_scores, update_scored_signals, ScoredSignals, MIN_LOOKBACK, PUBLISH_THRESHOLD,
};
use crate::series::{
    count_below, has_key, index_of_key, keys_increasing, lemma_count_below_is,
    lemma_partition_point, CandlestickSeries,
};

verus! {

/// What a recomputation gives to tell: the alerts of the latest candle and,
/// on a live update, the scorings of the latest candle that were published.
#[derive(Clone, Copy, Debug, PartialEq, Eq, Structural)]
pub struct Recomputed {
    pub alerts: LatestAlerts,
    pub announced_buy: Option<SignalScoring>,
    pub announced_sell: Option<SignalScoring>,
}

/// The series and the scorings published for it.
pub struct AggregationEngine {
    series: CandlestickSeries,
    scored_signals_enabled: bool,
    buy_scored_signals: Vec<(u64, SignalScoring)>,
    sell_scored_signals: Vec<(u64, SignalScoring)>,
    scores_current: bool,
}

/// The bucket start of the latest entry, if there is one.
pub open spec fn latest_key(s: Seq<(u64, Candlestick)>) -> Option<u64> {
    if s.len() == 0 {
        None
    } else {
        Some(s.last().0)
    }
}

/// What a recomputation over the listing `s` tells while scoring is on.
pub open spec fn recomputed_of(s: Seq<(u64, Candlestick)>, is_realtime: bool) -> Recomputed {
    Recomputed {
        alerts: LatestAlerts {
            buy: alert_for(published_buy(s), latest_key(s)),
            sell: alert_for(published_sell(s), latest_key(s)),
        },
        announced_buy: announced_buy_of(
            s,
            MIN_LOOKBACK as int,
            PUBLISH_THRESHOLD as int,
            is_realtime,
        ),
        announced_sell: announced_sell_of(
            s,
            MIN_LOOKBACK as int,
            PUBLISH_THRESHOLD as int,
            is_realtime,
        ),
    }
}

/// A change of one bucket leaves what is published of the buckets before it:
/// where `after` is `before` with the candle of `key` put in or exchanged,
/// the published scorings of `before` that lie below `key` are what is
/// published of the positions of `after` below that of `key`, and `key` has
/// its position in `after`.
pub proof fn lemma_change_leaves_earlier_scores(
    before: Seq<(u64, Candlestick)>,
    after: Seq<(u64, Candlestick)>,
    key: u64,
)
    requires
        keys_increasing(before),
        keys_increasing(after),
        exists|candle: Candlestick|
            after == before.update(count_below(before, key), (key, candle)) && has_key(before, key)
                || after == before.insert(count_below(before, key), (key, candle)),
    ensures
        count_below(after, key) == count_below(before, key),
        count_below(after, key) < after.len(),
        scorings_below(published_buy(before), key) == buy_scores(
            after,
            MIN_LOOKBACK as int,
            PUBLISH_THRESHOLD as int,
            count_below(after, key),
        ),
        scorings_below(published_sell(before), key) == sell_scores(
            after,
            MIN_LOOKBACK as int,
            PUBLISH_THRESHOLD as int,
            count_below(after, key),
        ),
{
    let p = lemma_partition_point(before, key);
    lemma_count_below_is(before, key, p);
    let candle = choose|candle: Candlestick|
        after == before.update(count_below(before, key), (key, candle)) && has_key(before, key)
            || after == before.insert(count_below(before, key), (key, candle));
    if has_key(before, key) {
        let i = index_of_key(before, key);
        assert(before[i].0 == key);
        assert(p <= i);
        assert(p < before.len());
    }
    assert(after[p] == (key, candle));
    assert forall|i: int| 0 <= i < p implies (#[trigger] after[i]).0 < key by {
        assert(after[i] == before[i]);
    }
    assert forall|i: int| p <= i < after.len() implies (#[trigger] after[i]).0 >= key by {
        if i > p {
            assert(after[p].0 < after[i].0);
        }
    }
    lemma_count_below_is(after, key, p);
    lemma_published_below(
        before,
        MIN_LOOKBACK as int,
        PUBLISH_THRESHOLD as int,
        before.len() as int,
        key,
        p,
    );
    assert forall|i: int| 0 <= i < p implies #[trigger] before[i] == after[i] by {}
    lemma_scores_are_local(before, after, MIN_LOOKBACK as int, PUBLISH_THRESHOLD as int, p);
}

/// What a recomputation tells while scoring is off: nothing.
pub open spec fn nothing_recomputed() -> Recomputed {
    Recomputed {
        alerts: LatestAlerts { buy: None, sell: None },
        announced_buy: None,
        announced_sell: None,
    }
}

impl AggregationEngine {
    /// The series.
    pub closed spec fn spec_series(self) -> CandlestickSeries {
        self.series
    }

    /// Whether scoring is on.
    pub closed spec fn spec_scoring_enabled(self) -> bool {
        self.scored_signals_enabled
    }

    /// The published buy scorings.
    pub closed spec fn spec_buy(self) -> Seq<(u64, SignalScoring)> {
        self.buy_scored_signals@
    }

    /// The published sell scorings.
    pub closed spec fn spec_sell(self) -> Seq<(u64, SignalScoring)> {
        self.sell_scored_signals@
    }

    /// Whether the engine holds that what is published is up to date.
    pub closed spec fn spec_scores_current(self) -> bool {
        self.scores_current
    }

    /// The validity that every operation keeps: the series is valid, and
    /// what is held to be up to date is so.
    pub open spec fn wf(self) -> bool {
        &&& self.spec_series().wf()
        &&& self.spec_scores_current() ==> self.is_current()
    }

    /// Whether the published scorings are those of the series as it stands.
    pub open spec fn is_current(self) -> bool {
        &&& self.spec_buy() == published_buy(self.spec_series()@)
        &&& self.spec_sell() == published_sell(self.spec_series()@)
    }

    /// An engine over the given series, with scoring on and nothing
    /// published yet.
    pub fn new(series: CandlestickSeries) -> (e: AggregationEngine)
        requires
            series.wf(),
        ensures
            e.wf(),
            e.spec_series() == series,
            e.spec_scoring_enabled(),
            e.spec_buy().len() == 0,
            e.spec_sell().len() == 0,
    {
        AggregationEngine {
            series,
            scored_signals_enabled: true,
            buy_scored_signals: Vec::new(),
            sell_scored_signals: Vec::new(),
            scores_current: false,
        }
    }

    /// The series.
    pub fn series(&self) -> (s: &CandlestickSeries)
        ensures
            *s == self.spec_series(),
    {
        &self.series
    }

    /// Whether scoring is on.
    pub fn scored_signals_enabled(&self) -> (b: bool)
        ensures
            b == self.spec_scoring_enabled(),
    {
        self.scored_signals_enabled
    }

    /// The published buy scorings, in ascending order of bucket start.
    pub fn buy_scored_signals(&self) -> (v: &Vec<(u64, SignalScoring)>)
        ensures
            v@ == self.spec_buy(),
    {
        &self.buy_scored_signals
    }

    /// The published sell scorings, in ascending order of bucket start.
    pub fn sell_scored_signals(&self) -> (v: &Vec<(u64, SignalScoring)>)
        ensures
            v@ == self.spec_sell(),
    {
        &self.sell_scored_signals
    }

    /// Turns scoring on if it is off and off if it is on, and returns what
    /// it is then. Turning it off empties the published scorings.
    pub fn toggle_scored_signals(&mut self) -> (enabled: bool)
        ensures
            enabled == !old(self).spec_scoring_enabled(),
            final(self).spec_scoring_enabled() == enabled,
            final(self).spec_series() == old(self).spec_series(),
            old(self).wf() ==> final(self).wf(),
            final(self).spec_buy() == if enabled {
                old(self).spec_buy()
            } else {
                Seq::empty()
            },
            final(self).spec_sell() == if enabled {
                old(self).spec_sell()
            } else {
                Seq::empty()
            },
    {
        self.scored_signals_enabled = !self.scored_signals_enabled;
        self.scores_current = false;
        if !self.scored_signals_enabled {
            self.buy_scored_signals = Vec::new();
            self.sell_scored_signals = Vec::new();
        }
        self.scored_signals_enabled
    }

    /// Folds a trade into the series. What is published is left as it was
    /// until the next recomputation.
    pub fn ingest(&mut self, timestamp_ms: u64, trade_price: u64, trade_volume: u64)
        requires
            old(self).wf(),
            trade_price <= MAX_TICKS,
            trade_volume <= MAX_TICKS,
        ensures
            final(self).wf(),
            final(self).spec_series().spec_granularity() == old(
                self,
            ).spec_series().spec_granularity(),
            final(self).spec_series().spec_is_dirty(),
            final(self).spec_scoring_enabled() == old(self).spec_scoring_enabled(),
            final(self).spec_buy() == old(self).spec_buy(),
            final(self).spec_sell() == old(self).spec_sell(),
            ({
                let before = old(self).spec_series();
                let key = bucket_of(timestamp_ms as int, before.spec_granularity()) as u64;
                let candle = if before.map().contains_key(key) {
                    before.map()[key].absorbing(trade_price, trade_volume)
                } else {
                    Candlestick::opening(trade_price, trade_volume)
                };
                final(self).spec_series().map() == before.map().insert(key, candle)
            }),
    {
        self.scores_current = false;
        self.series.ingest(timestamp_ms, trade_price, trade_volume);
    }

    /// Puts another series in the place of the one held, as on a change of
    /// instrument or granularity, and empties the published scorings.
    pub fn replace_series(&mut self, new_series: CandlestickSeries)
        requires
            new_series.wf(),
        ensures
            final(self).wf(),
            final(self).spec_series()@ == new_series@,
            final(self).spec_series().spec_granularity() == new_series.spec_granularity(),
            final(self).spec_series().spec_is_dirty(),
            final(self).spec_scoring_enabled() == old(self).spec_scoring_enabled(),
            final(self).spec_buy().len() == 0,
            final(self).spec_sell().len() == 0,
    {
        self.scores_current = false;
        self.series.replace(new_series);
        self.buy_scored_signals = Vec::new();
        self.sell_scored_signals = Vec::new();
    }

    /// Takes over older candles as the series does, and returns how many
    /// came in.
    pub fn merge_backfill(&mut self, older: &CandlestickSeries) -> (added: usize)
        requires
            old(self).wf(),
            older.wf(),
        ensures
            final(self).wf(),
            final(self).spec_series().spec_granularity() == old(
                self,
            ).spec_series().spec_granularity(),
            final(self).spec_series()@ == crate::series::backfilled(
                old(self).spec_series()@,
                older@,
                older.spec_granularity() == old(self).spec_series().spec_granularity(),
            ),
            added == final(self).spec_series()@.len() - old(self).spec_series()@.len(),
            final(self).spec_series().spec_is_dirty() == (old(self).spec_series().spec_is_dirty()
                || added > 0),
            final(self).spec_scoring_enabled() == old(self).spec_scoring_enabled(),
            final(self).spec_buy() == old(self).spec_buy(),
            final(self).spec_sell() == old(self).spec_sell(),
    {
        self.scores_current = false;
        self.series.merge_backfill(older)
    }

    /// Drops the oldest candles until at most `max_len` are left, as the
    /// series does, and returns how many were dropped. What is published is
    /// left as it was until the next recomputation.
    pub fn evict_oldest_if_over_capacity(&mut self, max_len: usize) -> (evicted: usize)
        requires
            old(self).wf(),
        ensures
            final(self).wf(),
            final(self).spec_series().spec_granularity() == old(
                self,
            ).spec_series().spec_granularity(),
            evicted == if old(self).spec_series()@.len() > max_len {
                old(self).spec_series()@.len() - max_len
            } else {
                0
            },
            final(self).spec_series()@ == old(self).spec_series()@.skip(evicted as int),
            final(self).spec_series().spec_is_dirty() == (old(self).spec_series().spec_is_dirty()
                || evicted > 0),
            final(self).spec_scoring_enabled() == old(self).spec_scoring_enabled(),
            final(self).spec_buy() == old(self).spec_buy(),
            final(self).spec_sell() == old(self).spec_sell(),
    {
        self.scores_current = false;
        self.series.evict_oldest_if_over_capacity(max_len)
    }

    /// Takes the latest candle out of the series. What is published is left
    /// as it was until the next recomputation.
    pub fn remove_latest(&mut self) -> (removed: Option<(u64, Candlestick)>)
        requires
            old(self).wf(),
        ensures
            final(self).wf(),
            final(self).spec_series().spec_granularity() == old(
                self,
            ).spec_series().spec_granularity(),
            removed == if old(self).spec_series()@.len() == 0 {
                None
            } else {
                Some(old(self).spec_series()@.last())
            },
            final(self).spec_series()@ == if old(self).spec_series()@.len() == 0 {
                old(self).spec_series()@
            } else {
                old(self).spec_series()@.drop_last()
            },
            final(self).spec_series().spec_is_dirty() == (old(self).spec_series().spec_is_dirty()
                || removed.is_some()),
            final(self).spec_scoring_enabled() == old(self).spec_scoring_enabled(),
            final(self).spec_buy() == old(self).spec_buy(),
            final(self).spec_sell() == old(self).spec_sell(),
    {
        self.scores_current = false;
        self.series.remove_latest()
    }

    /// Computes the scorings anew over the series as it stands and reads
    /// the alerts of the latest candle off them. While scoring is off nothing
    /// is computed and nothing told. The series is clean afterwards.
    pub fn recompute(&mut self, is_realtime: bool) -> (told: Recomputed)
        requires
            old(self).wf(),
        ensures
            final(self).wf(),
            final(self).spec_series()@ == old(self).spec_series()@,
            final(self).spec_series().spec_granularity() == old(
                self,
            ).spec_series().spec_granularity(),
            !final(self).spec_series().spec_is_dirty(),
            final(self).spec_scoring_enabled() == old(self).spec_scoring_enabled(),
            old(self).spec_scoring_enabled() ==> final(self).is_current() && told == recomputed_of(
                old(self).spec_series()@,
                is_realtime,
            ),
            !old(self).spec_scoring_enabled() ==> final(self).spec_buy() == old(self).spec_buy()
                && final(self).spec_sell() == old(self).spec_sell() && told
                == nothing_recomputed(),
    {
        let mut told: Recomputed = Recomputed {
            alerts: LatestAlerts { buy: None, sell: None },
            announced_buy: None,
            announced_sell: None,
        };
        if self.scored_signals_enabled {
            let granularity: CandleType = self.series.granularity();
            let scores: ScoredSignals = calculate_scored_signals(
                &self.series,
                is_realtime,
                &granularity,
            );
            let alerts: LatestAlerts = latest_alerts(
                self.series.latest_timestamp(),
                &scores.buy,
                &scores.sell,
            );
            told = Recomputed {
                alerts,
                announced_buy: scores.announced_buy,
                announced_sell: scores.announced_sell,
            };
            self.buy_scored_signals = scores.buy;
            self.sell_scored_signals = scores.sell;
            self.scores_current = true;
        } else {
            self.scores_current = false;
        }
        self.series.mark_clean();
        told
    }

    /// Takes a live trade: folds it into the series and brings the scorings
    /// up to date, as a recomputation of the whole would.
    pub fn on_trade(&mut self, timestamp_ms: u64, trade_price: u64, trade_volume: u64) -> (told:
        Recomputed)
        requires
            old(self).wf(),
            trade_price <= MAX_TICKS,
            trade_volume <= MAX_TICKS,
        ensures
            final(self).wf(),
            final(self).spec_series().spec_granularity() == old(
                self,
            ).spec_series().spec_granularity(),
            !final(self).spec_series().spec_is_dirty(),
            final(self).spec_scoring_enabled() == old(self).spec_scoring_enabled(),
            ({
                let before = old(self).spec_series();
                let key = bucket_of(timestamp_ms as int, before.spec_granularity()) as u64;
                let candle = if before.map().contains_key(key) {
                    before.map()[key].absorbing(trade_price, trade_volume)
                } else {
                    Candlestick::opening(trade_price, trade_volume)
                };
                final(self).spec_series().map() == before.map().insert(key, candle)
            }),
            old(self).spec_scoring_enabled() ==> final(self).is_current() && told == recomputed_of(
                final(self).spec_series()@,
                true,
            ),
            !old(self).spec_scoring_enabled() ==> final(self).spec_buy() == old(self).spec_buy()
                && final(self).spec_sell() == old(self).spec_sell() && told
                == nothing_recomputed(),
    {
        if !self.scored_signals_enabled || !self.scores_current {
            self.ingest(timestamp_ms, trade_price, trade_volume);
            return self.recompute(true);
        }
        let ghost before = self.series@;
        let changed_from: u64 = bucket_start(timestamp_ms, self.series.granularity());
        self.scores_current = false;
        self.series.ingest(timestamp_ms, trade_price, trade_volume);
        let mut buy: Vec<(u64, SignalScoring)> = Vec::new();
        let mut sell: Vec<(u64, SignalScoring)> = Vec::new();
        core::mem::swap(&mut buy, &mut self.buy_scored_signals);
        core::mem::swap(&mut sell, &mut self.sell_scored_signals);
        proof {
            lemma_change_leaves_earlier_scores(before, self.series@, changed_from);
        }
        let scores: ScoredSignals = update_scored_signals(
            &self.series,
            MIN_LOOKBACK,
            PUBLISH_THRESHOLD,
            changed_from,
            buy,
            sell,
            true,
        );
        let alerts: LatestAlerts = latest_alerts(
            self.series.latest_timestamp(),
            &scores.buy,
            &scores.sell,
        );
        self.buy_scored_signals = scores.buy;
        self.sell_scored_signals = scores.sell;
        self.scores_current = true;
        self.series.mark_clean();
        Recomputed {
            alerts,
            announced_buy: scores.announced_buy,
            announced_sell: scores.announced_sell,
        }
    }
}

} // verus!
