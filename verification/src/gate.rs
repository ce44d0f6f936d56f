//! The decision gate between signals and orders.
//!
//! It reads the scores of the latest candle and raises an alert where
//! one is high enough. A trade signal always raises an alert; it becomes a
//! trade intent only while automatic trading is on and the cooldown since the
//! last intent has passed. The clock is a count of milliseconds that never
//! runs backwards, handed in by the caller.

use vstd::prelude::*;
use crate::bucket::CandleType;
use crate::indicators::{calculate_moving_average, calculate_rsi, moving_average_of, rsi_of};
use crate::momentum::{latest_volume_ratio, momentum_params, params_for, volume_ratio_at};
use crate::patterns::SignalScoring;
use crate::series::CandlestickSeries;

verus! {

/// The time that must pass after a trade intent before the next one.
pub const COOLDOWN_MS: u64 = 60_000;

/// The total from which the latest candle raises an alert: 85.
pub const ALERT_THRESHOLD: u64 = 850_000;

/// The direction of a trade.
#[derive(Clone, Copy, Debug, PartialEq, Eq, Structural)]
pub enum TradeType {
    Buy,
    Sell,
}

/// The indicator values that go with a trade intent, for the record.
#[derive(Clone, Copy, Debug, PartialEq, Eq, Structural)]
pub struct TradeIndicators {
    pub rsi: u64,
    pub ma5: u64,
    pub ma20: u64,
    pub volume_ratio: u64,
}

/// A trade that is asked of the execution side.
#[derive(Clone, Copy, Debug, PartialEq, Eq, Structural)]
pub struct TradeIntent {
    pub direction: TradeType,
    pub price: u64,
    pub strength: u64,
    pub timestamp: u64,
    pub indicators: TradeIndicators,
}

/// An order book without entries.
#[derive(Clone, Copy, Debug)]
pub struct OrderBool {}

/// The alerts that the latest candle raises: for each track the total, if
/// it reaches [`ALERT_THRESHOLD`].
#[derive(Clone, Copy, Debug, PartialEq, Eq, Structural)]
pub struct LatestAlerts {
    pub buy: Option<u64>,
    pub sell: Option<u64>,
}

/// The state kept between signals.
#[derive(Clone, Copy, Debug, PartialEq, Eq, Structural)]
pub struct SignalGate {
    pub auto_trading_enabled: bool,
    pub last_trade_time: Option<u64>,
}

/// The last scoring that a list holds for a bucket start.
pub open spec fn scoring_for(list: Seq<(u64, SignalScoring)>, timestamp: u64) -> Option<
    SignalScoring,
>
    decreases list.len(),
{
    if list.len() == 0 {
        None
    } else if list.last().0 == timestamp {
        Some(list.last().1)
    } else {
        scoring_for(list.drop_last(), timestamp)
    }
}

/// The alert that a list of published scorings raises for the latest bucket
/// start: the total there, if there is one and it reaches the threshold.
pub open spec fn alert_for(list: Seq<(u64, SignalScoring)>, latest: Option<u64>) -> Option<u64> {
    match latest {
        None => None,
        Some(t) => match scoring_for(list, t) {
            Some(scoring) => if scoring.total_score >= ALERT_THRESHOLD {
                Some(scoring.total_score)
            } else {
                None
            },
            None => None,
        },
    }
}

/// The time since the last trade intent: zero where the clock reads less
/// than it did then.
pub open spec fn elapsed_since(last: u64, now: u64) -> int {
    if now >= last {
        now - last
    } else {
        0
    }
}

impl SignalGate {
    /// Whether a trade signal at `now` becomes a trade intent.
    pub open spec fn allows(self, now: u64) -> bool {
        self.auto_trading_enabled && match self.last_trade_time {
            None => true,
            Some(last) => elapsed_since(last, now) > COOLDOWN_MS,
        }
    }

    /// The state after a trade signal at `now`.
    pub open spec fn after_signal(self, now: u64) -> SignalGate {
        if self.allows(now) {
            SignalGate { auto_trading_enabled: true, last_trade_time: Some(now) }
        } else {
            self
        }
    }

    /// The number of trade intents that the signals at the given times
    /// give, taken in turn.
    pub open spec fn intents(self, times: Seq<u64>) -> nat
        decreases times.len(),
    {
        if times.len() == 0 {
            0
        } else {
            let rest = self.after_signal(times[0]).intents(times.skip(1));
            if self.allows(times[0]) {
                rest + 1
            } else {
                rest
            }
        }
    }

    /// A gate with automatic trading off that has not traded.
    pub fn new() -> (g: SignalGate)
        ensures
            g == (SignalGate { auto_trading_enabled: false, last_trade_time: None }),
    {
        SignalGate { auto_trading_enabled: false, last_trade_time: None }
    }

    /// Turns automatic trading on if it is off and off if it is on, and
    /// returns what it is then.
    pub fn toggle_auto_trading(&mut self) -> (enabled: bool)
        ensures
            enabled == !old(self).auto_trading_enabled,
            *final(self) == (SignalGate { auto_trading_enabled: enabled, ..*old(self) }),
    {
        self.auto_trading_enabled = !self.auto_trading_enabled;
        self.auto_trading_enabled
    }

    /// Whether a trade signal at `now_ms` would become a trade intent.
    pub fn can_trade(&self, now_ms: u64) -> (ok: bool)
        ensures
            ok == self.allows(now_ms),
    {
        if !self.auto_trading_enabled {
            return false;
        }
        match self.last_trade_time {
            None => true,
            Some(last) => now_ms >= last && now_ms - last > COOLDOWN_MS,
        }
    }

    /// Takes a trade signal at `now_ms`. Where it is allowed, the
    /// intent is handed back for dispatch and the cooldown starts anew;
    /// otherwise nothing is handed back and the state stays as it is. What
    /// becomes of a dispatched intent is not reported back.
    pub fn on_trade_signal(&mut self, now_ms: u64, intent: TradeIntent) -> (dispatch: Option<
        TradeIntent,
    >)
        ensures
            dispatch == if old(self).allows(now_ms) {
                Some(intent)
            } else {
                None
            },
            *final(self) == old(self).after_signal(now_ms),
    {
        if self.can_trade(now_ms) {
            self.last_trade_time = Some(now_ms);
            Some(intent)
        } else {
            None
        }
    }
}

/// Looks up the scoring of a bucket start in a list of published scorings.
pub fn find_scoring(list: &Vec<(u64, SignalScoring)>, timestamp: u64) -> (r: Option<SignalScoring>)
    ensures
        r == scoring_for(list@, timestamp),
{
    let mut i: usize = list.len();
    proof {
        assert(list@.take(i as int) =~= list@);
    }
    while i > 0
        invariant
            i <= list@.len(),
            scoring_for(list@, timestamp) == scoring_for(list@.take(i as int), timestamp),
        decreases i,
    {
        proof {
            assert(list@.take(i as int).drop_last() =~= list@.take(i - 1));
        }
        if list[i - 1].0 == timestamp {
            return Some(list[i - 1].1);
        }
        i = i - 1;
    }
    proof {
        assert(list@.take(0).len() == 0);
    }
    None
}

/// The alerts that the scores at the latest bucket start raise. Scores at
/// earlier bucket starts raise none.
pub fn latest_alerts(
    latest_timestamp: Option<u64>,
    buy_scores: &Vec<(u64, SignalScoring)>,
    sell_scores: &Vec<(u64, SignalScoring)>,
) -> (alerts: LatestAlerts)
    ensures
        alerts.buy == alert_for(buy_scores@, latest_timestamp),
        alerts.sell == alert_for(sell_scores@, latest_timestamp),
{
    match latest_timestamp {
        None => LatestAlerts { buy: None, sell: None },
        Some(t) => {
            let buy: Option<u64> = match find_scoring(buy_scores, t) {
                Some(scoring) => if scoring.total_score >= ALERT_THRESHOLD {
                    Some(scoring.total_score)
                } else {
                    None
                },
                None => None,
            };
            let sell: Option<u64> = match find_scoring(sell_scores, t) {
                Some(scoring) => if scoring.total_score >= ALERT_THRESHOLD {
                    Some(scoring.total_score)
                } else {
                    None
                },
                None => None,
            };
            LatestAlerts { buy, sell }
        },
    }
}

/// The value of the last entry of an indicator list; zero for an empty
/// list.
pub open spec fn last_value(values: Seq<(u64, u64)>) -> u64 {
    if values.len() == 0 {
        0
    } else {
        values.last().1
    }
}

/// The indicator values of the latest candle: the RSI over 14 moves, the
/// moving averages over 5 and 20 candles, and the ratio of the volume to the
/// mean volume of the lookback of the granularity's momentum parameters.
/// An indicator that has no value yet counts as zero.
pub fn indicator_snapshot(series: &CandlestickSeries, candle_type: CandleType) -> (snapshot:
    TradeIndicators)
    requires
        series.wf(),
    ensures
        snapshot.rsi == last_value(rsi_of(series@, 14)),
        snapshot.ma5 == last_value(moving_average_of(series@, 5)),
        snapshot.ma20 == last_value(moving_average_of(series@, 20)),
        snapshot.volume_ratio == volume_ratio_at(
            series@,
            params_for(candle_type).period as int,
            series@.len() - 1,
        ),
{
    let rsi = calculate_rsi(series, 14);
    let ma5 = calculate_moving_average(series, 5);
    let ma20 = calculate_moving_average(series, 20);
    let volume_ratio: u64 = latest_volume_ratio(series, momentum_params(candle_type).period);
    TradeIndicators {
        rsi: last_of(&rsi),
        ma5: last_of(&ma5),
        ma20: last_of(&ma20),
        volume_ratio,
    }
}

/// The value of the last entry of an indicator list.
fn last_of(values: &Vec<(u64, u64)>) -> (value: u64)
    ensures
        value == last_value(values@),
{
    let n: usize = values.len();
    if n == 0 {
        0
    } else {
        values[n - 1].1
    }
}

/// With automatic trading off no signal becomes a trade intent, whatever
/// the times and however many the signals.
pub proof fn lemma_disabled_gate_never_dispatches(gate: SignalGate, times: Seq<u64>)
    requires
        !gate.auto_trading_enabled,
    ensures
        gate.intents(times) == 0,
    decreases times.len(),
{
    if times.len() > 0 {
        lemma_disabled_gate_never_dispatches(gate.after_signal(times[0]), times.skip(1));
    }
}

/// Where automatic trading is on and nothing has been traded yet, a signal
/// becomes a trade intent whatever the time.
pub proof fn lemma_first_signal_passes(gate: SignalGate, now: u64)
    requires
        gate.auto_trading_enabled,
        gate.last_trade_time.is_none(),
    ensures
        gate.allows(now),
        gate.after_signal(now).last_trade_time == Some(now),
{
}

/// Of two signals of which the first becomes a trade intent, the second
/// does so exactly when it comes more than the cooldown after the first.
pub proof fn lemma_cooldown_between_two_signals(gate: SignalGate, first: u64, second: u64)
    requires
        gate.allows(first),
        first <= second,
    ensures
        gate.intents(seq![first, second]) == if second - first > COOLDOWN_MS {
            2nat
        } else {
            1nat
        },
{
    let times = seq![first, second];
    let after_first = gate.after_signal(first);
    assert(times.skip(1) =~= seq![second]);
    assert(seq![second].skip(1) =~= Seq::<u64>::empty());
    assert(after_first.after_signal(second).intents(Seq::<u64>::empty()) == 0);
    assert(times[0] == first);
    assert(seq![second][0] == second);
    reveal_with_fuel(SignalGate::intents, 3);
}

/// After a trade intent no signal gets through until more than
/// the cooldown has passed, in either direction.
pub proof fn lemma_cooldown_holds(gate: SignalGate, traded_at: u64, now: u64)
    requires
        gate.last_trade_time == Some(traded_at),
        elapsed_since(traded_at, now) <= COOLDOWN_MS,
    ensures
        !gate.allows(now),
        gate.after_signal(now) == gate,
{
}

} // verus!
