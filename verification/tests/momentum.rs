use futurx::bucket::CandleType;
use futurx::candle::Candlestick;
use futurx::momentum::{
    calculate_momentum_signals, momentum_params, momentum_signals, MomentumEvent, MomentumParams,
};
use futurx::series::CandlestickSeries;

const DAY: u64 = 86_400_000;

fn day_series(candles: &[(u64, u64)]) -> CandlestickSeries {
    let mut entries: Vec<(u64, Candlestick)> = Vec::new();
    let mut key: u64 = 0;
    for (close, volume) in candles {
        let c = Candlestick {
            open: *close,
            high: *close,
            low: *close,
            close: *close,
            volume: *volume,
        };
        entries.push((key, c));
        key += DAY;
    }
    CandlestickSeries::from_entries(CandleType::Day, entries).unwrap()
}

fn quiet_then(last_close: u64, last_volume: u64) -> CandlestickSeries {
    let mut candles: Vec<(u64, u64)> = vec![(1_000, 100); 10];
    candles.push((last_close, last_volume));
    day_series(&candles)
}

#[test]
fn parameters_of_each_granularity() {
    assert_eq!(
        momentum_params(CandleType::Minute1),
        MomentumParams { period: 5, momentum_threshold: 500, volume_threshold: 11_000 }
    );
    assert_eq!(
        momentum_params(CandleType::Minute3),
        MomentumParams { period: 5, momentum_threshold: 1_000, volume_threshold: 12_000 }
    );
    assert_eq!(
        momentum_params(CandleType::Day),
        MomentumParams { period: 10, momentum_threshold: 20_000, volume_threshold: 15_000 }
    );
}

#[test]
fn day_buy_signal_strength_grows_with_the_move() {
    let a = calculate_momentum_signals(&quiet_then(1_025, 152), false, &CandleType::Day);
    let b = calculate_momentum_signals(&quiet_then(1_028, 152), false, &CandleType::Day);
    let c = calculate_momentum_signals(&quiet_then(1_035, 152), false, &CandleType::Day);
    let d = calculate_momentum_signals(&quiet_then(1_900, 152), false, &CandleType::Day);
    assert_eq!(a.buy, vec![(10 * DAY, 9_100)]);
    assert_eq!(b.buy, vec![(10 * DAY, 9_400)]);
    assert_eq!(c.buy, vec![(10 * DAY, 9_600)]);
    assert_eq!(d.buy, vec![(10 * DAY, 9_600)]);
    for r in [&a, &b, &c, &d] {
        assert!(r.buy[0].1 > 5_000 && r.buy[0].1 <= 10_000);
        assert!(r.sell.is_empty());
        assert_eq!(r.strong_buy, None);
        assert_eq!(r.strong_sell, None);
    }
}

#[test]
fn strength_is_at_most_one() {
    let r = calculate_momentum_signals(&quiet_then(1_040, 200), false, &CandleType::Day);
    assert_eq!(r.buy, vec![(10 * DAY, 10_000)]);
}

#[test]
fn volume_bonus_starts_above_one_and_a_fifth() {
    let params = MomentumParams { period: 10, momentum_threshold: 20_000, volume_threshold: 10_000 };
    let r = momentum_signals(&quiet_then(1_025, 120), params, false);
    assert_eq!(r.buy, vec![(10 * DAY, 7_500)]);
    let r = momentum_signals(&quiet_then(1_025, 130), params, false);
    assert_eq!(r.buy, vec![(10 * DAY, 8_000)]);
    let r = momentum_signals(&quiet_then(1_025, 101), params, false);
    assert_eq!(r.buy, vec![(10 * DAY, 7_500)]);
}

#[test]
fn thresholds_must_be_exceeded() {
    let at_move = calculate_momentum_signals(&quiet_then(1_020, 200), true, &CandleType::Day);
    assert!(at_move.buy.is_empty() && at_move.sell.is_empty());
    let at_volume = calculate_momentum_signals(&quiet_then(1_040, 150), true, &CandleType::Day);
    assert!(at_volume.buy.is_empty() && at_volume.sell.is_empty());
    let over = calculate_momentum_signals(&quiet_then(1_021, 151), true, &CandleType::Day);
    assert_eq!(over.buy, vec![(10 * DAY, 8_650)]);
}

#[test]
fn day_sell_signal_mirrors_the_buy() {
    let r = calculate_momentum_signals(&quiet_then(975, 152), false, &CandleType::Day);
    assert!(r.buy.is_empty());
    assert_eq!(r.sell, vec![(10 * DAY, 9_100)]);
    let r = calculate_momentum_signals(&quiet_then(980, 152), false, &CandleType::Day);
    assert!(r.sell.is_empty());
}

#[test]
fn strong_signals_are_reported_on_live_updates_only() {
    let series = quiet_then(1_025, 152);
    let live = calculate_momentum_signals(&series, true, &CandleType::Day);
    assert_eq!(
        live.strong_buy,
        Some(MomentumEvent { timestamp: 10 * DAY, price: 1_025, strength: 9_100 })
    );
    assert_eq!(live.strong_sell, None);
    let replay = calculate_momentum_signals(&series, false, &CandleType::Day);
    assert_eq!(replay.strong_buy, None);
    let falling = calculate_momentum_signals(&quiet_then(975, 152), true, &CandleType::Day);
    assert_eq!(
        falling.strong_sell,
        Some(MomentumEvent { timestamp: 10 * DAY, price: 975, strength: 9_100 })
    );
    assert_eq!(falling.strong_buy, None);
}

#[test]
fn a_weak_signal_is_not_reported() {
    let params = MomentumParams { period: 10, momentum_threshold: 1_000, volume_threshold: 10_000 };
    let r = momentum_signals(&quiet_then(1_002, 101), params, true);
    assert_eq!(r.buy, vec![(10 * DAY, 5_200)]);
    assert_eq!(r.strong_buy, None);
    let r = momentum_signals(&quiet_then(1_020, 101), params, true);
    assert_eq!(r.buy, vec![(10 * DAY, 7_000)]);
    assert_eq!(r.strong_buy, None);
    let r = momentum_signals(&quiet_then(1_021, 101), params, true);
    assert_eq!(
        r.strong_buy,
        Some(MomentumEvent { timestamp: 10 * DAY, price: 1_021, strength: 7_100 })
    );
}

#[test]
fn only_the_latest_candle_is_reported() {
    let mut candles: Vec<(u64, u64)> = vec![(1_000, 100); 10];
    candles.push((1_025, 152));
    candles.push((1_000, 100));
    let r = calculate_momentum_signals(&day_series(&candles), true, &CandleType::Day);
    assert_eq!(r.buy, vec![(10 * DAY, 9_100)]);
    assert_eq!(r.strong_buy, None);
}

#[test]
fn momentum_needs_a_full_lookback() {
    let candles: Vec<(u64, u64)> = vec![(1_000, 100); 10];
    let r = calculate_momentum_signals(&day_series(&candles), true, &CandleType::Day);
    assert!(r.buy.is_empty() && r.sell.is_empty());
    let r = calculate_momentum_signals(&day_series(&[]), true, &CandleType::Day);
    assert!(r.buy.is_empty() && r.sell.is_empty());
    assert_eq!(r.strong_buy, None);
}

#[test]
fn signals_come_in_ascending_order() {
    let mut candles: Vec<(u64, u64)> = vec![(1_000, 100); 5];
    candles.push((1_010, 200));
    candles.push((990, 300));
    candles.push((1_010, 400));
    let r = calculate_momentum_signals(&day_series(&candles), false, &CandleType::Minute1);
    assert_eq!(r.buy, vec![(5 * DAY, 8_000), (7 * DAY, 8_000)]);
    assert_eq!(r.sell, vec![(6 * DAY, 8_000)]);
}

#[test]
fn a_zero_past_close_reads_as_an_unbounded_move() {
    let mut candles: Vec<(u64, u64)> = vec![(0, 0); 10];
    candles.push((5, 1));
    let r = calculate_momentum_signals(&day_series(&candles), false, &CandleType::Day);
    assert_eq!(r.buy, vec![(10 * DAY, 10_000)]);
    let mut candles: Vec<(u64, u64)> = vec![(0, 0); 10];
    candles.push((0, 0));
    let r = calculate_momentum_signals(&day_series(&candles), false, &CandleType::Day);
    assert!(r.buy.is_empty() && r.sell.is_empty());
}

#[test]
fn a_period_of_zero_gives_no_signal() {
    let params = MomentumParams { period: 0, momentum_threshold: 0, volume_threshold: 0 };
    let r = momentum_signals(&quiet_then(2_000, 500), params, true);
    assert!(r.buy.is_empty() && r.sell.is_empty());
}

#[test]
fn a_rising_series_gives_buy_strength_between_half_and_one() {
    let mut strengths: Vec<u64> = Vec::new();
    for last_close in [1_021u64, 1_025, 1_029, 1_030, 1_040] {
        let mut candles: Vec<(u64, u64)> = Vec::new();
        let mut i: u64 = 0;
        while i < 10 {
            candles.push((1_000 + 2 * i, 100 + 10 * i));
            i += 1;
        }
        candles.push((last_close, 230));
        let r = calculate_momentum_signals(&day_series(&candles), true, &CandleType::Day);
        assert_eq!(r.buy.len(), 1);
        assert_eq!(r.buy[0].0, 10 * DAY);
        assert!(r.buy[0].1 > 5_000 && r.buy[0].1 <= 10_000);
        assert!(r.sell.is_empty());
        strengths.push(r.buy[0].1);
    }
    assert_eq!(strengths, vec![9_031, 9_431, 9_831, 9_931, 9_931]);
}
