use futurx::bucket::CandleType;
use futurx::candle::Candlestick;
use futurx::engine::{AggregationEngine, Recomputed};
use futurx::gate::LatestAlerts;
use futurx::series::CandlestickSeries;

const P: u64 = 1_000_000;
const STEP: u64 = 60_000;

fn nothing() -> Recomputed {
    Recomputed {
        alerts: LatestAlerts { buy: None, sell: None },
        announced_buy: None,
        announced_sell: None,
    }
}

#[test]
fn a_trade_is_folded_in_and_the_series_is_clean_again() {
    let mut engine = AggregationEngine::new(CandlestickSeries::new(CandleType::Minute1));
    assert!(engine.scored_signals_enabled());
    assert!(engine.series().is_dirty());
    assert_eq!(engine.on_trade(61_000, 100, 1), nothing());
    assert_eq!(engine.on_trade(62_000, 105, 2), nothing());
    assert_eq!(engine.on_trade(63_000, 95, 3), nothing());
    assert!(!engine.series().is_dirty());
    assert_eq!(
        engine.series().entries().to_vec(),
        vec![(STEP, Candlestick { open: 100, high: 105, low: 95, close: 95, volume: 6 })]
    );
    engine.ingest(125_000, 90, 1);
    assert!(engine.series().is_dirty());
    assert_eq!(engine.series().len(), 2);
    assert_eq!(engine.recompute(false), nothing());
    assert!(!engine.series().is_dirty());
}

#[test]
fn engulfing_candles_stay_below_the_publish_threshold() {
    let mut engine = AggregationEngine::new(CandlestickSeries::new(CandleType::Minute1));
    let mut i: u64 = 0;
    while i < 25 {
        engine.ingest(i * STEP, 50 * P, 1);
        i += 1;
    }
    engine.ingest(25 * STEP, 10 * P, 1);
    engine.ingest(25 * STEP + 1, 8 * P, 1);
    engine.ingest(26 * STEP, 7 * P, 1);
    let told = engine.on_trade(26 * STEP + 1, 12 * P, 1);
    assert_eq!(told, nothing());
    assert!(engine.buy_scored_signals().is_empty());
    assert!(engine.sell_scored_signals().is_empty());
    assert_eq!(engine.series().len(), 27);
}

#[test]
fn turning_scoring_off_and_on() {
    let mut engine = AggregationEngine::new(CandlestickSeries::new(CandleType::Day));
    assert!(!engine.toggle_scored_signals());
    assert!(!engine.scored_signals_enabled());
    assert_eq!(engine.on_trade(5, 1, 1), nothing());
    assert!(!engine.series().is_dirty());
    assert!(engine.toggle_scored_signals());
    assert!(engine.scored_signals_enabled());
}

#[test]
fn the_series_is_replaced_whole() {
    let mut engine = AggregationEngine::new(CandlestickSeries::new(CandleType::Minute1));
    engine.on_trade(5, 1, 1);
    let flat = Candlestick { open: 9, high: 9, low: 9, close: 9, volume: 9 };
    let day = CandlestickSeries::from_entries(CandleType::Day, vec![(86_400_000, flat)]).unwrap();
    engine.replace_series(day);
    assert_eq!(engine.series().granularity(), CandleType::Day);
    assert_eq!(engine.series().entries().to_vec(), vec![(86_400_000, flat)]);
    assert!(engine.series().is_dirty());
    engine.on_trade(86_400_000 + 5, 11, 1);
    assert_eq!(
        engine.series().entries().to_vec(),
        vec![(86_400_000, Candlestick { open: 9, high: 11, low: 9, close: 11, volume: 10 })]
    );
}

#[test]
fn older_candles_come_in_before_the_oldest() {
    let mut engine = AggregationEngine::new(CandlestickSeries::new(CandleType::Minute1));
    engine.on_trade(5 * STEP, 7, 1);
    let flat = Candlestick { open: 9, high: 9, low: 9, close: 9, volume: 9 };
    let older = CandlestickSeries::from_entries(
        CandleType::Minute1,
        vec![(3 * STEP, flat), (4 * STEP, flat), (5 * STEP, flat)],
    )
    .unwrap();
    assert_eq!(engine.merge_backfill(&older), 2);
    let keys: Vec<u64> = engine.series().entries().iter().map(|e| e.0).collect();
    assert_eq!(keys, vec![3 * STEP, 4 * STEP, 5 * STEP]);
    assert_eq!(engine.series().entries()[2].1.close, 7);
}

#[test]
fn the_latest_candle_can_be_taken_out() {
    let mut engine = AggregationEngine::new(CandlestickSeries::new(CandleType::Minute1));
    engine.on_trade(5, 7, 1);
    engine.on_trade(STEP + 5, 8, 2);
    let flat = Candlestick { open: 8, high: 8, low: 8, close: 8, volume: 2 };
    assert_eq!(engine.remove_latest(), Some((STEP, flat)));
    assert_eq!(engine.series().len(), 1);
    assert!(engine.series().is_dirty());
    assert!(engine.remove_latest().is_some());
    assert_eq!(engine.remove_latest(), None);
}

#[test]
fn the_oldest_candles_are_dropped_over_the_capacity() {
    let mut engine = AggregationEngine::new(CandlestickSeries::new(CandleType::Minute1));
    let mut i: u64 = 0;
    while i < 6 {
        engine.on_trade(i * STEP, 7 + i, 1);
        i += 1;
    }
    assert_eq!(engine.evict_oldest_if_over_capacity(6), 0);
    assert!(!engine.series().is_dirty());
    assert_eq!(engine.evict_oldest_if_over_capacity(4), 2);
    assert!(engine.series().is_dirty());
    let keys: Vec<u64> = engine.series().entries().iter().map(|e| e.0).collect();
    assert_eq!(keys, vec![2 * STEP, 3 * STEP, 4 * STEP, 5 * STEP]);
}

#[test]
fn live_trades_and_recomputation_agree() {
    let mut live = AggregationEngine::new(CandlestickSeries::new(CandleType::Minute1));
    let mut anew = AggregationEngine::new(CandlestickSeries::new(CandleType::Minute1));
    let trades: [(u64, u64); 9] = [
        (0, 50),
        (STEP, 10),
        (STEP + 1, 8),
        (2 * STEP, 7),
        (2 * STEP + 5, 12),
        (STEP + 9, 9),
        (5 * STEP, 13),
        (4 * STEP, 6),
        (5 * STEP + 1, 2),
    ];
    for (time, price) in trades {
        let told = live.on_trade(time, price * P, 1);
        anew.ingest(time, price * P, 1);
        assert_eq!(told, anew.recompute(true));
        assert_eq!(live.series().entries(), anew.series().entries());
        assert_eq!(live.buy_scored_signals(), anew.buy_scored_signals());
        assert_eq!(live.sell_scored_signals(), anew.sell_scored_signals());
        assert!(!live.series().is_dirty());
    }
    assert_eq!(live.series().len(), 5);
}
