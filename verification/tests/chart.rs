use futurx::bucket::CandleType;
use futurx::candle::Candlestick;
use futurx::chart::{price_range, Chart, MAX_DATA_POINTS};
use futurx::patterns::SignalScoring;
use futurx::series::CandlestickSeries;

const STEP: u64 = 60_000;

fn rising_series(n: u64) -> CandlestickSeries {
    let mut entries: Vec<(u64, Candlestick)> = Vec::new();
    let mut i: u64 = 0;
    while i < n {
        let close: u64 = 1_000 + i;
        let c = Candlestick { open: close, high: close + 5, low: close - 5, close, volume: 1 };
        entries.push((i * STEP, c));
        i += 1;
    }
    CandlestickSeries::from_entries(CandleType::Minute1, entries).unwrap()
}

#[test]
fn a_chart_holds_the_newest_thousand_candles() {
    assert_eq!(MAX_DATA_POINTS, 1000);
    let series = rising_series(1_005);
    let chart = Chart::new(
        &series,
        CandleType::Minute1,
        true,
        false,
        true,
        false,
        true,
        Vec::new(),
        Vec::new(),
    );
    assert_eq!(chart.candlesticks.len(), 1000);
    assert_eq!(chart.max_data_points, 1000);
    assert_eq!(chart.candlesticks.front().unwrap().0, 5 * STEP);
    assert_eq!(chart.candlesticks.back().unwrap().0, 1_004 * STEP);
    let kept: Vec<(u64, Candlestick)> = chart.candlesticks.iter().copied().collect();
    assert_eq!(&kept[..], &series.entries()[5..]);
    assert_eq!(chart.ma5_values.len(), 1_001);
    assert_eq!(chart.ma10_values.len(), 996);
    assert_eq!(chart.ma20_values.len(), 986);
    assert_eq!(chart.ma200_values.len(), 806);
    assert_eq!(chart.rsi_values.len(), 991);
    assert_eq!(chart.ma5_values[0], (4 * STEP, 1_002));
    assert_eq!(chart.ma200_values[0], (199 * STEP, 1_099));
    assert_eq!(chart.rsi_values[0], (14 * STEP, 1_000_000));
    assert_eq!(chart.price_range, Some((995 - 101, 2_009 + 101)));
    assert!(chart.show_ma5 && !chart.show_ma10 && chart.show_ma20 && !chart.show_ma200);
    assert!(chart.show_rsi);
    assert!(chart.scored_signals_enabled);
    assert_eq!(chart.candle_type, CandleType::Minute1);
}

#[test]
fn a_chart_of_few_candles_holds_them_all() {
    let series = rising_series(3);
    let marks = vec![(
        STEP,
        SignalScoring {
            bullish_engulfing: 250_000,
            bearish_engulfing: 0,
            morning_star: 0,
            evening_star: 0,
            total_score: 250_000,
        },
    )];
    let chart = Chart::new(
        &series,
        CandleType::Day,
        false,
        false,
        false,
        false,
        false,
        marks.clone(),
        Vec::new(),
    );
    assert_eq!(chart.candlesticks.len(), 3);
    assert!(chart.ma5_values.is_empty());
    assert!(chart.rsi_values.is_empty());
    assert_eq!(chart.buy_scored_signals, marks);
    assert!(chart.sell_scored_signals.is_empty());
    assert!(!chart.scored_signals_enabled);
    assert_eq!(chart.candle_type, CandleType::Day);
}

#[test]
fn the_price_range_is_widened_by_a_tenth() {
    let c = Candlestick { open: 100, high: 110, low: 90, close: 105, volume: 1 };
    let d = Candlestick { open: 105, high: 125, low: 100, close: 120, volume: 1 };
    let series =
        CandlestickSeries::from_entries(CandleType::Minute1, vec![(0, c), (STEP, d)]).unwrap();
    assert_eq!(price_range(&series), (87, 128));
    let flat = Candlestick { open: 3, high: 3, low: 3, close: 3, volume: 1 };
    let series = CandlestickSeries::from_entries(CandleType::Minute1, vec![(0, flat)]).unwrap();
    assert_eq!(price_range(&series), (3, 3));
    let low = Candlestick { open: 1, high: 20, low: 0, close: 1, volume: 1 };
    let series = CandlestickSeries::from_entries(CandleType::Minute1, vec![(0, low)]).unwrap();
    assert_eq!(price_range(&series), (-2, 22));
}

#[test]
fn the_price_range_without_candles() {
    let series = CandlestickSeries::new(CandleType::Minute1);
    assert_eq!(price_range(&series), (0, 100_000_000));
    let chart = Chart::new(
        &series,
        CandleType::Minute1,
        true,
        true,
        true,
        true,
        true,
        Vec::new(),
        Vec::new(),
    );
    assert_eq!(chart.price_range, Some((0, 100_000_000)));
    assert!(chart.candlesticks.is_empty());
}
