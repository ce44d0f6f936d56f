use futurx::bucket::{bucket_start, CandleType};
use futurx::candle::{trade_in_range, Candlestick};
use futurx::fixed::MAX_TICKS;
use futurx::series::CandlestickSeries;

fn flat(price: u64, volume: u64) -> Candlestick {
    Candlestick { open: price, high: price, low: price, close: price, volume }
}

fn minute_series(keys: &[u64]) -> CandlestickSeries {
    let mut entries: Vec<(u64, Candlestick)> = Vec::new();
    for key in keys {
        entries.push((*key, flat(*key / 1000 + 1, 1)));
    }
    CandlestickSeries::from_entries(CandleType::Minute1, entries).unwrap()
}

fn keys_of(series: &CandlestickSeries) -> Vec<u64> {
    series.entries().iter().map(|e| e.0).collect()
}

#[test]
fn three_trades_in_one_bucket() {
    let mut series = CandlestickSeries::new(CandleType::Minute1);
    series.ingest(120_000, 100, 1);
    series.ingest(130_000, 105, 2);
    series.ingest(179_999, 95, 3);
    assert_eq!(series.len(), 1);
    assert_eq!(
        series.entries()[0],
        (120_000, Candlestick { open: 100, high: 105, low: 95, close: 95, volume: 6 })
    );
}

#[test]
fn bucket_start_rounds_down_to_the_width() {
    assert_eq!(bucket_start(0, CandleType::Minute1), 0);
    assert_eq!(bucket_start(59_999, CandleType::Minute1), 0);
    assert_eq!(bucket_start(60_000, CandleType::Minute1), 60_000);
    assert_eq!(bucket_start(179_999, CandleType::Minute3), 0);
    assert_eq!(bucket_start(180_000, CandleType::Minute3), 180_000);
    assert_eq!(bucket_start(86_400_001, CandleType::Day), 86_400_000);
    assert_eq!(bucket_start(1_700_000_123_456, CandleType::Day), 1_699_920_000_000);
    assert_eq!(bucket_start(u64::MAX, CandleType::Minute1), 18_446_744_073_709_500_000);
}

#[test]
fn bucket_start_is_idempotent_and_monotonic() {
    let stamps: [u64; 6] = [0, 1, 59_999, 60_000, 1_700_000_123_456, u64::MAX];
    for g in [CandleType::Minute1, CandleType::Minute3, CandleType::Day] {
        let mut previous: u64 = 0;
        for t in stamps {
            let once = bucket_start(t, g);
            assert_eq!(bucket_start(once, g), once);
            assert_eq!(once % g.bucket_width(), 0);
            assert!(once <= t && t - once < g.bucket_width());
            assert!(previous <= once);
            previous = once;
        }
    }
}

#[test]
fn bucket_widths_and_labels() {
    assert_eq!(CandleType::Minute1.bucket_width(), 60_000);
    assert_eq!(CandleType::Minute3.bucket_width(), 180_000);
    assert_eq!(CandleType::Day.bucket_width(), 86_400_000);
    assert_eq!(CandleType::Minute1.label(), "1Minute");
    assert_eq!(CandleType::Minute3.label(), "3Minute");
    assert_eq!(CandleType::Day.label(), "Day");
}

#[test]
fn trades_out_of_order_land_in_ascending_buckets() {
    let mut series = CandlestickSeries::new(CandleType::Minute1);
    series.ingest(185_000, 30, 1);
    series.ingest(65_000, 10, 1);
    series.ingest(125_000, 20, 1);
    series.ingest(66_000, 12, 4);
    assert_eq!(keys_of(&series), vec![60_000, 120_000, 180_000]);
    assert_eq!(
        series.entries()[0].1,
        Candlestick { open: 10, high: 12, low: 10, close: 12, volume: 5 }
    );
    assert_eq!(series.entries()[1].1, flat(20, 1));
    assert_eq!(series.entries()[2].1, flat(30, 1));
    assert_eq!(series.oldest_timestamp(), Some(60_000));
    assert_eq!(series.latest_timestamp(), Some(180_000));
}

#[test]
fn a_candle_keeps_its_open_and_widens() {
    let mut candle = Candlestick::from_trade(50, 2);
    assert_eq!(candle, flat(50, 2));
    candle.apply_trade(40, 1);
    candle.apply_trade(70, 1);
    candle.apply_trade(60, 1);
    assert_eq!(candle, Candlestick { open: 50, high: 70, low: 40, close: 60, volume: 5 });
    assert!(candle.is_valid());
}

#[test]
fn volume_stops_at_the_largest_quantity() {
    let mut series = CandlestickSeries::new(CandleType::Day);
    series.ingest(5, 1, MAX_TICKS);
    series.ingest(6, 1, 7);
    assert_eq!(series.entries()[0].1.volume, MAX_TICKS);
    assert!(trade_in_range(MAX_TICKS, MAX_TICKS));
    assert!(!trade_in_range(MAX_TICKS + 1, 0));
    assert!(!trade_in_range(0, MAX_TICKS + 1));
}

#[test]
fn candle_validity() {
    assert!(Candlestick { open: 5, high: 9, low: 1, close: 9, volume: 0 }.is_valid());
    assert!(!Candlestick { open: 5, high: 4, low: 1, close: 3, volume: 0 }.is_valid());
    assert!(!Candlestick { open: 5, high: 9, low: 6, close: 7, volume: 0 }.is_valid());
    assert!(!Candlestick { open: 5, high: 9, low: 1, close: 10, volume: 0 }.is_valid());
    assert!(!Candlestick { open: 5, high: 9, low: 6, close: 5, volume: 0 }.is_valid());
    assert!(!Candlestick { open: 1, high: MAX_TICKS + 1, low: 1, close: 1, volume: 0 }.is_valid());
    assert!(!Candlestick { open: 1, high: 1, low: 1, close: 1, volume: MAX_TICKS + 1 }.is_valid());
}

#[test]
fn from_entries_takes_only_valid_listings() {
    let a = flat(10, 1);
    assert!(CandlestickSeries::from_entries(CandleType::Minute1, vec![]).is_some());
    assert!(
        CandlestickSeries::from_entries(CandleType::Minute1, vec![(0, a), (60_000, a)]).is_some()
    );
    assert!(
        CandlestickSeries::from_entries(CandleType::Minute1, vec![(60_000, a), (0, a)]).is_none()
    );
    assert!(
        CandlestickSeries::from_entries(CandleType::Minute1, vec![(60_000, a), (60_000, a)])
            .is_none()
    );
    assert!(CandlestickSeries::from_entries(CandleType::Minute1, vec![(60_001, a)]).is_none());
    assert!(CandlestickSeries::from_entries(CandleType::Minute3, vec![(60_000, a)]).is_none());
    assert!(CandlestickSeries::from_entries(CandleType::Day, vec![(86_400_000, a)]).is_some());
    let bad = Candlestick { open: 5, high: 4, low: 1, close: 3, volume: 0 };
    assert!(CandlestickSeries::from_entries(CandleType::Minute1, vec![(0, bad)]).is_none());
    let made = CandlestickSeries::from_entries(CandleType::Minute1, vec![(0, a), (120_000, a)])
        .unwrap();
    assert_eq!(made.len(), 2);
    assert_eq!(made.granularity(), CandleType::Minute1);
    assert!(made.is_dirty());
}

#[test]
fn merge_backfill_takes_only_older_candles() {
    let mut series = minute_series(&[300_000, 360_000]);
    let before = series.entries().to_vec();
    let older = minute_series(&[120_000, 180_000, 300_000, 360_000, 420_000]);
    let added = series.merge_backfill(&older);
    assert_eq!(added, 2);
    assert_eq!(keys_of(&series), vec![120_000, 180_000, 300_000, 360_000]);
    assert_eq!(&series.entries()[2..], &before[..]);
    assert_eq!(series.entries()[0], older.entries()[0]);
    assert_eq!(series.oldest_timestamp(), Some(120_000));
}

#[test]
fn merge_backfill_never_overwrites() {
    let mut series = CandlestickSeries::new(CandleType::Minute1);
    series.ingest(300_000, 77, 3);
    let older = CandlestickSeries::from_entries(
        CandleType::Minute1,
        vec![(300_000, flat(1, 1)), (360_000, flat(2, 1))],
    )
    .unwrap();
    assert_eq!(series.merge_backfill(&older), 0);
    assert_eq!(series.len(), 1);
    assert_eq!(series.entries()[0], (300_000, flat(77, 3)));
}

#[test]
fn merge_backfill_into_an_empty_series_takes_all() {
    let mut series = CandlestickSeries::new(CandleType::Minute1);
    let older = minute_series(&[0, 60_000, 120_000]);
    assert_eq!(series.merge_backfill(&older), 3);
    assert_eq!(series.entries(), older.entries());
}

#[test]
fn merge_backfill_of_another_granularity_gives_nothing() {
    let mut series = minute_series(&[86_400_000]);
    series.mark_clean();
    let older = CandlestickSeries::from_entries(CandleType::Day, vec![(0, flat(1, 1))]).unwrap();
    assert_eq!(series.merge_backfill(&older), 0);
    assert_eq!(keys_of(&series), vec![86_400_000]);
    assert!(!series.is_dirty());
}

#[test]
fn eviction_drops_the_oldest() {
    let mut series = minute_series(&[0, 60_000, 120_000, 180_000, 240_000]);
    assert_eq!(series.evict_oldest_if_over_capacity(5), 0);
    assert_eq!(series.len(), 5);
    assert_eq!(series.evict_oldest_if_over_capacity(3), 2);
    assert_eq!(keys_of(&series), vec![120_000, 180_000, 240_000]);
    assert_eq!(series.evict_oldest_if_over_capacity(10), 0);
    assert_eq!(series.evict_oldest_if_over_capacity(0), 3);
    assert!(series.is_empty());
    assert_eq!(series.oldest_timestamp(), None);
    assert_eq!(series.latest_timestamp(), None);
}

#[test]
fn remove_latest_takes_the_newest() {
    let mut series = minute_series(&[0, 60_000]);
    assert_eq!(series.remove_latest(), Some((60_000, flat(61, 1))));
    assert_eq!(series.remove_latest(), Some((0, flat(1, 1))));
    assert_eq!(series.remove_latest(), None);
    assert!(series.is_empty());
}

#[test]
fn replace_takes_the_new_series_whole() {
    let mut series = minute_series(&[0, 60_000]);
    let day = CandlestickSeries::from_entries(CandleType::Day, vec![(86_400_000, flat(9, 9))])
        .unwrap();
    series.replace(day);
    assert_eq!(series.granularity(), CandleType::Day);
    assert_eq!(series.entries().to_vec(), vec![(86_400_000, flat(9, 9))]);
}

#[test]
fn change_marks_the_series_dirty() {
    let mut series = CandlestickSeries::new(CandleType::Minute1);
    assert!(series.is_dirty());
    series.mark_clean();
    assert!(!series.is_dirty());
    series.ingest(1, 1, 1);
    assert!(series.is_dirty());
    series.mark_clean();
    assert_eq!(series.evict_oldest_if_over_capacity(4), 0);
    assert!(!series.is_dirty());
    assert_eq!(series.evict_oldest_if_over_capacity(0), 1);
    assert!(series.is_dirty());
    series.mark_clean();
    assert_eq!(series.remove_latest(), None);
    assert!(!series.is_dirty());
}
