use futurx::candle::Candlestick;
use futurx::patterns::{CandlestickPatterns, SignalScoring};

const UNIT_PRICE: u64 = 1_000_000;

fn candle(open: u64, high: u64, low: u64, close: u64) -> (u64, Candlestick) {
    (0, Candlestick { open, high, low, close, volume: 1 })
}

fn units(open: u64, high: u64, low: u64, close: u64) -> (u64, Candlestick) {
    candle(open * UNIT_PRICE, high * UNIT_PRICE, low * UNIT_PRICE, close * UNIT_PRICE)
}

#[test]
fn a_new_scoring_is_all_zero() {
    assert_eq!(
        SignalScoring::new(),
        SignalScoring {
            bullish_engulfing: 0,
            bearish_engulfing: 0,
            morning_star: 0,
            evening_star: 0,
            total_score: 0,
        }
    );
}

#[test]
fn bullish_engulfing_of_ten_eight_then_seven_twelve() {
    let data = vec![units(10, 10, 8, 8), units(7, 12, 7, 12)];
    let score = CandlestickPatterns::detect_bullish_engulfing(&data, 1);
    assert!(score >= 150_000 && score <= 250_000);
    assert_eq!(score, 250_000);
    assert_eq!(CandlestickPatterns::detect_bullish_engulfing(&data, 0), 0);
    assert_eq!(CandlestickPatterns::detect_bearish_engulfing(&data, 1), 0);
}

#[test]
fn engulfing_score_follows_the_size_ratio() {
    let data = vec![units(10, 10, 8, 8), units(8, 11, 8, 11)];
    assert_eq!(CandlestickPatterns::detect_bullish_engulfing(&data, 1), 200_000);
    let data = vec![units(10, 10, 8, 8), units(8, 10, 8, 10)];
    assert_eq!(CandlestickPatterns::detect_bullish_engulfing(&data, 1), 150_000);
    let data = vec![candle(3_000, 3_000, 0, 0), candle(0, 4_000, 0, 4_000)];
    assert_eq!(CandlestickPatterns::detect_bullish_engulfing(&data, 1), 183_333);
}

#[test]
fn a_tiny_earlier_body_counts_as_the_least_body() {
    let data = vec![candle(100, 100, 90, 90), candle(90, 120, 90, 120)];
    assert_eq!(CandlestickPatterns::detect_bullish_engulfing(&data, 1), 80_000);
    let data = vec![candle(120, 120, 110, 110), candle(110, 100, 100, 120)];
    assert_eq!(CandlestickPatterns::detect_bullish_engulfing(&data, 1), 60_000);
}

#[test]
fn bullish_engulfing_needs_every_condition() {
    let rising_first = vec![units(8, 10, 8, 10), units(7, 12, 7, 12)];
    assert_eq!(CandlestickPatterns::detect_bullish_engulfing(&rising_first, 1), 0);
    let falling_second = vec![units(10, 10, 8, 8), units(12, 12, 7, 7)];
    assert_eq!(CandlestickPatterns::detect_bullish_engulfing(&falling_second, 1), 0);
    let open_inside = vec![units(10, 10, 8, 8), units(9, 12, 9, 12)];
    assert_eq!(CandlestickPatterns::detect_bullish_engulfing(&open_inside, 1), 0);
    let close_inside = vec![units(10, 10, 8, 8), units(7, 9, 7, 9)];
    assert_eq!(CandlestickPatterns::detect_bullish_engulfing(&close_inside, 1), 0);
    let flat_first = vec![units(8, 8, 8, 8), units(7, 12, 7, 12)];
    assert_eq!(CandlestickPatterns::detect_bullish_engulfing(&flat_first, 1), 0);
}

#[test]
fn bearish_engulfing_mirrors_the_bullish() {
    let data = vec![units(8, 10, 8, 10), units(12, 12, 7, 7)];
    assert_eq!(CandlestickPatterns::detect_bearish_engulfing(&data, 1), 250_000);
    assert_eq!(CandlestickPatterns::detect_bearish_engulfing(&data, 0), 0);
    assert_eq!(CandlestickPatterns::detect_bullish_engulfing(&data, 1), 0);
    let data = vec![units(8, 10, 8, 10), units(10, 10, 7, 7)];
    assert_eq!(CandlestickPatterns::detect_bearish_engulfing(&data, 1), 200_000);
    let open_inside = vec![units(8, 10, 8, 10), units(9, 9, 7, 7)];
    assert_eq!(CandlestickPatterns::detect_bearish_engulfing(&open_inside, 1), 0);
}

#[test]
fn morning_star_scores_by_the_recovery() {
    let first = units(100, 101, 89, 90);
    let middle = units(85, 87, 84, 86);
    let data = vec![first, middle, units(89, 100, 88, 99)];
    assert_eq!(CandlestickPatterns::detect_morning_star(&data, 2), 250_000);
    let data = vec![first, middle, units(91, 96, 90, 96)];
    assert_eq!(CandlestickPatterns::detect_morning_star(&data, 2), 200_000);
    let data = vec![first, middle, units(88, 109, 88, 108)];
    assert_eq!(CandlestickPatterns::detect_morning_star(&data, 2), 250_000);
    assert_eq!(CandlestickPatterns::detect_morning_star(&data, 1), 0);
    assert_eq!(CandlestickPatterns::detect_morning_star(&data, 0), 0);
    assert_eq!(CandlestickPatterns::detect_evening_star(&data, 2), 0);
}

#[test]
fn morning_star_needs_every_condition() {
    let first = units(100, 101, 89, 90);
    let middle = units(85, 87, 84, 86);
    let last = units(89, 100, 88, 99);
    let weak_first = vec![units(100, 110, 80, 90), middle, last];
    assert_eq!(CandlestickPatterns::detect_morning_star(&weak_first, 2), 0);
    let rising_first = vec![units(90, 101, 89, 100), middle, last];
    assert_eq!(CandlestickPatterns::detect_morning_star(&rising_first, 2), 0);
    let large_middle = vec![first, units(87, 87, 84, 84), last];
    assert_eq!(CandlestickPatterns::detect_morning_star(&large_middle, 2), 0);
    let no_gap_down = vec![first, units(89, 90, 88, 90), units(91, 100, 91, 100)];
    assert_eq!(CandlestickPatterns::detect_morning_star(&no_gap_down, 2), 0);
    let no_gap_up = vec![first, middle, units(89, 100, 87, 99)];
    assert_eq!(CandlestickPatterns::detect_morning_star(&no_gap_up, 2), 0);
    let weak_last = vec![first, middle, units(89, 110, 88, 99)];
    assert_eq!(CandlestickPatterns::detect_morning_star(&weak_last, 2), 0);
    let no_recovery = vec![first, middle, units(88, 95, 88, 95)];
    assert_eq!(CandlestickPatterns::detect_morning_star(&no_recovery, 2), 0);
    let falling_last = vec![first, middle, units(99, 100, 88, 89)];
    assert_eq!(CandlestickPatterns::detect_morning_star(&falling_last, 2), 0);
}

#[test]
fn evening_star_mirrors_the_morning_star() {
    let first = units(90, 101, 89, 100);
    let middle = units(105, 106, 103, 104);
    let data = vec![first, middle, units(101, 102, 90, 91)];
    assert_eq!(CandlestickPatterns::detect_evening_star(&data, 2), 250_000);
    let data = vec![first, middle, units(99, 100, 94, 94)];
    assert_eq!(CandlestickPatterns::detect_evening_star(&data, 2), 200_000);
    assert_eq!(CandlestickPatterns::detect_evening_star(&data, 1), 0);
    assert_eq!(CandlestickPatterns::detect_morning_star(&data, 2), 0);
    let no_gap_up = vec![first, units(101, 102, 100, 101), units(99, 99, 90, 91)];
    assert_eq!(CandlestickPatterns::detect_evening_star(&no_gap_up, 2), 0);
    let no_decline = vec![first, middle, units(102, 102, 95, 95)];
    assert_eq!(CandlestickPatterns::detect_evening_star(&no_decline, 2), 0);
}

#[test]
fn detectors_look_at_the_candles_that_end_at_the_position() {
    let data = vec![
        units(10, 10, 8, 8),
        units(7, 12, 7, 12),
        units(12, 12, 12, 12),
        units(14, 14, 11, 11),
    ];
    assert_eq!(CandlestickPatterns::detect_bullish_engulfing(&data, 1), 250_000);
    assert_eq!(CandlestickPatterns::detect_bullish_engulfing(&data, 2), 0);
    assert_eq!(CandlestickPatterns::detect_bearish_engulfing(&data, 3), 0);
    assert_eq!(CandlestickPatterns::detect_bearish_engulfing(&data, 2), 0);
}
