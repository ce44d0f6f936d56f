//! Candlestick aggregation and technical-signal scoring in fixed-point
//! arithmetic.
//!
//! A stream of trades is folded into time-bucketed OHLCV candles; moving
//! averages, RSI, momentum signals and candle-pattern scores are derived from
//! the candles; a gate decides when a trade intent may be dispatched.
//!
//! Every quantity is an integer. Prices and volumes are counted in ticks,
//! derived ratios in parts of [`fixed::UNIT`].

pub mod alerts;
pub mod backfill;
pub mod bucket;
pub mod candle;
pub mod chart;
pub mod decimal;
pub mod engine;
pub mod fixed;
pub mod gate;
pub mod indicators;
pub mod momentum;
pub mod patterns;
pub mod scoring;
pub mod series;
pub mod window;
