//! The OHLCV candle and the way a trade enters it.

use vstd::prelude::*;
use crate::fixed::{max_int, min_int, MAX_TICKS};

verus! {

/// One OHLCV aggregate over a bucket. Prices and volume are in ticks.
#[derive(Clone, Copy, Debug, PartialEq, Eq, Structural)]
pub struct Candlestick {
    pub open: u64,
    pub high: u64,
    pub low: u64,
    pub close: u64,
    pub volume: u64,
}

impl Candlestick {
    /// The low lies at or below open and close, the high at or above them,
    /// and every field is within [`MAX_TICKS`].
    pub open spec fn wf(self) -> bool {
        &&& self.low <= self.open <= self.high
        &&& self.low <= self.close <= self.high
        &&& self.high <= MAX_TICKS
        &&& self.volume <= MAX_TICKS
    }

    /// The candle that a first trade opens.
    pub open spec fn opening(price: u64, volume: u64) -> Candlestick {
        Candlestick { open: price, high: price, low: price, close: price, volume }
    }

    /// The candle after one more trade: the high and low widen to the price,
    /// the close becomes the price, and the volume grows by the trade's,
    /// stopping at [`MAX_TICKS`].
    pub open spec fn absorbing(self, price: u64, volume: u64) -> Candlestick {
        Candlestick {
            open: self.open,
            high: max_int(self.high as int, price as int) as u64,
            low: min_int(self.low as int, price as int) as u64,
            close: price,
            volume: min_int(self.volume + volume, MAX_TICKS as int) as u64,
        }
    }

    /// Whether the fields form a valid candle.
    pub fn is_valid(&self) -> (ok: bool)
        ensures
            ok == self.wf(),
    {
        self.low <= self.open && self.open <= self.high && self.low <= self.close
            && self.close <= self.high && self.high <= MAX_TICKS && self.volume <= MAX_TICKS
    }

    /// Opens a candle with a first trade.
    pub fn from_trade(price: u64, volume: u64) -> (c: Candlestick)
        requires
            price <= MAX_TICKS,
            volume <= MAX_TICKS,
        ensures
            c == Candlestick::opening(price, volume),
            c.wf(),
    {
        Candlestick { open: price, high: price, low: price, close: price, volume }
    }

    /// Folds one more trade into the candle.
    pub fn apply_trade(&mut self, price: u64, volume: u64)
        requires
            old(self).wf(),
            price <= MAX_TICKS,
            volume <= MAX_TICKS,
        ensures
            *final(self) == old(self).absorbing(price, volume),
            final(self).wf(),
    {
        if price > self.high {
            self.high = price;
        }
        if price < self.low {
            self.low = price;
        }
        self.close = price;
        let total: u64 = self.volume + volume;
        self.volume = if total > MAX_TICKS {
            MAX_TICKS
        } else {
            total
        };
    }
}

/// Whether a trade's price and volume are small enough to enter a candle.
pub fn trade_in_range(price: u64, volume: u64) -> (ok: bool)
    ensures
        ok == (price <= MAX_TICKS && volume <= MAX_TICKS),
{
    price <= MAX_TICKS && volume <= MAX_TICKS
}

} // verus!
