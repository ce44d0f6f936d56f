//! Sums over a window of consecutive positions, and the columns of a series
//! that the indicators sum over.

use vstd::prelude::*;
use crate::candle::Candlestick;
use crate::fixed::MAX_TICKS;

verus! {

/// The sum of `v[lo], .., v[hi - 1]`; zero for an empty window.
pub open spec fn range_sum(v: Seq<int>, lo: int, hi: int) -> int
    decreases hi - lo,
{
    if hi <= lo {
        0
    } else {
        range_sum(v, lo, hi - 1) + v[hi - 1]
    }
}

/// The closing prices, oldest first.
pub open spec fn closes(s: Seq<(u64, Candlestick)>) -> Seq<int> {
    Seq::new(s.len(), |i: int| s[i].1.close as int)
}

/// The volumes, oldest first.
pub open spec fn volumes(s: Seq<(u64, Candlestick)>) -> Seq<int> {
    Seq::new(s.len(), |i: int| s[i].1.volume as int)
}

/// The rise of each close over the close before it, zero where the close
/// fell or where there is no close before it.
pub open spec fn gains(s: Seq<(u64, Candlestick)>) -> Seq<int> {
    Seq::new(
        s.len(),
        |i: int|
            if i >= 1 && s[i].1.close > s[i - 1].1.close {
                s[i].1.close - s[i - 1].1.close
            } else {
                0
            },
    )
}

/// The fall of each close below the close before it, zero where the close
/// rose or where there is no close before it.
pub open spec fn losses(s: Seq<(u64, Candlestick)>) -> Seq<int> {
    Seq::new(
        s.len(),
        |i: int|
            if i >= 1 && s[i].1.close < s[i - 1].1.close {
                s[i - 1].1.close - s[i].1.close
            } else {
                0
            },
    )
}

/// Whether every value of the column lies between zero and [`MAX_TICKS`].
pub open spec fn ticks_column(v: Seq<int>) -> bool {
    forall|i: int| 0 <= i < v.len() ==> 0 <= #[trigger] v[i] <= MAX_TICKS
}

/// A window sum of a column of ticks is at least zero and at most the
/// window's length times [`MAX_TICKS`].
pub proof fn lemma_range_sum_bounds(v: Seq<int>, lo: int, hi: int)
    requires
        ticks_column(v),
        0 <= lo <= hi <= v.len(),
    ensures
        0 <= range_sum(v, lo, hi) <= (hi - lo) * MAX_TICKS,
    decreases hi - lo,
{
    if hi > lo {
        lemma_range_sum_bounds(v, lo, hi - 1);
        assert(0 <= v[hi - 1] <= MAX_TICKS);
    }
}

/// A window's sum is its first value plus the sum of the rest.
pub proof fn lemma_range_sum_first(v: Seq<int>, lo: int, hi: int)
    requires
        lo < hi,
    ensures
        range_sum(v, lo, hi) == v[lo] + range_sum(v, lo + 1, hi),
    decreases hi - lo,
{
    if hi - 1 > lo {
        lemma_range_sum_first(v, lo, hi - 1);
    } else {
        assert(range_sum(v, lo, lo) == 0);
        assert(range_sum(v, lo + 1, hi) == 0);
    }
}

/// A window in which every value is `x` sums to the window's length times `x`.
pub proof fn lemma_range_sum_constant(v: Seq<int>, lo: int, hi: int, x: int)
    requires
        0 <= lo <= hi <= v.len(),
        forall|i: int| lo <= i < hi ==> #[trigger] v[i] == x,
    ensures
        range_sum(v, lo, hi) == (hi - lo) * x,
    decreases hi - lo,
{
    if hi > lo {
        lemma_range_sum_constant(v, lo, hi - 1, x);
        assert(v[hi - 1] == x);
        assert((hi - lo) * x == (hi - 1 - lo) * x + x) by (nonlinear_arith);
    } else {
        assert((hi - lo) * x == 0) by (nonlinear_arith)
            requires
                hi - lo == 0,
        ;
    }
}

/// A window in which every value is zero sums to zero.
pub proof fn lemma_range_sum_zero(v: Seq<int>, lo: int, hi: int)
    requires
        0 <= lo <= hi <= v.len(),
        forall|i: int| lo <= i < hi ==> #[trigger] v[i] == 0,
    ensures
        range_sum(v, lo, hi) == 0,
{
    lemma_range_sum_constant(v, lo, hi, 0);
}

/// The columns of a series of valid candles are columns of ticks.
pub proof fn lemma_columns_are_ticks(s: Seq<(u64, Candlestick)>)
    requires
        forall|i: int| 0 <= i < s.len() ==> (#[trigger] s[i]).1.wf(),
    ensures
        ticks_column(closes(s)),
        ticks_column(volumes(s)),
        ticks_column(gains(s)),
        ticks_column(losses(s)),
{
    assert forall|i: int| 0 <= i < s.len() implies 0 <= #[trigger] closes(s)[i] <= MAX_TICKS by {
        assert(s[i].1.wf());
    }
    assert forall|i: int| 0 <= i < s.len() implies 0 <= #[trigger] volumes(s)[i] <= MAX_TICKS by {
        assert(s[i].1.wf());
    }
    assert forall|i: int| 0 <= i < s.len() implies 0 <= #[trigger] gains(s)[i] <= MAX_TICKS by {
        assert(s[i].1.wf());
        if i >= 1 {
            assert(s[i - 1].1.wf());
        }
    }
    assert forall|i: int| 0 <= i < s.len() implies 0 <= #[trigger] losses(s)[i] <= MAX_TICKS by {
        assert(s[i].1.wf());
        if i >= 1 {
            assert(s[i - 1].1.wf());
        }
    }
}

} // verus!
