//! The candlestick series: candles keyed by bucket start, in ascending order.

use vstd::prelude::*;
use crate::bucket::{bucket_of, bucket_start, is_aligned, lemma_aligned_apart, CandleType};
use crate::candle::Candlestick;
use crate::fixed::MAX_TICKS;

verus! {

/// Whether the bucket starts grow strictly from one entry to the next.
pub open spec fn keys_increasing(s: Seq<(u64, Candlestick)>) -> bool {
    forall|i: int, j: int| 0 <= i < j < s.len() ==> (#[trigger] s[i]).0 < (#[trigger] s[j]).0
}

/// Whether `s` is a valid listing of a series of granularity `g`: bucket
/// starts strictly increasing, each a multiple of the bucket width, and each
/// candle valid.
pub open spec fn series_wf(s: Seq<(u64, Candlestick)>, g: CandleType) -> bool {
    &&& keys_increasing(s)
    &&& forall|i: int|
        0 <= i < s.len() ==> is_aligned((#[trigger] s[i]).0 as int, g) && s[i].1.wf()
}

/// Whether some entry of `s` has the bucket start `k`.
pub open spec fn has_key(s: Seq<(u64, Candlestick)>, k: u64) -> bool {
    exists|i: int| 0 <= i < s.len() && (#[trigger] s[i]).0 == k
}

/// The position of an entry with the bucket start `k`.
pub open spec fn index_of_key(s: Seq<(u64, Candlestick)>, k: u64) -> int {
    choose|i: int| 0 <= i < s.len() && (#[trigger] s[i]).0 == k
}

/// The listing read as a mapping from bucket start to candle.
pub open spec fn as_map(s: Seq<(u64, Candlestick)>) -> Map<u64, Candlestick> {
    Map::new(|k: u64| has_key(s, k), |k: u64| s[index_of_key(s, k)].1)
}

/// The number of entries whose bucket start is below `k`. In an increasing
/// listing it is the position of the first entry at or after `k`.
pub open spec fn count_below(s: Seq<(u64, Candlestick)>, k: u64) -> int
    decreases s.len(),
{
    if s.len() == 0 {
        0
    } else if s.last().0 < k {
        count_below(s.drop_last(), k) + 1
    } else {
        count_below(s.drop_last(), k)
    }
}

/// Where the first `m` bucket starts are below `k` and the others are not,
/// `m` entries are below `k`.
pub proof fn lemma_count_below_is(s: Seq<(u64, Candlestick)>, k: u64, m: int)
    requires
        0 <= m <= s.len(),
        forall|i: int| 0 <= i < m ==> (#[trigger] s[i]).0 < k,
        forall|i: int| m <= i < s.len() ==> (#[trigger] s[i]).0 >= k,
    ensures
        count_below(s, k) == m,
    decreases s.len(),
{
    if s.len() > 0 {
        let rest = s.drop_last();
        if m == s.len() {
            assert(s[m - 1].0 < k);
            assert forall|i: int| 0 <= i < m - 1 implies (#[trigger] rest[i]).0 < k by {
                assert(s[i].0 < k);
            }
            lemma_count_below_is(rest, k, m - 1);
        } else {
            assert(s[s.len() - 1].0 >= k);
            assert forall|i: int| 0 <= i < m implies (#[trigger] rest[i]).0 < k by {
                assert(s[i].0 < k);
            }
            assert forall|i: int| m <= i < rest.len() implies (#[trigger] rest[i]).0 >= k by {
                assert(s[i].0 >= k);
            }
            lemma_count_below_is(rest, k, m);
        }
    }
}

/// In an increasing listing each bucket start is found at its own position.
pub proof fn lemma_key_found(s: Seq<(u64, Candlestick)>, i: int)
    requires
        keys_increasing(s),
        0 <= i < s.len(),
    ensures
        has_key(s, s[i].0),
        index_of_key(s, s[i].0) == i,
        as_map(s).contains_key(s[i].0),
        as_map(s)[s[i].0] == s[i].1,
{
    let k = s[i].0;
    assert(0 <= i < s.len() && s[i].0 == k);
    let j = index_of_key(s, k);
    assert(0 <= j < s.len() && s[j].0 == k);
    if j < i {
        assert(s[j].0 < s[i].0);
    } else if i < j {
        assert(s[i].0 < s[j].0);
    }
}

/// Putting a new bucket between the smaller and the larger ones keeps the
/// listing increasing and adds exactly that bucket to the mapping.
pub proof fn lemma_insert_new_key(s: Seq<(u64, Candlestick)>, p: int, e: (u64, Candlestick))
    requires
        keys_increasing(s),
        0 <= p <= s.len(),
        forall|i: int| 0 <= i < p ==> (#[trigger] s[i]).0 < e.0,
        forall|i: int| p <= i < s.len() ==> (#[trigger] s[i]).0 > e.0,
    ensures
        keys_increasing(s.insert(p, e)),
        !has_key(s, e.0),
        as_map(s.insert(p, e)) == as_map(s).insert(e.0, e.1),
{
    let t = s.insert(p, e);
    assert forall|i: int, j: int| 0 <= i < j < t.len() implies
        (#[trigger] t[i]).0 < (#[trigger] t[j]).0 by {
        let si = if i < p { i } else { i - 1 };
        let sj = if j < p { j } else { j - 1 };
        if i != p && j != p {
            assert(s[si].0 < s[sj].0);
        } else if i == p {
            assert(s[sj].0 > e.0);
        } else {
            assert(s[si].0 < e.0);
        }
    }
    if has_key(s, e.0) {
        let i = index_of_key(s, e.0);
        assert(s[i].0 == e.0);
        assert(false);
    }
    let m1 = as_map(t);
    let m2 = as_map(s).insert(e.0, e.1);
    assert forall|k: u64| m1.contains_key(k) == m2.contains_key(k) by {
        if has_key(t, k) {
            let i = index_of_key(t, k);
            if i < p {
                assert(s[i].0 == k);
            } else if i > p {
                assert(s[i - 1].0 == k);
            }
        }
        if has_key(s, k) {
            let i = index_of_key(s, k);
            if i < p {
                assert(t[i].0 == k);
            } else {
                assert(t[i + 1].0 == k);
            }
        }
        if k == e.0 {
            assert(t[p].0 == k);
        }
    }
    assert forall|k: u64| m1.contains_key(k) implies m1[k] == m2[k] by {
        let i = index_of_key(t, k);
        assert(0 <= i < t.len() && t[i].0 == k);
        if i < p {
            lemma_key_found(s, i);
        } else if i > p {
            lemma_key_found(s, i - 1);
        }
    }
    assert(m1 =~= m2);
}

/// Replacing the candle of one entry keeps the listing increasing and
/// changes exactly that bucket in the mapping.
pub proof fn lemma_update_key(s: Seq<(u64, Candlestick)>, p: int, c: Candlestick)
    requires
        keys_increasing(s),
        0 <= p < s.len(),
    ensures
        keys_increasing(s.update(p, (s[p].0, c))),
        as_map(s.update(p, (s[p].0, c))) == as_map(s).insert(s[p].0, c),
{
    let t = s.update(p, (s[p].0, c));
    assert forall|i: int, j: int| 0 <= i < j < t.len() implies
        (#[trigger] t[i]).0 < (#[trigger] t[j]).0 by {
        assert(s[i].0 < s[j].0);
    }
    let m1 = as_map(t);
    let m2 = as_map(s).insert(s[p].0, c);
    assert forall|k: u64| m1.contains_key(k) == m2.contains_key(k) by {
        if has_key(t, k) {
            let i = index_of_key(t, k);
            assert(s[i].0 == k);
        }
        if has_key(s, k) {
            let i = index_of_key(s, k);
            assert(t[i].0 == k);
        }
        if k == s[p].0 {
            assert(t[p].0 == k);
        }
    }
    assert forall|k: u64| m1.contains_key(k) implies m1[k] == m2[k] by {
        let i = index_of_key(t, k);
        assert(0 <= i < t.len() && t[i].0 == k);
        lemma_key_found(t, i);
        if i != p {
            lemma_key_found(s, i);
        }
    }
    assert(m1 =~= m2);
}

/// Leaving out the last entry of an increasing listing leaves out exactly
/// its bucket start from the mapping.
pub proof fn lemma_drop_last_key(s: Seq<(u64, Candlestick)>)
    requires
        keys_increasing(s),
        s.len() > 0,
    ensures
        keys_increasing(s.drop_last()),
        as_map(s.drop_last()) == as_map(s).remove(s.last().0),
{
    let t = s.drop_last();
    assert forall|i: int, j: int| 0 <= i < j < t.len() implies
        (#[trigger] t[i]).0 < (#[trigger] t[j]).0 by {
        assert(s[i].0 < s[j].0);
    }
    let m1 = as_map(t);
    let m2 = as_map(s).remove(s.last().0);
    assert forall|k: u64| m1.contains_key(k) == m2.contains_key(k) by {
        if has_key(t, k) {
            let i = index_of_key(t, k);
            assert(s[i].0 == k);
            assert(s[i].0 < s[s.len() - 1].0);
        }
        if has_key(s, k) && k != s.last().0 {
            let i = index_of_key(s, k);
            assert(t[i].0 == k);
        }
    }
    assert forall|k: u64| m1.contains_key(k) implies m1[k] == m2[k] by {
        let i = index_of_key(t, k);
        assert(0 <= i < t.len() && t[i].0 == k);
        lemma_key_found(t, i);
        lemma_key_found(s, i);
    }
    assert(m1 =~= m2);
}

/// An increasing listing is determined by its mapping: two such listings
/// with the same mapping are the same.
pub proof fn lemma_listing_determined_by_map(a: Seq<(u64, Candlestick)>, b: Seq<(u64, Candlestick)>)
    requires
        keys_increasing(a),
        keys_increasing(b),
        as_map(a) == as_map(b),
    ensures
        a == b,
    decreases a.len(),
{
    if a.len() == 0 {
        if b.len() > 0 {
            lemma_key_found(b, 0);
            assert(has_key(a, b[0].0));
        }
        assert(a =~= b);
    } else if b.len() == 0 {
        lemma_key_found(a, 0);
        assert(has_key(b, a[0].0));
    } else {
        let la = a.len() - 1;
        let lb = b.len() - 1;
        lemma_key_found(a, la);
        lemma_key_found(b, lb);
        assert(has_key(b, a[la].0));
        assert(has_key(a, b[lb].0));
        let j = index_of_key(b, a[la].0);
        let i = index_of_key(a, b[lb].0);
        assert(b[j].0 == a[la].0 && a[i].0 == b[lb].0);
        if j < lb {
            assert(b[j].0 < b[lb].0);
        }
        if i < la {
            assert(a[i].0 < a[la].0);
        }
        assert(a[la].0 == b[lb].0);
        assert(a.last() == b.last());
        lemma_drop_last_key(a);
        lemma_drop_last_key(b);
        lemma_listing_determined_by_map(a.drop_last(), b.drop_last());
        assert(a =~= a.drop_last().push(a.last()));
        assert(b =~= b.drop_last().push(b.last()));
    }
}

/// The entries of `older` that lie before every entry of `current`: all of
/// them where `current` is empty.
pub open spec fn entries_before(
    current: Seq<(u64, Candlestick)>,
    older: Seq<(u64, Candlestick)>,
) -> Seq<(u64, Candlestick)> {
    if current.len() == 0 {
        older
    } else {
        older.filter(|e: (u64, Candlestick)| e.0 < current[0].0)
    }
}

/// The listing after a backfill: the entries of `older` that lie before
/// every entry of `current`, then `current` as it was. Where the two series
/// do not have the same granularity, `current` alone.
pub open spec fn backfilled(
    current: Seq<(u64, Candlestick)>,
    older: Seq<(u64, Candlestick)>,
    same_granularity: bool,
) -> Seq<(u64, Candlestick)> {
    if same_granularity {
        entries_before(current, older) + current
    } else {
        current
    }
}

/// In an increasing listing the entries below a limit are its first ones.
pub proof fn lemma_filter_below_is_prefix(o: Seq<(u64, Candlestick)>, limit: u64, m: int)
    requires
        0 <= m <= o.len(),
        forall|i: int| 0 <= i < m ==> (#[trigger] o[i]).0 < limit,
        forall|i: int| m <= i < o.len() ==> (#[trigger] o[i]).0 >= limit,
    ensures
        o.filter(|e: (u64, Candlestick)| e.0 < limit) == o.take(m),
    decreases o.len(),
{
    reveal(Seq::filter);
    let pred = |e: (u64, Candlestick)| e.0 < limit;
    if o.len() == 0 {
        assert(o.filter(pred) =~= o.take(m));
    } else {
        let rest = o.drop_last();
        if m == o.len() {
            assert forall|i: int| 0 <= i < m - 1 implies (#[trigger] rest[i]).0 < limit by {
                assert(o[i].0 < limit);
            }
            lemma_filter_below_is_prefix(rest, limit, m - 1);
            assert(o[m - 1].0 < limit);
            assert(pred(o.last()));
            assert(rest.take(m - 1).push(o.last()) =~= o.take(m));
        } else {
            assert forall|i: int| 0 <= i < m implies (#[trigger] rest[i]).0 < limit by {
                assert(o[i].0 < limit);
            }
            assert forall|i: int| m <= i < rest.len() implies (#[trigger] rest[i]).0 >= limit by {
                assert(o[i].0 >= limit);
            }
            lemma_filter_below_is_prefix(rest, limit, m);
            assert(o[o.len() - 1].0 >= limit);
            assert(!pred(o.last()));
            assert(rest.take(m) =~= o.take(m));
        }
    }
}

/// The entries of `older` before `current` are the first `m` of `older`,
/// where `m` parts the bucket starts of `older` at the oldest of `current`.
proof fn lemma_older_entries_are_prefix(
    current: Seq<(u64, Candlestick)>,
    older: Seq<(u64, Candlestick)>,
    m: int,
)
    requires
        0 <= m <= older.len(),
        current.len() == 0 ==> m == older.len(),
        current.len() > 0 ==> forall|i: int| 0 <= i < m ==> (#[trigger] older[i]).0 < current[0].0,
        current.len() > 0 ==> forall|i: int|
            m <= i < older.len() ==> (#[trigger] older[i]).0 >= current[0].0,
    ensures
        entries_before(current, older) == older.take(m),
{
    if current.len() == 0 {
        assert(older.take(m) =~= older);
    } else {
        lemma_filter_below_is_prefix(older, current[0].0, m);
    }
}

/// Two candles of a valid listing lie at least one bucket width apart, so
/// their bucket windows do not overlap.
pub proof fn lemma_buckets_do_not_overlap(
    s: Seq<(u64, Candlestick)>,
    g: CandleType,
    i: int,
    j: int,
)
    requires
        series_wf(s, g),
        0 <= i < j < s.len(),
    ensures
        s[i].0 + g.width() <= s[j].0,
{
    assert(s[i].0 < s[j].0);
    lemma_aligned_apart(s[i].0 as int, s[j].0 as int, g);
}

/// An increasing listing parts at any limit: the entries below the limit
/// come first, and `m` is how many they are.
pub proof fn lemma_partition_point(o: Seq<(u64, Candlestick)>, limit: u64) -> (m: int)
    requires
        keys_increasing(o),
    ensures
        0 <= m <= o.len(),
        forall|i: int| 0 <= i < m ==> (#[trigger] o[i]).0 < limit,
        forall|i: int| m <= i < o.len() ==> (#[trigger] o[i]).0 >= limit,
    decreases o.len(),
{
    if o.len() == 0 {
        0
    } else if o.last().0 < limit {
        assert forall|i: int| 0 <= i < o.len() implies (#[trigger] o[i]).0 < limit by {
            if i < o.len() - 1 {
                assert(o[i].0 < o[o.len() - 1].0);
            }
        }
        o.len() as int
    } else {
        let rest = o.drop_last();
        assert forall|i: int, j: int| 0 <= i < j < rest.len() implies
            (#[trigger] rest[i]).0 < (#[trigger] rest[j]).0 by {
            assert(o[i].0 < o[j].0);
        }
        let m = lemma_partition_point(rest, limit);
        assert forall|i: int| 0 <= i < m implies (#[trigger] o[i]).0 < limit by {
            assert(rest[i].0 < limit);
        }
        assert forall|i: int| m <= i < o.len() implies (#[trigger] o[i]).0 >= limit by {
            if i < o.len() - 1 {
                assert(rest[i].0 >= limit);
            }
        }
        m
    }
}

/// A backfill overwrites nothing and only reaches further back: the
/// listing stays increasing, the candles that were there stay, each under its
/// bucket start and at the end of the listing, every candle that came in lies
/// before all of them, and the oldest bucket start is smaller than it was
/// exactly when a candle came in.
pub proof fn lemma_backfill_extends_downward(
    current: Seq<(u64, Candlestick)>,
    older: Seq<(u64, Candlestick)>,
    same_granularity: bool,
)
    requires
        keys_increasing(current),
        keys_increasing(older),
    ensures
        ({
            let merged = backfilled(current, older, same_granularity);
            let added = merged.len() - current.len();
            &&& keys_increasing(merged)
            &&& added >= 0
            &&& merged.skip(added) == current
            &&& forall|k: u64| #[trigger]
                as_map(current).contains_key(k) ==> as_map(merged).contains_key(k) && as_map(
                    merged,
                )[k] == as_map(current)[k]
            &&& forall|i: int|
                0 <= i < added && current.len() > 0 ==> (#[trigger] merged[i]).0 < current[0].0
            &&& current.len() > 0 ==> (if added > 0 {
                merged[0].0 < current[0].0
            } else {
                merged[0].0 == current[0].0
            })
        }),
{
    let merged = backfilled(current, older, same_granularity);
    if !same_granularity {
        assert(merged.skip(0) =~= current);
    } else {
        let m = if current.len() == 0 {
            older.len() as int
        } else {
            lemma_partition_point(older, current[0].0)
        };
        lemma_older_entries_are_prefix(current, older, m);
        let prefix = older.take(m);
        assert(merged == prefix + current);
        assert(merged.len() - current.len() == m);
        assert(merged.skip(m) =~= current);
        assert forall|i: int, j: int| 0 <= i < j < merged.len() implies
            (#[trigger] merged[i]).0 < (#[trigger] merged[j]).0 by {
            if j < m {
                assert(older[i].0 < older[j].0);
            } else if i >= m {
                assert(current[i - m].0 < current[j - m].0);
            } else {
                assert(older[i].0 < current[0].0);
                if j - m > 0 {
                    assert(current[0].0 < current[j - m].0);
                }
            }
        }
        assert forall|k: u64| #[trigger] as_map(current).contains_key(k) implies as_map(
            merged,
        ).contains_key(k) && as_map(merged)[k] == as_map(current)[k] by {
            let i = index_of_key(current, k);
            assert(0 <= i < current.len() && current[i].0 == k);
            assert(merged[i + m] == current[i]);
            lemma_key_found(current, i);
            lemma_key_found(merged, i + m);
        }
        assert forall|i: int| 0 <= i < m && current.len() > 0 implies (#[trigger] merged[i]).0
            < current[0].0 by {
            assert(older[i].0 < current[0].0);
        }
        if current.len() > 0 {
            if m > 0 {
                assert(merged[0] == older[0]);
            } else {
                assert(merged[0] == current[0]);
            }
        }
    }
}

/// Candles keyed by bucket start and held in ascending order of it.
pub struct CandlestickSeries {
    granularity: CandleType,
    entries: Vec<(u64, Candlestick)>,
    dirty: bool,
}

impl View for CandlestickSeries {
    type V = Seq<(u64, Candlestick)>;

    /// The entries, oldest first.
    closed spec fn view(&self) -> Seq<(u64, Candlestick)> {
        self.entries@
    }
}

impl CandlestickSeries {
    /// The bucket width that the series was made for.
    pub closed spec fn spec_granularity(self) -> CandleType {
        self.granularity
    }

    /// Whether the series has changed since what is derived from it was
    /// last computed.
    pub closed spec fn spec_is_dirty(self) -> bool {
        self.dirty
    }

    /// The validity that every operation keeps.
    pub open spec fn wf(self) -> bool {
        series_wf(self@, self.spec_granularity())
    }

    /// The series read as a mapping from bucket start to candle.
    pub open spec fn map(self) -> Map<u64, Candlestick> {
        as_map(self@)
    }

    /// An empty series of the given granularity.
    pub fn new(granularity: CandleType) -> (s: CandlestickSeries)
        ensures
            s@ == Seq::<(u64, Candlestick)>::empty(),
            s.spec_granularity() == granularity,
            s.spec_is_dirty(),
            s.wf(),
    {
        CandlestickSeries { granularity, entries: Vec::new(), dirty: true }
    }

    /// Whether the series has changed since what is derived from it was
    /// last computed.
    pub fn is_dirty(&self) -> (d: bool)
        ensures
            d == self.spec_is_dirty(),
    {
        self.dirty
    }

    /// Notes that what is derived from the series has been computed anew.
    pub fn mark_clean(&mut self)
        ensures
            !final(self).spec_is_dirty(),
            final(self)@ == old(self)@,
            final(self).spec_granularity() == old(self).spec_granularity(),
    {
        self.dirty = false;
    }

    /// The bucket width that the series was made for.
    pub fn granularity(&self) -> (g: CandleType)
        ensures
            g == self.spec_granularity(),
    {
        self.granularity
    }

    /// The number of candles.
    pub fn len(&self) -> (n: usize)
        ensures
            n == self@.len(),
    {
        self.entries.len()
    }

    /// Whether the series holds no candle.
    pub fn is_empty(&self) -> (b: bool)
        ensures
            b == (self@.len() == 0),
    {
        self.entries.len() == 0
    }

    /// The entries, oldest first.
    pub fn entries(&self) -> (v: &[(u64, Candlestick)])
        ensures
            v@ == self@,
    {
        self.entries.as_slice()
    }

    /// The smallest bucket start, if there is a candle.
    pub fn oldest_timestamp(&self) -> (t: Option<u64>)
        ensures
            t == if self@.len() == 0 {
                None
            } else {
                Some(self@.first().0)
            },
    {
        if self.entries.len() == 0 {
            None
        } else {
            Some(self.entries[0].0)
        }
    }

    /// The largest bucket start, if there is a candle.
    pub fn latest_timestamp(&self) -> (t: Option<u64>)
        ensures
            t == if self@.len() == 0 {
                None
            } else {
                Some(self@.last().0)
            },
    {
        let n: usize = self.entries.len();
        if n == 0 {
            None
        } else {
            Some(self.entries[n - 1].0)
        }
    }

    /// Folds a trade into the series. The trade belongs to the bucket that
    /// holds its timestamp: a bucket that is not there yet is opened with the
    /// trade, one that is there absorbs it. No other bucket changes.
    pub fn ingest(&mut self, timestamp_ms: u64, trade_price: u64, trade_volume: u64)
        requires
            old(self).wf(),
            trade_price <= MAX_TICKS,
            trade_volume <= MAX_TICKS,
        ensures
            final(self).wf(),
            final(self).spec_granularity() == old(self).spec_granularity(),
            final(self).spec_is_dirty(),
            ({
                let key = bucket_of(timestamp_ms as int, old(self).spec_granularity()) as u64;
                let candle = if old(self).map().contains_key(key) {
                    old(self).map()[key].absorbing(trade_price, trade_volume)
                } else {
                    Candlestick::opening(trade_price, trade_volume)
                };
                let position = count_below(old(self)@, key);
                &&& final(self).map() == old(self).map().insert(key, candle)
                &&& final(self)@ == if old(self).map().contains_key(key) {
                    old(self)@.update(position, (key, candle))
                } else {
                    old(self)@.insert(position, (key, candle))
                }
            }),
    {
        let key: u64 = bucket_start(timestamp_ms, self.granularity);
        self.dirty = true;
        let mut p: usize = self.entries.len();
        while p > 0 && self.entries[p - 1].0 > key
            invariant
                p <= self.entries.len(),
                self.entries@ == old(self).entries@,
                forall|i: int|
                    p <= i < self.entries.len() ==> (#[trigger] self.entries@[i]).0 > key,
            decreases p,
        {
            p = p - 1;
        }
        let ghost s = self.entries@;
        if p > 0 && self.entries[p - 1].0 == key {
            let mut candle: Candlestick = self.entries[p - 1].1;
            candle.apply_trade(trade_price, trade_volume);
            proof {
                lemma_key_found(s, p - 1);
                lemma_update_key(s, p - 1, candle);
                assert forall|i: int| 0 <= i < p - 1 implies (#[trigger] s[i]).0 < key by {
                    assert(s[i].0 < s[p - 1].0);
                }
                lemma_count_below_is(s, key, p - 1);
            }
            self.entries.set(p - 1, (key, candle));
        } else {
            let candle: Candlestick = Candlestick::from_trade(trade_price, trade_volume);
            proof {
                assert forall|i: int| 0 <= i < p implies (#[trigger] s[i]).0 < key by {
                    if i < p - 1 {
                        assert(s[i].0 < s[p - 1].0);
                    }
                }
                lemma_insert_new_key(s, p as int, (key, candle));
                lemma_count_below_is(s, key, p as int);
            }
            self.entries.insert(p, (key, candle));
        }
    }

    /// Makes a series of the given entries, if they are a valid listing:
    /// bucket starts strictly increasing and multiples of the bucket width,
    /// each candle valid.
    pub fn from_entries(granularity: CandleType, entries: Vec<(u64, Candlestick)>) -> (r: Option<
        CandlestickSeries,
    >)
        ensures
            r.is_some() == series_wf(entries@, granularity),
            r matches Some(s) ==> s@ == entries@ && s.spec_granularity() == granularity
                && s.spec_is_dirty() && s.wf(),
    {
        let width: u64 = granularity.bucket_width();
        let n: usize = entries.len();
        let mut i: usize = 0;
        while i < n
            invariant
                i <= n,
                n == entries@.len(),
                width == granularity.width(),
                series_wf(entries@.take(i as int), granularity),
            decreases n - i,
        {
            let key: u64 = entries[i].0;
            let valid: bool = key % width == 0 && entries[i].1.is_valid() && (i == 0 || entries[i
                - 1].0 < key);
            if !valid {
                proof {
                    if series_wf(entries@, granularity) {
                        assert(is_aligned(entries@[i as int].0 as int, granularity));
                        if i > 0 {
                            assert(entries@[i - 1].0 < entries@[i as int].0);
                        }
                    }
                }
                return None;
            }
            proof {
                let a = entries@.take(i as int);
                let b = entries@.take(i + 1);
                assert forall|x: int, y: int| 0 <= x < y < b.len() implies
                    (#[trigger] b[x]).0 < (#[trigger] b[y]).0 by {
                    if y < i {
                        assert(a[x].0 < a[y].0);
                    } else if x < i - 1 {
                        assert(a[x].0 < a[i - 1].0);
                    }
                }
                assert forall|x: int| 0 <= x < b.len() implies is_aligned(
                    (#[trigger] b[x]).0 as int,
                    granularity,
                ) && b[x].1.wf() by {
                    if x < i {
                        assert(is_aligned(a[x].0 as int, granularity) && a[x].1.wf());
                    }
                }
            }
            i = i + 1;
        }
        proof {
            assert(entries@.take(n as int) =~= entries@);
        }
        Some(CandlestickSeries { granularity, entries, dirty: true })
    }

    /// Puts another series in the place of this one.
    pub fn replace(&mut self, new_series: CandlestickSeries)
        requires
            new_series.wf(),
        ensures
            final(self)@ == new_series@,
            final(self).spec_granularity() == new_series.spec_granularity(),
            final(self).spec_is_dirty(),
            final(self).wf(),
    {
        *self = new_series;
        self.dirty = true;
    }

    /// Takes over the candles of `older` that lie before the oldest candle
    /// here, and returns how many they are. A candle of `older` at or after
    /// the oldest bucket start here is left out, so no candle here changes.
    /// Into an empty series every candle of `older` goes. A series of
    /// another granularity gives nothing.
    pub fn merge_backfill(&mut self, older: &CandlestickSeries) -> (added: usize)
        requires
            old(self).wf(),
            older.wf(),
        ensures
            final(self).wf(),
            final(self).spec_granularity() == old(self).spec_granularity(),
            final(self)@ == backfilled(
                old(self)@,
                older@,
                older.spec_granularity() == old(self).spec_granularity(),
            ),
            added == final(self)@.len() - old(self)@.len(),
            final(self).spec_is_dirty() == (old(self).spec_is_dirty() || added > 0),
    {
        let ghost s = self.entries@;
        let ghost o = older.entries@;
        if older.granularity != self.granularity {
            proof {
                assert(Seq::<(u64, Candlestick)>::empty() + s =~= s);
            }
            return 0;
        }
        let n: usize = older.entries.len();
        let mut m: usize = 0;
        if self.entries.len() == 0 {
            m = n;
        } else {
            let first: u64 = self.entries[0].0;
            while m < n && older.entries[m].0 < first
                invariant
                    m <= n,
                    n == o.len(),
                    o == older.entries@,
                    forall|i: int| 0 <= i < m ==> (#[trigger] o[i]).0 < first,
                decreases n - m,
            {
                m = m + 1;
            }
            proof {
                assert forall|i: int| m <= i < o.len() implies (#[trigger] o[i]).0 >= first by {
                    if i > m {
                        assert(o[m as int].0 < o[i].0);
                    }
                }
            }
        }
        proof {
            lemma_older_entries_are_prefix(s, o, m as int);
            let t = o.take(m as int) + s;
            assert forall|i: int, j: int| 0 <= i < j < t.len() implies
                (#[trigger] t[i]).0 < (#[trigger] t[j]).0 by {
                if j < m {
                    assert(o[i].0 < o[j].0);
                } else if i >= m {
                    assert(s[i - m].0 < s[j - m].0);
                } else {
                    assert(o[i].0 < s[0].0);
                    if j - m > 0 {
                        assert(s[0].0 < s[j - m].0);
                    }
                }
            }
            assert forall|i: int| 0 <= i < t.len() implies is_aligned(
                (#[trigger] t[i]).0 as int,
                self.granularity,
            ) && t[i].1.wf() by {
                if i < m {
                    assert(is_aligned(o[i].0 as int, older.granularity) && o[i].1.wf());
                } else {
                    assert(is_aligned(s[i - m].0 as int, self.granularity) && s[i - m].1.wf());
                }
            }
        }
        let mut merged: Vec<(u64, Candlestick)> = Vec::new();
        let mut k: usize = 0;
        while k < m
            invariant
                k <= m <= n,
                n == o.len(),
                o == older.entries@,
                merged@ == o.take(k as int),
            decreases m - k,
        {
            merged.push(older.entries[k]);
            proof {
                assert(merged@ =~= o.take(k + 1));
            }
            k = k + 1;
        }
        merged.append(&mut self.entries);
        self.entries = merged;
        if m > 0 {
            self.dirty = true;
        }
        m
    }

    /// Drops the oldest candles until at most `max_len` are left, and
    /// returns how many were dropped.
    pub fn evict_oldest_if_over_capacity(&mut self, max_len: usize) -> (evicted: usize)
        requires
            old(self).wf(),
        ensures
            final(self).wf(),
            final(self).spec_granularity() == old(self).spec_granularity(),
            evicted == if old(self)@.len() > max_len {
                old(self)@.len() - max_len
            } else {
                0
            },
            final(self)@ == old(self)@.skip(evicted as int),
            final(self)@.len() <= max_len,
            final(self).spec_is_dirty() == (old(self).spec_is_dirty() || evicted > 0),
    {
        let n: usize = self.entries.len();
        let ghost s = self.entries@;
        if n <= max_len {
            proof {
                assert(s.skip(0) =~= s);
            }
            return 0;
        }
        let evicted: usize = n - max_len;
        let kept: Vec<(u64, Candlestick)> = self.entries.split_off(evicted);
        self.entries = kept;
        self.dirty = true;
        proof {
            let t = s.skip(evicted as int);
            assert(self.entries@ =~= t);
            assert forall|i: int, j: int| 0 <= i < j < t.len() implies
                (#[trigger] t[i]).0 < (#[trigger] t[j]).0 by {
                assert(s[i + evicted].0 < s[j + evicted].0);
            }
            assert forall|i: int| 0 <= i < t.len() implies is_aligned(
                (#[trigger] t[i]).0 as int,
                self.granularity,
            ) && t[i].1.wf() by {
                assert(is_aligned(s[i + evicted].0 as int, self.granularity) && s[i
                    + evicted].1.wf());
            }
        }
        evicted
    }

    /// Takes the latest candle out of the series.
    pub fn remove_latest(&mut self) -> (removed: Option<(u64, Candlestick)>)
        requires
            old(self).wf(),
        ensures
            final(self).wf(),
            final(self).spec_granularity() == old(self).spec_granularity(),
            removed == if old(self)@.len() == 0 {
                None
            } else {
                Some(old(self)@.last())
            },
            final(self)@ == if old(self)@.len() == 0 {
                old(self)@
            } else {
                old(self)@.drop_last()
            },
            final(self).spec_is_dirty() == (old(self).spec_is_dirty() || removed.is_some()),
    {
        let ghost s = self.entries@;
        let removed = self.entries.pop();
        if removed.is_some() {
            self.dirty = true;
        }
        proof {
            let t = self.entries@;
            assert forall|i: int, j: int| 0 <= i < j < t.len() implies
                (#[trigger] t[i]).0 < (#[trigger] t[j]).0 by {
                assert(s[i].0 < s[j].0);
            }
            assert forall|i: int| 0 <= i < t.len() implies is_aligned(
                (#[trigger] t[i]).0 as int,
                self.granularity,
            ) && t[i].1.wf() by {
                assert(is_aligned(s[i].0 as int, self.granularity) && s[i].1.wf());
            }
        }
        removed
    }
}

} // verus!
