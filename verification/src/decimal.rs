//! Reading a price or a quantity from its decimal text.
//!
//! A decimal is a run of digits, or two runs with a point between them, at
//! least one digit in all. Its value in ticks is the number times
//! [`TICKS_PER_PRICE_UNIT`], digits after the sixth place left off. Text with
//! a sign, an exponent or anything else in it is no decimal.

use vstd::prelude::*;
use crate::fixed::{MAX_TICKS, TICKS_PER_PRICE_UNIT};

verus! {

/// The number of digits after the point that count.
pub const TICK_DIGITS: usize = 6;

/// Whether the byte is one of `0` to `9`.
pub open spec fn is_digit(b: u8) -> bool {
    48 <= b <= 57
}

/// Whether the byte is the point.
pub open spec fn is_point(b: u8) -> bool {
    b == 46
}

/// Whether every byte is a digit.
pub open spec fn all_digits(s: Seq<u8>) -> bool {
    forall|i: int| 0 <= i < s.len() ==> is_digit(#[trigger] s[i])
}

/// The number that a run of digits writes.
pub open spec fn digits_value(s: Seq<u8>) -> int
    decreases s.len(),
{
    if s.len() == 0 {
        0
    } else {
        digits_value(s.drop_last()) * 10 + (s.last() - 48)
    }
}

/// Whether `d` is the place of the first point of `s`, or the length of
/// `s` where it has none.
pub open spec fn splits_at(s: Seq<u8>, d: int) -> bool {
    &&& 0 <= d <= s.len()
    &&& forall|i: int| 0 <= i < d ==> !is_point(#[trigger] s[i])
    &&& d < s.len() ==> is_point(s[d])
}

/// The place of the first point of `s`, or the length of `s`.
pub open spec fn first_point(s: Seq<u8>) -> int {
    choose|d: int| splits_at(s, d)
}

/// What stands before the first point.
pub open spec fn whole_part(s: Seq<u8>) -> Seq<u8> {
    s.take(first_point(s))
}

/// What stands after the first point.
pub open spec fn fraction_part(s: Seq<u8>) -> Seq<u8> {
    if first_point(s) < s.len() {
        s.skip(first_point(s) + 1)
    } else {
        Seq::empty()
    }
}

/// Whether the text is a decimal.
pub open spec fn is_decimal(s: Seq<u8>) -> bool {
    &&& all_digits(whole_part(s))
    &&& all_digits(fraction_part(s))
    &&& whole_part(s).len() + fraction_part(s).len() >= 1
}

/// Ten to the power of `n`, for `n` up to six.
pub open spec fn ten_to(n: int) -> int {
    if n <= 0 {
        1
    } else if n == 1 {
        10
    } else if n == 2 {
        100
    } else if n == 3 {
        1_000
    } else if n == 4 {
        10_000
    } else if n == 5 {
        100_000
    } else {
        1_000_000
    }
}

/// The ticks that the digits after the point stand for: the first six of
/// them, read as millionths.
pub open spec fn fraction_ticks(f: Seq<u8>) -> int {
    if f.len() >= TICK_DIGITS {
        digits_value(f.take(TICK_DIGITS as int))
    } else {
        digits_value(f) * ten_to(TICK_DIGITS - f.len())
    }
}

/// The value of a decimal in ticks.
pub open spec fn decimal_ticks(s: Seq<u8>) -> int {
    digits_value(whole_part(s)) * TICKS_PER_PRICE_UNIT + fraction_ticks(fraction_part(s))
}

/// What reading the text gives: the ticks of a decimal of at most
/// [`MAX_TICKS`], and nothing for any other text.
pub open spec fn parsed_ticks(s: Seq<u8>) -> Option<u64> {
    if is_decimal(s) && decimal_ticks(s) <= MAX_TICKS {
        Some(decimal_ticks(s) as u64)
    } else {
        None
    }
}

/// A text has one place only at which it splits.
pub proof fn lemma_first_point_is(s: Seq<u8>, d: int)
    requires
        splits_at(s, d),
    ensures
        first_point(s) == d,
{
    let e = first_point(s);
    assert(splits_at(s, e));
    if e < d {
        assert(!is_point(s[e]));
    } else if d < e {
        assert(!is_point(s[d]));
    }
}

/// Whether the byte is a digit.
fn digit(b: u8) -> (r: bool)
    ensures
        r == is_digit(b),
{
    48 <= b && b <= 57
}

/// Reads a decimal as ticks. Gives nothing where the text is no decimal
/// or where its value is above [`MAX_TICKS`].
pub fn parse_ticks(text: &[u8]) -> (ticks: Option<u64>)
    ensures
        ticks == parsed_ticks(text@),
        ticks matches Some(t) ==> t <= MAX_TICKS,
{
    let n: usize = text.len();
    let ghost s = text@;
    let mut whole: u64 = 0;
    let mut too_large: bool = false;
    let mut i: usize = 0;
    proof {
        assert(s.take(0).len() == 0);
    }
    while i < n && digit(text[i])
        invariant
            i <= n,
            n == s.len(),
            text@ == s,
            all_digits(s.take(i as int)),
            !too_large ==> whole == digits_value(s.take(i as int)) && whole <= 10_000_000,
            too_large ==> digits_value(s.take(i as int)) > 10_000_000,
        decreases n - i,
    {
        proof {
            assert(s.take(i + 1).drop_last() =~= s.take(i as int));
            assert(s.take(i + 1).last() == s[i as int]);
            assert forall|k: int| 0 <= k < i + 1 implies is_digit(#[trigger] s.take(i + 1)[k]) by {
                if k < i {
                    assert(is_digit(s.take(i as int)[k]));
                }
            }
        }
        if !too_large {
            let next: u64 = whole * 10 + (text[i] - 48) as u64;
            if next > 10_000_000 {
                too_large = true;
            } else {
                whole = next;
            }
        }
        i = i + 1;
    }
    let d: usize = i;
    proof {
        assert forall|k: int| 0 <= k < d implies !is_point(#[trigger] s[k]) by {
            assert(is_digit(s.take(d as int)[k]));
        }
    }
    if d < n && text[d] != 46 {
        proof {
            let e = first_point(s);
            assert(splits_at(s, n as int) || exists|x: int| splits_at(s, x)) by {
                lemma_split_exists(s);
            }
            assert(splits_at(s, e));
            if e <= d {
                if e < d {
                    assert(!is_point(s[e]));
                }
                assert(false);
            }
            assert(whole_part(s)[d as int] == s[d as int]);
            assert(!all_digits(whole_part(s)));
        }
        return None;
    }
    proof {
        lemma_first_point_is(s, d as int);
        assert(whole_part(s) == s.take(d as int));
    }
    let ghost f = fraction_part(s);
    let start: usize = if d < n {
        d + 1
    } else {
        n
    };
    proof {
        if d < n {
            assert(f == s.skip(d + 1));
        } else {
            assert(f.len() == 0);
        }
        assert(f.len() == n - start);
        assert(f.take(0).len() == 0);
    }
    let mut fraction: u64 = 0;
    let mut places: usize = 0;
    let mut j: usize = start;
    while j < n && digit(text[j])
        invariant
            start <= j <= n,
            n == s.len(),
            text@ == s,
            f.len() == n - start,
            forall|k: int| 0 <= k < f.len() ==> f[k] == s[start + k],
            all_digits(f.take(j - start)),
            places == if j - start < TICK_DIGITS {
                j - start
            } else {
                TICK_DIGITS as int
            },
            fraction == digits_value(f.take(places as int)),
            fraction < ten_to(places as int),
        decreases n - j,
    {
        proof {
            let k = j - start;
            assert(f[k] == s[j as int]);
            assert(f.take(k + 1).drop_last() =~= f.take(k));
            assert(f.take(k + 1).last() == f[k]);
            assert forall|x: int| 0 <= x < k + 1 implies is_digit(#[trigger] f.take(k + 1)[x]) by {
                if x < k {
                    assert(is_digit(f.take(k)[x]));
                }
            }
        }
        if places < TICK_DIGITS {
            fraction = fraction * 10 + (text[j] - 48) as u64;
            places = places + 1;
        }
        j = j + 1;
    }
    if j < n {
        proof {
            assert(f[j - start] == s[j as int]);
            assert(!all_digits(f));
        }
        return None;
    }
    proof {
        assert(f.take(f.len() as int) =~= f);
        assert(all_digits(f));
    }
    if d + (n - start) == 0 {
        return None;
    }
    let mut scaled: u64 = fraction;
    let mut k: usize = places;
    while k < TICK_DIGITS
        invariant
            places <= k <= TICK_DIGITS,
            scaled == fraction * ten_to(k - places),
            scaled < ten_to(k as int),
            fraction < ten_to(places as int),
        decreases TICK_DIGITS - k,
    {
        scaled = scaled * 10;
        k = k + 1;
    }
    proof {
        if f.len() >= TICK_DIGITS {
            assert(places == TICK_DIGITS);
        } else {
            assert(places == f.len());
            assert(f.take(places as int) =~= f);
        }
        assert(scaled == fraction_ticks(f));
        if too_large {
            assert(digits_value(whole_part(s)) * TICKS_PER_PRICE_UNIT > MAX_TICKS);
            assert(fraction_ticks(f) >= 0);
        }
    }
    if too_large {
        return None;
    }
    let ticks: u64 = whole * TICKS_PER_PRICE_UNIT + scaled;
    if ticks > MAX_TICKS {
        None
    } else {
        Some(ticks)
    }
}

/// Reads a decimal as ticks, with zero for text that gives nothing.
pub fn ticks_or_zero(text: &[u8]) -> (ticks: u64)
    ensures
        ticks == match parsed_ticks(text@) {
            Some(t) => t,
            None => 0,
        },
        ticks <= MAX_TICKS,
{
    match parse_ticks(text) {
        Some(t) => t,
        None => 0,
    }
}

/// Every text splits somewhere.
proof fn lemma_split_exists(s: Seq<u8>)
    ensures
        exists|d: int| splits_at(s, d),
    decreases s.len(),
{
    if s.len() == 0 {
        assert(splits_at(s, 0));
    } else {
        let rest = s.drop_last();
        lemma_split_exists(rest);
        let d = choose|d: int| splits_at(rest, d);
        if d < rest.len() {
            assert(rest[d] == s[d]);
            assert forall|i: int| 0 <= i < d implies !is_point(#[trigger] s[i]) by {
                assert(rest[i] == s[i]);
            }
            assert(splits_at(s, d));
        } else if is_point(s.last()) {
            assert forall|i: int| 0 <= i < d implies !is_point(#[trigger] s[i]) by {
                assert(rest[i] == s[i]);
            }
            assert(splits_at(s, d));
        } else {
            assert forall|i: int| 0 <= i < s.len() implies !is_point(#[trigger] s[i]) by {
                if i < d {
                    assert(rest[i] == s[i]);
                }
            }
            assert(splits_at(s, s.len() as int));
        }
    }
}

} // verus!
