//! Parsing of the query strings the callers hand in.

use vstd::prelude::*;
use vstd::string::*;

verus! {

/// A decimal digit.
pub open spec fn is_digit_char(c: char) -> bool {
    '0' as u32 <= c as u32 && c as u32 <= '9' as u32
}

/// The numeric value of a digit.
pub open spec fn digit_val(c: char) -> int {
    c as u32 - '0' as u32
}

/// Every character of `s` is a decimal digit.
pub open spec fn all_digits(s: Seq<char>) -> bool {
    forall|i: int| 0 <= i < s.len() ==> is_digit_char(#[trigger] s[i])
}

/// The value of `s` read as a decimal numeral.
pub open spec fn dec_val(s: Seq<char>) -> int
    decreases s.len(),
{
    if s.len() == 0 {
        0
    } else {
        dec_val(s.drop_last()) * 10 + digit_val(s[s.len() - 1])
    }
}

pub proof fn lemma_dec_val_nonneg(s: Seq<char>)
    requires
        all_digits(s),
    ensures
        dec_val(s) >= 0,
    decreases s.len(),
{
    if s.len() > 0 {
        assert(all_digits(s.drop_last()));
        lemma_dec_val_nonneg(s.drop_last());
    }
}

/// A numeral's value never falls when more digits follow: every prefix
/// reads at most the whole.
pub proof fn lemma_dec_val_grows(s: Seq<char>, k: int)
    requires
        all_digits(s),
        0 <= k <= s.len(),
    ensures
        dec_val(s.take(k)) <= dec_val(s),
    decreases s.len() - k,
{
    if k < s.len() {
        let p = s.take(k);
        let p2 = s.take(k + 1);
        assert(p2.drop_last() =~= p);
        assert(all_digits(p));
        lemma_dec_val_nonneg(p);
        assert(dec_val(p2) == dec_val(p) * 10 + digit_val(p2[k]));
        lemma_dec_val_grows(s, k + 1);
    } else {
        assert(s.take(k) =~= s);
    }
}

/// Position of the first `/` at or after `from`, if any.
pub open spec fn find_slash(s: Seq<char>, from: int) -> Option<int>
    decreases s.len() - from,
{
    if from < 0 || from >= s.len() {
        None
    } else if s[from] == '/' {
        Some(from)
    } else {
        find_slash(s, from + 1)
    }
}

/// The two segments a date string splits into: the text before the first
/// `/`, and the text from there to the second `/` or the end. Mirrors
/// taking the first two pieces of a `/`-split.
pub open spec fn date_segments(s: Seq<char>) -> Option<(Seq<char>, Seq<char>)> {
    match find_slash(s, 0) {
        None => None,
        Some(k) => {
            let e = match find_slash(s, k + 1) {
                None => s.len() as int,
                Some(k2) => k2,
            };
            Some((s.take(k), s.subrange(k + 1, e)))
        },
    }
}

/// Read `s[from..to]` as a decimal numeral of value at most `cap`.
/// `None` when the range is empty, holds a non-digit, or exceeds `cap`.
fn seg_value(s: &str, from: usize, to: usize, cap: u32) -> (r: Option<u32>)
    requires
        from <= to <= s@.len(),
    ensures
        ({
            let seg = s@.subrange(from as int, to as int);
            &&& (r is Some <==> from < to && all_digits(seg) && dec_val(seg) <= cap as int)
            &&& (r matches Some(v) ==> v as int == dec_val(seg))
        }),
{
    let ghost seg = s@.subrange(from as int, to as int);
    if from == to {
        return None;
    }
    let mut v: u64 = 0;
    let mut i: usize = from;
    proof {
        assert(seg.take(0) =~= Seq::<char>::empty());
    }
    while i < to
        invariant
            from <= i <= to <= s@.len(),
            seg == s@.subrange(from as int, to as int),
            seg.len() == to - from,
            all_digits(seg.take(i - from)),
            v as int == dec_val(seg.take(i - from)),
            v <= cap,
        decreases to - i,
    {
        let c = s.get_char(i);
        proof {
            assert(seg[i - from] == s@[i as int]);
        }
        let cu = c as u32;
        if cu < '0' as u32 || cu > '9' as u32 {
            proof {
                assert(!is_digit_char(seg[i - from]));
            }
            return None;
        }
        let d: u32 = cu - ('0' as u32);
        let v2: u64 = v * 10 + (d as u64);
        proof {
            let k = i - from;
            let p2 = seg.take(k + 1);
            assert(p2.drop_last() =~= seg.take(k));
            assert(p2[k as int] == seg[k as int]);
            assert(v2 as int == dec_val(p2));
        }
        if v2 > cap as u64 {
            proof {
                // Later digits can only grow the numeral, so the whole
                // segment is over the cap whenever a prefix already is.
                if all_digits(seg) && dec_val(seg) <= cap as int {
                    lemma_dec_val_grows(seg, i - from + 1);
                    assert(false);
                }
            }
            return None;
        }
        v = v2;
        i += 1;
    }
    proof {
        assert(seg.take(to - from) =~= seg);
    }
    Some(v as u32)
}

/// Position of the first `/` at or after `from` in `s`, if any, as
/// executable search.
fn find_slash_from(s: &str, from: usize) -> (r: Option<usize>)
    requires
        from <= s@.len(),
    ensures
        match r {
            Some(k) => from <= k < s@.len() && find_slash(s@, from as int) == Some(k as int),
            None => find_slash(s@, from as int) is None,
        },
{
    let n: usize = s.unicode_len();
    let mut i: usize = from;
    while i < n
        invariant
            from <= i <= n,
            n == s@.len(),
            find_slash(s@, from as int) == find_slash(s@, i as int),
        decreases n - i,
    {
        let c = s.get_char(i);
        if c == '/' {
            return Some(i);
        }
        i += 1;
    }
    None
}

/// Split a `year/month` query string into its two numbers.
///
/// The year is the digits before the first `/`, the month the digits from
/// there to the second `/` or the end. Both parts must be plain non-empty
/// numerals that fit the result types; anything else — no `/`, an empty
/// part, a sign, a stray character, an overflowing value — yields `None`
/// rather than a panic.
pub fn parse_date_from(date_str: &str) -> (r: Option<(i32, u32)>)
    ensures
        r is Some <==> (date_segments(date_str@) matches Some((a, b)) && a.len() > 0 && b.len()
            > 0 && all_digits(a) && all_digits(b) && dec_val(a) <= i32::MAX as int && dec_val(b)
            <= u32::MAX as int),
        r matches Some((y, m)) ==> date_segments(date_str@) matches Some((a, b)) && y as int
            == dec_val(a) && m as int == dec_val(b),
{
    let n: usize = date_str.unicode_len();
    let k1: usize = match find_slash_from(date_str, 0) {
        None => {
            return None;
        },
        Some(k) => k,
    };
    let e: usize = match find_slash_from(date_str, k1 + 1) {
        None => n,
        Some(k2) => k2,
    };
    proof {
        assert(date_str@.take(k1 as int) =~= date_str@.subrange(0, k1 as int));
    }
    let year = match seg_value(date_str, 0, k1, i32::MAX as u32) {
        None => {
            return None;
        },
        Some(v) => v,
    };
    let month = match seg_value(date_str, k1 + 1, e, u32::MAX) {
        None => {
            return None;
        },
        Some(v) => v,
    };
    Some((year as i32, month))
}

} // verus!
