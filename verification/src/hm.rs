//! "HH:MM" wall-clock settings (session cut-offs, entry windows) read as minutes
//! since midnight. The live session clock trims spaces around both fields; the
//! replay and the session-close action want exactly one colon and no spaces.

use vstd::prelude::*;
use crate::text::{
    all_digits, chars_of, decimal_value, digits_u32, find_char, first_index_of, is_first_index,
    is_white_space, lemma_first_index, lemma_no_index, parse_u32_at, parse_u32_spec, split_once,
    trim, trim_bounds,
};

verus! {

/// Minutes since midnight denoted by "HH:MM" as the live session clock reads it:
/// split at the first colon, trim each side, read each side as a `u32`.
pub open spec fn hm_minutes(s: Seq<char>) -> Option<int> {
    match split_once(s, ':') {
        Some((h, m)) => match (parse_u32_spec(trim(h)), parse_u32_spec(trim(m))) {
            (Some(hv), Some(mv)) => Some(hv * 60 + mv),
            _ => None,
        },
        None => None,
    }
}

/// The arithmetic of `hm_minutes` stays within `u32`: the hours are multiplied by
/// 60 as soon as they are read, and the minutes are added when they are read too.
pub open spec fn hm_fits(s: Seq<char>) -> bool {
    match split_once(s, ':') {
        Some((h, m)) => match parse_u32_spec(trim(h)) {
            Some(hv) => hv * 60 <= u32::MAX && match parse_u32_spec(trim(m)) {
                Some(mv) => hv * 60 + mv <= u32::MAX,
                None => true,
            },
            None => true,
        },
        None => true,
    }
}

/// The two sides of a text with exactly one colon.
pub open spec fn colon_pair(s: Seq<char>) -> Option<(Seq<char>, Seq<char>)> {
    match split_once(s, ':') {
        Some((h, m)) => if first_index_of(m, ':') is None {
            Some((h, m))
        } else {
            None
        },
        None => None,
    }
}

/// Hour and minute fields of a text with exactly one colon, each read as a `u32`
/// with no trimming.
pub open spec fn hm_pair(s: Seq<char>) -> Option<(u32, u32)> {
    match colon_pair(s) {
        Some((h, m)) => match (parse_u32_spec(h), parse_u32_spec(m)) {
            (Some(hv), Some(mv)) => Some((hv, mv)),
            _ => None,
        },
        None => None,
    }
}

/// Minutes since midnight denoted by an exact "H:M" pair.
pub open spec fn pair_minutes(s: Seq<char>) -> Option<int> {
    match hm_pair(s) {
        Some((h, m)) => Some(h * 60 + m),
        None => None,
    }
}

/// The minutes of an exact "H:M" pair fit in a `u32`.
pub open spec fn pair_fits(s: Seq<char>) -> bool {
    match hm_pair(s) {
        Some((h, m)) => h * 60 + m <= u32::MAX,
        None => true,
    }
}

/// The two decimal digits of `n` (below 100).
pub open spec fn two_digits(n: int) -> Seq<char> {
    seq![((n / 10) + '0' as int) as char, ((n % 10) + '0' as int) as char]
}

/// "HH:MM" → minutes since midnight.
pub fn parse_hm(s: &str) -> (r: Option<u32>)
    requires
        hm_fits(s@),
    ensures
        match r {
            Some(v) => hm_minutes(s@) == Some(v as int),
            None => hm_minutes(s@) is None,
        },
{
    let v = chars_of(s);
    let n = v.len();
    proof {
        assert(v@.subrange(0, n as int) == s@);
    }
    match find_char(&v, 0, n, ':') {
        None => None,
        Some(k) => {
            proof {
                assert(s@.take(k as int) == v@.subrange(0, k as int));
                assert(s@.skip(k + 1) == v@.subrange(k + 1, n as int));
            }
            let (a, b) = trim_bounds(&v, 0, k);
            match parse_u32_at(&v, a, b) {
                None => None,
                Some(h) => {
                    let h60 = h * 60;
                    let (c, d) = trim_bounds(&v, k + 1, n);
                    match parse_u32_at(&v, c, d) {
                        None => None,
                        Some(m) => Some(h60 + m),
                    }
                },
            }
        },
    }
}

/// The arithmetic of `parse_hm` on `s` stays within `u32`.
pub fn hm_in_range(s: &str) -> (b: bool)
    ensures
        b == hm_fits(s@),
{
    let v = chars_of(s);
    let n = v.len();
    proof {
        assert(v@.subrange(0, n as int) == s@);
    }
    match find_char(&v, 0, n, ':') {
        None => true,
        Some(k) => {
            proof {
                assert(s@.take(k as int) == v@.subrange(0, k as int));
                assert(s@.skip(k + 1) == v@.subrange(k + 1, n as int));
            }
            let (a, b) = trim_bounds(&v, 0, k);
            match parse_u32_at(&v, a, b) {
                None => true,
                Some(h) => {
                    if h > 71_582_788 {
                        false
                    } else {
                        let (c, d) = trim_bounds(&v, k + 1, n);
                        match parse_u32_at(&v, c, d) {
                            None => true,
                            Some(m) => (h as u64) * 60 + (m as u64) <= 0xFFFF_FFFFu64,
                        }
                    }
                },
            }
        },
    }
}

/// Hour and minute of an exact "H:M" pair: exactly one colon, each side a `u32`.
pub fn parse_hm_pair(s: &str) -> (r: Option<(u32, u32)>)
    ensures
        r == hm_pair(s@),
{
    let v = chars_of(s);
    let n = v.len();
    proof {
        assert(v@.subrange(0, n as int) == s@);
    }
    match find_char(&v, 0, n, ':') {
        None => None,
        Some(k) => {
            proof {
                assert(s@.take(k as int) == v@.subrange(0, k as int));
                assert(s@.skip(k + 1) == v@.subrange(k + 1, n as int));
            }
            match find_char(&v, k + 1, n, ':') {
                Some(_) => None,
                None => {
                    let h = parse_u32_at(&v, 0, k);
                    let m = parse_u32_at(&v, k + 1, n);
                    match (h, m) {
                        (Some(hv), Some(mv)) => Some((hv, mv)),
                        _ => None,
                    }
                },
            }
        },
    }
}

/// Parse "HH:MM" (exactly one colon, no spaces) to minutes since midnight.
pub fn parse_hm_to_minutes(s: &str) -> (r: Option<u32>)
    requires
        pair_fits(s@),
    ensures
        match r {
            Some(v) => pair_minutes(s@) == Some(v as int),
            None => pair_minutes(s@) is None,
        },
{
    match parse_hm_pair(s) {
        Some((h, m)) => Some(h * 60 + m),
        None => None,
    }
}

proof fn lemma_trim_no_space(s: Seq<char>)
    requires
        forall|i: int| 0 <= i < s.len() ==> !is_white_space(#[trigger] s[i]),
    ensures
        trim(s) == s,
{
    if s.len() > 0 {
        assert(!is_white_space(s[0]));
        assert(!is_white_space(s[s.len() - 1]));
    }
}

/// On a text with exactly one colon and no whitespace, the live session clock
/// and the replay read the same minutes, and the session-close action reads the
/// same hour and minute fields.
pub proof fn lemma_hm_readers_agree(s: Seq<char>)
    requires
        colon_pair(s) is Some,
        forall|i: int| 0 <= i < s.len() ==> !is_white_space(#[trigger] s[i]),
    ensures
        hm_minutes(s) == pair_minutes(s),
{
    let (h, m) = colon_pair(s)->0;
    let k = first_index_of(s, ':')->0;
    assert(h == s.take(k));
    assert(m == s.skip(k + 1));
    assert forall|i: int| 0 <= i < h.len() implies !is_white_space(#[trigger] h[i]) by {
        assert(h[i] == s[i]);
    }
    assert forall|i: int| 0 <= i < m.len() implies !is_white_space(#[trigger] m[i]) by {
        assert(m[i] == s[k + 1 + i]);
    }
    lemma_trim_no_space(h);
    lemma_trim_no_space(m);
}

proof fn lemma_two_digits_value(n: int)
    requires
        0 <= n < 100,
    ensures
        all_digits(two_digits(n)),
        decimal_value(two_digits(n)) == n,
        forall|i: int| 0 <= i < 2 ==> !is_white_space(#[trigger] two_digits(n)[i]),
        forall|i: int| 0 <= i < 2 ==> #[trigger] two_digits(n)[i] != ':',
        forall|i: int| 0 <= i < 2 ==> #[trigger] two_digits(n)[i] != '+',
{
    let t = two_digits(n);
    let t1 = t.drop_last();
    assert(t1.len() == 1);
    assert(t1.drop_last().len() == 0);
    assert(decimal_value(t1.drop_last()) == 0);
    assert(t1.last() == t[0]);
    assert(t[0] as int == n / 10 + '0' as int);
    assert(t[1] as int == n % 10 + '0' as int);
    assert(decimal_value(t1) == n / 10);
    assert(t.len() == 2);
}

/// The session clock reads a zero-padded "HH:MM" (hours and minutes below
/// 100) as `HH * 60 + MM` minutes since midnight, and so does the replay.
pub proof fn lemma_hm_reads_zero_padded(h: int, m: int)
    requires
        0 <= h < 100,
        0 <= m < 100,
    ensures
        hm_minutes(two_digits(h) + seq![':'] + two_digits(m)) == Some(h * 60 + m),
        pair_minutes(two_digits(h) + seq![':'] + two_digits(m)) == Some(h * 60 + m),
{
    let th = two_digits(h);
    let tm = two_digits(m);
    let s = th + seq![':'] + tm;
    lemma_two_digits_value(h);
    lemma_two_digits_value(m);
    assert(s.len() == 5);
    assert(s[0] == th[0] && s[1] == th[1] && s[2] == ':' && s[3] == tm[0] && s[4] == tm[1]);
    assert(is_first_index(s, ':', 2));
    lemma_first_index(s, ':', 2);
    assert(s.take(2) == th);
    assert(s.skip(3) == tm);
    lemma_no_index(tm, ':');
    assert forall|i: int| 0 <= i < s.len() implies !is_white_space(#[trigger] s[i]) by {
        if i < 2 {
            assert(s[i] == th[i]);
        } else if i > 2 {
            assert(s[i] == tm[i - 3]);
        }
    }
    lemma_trim_no_space(th);
    lemma_trim_no_space(tm);
    assert(th[0] != '+');
    assert(tm[0] != '+');
    assert(digits_u32(th) == Some(h as u32));
    assert(digits_u32(tm) == Some(m as u32));
}

} // verus!
