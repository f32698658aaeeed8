//! Command-line overrides of the replay runner: per-ticker settings given as
//! `--ticker-override "NVDA:entry_threshold=0.35,stop_loss_pct=0.03"` (the flag may
//! repeat, one ticker each), indicator weights (`--indicator-weight id=w`), extra
//! indicators (`--add-indicator TYPE:TIMESCALE:WEIGHT`) and hold tiers
//! (`--hold-tier PNL_PCT:EXTENSION_MS`). This module reads the text: which
//! ticker, setting or indicator, and which value texts; the values are numbers
//! read by the caller.

use vstd::prelude::*;
use crate::cli::{flag_values_upto, get_all_args};
use crate::text::{chars_of, find_char, first_index_of, split_once, trim, trim_bounds};

verus! {

/// The setting a `key=value` piece names.
#[derive(Debug, PartialEq, Eq)]
pub enum OverrideKey {
    EntryThreshold,
    ExitThreshold,
    MaxHoldMs,
    StopLossPct,
    AtrMultiplier,
    SizingFraction,
    /// `weight:<indicator instance>`
    IndicatorWeight(String),
    /// a key this runner does not know; reported and ignored.
    Unknown(String),
}

/// One `--ticker-override` value: the ticker and its settings in the order given.
#[derive(Debug)]
pub struct TickerOverrideText {
    pub ticker: String,
    pub settings: Vec<(OverrideKey, String)>,
}

/// Values of the `--ticker-override` flags in `args[i..]`: a flag with a value
/// after it consumes both; any other argument is passed over.
pub open spec fn override_values(args: Seq<String>, i: int) -> Seq<Seq<char>>
    decreases args.len() - i,
{
    if i >= args.len() {
        Seq::empty()
    } else if args[i]@ == "--ticker-override"@ && i + 1 < args.len() {
        seq![args[i + 1]@] + override_values(args, i + 2)
    } else {
        override_values(args, i + 1)
    }
}

/// `str::split(c)`: the pieces between the `c`s, empty ones included.
pub open spec fn split_pieces(s: Seq<char>, c: char) -> Seq<Seq<char>>
    decreases s.len(),
{
    match first_index_of(s, c) {
        Some(k) => if 0 <= k < s.len() {
            seq![s.take(k)] + split_pieces(s.skip(k + 1), c)
        } else {
            seq![s]
        },
        None => seq![s],
    }
}

/// A `key=value` piece, split at its first `=` with both sides trimmed; none when
/// the piece has no `=`.
pub open spec fn pair_of(piece: Seq<char>) -> Option<(Seq<char>, Seq<char>)> {
    match split_once(piece, '=') {
        Some((k, v)) => Some((trim(k), trim(v))),
        None => None,
    }
}

/// The pairs of the pieces that have one, in order.
pub open spec fn pairs_of(pieces: Seq<Seq<char>>) -> Seq<(Seq<char>, Seq<char>)>
    decreases pieces.len(),
{
    if pieces.len() == 0 {
        Seq::empty()
    } else {
        let rest = pairs_of(pieces.drop_last());
        match pair_of(pieces.last()) {
            Some(p) => rest.push(p),
            None => rest,
        }
    }
}

/// One flag value: the ticker before its first `:` and the pairs of the
/// comma-separated pieces after it; none without a `:`.
pub open spec fn ticker_override_of(val: Seq<char>) -> Option<(Seq<char>, Seq<(Seq<char>, Seq<char>)>)> {
    match split_once(val, ':') {
        Some((t, rest)) => Some((t, pairs_of(split_pieces(rest, ',')))),
        None => None,
    }
}

/// The overrides of the values that have a ticker, in order.
pub open spec fn ticker_overrides_of(vals: Seq<Seq<char>>) -> Seq<(Seq<char>, Seq<(Seq<char>, Seq<char>)>)>
    decreases vals.len(),
{
    if vals.len() == 0 {
        Seq::empty()
    } else {
        let rest = ticker_overrides_of(vals.drop_last());
        match ticker_override_of(vals.last()) {
            Some(o) => rest.push(o),
            None => rest,
        }
    }
}

/// `s` with every leading copy of `p` removed (`str::trim_start_matches`).
pub open spec fn strip_all_prefix(s: Seq<char>, p: Seq<char>) -> Seq<char>
    decreases s.len(),
{
    if p.len() > 0 && p.len() <= s.len() && s.take(p.len() as int) == p {
        strip_all_prefix(s.skip(p.len() as int), p)
    } else {
        s
    }
}

/// `text` starts with `p`.
pub open spec fn has_prefix(text: Seq<char>, p: Seq<char>) -> bool {
    p.len() <= text.len() && text.take(p.len() as int) == p
}

/// `key` is the setting that the key text `text` names: one of the known names,
/// else an indicator weight when it starts with "weight:", else unknown.
pub open spec fn key_named(key: OverrideKey, text: Seq<char>) -> bool {
    if text == "entry_threshold"@ {
        key == OverrideKey::EntryThreshold
    } else if text == "exit_threshold"@ {
        key == OverrideKey::ExitThreshold
    } else if text == "max_hold_ms"@ {
        key == OverrideKey::MaxHoldMs
    } else if text == "stop_loss_pct"@ {
        key == OverrideKey::StopLossPct
    } else if text == "atr_multiplier"@ {
        key == OverrideKey::AtrMultiplier
    } else if text == "sizing_fraction"@ {
        key == OverrideKey::SizingFraction
    } else if has_prefix(text, "weight:"@) {
        key matches OverrideKey::IndicatorWeight(id) && id@ == strip_all_prefix(text, "weight:"@)
    } else {
        key matches OverrideKey::Unknown(t) && t@ == text
    }
}

/// `r` holds the ticker and settings of `o`, each key the setting its text names.
pub open spec fn override_matches(r: TickerOverrideText, o: (Seq<char>, Seq<(Seq<char>, Seq<char>)>)) -> bool {
    &&& r.ticker@ == o.0
    &&& r.settings@.len() == o.1.len()
    &&& forall|i: int|
        0 <= i < o.1.len() ==> key_named(#[trigger] r.settings@[i].0, o.1[i].0) && r.settings@[i].1@
            == o.1[i].1
}

/// The text of `v[lo..hi]`.
pub fn string_of(v: &Vec<char>, lo: usize, hi: usize) -> (r: String)
    requires
        lo <= hi <= v.len(),
    ensures
        r@ == v@.subrange(lo as int, hi as int),
{
    let mut r = String::new();
    let mut i = lo;
    while i < hi
        invariant
            lo <= i <= hi <= v.len(),
            r@ == v@.subrange(lo as int, i as int),
        decreases hi - i,
    {
        r.push(v[i]);
        proof {
            assert(v@.subrange(lo as int, i + 1) == v@.subrange(lo as int, i as int).push(v@[i as int]));
        }
        i = i + 1;
    }
    r
}

fn text_eq(a: &String, b: &str) -> (r: bool)
    ensures
        r == (a@ == b@),
{
    *a == String::from_str(b)
}

/// `v[start..]` starts with `p`.
fn prefix_at(v: &Vec<char>, start: usize, p: &Vec<char>) -> (b: bool)
    requires
        start <= v.len(),
    ensures
        b == has_prefix(v@.skip(start as int), p@),
{
    let ghost rest = v@.skip(start as int);
    if p.len() > v.len() - start {
        return false;
    }
    let mut j: usize = 0;
    while j < p.len() && v[start + j] == p[j]
        invariant
            start <= v.len(),
            p.len() <= v.len() - start,
            j <= p.len(),
            rest == v@.skip(start as int),
            forall|q: int| 0 <= q < j ==> v@[start + q] == p@[q],
        decreases p.len() - j,
    {
        j = j + 1;
    }
    proof {
        if j == p.len() {
            assert(rest.take(p@.len() as int) =~= p@) by {
                assert forall|q: int| 0 <= q < p@.len() implies rest.take(p@.len() as int)[q] == p@[q] by {
                    assert(rest[q] == v@[start + q]);
                }
            }
        } else {
            assert(rest.take(p@.len() as int)[j as int] == v@[start + j]);
        }
    }
    j == p.len()
}

/// The text after every leading "weight:".
fn strip_weight_prefix(v: &Vec<char>) -> (r: String)
    ensures
        r@ == strip_all_prefix(v@, "weight:"@),
{
    let p = chars_of("weight:");
    proof {
        reveal_strlit("weight:");
        assert(v@.skip(0) =~= v@);
    }
    let mut start: usize = 0;
    loop
        invariant
            start <= v.len(),
            p@ == "weight:"@,
            p@.len() == 7,
            strip_all_prefix(v@, p@) == strip_all_prefix(v@.skip(start as int), p@),
        decreases v.len() - start,
    {
        let ghost rest = v@.skip(start as int);
        if !prefix_at(v, start, &p) {
            return string_of(v, start, v.len());
        }
        proof {
            assert(rest.skip(7) =~= v@.skip(start + 7));
        }
        start = start + 7;
    }
}

/// The setting a key text names.
pub fn classify_key(key: String) -> (r: OverrideKey)
    ensures
        key_named(r, key@),
{
    if text_eq(&key, "entry_threshold") {
        OverrideKey::EntryThreshold
    } else if text_eq(&key, "exit_threshold") {
        OverrideKey::ExitThreshold
    } else if text_eq(&key, "max_hold_ms") {
        OverrideKey::MaxHoldMs
    } else if text_eq(&key, "stop_loss_pct") {
        OverrideKey::StopLossPct
    } else if text_eq(&key, "atr_multiplier") {
        OverrideKey::AtrMultiplier
    } else if text_eq(&key, "sizing_fraction") {
        OverrideKey::SizingFraction
    } else {
        let v = chars_of(key.as_str());
        let p = chars_of("weight:");
        proof {
            assert(v@.skip(0) =~= v@);
        }
        if prefix_at(&v, 0, &p) {
            OverrideKey::IndicatorWeight(strip_weight_prefix(&v))
        } else {
            OverrideKey::Unknown(key)
        }
    }
}

/// The setting of the piece `v[a..b]`, if it has a `=`.
fn parse_piece(v: &Vec<char>, a: usize, b: usize) -> (r: Option<(OverrideKey, String)>)
    requires
        a <= b <= v.len(),
    ensures
        match pair_of(v@.subrange(a as int, b as int)) {
            Some(p) => r matches Some(x) && key_named(x.0, p.0) && x.1@ == p.1,
            None => r is None,
        },
{
    let ghost piece = v@.subrange(a as int, b as int);
    match find_char(v, a, b, '=') {
        None => None,
        Some(q) => {
            let (k0, k1) = trim_bounds(v, a, q);
            let (v0, v1) = trim_bounds(v, q + 1, b);
            proof {
                assert(piece.take(q - a) =~= v@.subrange(a as int, q as int));
                assert(piece.skip(q - a + 1) =~= v@.subrange(q + 1, b as int));
            }
            let key = classify_key(string_of(v, k0, k1));
            Some((key, string_of(v, v0, v1)))
        },
    }
}

pub(crate) proof fn lemma_split_step(s: Seq<char>, e: int)
    requires
        first_index_of(s, ',') == Some(e),
    ensures
        0 <= e < s.len(),
        split_pieces(s, ',') == seq![s.take(e)] + split_pieces(s.skip(e + 1), ','),
{
    let k = choose|k: int| crate::text::is_first_index(s, ',', k);
    assert(crate::text::is_first_index(s, ',', k));
}

/// One `--ticker-override` value read: none when it has no `:`.
#[verifier::spinoff_prover]
#[verifier::rlimit(40)]
pub fn parse_ticker_override(val: &str) -> (r: Option<TickerOverrideText>)
    ensures
        match ticker_override_of(val@) {
            Some(o) => r matches Some(x) && override_matches(x, o),
            None => r is None,
        },
{
    let v = chars_of(val);
    let n = v.len();
    proof {
        assert(v@.subrange(0, n as int) =~= v@);
    }
    let colon = match find_char(&v, 0, n, ':') {
        None => {
            return None;
        },
        Some(k) => k,
    };
    let ticker = string_of(&v, 0, colon);
    let ghost whole = v@.subrange(colon + 1, n as int);
    proof {
        assert(v@.take(colon as int) =~= v@.subrange(0, colon as int));
        assert(v@.skip(colon + 1) =~= whole);
        assert(split_once(val@, ':') == Some((v@.take(colon as int), v@.skip(colon + 1))));
    }
    let mut settings: Vec<(OverrideKey, String)> = Vec::new();
    let ghost mut done: Seq<Seq<char>> = Seq::empty();
    let mut start = colon + 1;
    loop
        invariant
            colon + 1 <= start <= n,
            n == v@.len(),
            whole == v@.subrange(colon + 1, n as int),
            ticker_override_of(val@) == Some((ticker@, pairs_of(split_pieces(whole, ',')))),
            done + split_pieces(v@.subrange(start as int, n as int), ',') == split_pieces(whole, ','),
            settings@.len() == pairs_of(done).len(),
            forall|i: int|
                0 <= i < pairs_of(done).len() ==> key_named(#[trigger] settings@[i].0, pairs_of(done)[i].0)
                    && settings@[i].1@ == pairs_of(done)[i].1,
        decreases n - start,
    {
        let ghost rest = v@.subrange(start as int, n as int);
        let ghost old_settings = settings@;
        match find_char(&v, start, n, ',') {
            Some(e) => {
                proof {
                    lemma_split_step(rest, e - start);
                    assert(rest.take(e - start) =~= v@.subrange(start as int, e as int));
                    assert(rest.skip(e - start + 1) =~= v@.subrange(e + 1, n as int));
                }
                let piece = parse_piece(&v, start, e);
                let ghost gpiece = piece;
                if let Some(s) = piece {
                    settings.push(s);
                }
                proof {
                    let p = v@.subrange(start as int, e as int);
                    let nd = done.push(p);
                    assert(nd.drop_last() =~= done);
                    assert(nd.last() == p);
                    match pair_of(p) {
                        Some(pp) => {
                            assert(gpiece matches Some(x) && key_named(x.0, pp.0) && x.1@ == pp.1);
                            assert(settings@ == old_settings.push(gpiece->0));
                        },
                        None => {
                            assert(settings@ == old_settings);
                        },
                    }
                    let pd = pairs_of(done);
                    assert forall|i: int| 0 <= i < pairs_of(nd).len() implies key_named(
                        #[trigger] settings@[i].0,
                        pairs_of(nd)[i].0,
                    ) && settings@[i].1@ == pairs_of(nd)[i].1 by {
                        if i < pd.len() {
                            assert(settings@[i] == old_settings[i]);
                            assert(pairs_of(nd)[i] == pd[i]);
                        }
                    }
                    assert(nd + split_pieces(v@.subrange(e + 1, n as int), ',') =~= done + (seq![p]
                        + split_pieces(v@.subrange(e + 1, n as int), ',')));
                    done = nd;
                }
                start = e + 1;
            },
            None => {
                let piece = parse_piece(&v, start, n);
                let ghost gpiece = piece;
                if let Some(s) = piece {
                    settings.push(s);
                }
                proof {
                    assert(v@.subrange(start as int, n as int) == rest);
                    match pair_of(rest) {
                        Some(pp) => {
                            assert(gpiece matches Some(x) && key_named(x.0, pp.0) && x.1@ == pp.1);
                            assert(settings@ == old_settings.push(gpiece->0));
                        },
                        None => {
                            assert(settings@ == old_settings);
                        },
                    }
                    assert(split_pieces(rest, ',') == seq![rest]);
                    let nd = done.push(rest);
                    assert(nd.drop_last() =~= done);
                    assert(nd.last() == rest);
                    assert(nd =~= done + seq![rest]);
                    let pd = pairs_of(done);
                    assert forall|i: int| 0 <= i < pairs_of(nd).len() implies key_named(
                        #[trigger] settings@[i].0,
                        pairs_of(nd)[i].0,
                    ) && settings@[i].1@ == pairs_of(nd)[i].1 by {
                        if i < pd.len() {
                            assert(settings@[i] == old_settings[i]);
                            assert(pairs_of(nd)[i] == pd[i]);
                        }
                    }
                    done = nd;
                }
                let r = TickerOverrideText { ticker, settings };
                proof {
                    assert(done == split_pieces(whole, ','));
                    assert(override_matches(r, (ticker_override_of(val@)->0)));
                }
                return Some(r);
            },
        }
    }
}

/// Every `--ticker-override` value on the command line that names a ticker, read,
/// in order (a later value for the same ticker replaces an earlier one).
pub fn parse_ticker_overrides(args: &Vec<String>) -> (r: Vec<TickerOverrideText>)
    ensures
        r@.len() == ticker_overrides_of(override_values(args@, 0)).len(),
        forall|i: int|
            0 <= i < r@.len() ==> override_matches(#[trigger] r@[i], ticker_overrides_of(
                override_values(args@, 0),
            )[i]),
{
    let flag = String::from_str("--ticker-override");
    let mut r: Vec<TickerOverrideText> = Vec::new();
    let ghost mut seen: Seq<Seq<char>> = Seq::empty();
    let mut i: usize = 0;
    while i < args.len()
        invariant
            i <= args.len() + 1,
            flag@ == "--ticker-override"@,
            seen + override_values(args@, i as int) == override_values(args@, 0),
            r@.len() == ticker_overrides_of(seen).len(),
            forall|k: int| 0 <= k < r@.len() ==> override_matches(#[trigger] r@[k], ticker_overrides_of(seen)[k]),
        decreases args.len() + 1 - i,
    {
        if args[i] == flag && i + 1 < args.len() {
            let parsed = parse_ticker_override(args[i + 1].as_str());
            let ghost val = args@[i + 1]@;
            if let Some(o) = parsed {
                r.push(o);
            }
            proof {
                let ns = seen.push(val);
                assert(ns.drop_last() =~= seen);
                assert(override_values(args@, i as int) == seq![val] + override_values(args@, i + 2));
                assert(ns + override_values(args@, i + 2) =~= seen + (seq![val] + override_values(args@, i + 2)));
                seen = ns;
            }
            i = i + 2;
        } else {
            i = i + 1;
        }
    }
    proof {
        assert(override_values(args@, i as int) == Seq::<Seq<char>>::empty());
        assert(seen + Seq::<Seq<char>>::empty() =~= seen);
    }
    r
}

/// The values of `flag` as every occurrence followed by a value gives them.
pub open spec fn flag_values(args: Seq<String>, flag: Seq<char>) -> Seq<Seq<char>> {
    flag_values_upto(args, flag, args.len() as int)
}

/// The values that split at their first `c`, split there (no trimming), in order.
pub open spec fn split_once_each(vals: Seq<Seq<char>>, c: char) -> Seq<(Seq<char>, Seq<char>)>
    decreases vals.len(),
{
    if vals.len() == 0 {
        Seq::empty()
    } else {
        let rest = split_once_each(vals.drop_last(), c);
        match split_once(vals.last(), c) {
            Some(p) => rest.push(p),
            None => rest,
        }
    }
}

/// The values that split into exactly three `:`-separated parts, split.
pub open spec fn three_parts_each(vals: Seq<Seq<char>>) -> Seq<(Seq<char>, Seq<char>, Seq<char>)>
    decreases vals.len(),
{
    if vals.len() == 0 {
        Seq::empty()
    } else {
        let rest = three_parts_each(vals.drop_last());
        let parts = split_pieces(vals.last(), ':');
        if parts.len() == 3 {
            rest.push((parts[0], parts[1], parts[2]))
        } else {
            rest
        }
    }
}

proof fn lemma_split_pieces_nonempty(s: Seq<char>, c: char)
    ensures
        split_pieces(s, c).len() >= 1,
{
}

fn split_value_once(v: &String, c: char) -> (r: Option<(String, String)>)
    ensures
        match split_once(v@, c) {
            Some(p) => r matches Some(x) && x.0@ == p.0 && x.1@ == p.1,
            None => r is None,
        },
{
    let cs = chars_of(v.as_str());
    let n = cs.len();
    proof {
        assert(cs@.subrange(0, n as int) =~= cs@);
    }
    match find_char(&cs, 0, n, c) {
        None => None,
        Some(k) => {
            proof {
                assert(cs@.take(k as int) =~= cs@.subrange(0, k as int));
                assert(cs@.skip(k + 1) =~= cs@.subrange(k + 1, n as int));
            }
            Some((string_of(&cs, 0, k), string_of(&cs, k + 1, n)))
        },
    }
}

#[verifier::spinoff_prover]
#[verifier::rlimit(40)]
fn split_value_three(v: &String) -> (r: Option<(String, String, String)>)
    ensures
        split_pieces(v@, ':').len() == 3 ==> (r matches Some(x) && x.0@ == split_pieces(v@, ':')[0]
            && x.1@ == split_pieces(v@, ':')[1] && x.2@ == split_pieces(v@, ':')[2]),
        split_pieces(v@, ':').len() != 3 ==> r is None,
{
    let cs = chars_of(v.as_str());
    let n = cs.len();
    let ghost s = cs@;
    proof {
        assert(cs@.subrange(0, n as int) =~= cs@);
    }
    let k1 = match find_char(&cs, 0, n, ':') {
        None => {
            return None;
        },
        Some(k) => k,
    };
    let ghost s1 = s.skip(k1 + 1);
    proof {
        lemma_split_colon(s, k1 as int);
        assert(s1 =~= cs@.subrange(k1 + 1, n as int));
    }
    let k2 = match find_char(&cs, k1 + 1, n, ':') {
        None => {
            return None;
        },
        Some(k) => k,
    };
    let ghost s2 = s1.skip(k2 - k1);
    proof {
        lemma_split_colon(s1, k2 - k1 - 1);
        assert(s2 =~= cs@.subrange(k2 + 1, n as int));
        assert(s1.take(k2 - k1 - 1) =~= cs@.subrange(k1 + 1, k2 as int));
        assert(s.take(k1 as int) =~= cs@.subrange(0, k1 as int));
    }
    match find_char(&cs, k2 + 1, n, ':') {
        Some(k3) => {
            proof {
                lemma_split_colon(s2, k3 - k2 - 1);
                lemma_split_pieces_nonempty(s2.skip(k3 - k2), ':');
            }
            None
        },
        None => Some((string_of(&cs, 0, k1), string_of(&cs, k1 + 1, k2), string_of(&cs, k2 + 1, n))),
    }
}

proof fn lemma_split_colon(s: Seq<char>, k: int)
    requires
        first_index_of(s, ':') == Some(k),
    ensures
        0 <= k < s.len(),
        split_pieces(s, ':') == seq![s.take(k)] + split_pieces(s.skip(k + 1), ':'),
{
    let k0 = choose|k0: int| crate::text::is_first_index(s, ':', k0);
    assert(crate::text::is_first_index(s, ':', k0));
}

fn split_values_once(vals: &Vec<String>, c: char) -> (r: Vec<(String, String)>)
    ensures
        r@.len() == split_once_each(vals@.map_values(|s: String| s@), c).len(),
        forall|i: int|
            0 <= i < r@.len() ==> (#[trigger] r@[i]).0@ == split_once_each(
                vals@.map_values(|s: String| s@),
                c,
            )[i].0 && r@[i].1@ == split_once_each(vals@.map_values(|s: String| s@), c)[i].1,
{
    let ghost all = vals@.map_values(|s: String| s@);
    let mut r: Vec<(String, String)> = Vec::new();
    let mut i: usize = 0;
    while i < vals.len()
        invariant
            i <= vals@.len(),
            all == vals@.map_values(|s: String| s@),
            r@.len() == split_once_each(all.take(i as int), c).len(),
            forall|k: int|
                0 <= k < r@.len() ==> (#[trigger] r@[k]).0@ == split_once_each(all.take(i as int), c)[k].0
                    && r@[k].1@ == split_once_each(all.take(i as int), c)[k].1,
        decreases vals@.len() - i,
    {
        let piece = split_value_once(&vals[i], c);
        let ghost gp = piece;
        let ghost old_r = r@;
        if let Some(p) = piece {
            r.push(p);
        }
        proof {
            let t1 = all.take(i + 1);
            assert(t1.drop_last() =~= all.take(i as int));
            assert(t1.last() == vals@[i as int]@);
            let prev = split_once_each(all.take(i as int), c);
            assert forall|k: int| 0 <= k < r@.len() implies (#[trigger] r@[k]).0@ == split_once_each(t1, c)[k].0
                && r@[k].1@ == split_once_each(t1, c)[k].1 by {
                if k < old_r.len() {
                    assert(r@[k] == old_r[k]);
                }
            }
        }
        i = i + 1;
    }
    proof {
        assert(all.take(vals@.len() as int) =~= all);
    }
    r
}

/// `--indicator-weight id=w` values: indicator instance and weight text, split at
/// the first `=`; values without one are passed over.
pub fn indicator_weight_args(args: &Vec<String>) -> (r: Vec<(String, String)>)
    ensures
        r@.len() == split_once_each(flag_values(args@, "--indicator-weight"@), '=').len(),
        forall|i: int|
            0 <= i < r@.len() ==> (#[trigger] r@[i]).0@ == split_once_each(
                flag_values(args@, "--indicator-weight"@),
                '=',
            )[i].0 && r@[i].1@ == split_once_each(flag_values(args@, "--indicator-weight"@), '=')[i].1,
{
    let vals = get_all_args(args, "--indicator-weight");
    split_values_once(&vals, '=')
}

/// `--hold-tier PNL_PCT:EXTENSION_MS` values: profit and extension texts, split at
/// the first `:`; values without one are passed over.
pub fn hold_tier_args(args: &Vec<String>) -> (r: Vec<(String, String)>)
    ensures
        r@.len() == split_once_each(flag_values(args@, "--hold-tier"@), ':').len(),
        forall|i: int|
            0 <= i < r@.len() ==> (#[trigger] r@[i]).0@ == split_once_each(
                flag_values(args@, "--hold-tier"@),
                ':',
            )[i].0 && r@[i].1@ == split_once_each(flag_values(args@, "--hold-tier"@), ':')[i].1,
{
    let vals = get_all_args(args, "--hold-tier");
    split_values_once(&vals, ':')
}

/// `--add-indicator TYPE:TIMESCALE:WEIGHT` values with exactly three parts, split;
/// other values are passed over.
pub fn add_indicator_args(args: &Vec<String>) -> (r: Vec<(String, String, String)>)
    ensures
        r@.len() == three_parts_each(flag_values(args@, "--add-indicator"@)).len(),
        forall|i: int|
            0 <= i < r@.len() ==> {
                let p = three_parts_each(flag_values(args@, "--add-indicator"@))[i];
                &&& (#[trigger] r@[i]).0@ == p.0
                &&& r@[i].1@ == p.1
                &&& r@[i].2@ == p.2
            },
{
    let vals = get_all_args(args, "--add-indicator");
    let ghost all = vals@.map_values(|s: String| s@);
    let mut r: Vec<(String, String, String)> = Vec::new();
    let mut i: usize = 0;
    while i < vals.len()
        invariant
            i <= vals@.len(),
            all == vals@.map_values(|s: String| s@),
            all == flag_values(args@, "--add-indicator"@),
            r@.len() == three_parts_each(all.take(i as int)).len(),
            forall|k: int|
                0 <= k < r@.len() ==> {
                    let p = three_parts_each(all.take(i as int))[k];
                    &&& (#[trigger] r@[k]).0@ == p.0
                    &&& r@[k].1@ == p.1
                    &&& r@[k].2@ == p.2
                },
        decreases vals@.len() - i,
    {
        let parts = split_value_three(&vals[i]);
        let ghost gp = parts;
        let ghost old_r = r@;
        if let Some(p) = parts {
            r.push(p);
        }
        proof {
            let t1 = all.take(i + 1);
            assert(t1.drop_last() =~= all.take(i as int));
            assert(t1.last() == vals@[i as int]@);
            assert forall|k: int| 0 <= k < r@.len() implies {
                let p = three_parts_each(t1)[k];
                &&& (#[trigger] r@[k]).0@ == p.0
                &&& r@[k].1@ == p.1
                &&& r@[k].2@ == p.2
            } by {
                if k < old_r.len() {
                    assert(r@[k] == old_r[k]);
                }
            }
        }
        i = i + 1;
    }
    proof {
        assert(all.take(vals@.len() as int) =~= all);
    }
    r
}

} // verus!
