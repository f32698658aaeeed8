//! The lines of the dashboard's config viewer for the indicators and actions of
//! a strategy: which lines come, in which order. Each line names the config
//! entry (and parameter) it shows; turning it into styled text, numbers and
//! dates included, is the terminal's business.
//!
//! Indicators are grouped by timescale, the groups in the order of their labels
//! (`1day`, `1hour`, `1min`, `1month`, `5min`); actions by phase, in the order
//! Entry, Monitor, Exit, Sizing. Empty groups are left out. Each entry shows its
//! line (on or off), its parameters sorted by name (equal names in config order),
//! and, where someone is recorded as having changed it, who and when, and why
//! where a reason is given. A blank line closes each group.

use vstd::prelude::*;
use crate::config::{av, ActionCfg, ActionV};
use crate::dashboard::{lex_le, lex_le_chars};
use crate::indicator_cfg::{iv, IndicatorCfg, IndicatorV};
use crate::model::{ActionPhase, Timescale};
use crate::text::chars_of;

verus! {

/// The two sections of the viewer.
#[derive(Debug, Clone, Copy, PartialEq, Eq, Structural)]
pub enum Section {
    Indicators,
    Actions,
}

/// One line of a section.
#[derive(Debug, Clone, Copy, PartialEq, Eq, Structural)]
pub enum ViewLine {
    Blank,
    /// the section's title.
    Title(Section),
    /// the heading of group `g` (a timescale or a phase, see `group_label`).
    Group(usize),
    /// the line of entry `i`: its switch, id, type and weight or priority.
    Entry(usize),
    /// parameter `k` of entry `i`.
    Param(usize, usize),
    /// who changed entry `i`, and when.
    Modified(usize),
    /// why entry `i` was changed.
    Reason(usize),
}

/// What the viewer needs of one entry: its group, its parameter names, whether
/// someone is recorded as having changed it, and whether a reason is given.
pub struct EntryFacts {
    pub group: usize,
    pub keys: Seq<Seq<char>>,
    pub changed: bool,
    pub has_reason: bool,
}

/// How many groups a section has: five timescales, or four phases.
pub open spec fn group_count(sec: Section) -> usize {
    match sec {
        Section::Indicators => 5,
        Section::Actions => 4,
    }
}

/// The position of an indicator's timescale group (groups ordered by label).
pub open spec fn timescale_group(t: Timescale) -> usize {
    match t {
        Timescale::OneDay => 0,
        Timescale::OneHour => 1,
        Timescale::OneMinute => 2,
        Timescale::OneMonth => 3,
        Timescale::FiveMinute => 4,
    }
}

/// The position of an action's phase group.
pub open spec fn phase_group(p: ActionPhase) -> usize {
    match p {
        ActionPhase::Entry => 0,
        ActionPhase::Monitor => 1,
        ActionPhase::Exit => 2,
        ActionPhase::Sizing => 3,
    }
}

pub open spec fn reason_given(r: Option<Seq<char>>) -> bool {
    match r {
        Some(t) => t.len() > 0,
        None => false,
    }
}

pub open spec fn indicator_facts(a: IndicatorV) -> EntryFacts {
    EntryFacts {
        group: timescale_group(a.timescale),
        keys: Seq::new(a.params.len(), |k: int| a.params[k].0),
        changed: a.last_modified_by is Some,
        has_reason: reason_given(a.modification_reason),
    }
}

pub open spec fn action_facts(a: ActionV) -> EntryFacts {
    EntryFacts {
        group: phase_group(a.phase),
        keys: Seq::new(a.params.len(), |k: int| a.params[k].0),
        changed: a.last_modified_by is Some,
        has_reason: reason_given(a.modification_reason),
    }
}

/// `a` comes strictly before `b` in the order of `String`.
pub open spec fn lex_lt(a: Seq<char>, b: Seq<char>) -> bool {
    lex_le(a, b) && a != b
}

/// `order` with position `x` inserted after every position whose name is not
/// after `x`'s.
pub open spec fn insert_pos(order: Seq<usize>, keys: Seq<Seq<char>>, x: usize) -> Seq<usize>
    decreases order.len(),
{
    if order.len() == 0 {
        seq![x]
    } else if lex_lt(keys[x as int], keys[order[0] as int]) {
        seq![x] + order
    } else {
        seq![order[0]] + insert_pos(order.drop_first(), keys, x)
    }
}

/// The positions `0..n` of the names ordered by name, equal names in position order.
pub open spec fn key_order(keys: Seq<Seq<char>>, n: nat) -> Seq<usize>
    decreases n,
{
    if n == 0 {
        Seq::empty()
    } else {
        insert_pos(key_order(keys, (n - 1) as nat), keys, (n - 1) as usize)
    }
}

/// The lines of one entry.
pub open spec fn entry_lines(f: EntryFacts, i: usize) -> Seq<ViewLine> {
    let order = key_order(f.keys, f.keys.len());
    seq![ViewLine::Entry(i)] + Seq::new(order.len(), |k: int| ViewLine::Param(i, order[k])) + if f.changed {
        seq![ViewLine::Modified(i)] + if f.has_reason {
            seq![ViewLine::Reason(i)]
        } else {
            Seq::empty()
        }
    } else {
        Seq::empty()
    }
}

/// The lines of the entries of group `g`, in config order.
pub open spec fn group_entries(fs: Seq<EntryFacts>, g: usize) -> Seq<ViewLine>
    decreases fs.len(),
{
    if fs.len() == 0 {
        Seq::empty()
    } else {
        group_entries(fs.drop_last(), g) + if fs.last().group == g {
            entry_lines(fs.last(), (fs.len() - 1) as usize)
        } else {
            Seq::empty()
        }
    }
}

/// The lines of the groups `0..n`, empty groups left out.
pub open spec fn groups_upto(fs: Seq<EntryFacts>, n: nat) -> Seq<ViewLine>
    decreases n,
{
    if n == 0 {
        Seq::empty()
    } else {
        let g = (n - 1) as usize;
        let body = group_entries(fs, g);
        groups_upto(fs, (n - 1) as nat) + if body.len() == 0 {
            Seq::empty()
        } else {
            seq![ViewLine::Group(g)] + body + seq![ViewLine::Blank]
        }
    }
}

/// A section's lines: its title, a blank line, then its groups.
pub open spec fn section_lines(sec: Section, fs: Seq<EntryFacts>) -> Seq<ViewLine> {
    seq![ViewLine::Title(sec), ViewLine::Blank] + groups_upto(fs, group_count(sec) as nat)
}

proof fn lemma_insert_at(order: Seq<usize>, keys: Seq<Seq<char>>, x: usize, p: int)
    requires
        0 <= p <= order.len(),
        forall|j: int| 0 <= j < p ==> !lex_lt(keys[x as int], #[trigger] keys[order[j] as int]),
        p < order.len() ==> lex_lt(keys[x as int], keys[order[p] as int]),
    ensures
        insert_pos(order, keys, x) == order.take(p) + seq![x] + order.skip(p),
    decreases order.len(),
{
    if order.len() == 0 {
        assert(order.take(p) + seq![x] + order.skip(p) =~= seq![x]);
    } else if p == 0 {
        assert(order.take(0) + seq![x] + order.skip(0) =~= seq![x] + order);
    } else {
        let rest = order.drop_first();
        assert forall|j: int| 0 <= j < p - 1 implies !lex_lt(keys[x as int], #[trigger] keys[rest[j] as int]) by {
            assert(rest[j] == order[j + 1]);
        }
        if p - 1 < rest.len() {
            assert(rest[p - 1] == order[p]);
        }
        assert(!lex_lt(keys[x as int], keys[order[0] as int]));
        lemma_insert_at(rest, keys, x, p - 1);
        assert(order.take(p) + seq![x] + order.skip(p) =~= seq![order[0]] + (rest.take(p - 1) + seq![x]
            + rest.skip(p - 1)));
    }
}

proof fn lemma_insert_bounded(order: Seq<usize>, keys: Seq<Seq<char>>, x: usize, n: usize)
    requires
        forall|j: int| 0 <= j < order.len() ==> #[trigger] order[j] < n,
        x < n,
    ensures
        insert_pos(order, keys, x).len() == order.len() + 1,
        forall|j: int| 0 <= j < insert_pos(order, keys, x).len() ==> #[trigger] insert_pos(order, keys, x)[j] < n,
    decreases order.len(),
{
    if order.len() > 0 && !lex_lt(keys[x as int], keys[order[0] as int]) {
        let rest = order.drop_first();
        assert forall|j: int| 0 <= j < rest.len() implies #[trigger] rest[j] < n by {
            assert(rest[j] == order[j + 1]);
        }
        lemma_insert_bounded(rest, keys, x, n);
        let r = insert_pos(rest, keys, x);
        assert forall|j: int| 0 <= j < insert_pos(order, keys, x).len() implies #[trigger] insert_pos(order, keys, x)[j] < n by {
            if j > 0 {
                assert(insert_pos(order, keys, x)[j] == r[j - 1]);
            }
        }
    }
}

fn lex_lt_exec(a: &String, b: &String) -> (r: bool)
    ensures
        r == lex_lt(a@, b@),
{
    let av_ = chars_of(a.as_str());
    let bv = chars_of(b.as_str());
    lex_le_chars(&av_, &bv) && *a != *b
}

/// The positions of the names, ordered by name (see `key_order`).
pub fn key_order_exec(keys: &Vec<String>) -> (r: Vec<usize>)
    ensures
        r@ == key_order(crate::dashboard::names(keys@), keys@.len()),
{
    let ghost ks = crate::dashboard::names(keys@);
    let mut out: Vec<usize> = Vec::new();
    let mut i: usize = 0;
    while i < keys.len()
        invariant
            i <= keys.len(),
            ks == crate::dashboard::names(keys@),
            out@ == key_order(ks, i as nat),
            out@.len() == i,
            forall|j: int| 0 <= j < out@.len() ==> #[trigger] out@[j] < i,
        decreases keys.len() - i,
    {
        let mut p: usize = 0;
        while p < out.len() && !lex_lt_exec(&keys[i], &keys[out[p]])
            invariant
                p <= out.len(),
                out@.len() == i,
                i < keys.len(),
                ks == crate::dashboard::names(keys@),
                forall|j: int| 0 <= j < out@.len() ==> #[trigger] out@[j] < i,
                forall|j: int| 0 <= j < p ==> !lex_lt(ks[i as int], #[trigger] ks[out@[j] as int]),
            decreases out.len() - p,
        {
            proof {
                assert(ks[out@[p as int] as int] == keys@[out@[p as int] as int]@);
            }
            p = p + 1;
        }
        proof {
            assert(ks[i as int] == keys@[i as int]@);
            if p < out.len() {
                assert(ks[out@[p as int] as int] == keys@[out@[p as int] as int]@);
            }
            lemma_insert_at(out@, ks, i, p as int);
            lemma_insert_bounded(out@, ks, i, (i + 1) as usize);
            assert forall|j: int| 0 <= j < out@.len() implies #[trigger] out@[j] < i + 1 by {}
        }
        let ghost before = out@;
        out.insert(p, i);
        proof {
            assert(out@ =~= before.take(p as int) + seq![i] + before.skip(p as int));
            assert(key_order(ks, (i + 1) as nat) == insert_pos(key_order(ks, i as nat), ks, i));
        }
        i = i + 1;
    }
    out
}

/// What the viewer needs of one entry (see `EntryFacts`).
pub struct Facts {
    pub group: usize,
    pub keys: Vec<String>,
    pub changed: bool,
    pub has_reason: bool,
}

pub open spec fn facts_v(f: Facts) -> EntryFacts {
    EntryFacts { group: f.group, keys: crate::dashboard::names(f.keys@), changed: f.changed, has_reason: f.has_reason }
}

pub open spec fn facts_seq(fs: Seq<Facts>) -> Seq<EntryFacts> {
    Seq::new(fs.len(), |i: int| facts_v(fs[i]))
}

fn param_keys(p: &Vec<(String, crate::config::Json)>) -> (r: Vec<String>)
    ensures
        crate::dashboard::names(r@) == Seq::new(crate::config::members_v(p@).len(), |k: int| crate::config::members_v(p@)[k].0),
{
    let mut r: Vec<String> = Vec::new();
    let mut i: usize = 0;
    while i < p.len()
        invariant
            i <= p.len(),
            r@.len() == i,
            forall|j: int| 0 <= j < i ==> (#[trigger] r@[j])@ == p@[j].0@,
        decreases p.len() - i,
    {
        r.push(p[i].0.clone());
        i = i + 1;
    }
    proof {
        assert(crate::dashboard::names(r@) =~= Seq::new(crate::config::members_v(p@).len(), |k: int| crate::config::members_v(p@)[k].0));
    }
    r
}

fn reason_given_exec(r: &Option<String>) -> (b: bool)
    ensures
        b == reason_given(crate::config::opt_text(*r)),
{
    match r {
        Some(t) => t.as_str().unicode_len() > 0,
        None => false,
    }
}

fn action_facts_exec(a: &ActionCfg) -> (f: Facts)
    ensures
        facts_v(f) == action_facts(av(*a)),
{
    let group: usize = match a.phase {
        ActionPhase::Entry => 0,
        ActionPhase::Monitor => 1,
        ActionPhase::Exit => 2,
        ActionPhase::Sizing => 3,
    };
    Facts {
        group,
        keys: param_keys(&a.params),
        changed: a.last_modified_by.is_some(),
        has_reason: reason_given_exec(&a.modification_reason),
    }
}

fn indicator_facts_exec(a: &IndicatorCfg) -> (f: Facts)
    ensures
        facts_v(f) == indicator_facts(iv(*a)),
{
    let group: usize = match a.timescale {
        Timescale::OneDay => 0,
        Timescale::OneHour => 1,
        Timescale::OneMinute => 2,
        Timescale::OneMonth => 3,
        Timescale::FiveMinute => 4,
    };
    Facts {
        group,
        keys: param_keys(&a.params),
        changed: a.last_modified_by.is_some(),
        has_reason: reason_given_exec(&a.modification_reason),
    }
}

fn push_line(out: &mut Vec<ViewLine>, l: ViewLine)
    ensures
        final(out)@ == old(out)@.push(l),
{
    out.push(l);
}

/// Append the lines of entry `i`.
fn push_entry_lines(out: &mut Vec<ViewLine>, f: &Facts, i: usize)
    ensures
        final(out)@ == old(out)@ + entry_lines(facts_v(*f), i),
{
    let ghost o0 = out@;
    let ghost fv = facts_v(*f);
    let order = key_order_exec(&f.keys);
    let ghost ord = order@;
    push_line(out, ViewLine::Entry(i));
    let mut k: usize = 0;
    while k < order.len()
        invariant
            k <= order.len(),
            ord == order@,
            out@ == o0 + seq![ViewLine::Entry(i)] + Seq::new(k as nat, |q: int| ViewLine::Param(i, ord[q])),
        decreases order.len() - k,
    {
        let ghost before = out@;
        push_line(out, ViewLine::Param(i, order[k]));
        proof {
            assert(Seq::new((k + 1) as nat, |q: int| ViewLine::Param(i, ord[q])) =~= Seq::new(k as nat, |q: int| ViewLine::Param(i, ord[q])).push(ViewLine::Param(i, ord[k as int])));
        }
        k = k + 1;
    }
    let ghost mid = out@;
    if f.changed {
        push_line(out, ViewLine::Modified(i));
        if f.has_reason {
            push_line(out, ViewLine::Reason(i));
        }
    }
    proof {
        assert(ord == key_order(fv.keys, fv.keys.len()));
        assert(out@ =~= o0 + entry_lines(fv, i));
    }
}

/// A section's lines (see `section_lines`).
fn section_lines_exec(sec: Section, fs: &Vec<Facts>) -> (r: Vec<ViewLine>)
    ensures
        r@ == section_lines(sec, facts_seq(fs@)),
{
    let ghost fsv = facts_seq(fs@);
    let mut out: Vec<ViewLine> = Vec::new();
    push_line(&mut out, ViewLine::Title(sec));
    push_line(&mut out, ViewLine::Blank);
    let n: usize = match sec {
        Section::Indicators => 5,
        Section::Actions => 4,
    };
    let mut g: usize = 0;
    while g < n
        invariant
            g <= n,
            n == group_count(sec),
            fsv == facts_seq(fs@),
            out@ == seq![ViewLine::Title(sec), ViewLine::Blank] + groups_upto(fsv, g as nat),
        decreases n - g,
    {
        let mut body: Vec<ViewLine> = Vec::new();
        let mut i: usize = 0;
        while i < fs.len()
            invariant
                i <= fs.len(),
                fsv == facts_seq(fs@),
                body@ == group_entries(fsv.take(i as int), g),
            decreases fs.len() - i,
        {
            proof {
                assert(fsv.take(i + 1).drop_last() =~= fsv.take(i as int));
                assert(fsv.take(i + 1).last() == facts_v(fs@[i as int]));
            }
            if fs[i].group == g {
                push_entry_lines(&mut body, &fs[i], i);
            }
            i = i + 1;
        }
        proof {
            assert(fsv.take(fs.len() as int) =~= fsv);
        }
        let ghost before = out@;
        if body.len() > 0 {
            push_line(&mut out, ViewLine::Group(g));
            let mut k: usize = 0;
            while k < body.len()
                invariant
                    k <= body.len(),
                    out@ == before.push(ViewLine::Group(g)) + body@.take(k as int),
                decreases body.len() - k,
            {
                push_line(&mut out, body[k]);
                proof {
                    assert(body@.take(k + 1) =~= body@.take(k as int).push(body@[k as int]));
                }
                k = k + 1;
            }
            push_line(&mut out, ViewLine::Blank);
            proof {
                assert(body@.take(body.len() as int) =~= body@);
                assert(out@ =~= before + (seq![ViewLine::Group(g)] + body@ + seq![ViewLine::Blank]));
            }
        } else {
            proof {
                assert(out@ =~= before + Seq::<ViewLine>::empty());
            }
        }
        g = g + 1;
    }
    out
}

/// The viewer's lines for the actions of a strategy.
pub fn action_lines(actions: &Vec<ActionCfg>) -> (r: Vec<ViewLine>)
    ensures
        r@ == section_lines(Section::Actions, Seq::new(actions@.len(), |i: int| action_facts(av(actions@[i])))),
{
    let mut fs: Vec<Facts> = Vec::new();
    let mut i: usize = 0;
    while i < actions.len()
        invariant
            i <= actions.len(),
            fs@.len() == i,
            forall|j: int| 0 <= j < i ==> facts_v(#[trigger] fs@[j]) == action_facts(av(actions@[j])),
        decreases actions.len() - i,
    {
        fs.push(action_facts_exec(&actions[i]));
        i = i + 1;
    }
    proof {
        assert(facts_seq(fs@) =~= Seq::new(actions@.len(), |i: int| action_facts(av(actions@[i]))));
    }
    section_lines_exec(Section::Actions, &fs)
}

/// The viewer's lines for the indicators of a strategy.
pub fn indicator_lines(indicators: &Vec<IndicatorCfg>) -> (r: Vec<ViewLine>)
    ensures
        r@ == section_lines(Section::Indicators, Seq::new(indicators@.len(), |i: int| indicator_facts(iv(indicators@[i])))),
{
    let mut fs: Vec<Facts> = Vec::new();
    let mut i: usize = 0;
    while i < indicators.len()
        invariant
            i <= indicators.len(),
            fs@.len() == i,
            forall|j: int| 0 <= j < i ==> facts_v(#[trigger] fs@[j]) == indicator_facts(iv(indicators@[j])),
        decreases indicators.len() - i,
    {
        fs.push(indicator_facts_exec(&indicators[i]));
        i = i + 1;
    }
    proof {
        assert(facts_seq(fs@) =~= Seq::new(indicators@.len(), |i: int| indicator_facts(iv(indicators@[i]))));
    }
    section_lines_exec(Section::Indicators, &fs)
}

} // verus!
