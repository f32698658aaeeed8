//! Navigation state of the terminal dashboard: page toggling, config-viewer
//! scrolling, ticker tabs kept in sorted order, and a trade log that keeps the
//! most recent entries.

use vstd::prelude::*;
use crate::text::chars_of;
use vstd::multiset::Multiset;

verus! {

/// Most trades the dashboard log keeps.
pub const TRADE_LOG_CAPACITY: usize = 10;

/// Which page is displayed.
#[derive(Debug, Clone, Copy, PartialEq, Eq, Structural)]
pub enum TuiPage {
    Dashboard,
    ConfigViewer,
}

/// Navigation state shared by the main loop and the renderer; `T` is the type
/// of a trade-log entry.
pub struct DashboardState<T> {
    pub config_version: i64,
    pub total_ticks: u64,
    pub trade_log: Vec<T>,
    /// index into `ticker_order` for tab selection
    pub selected_ticker_idx: usize,
    /// sorted ticker names for stable navigation
    pub ticker_order: Vec<String>,
    /// which page is currently displayed
    pub active_page: TuiPage,
    /// vertical scroll offset for the config viewer
    pub config_scroll_offset: u16,
    /// total scrollable lines in the config viewer
    pub config_total_lines: u16,
}

/// The trade log after adding `entry`: appended, and the oldest entry dropped when
/// the log would exceed its capacity.
pub open spec fn log_after_add<T>(log: Seq<T>, entry: T) -> Seq<T> {
    if log.len() + 1 > TRADE_LOG_CAPACITY {
        log.push(entry).drop_first()
    } else {
        log.push(entry)
    }
}

/// Texts of a list of strings.
pub open spec fn names(v: Seq<String>) -> Seq<Seq<char>> {
    v.map_values(|s: String| s@)
}

/// `a` is not after `b` in the order of `String` (lexicographic by code point).
pub open spec fn lex_le(a: Seq<char>, b: Seq<char>) -> bool
    decreases a.len(),
{
    if a.len() == 0 {
        true
    } else if b.len() == 0 {
        false
    } else if a[0] != b[0] {
        a[0] < b[0]
    } else {
        lex_le(a.drop_first(), b.drop_first())
    }
}

pub open spec fn sorted_names(s: Seq<Seq<char>>) -> bool {
    forall|i: int, j: int| 0 <= i < j < s.len() ==> lex_le(#[trigger] s[i], #[trigger] s[j])
}

/// The index after `idx`, wrapping to the first ticker.
pub open spec fn next_index(idx: int, len: int) -> int {
    if len == 0 {
        idx
    } else {
        (idx + 1) % len
    }
}

/// The index before `idx`, wrapping to the last ticker.
pub open spec fn prev_index(idx: int, len: int) -> int {
    if len == 0 {
        idx
    } else if idx == 0 {
        len - 1
    } else {
        idx - 1
    }
}

proof fn lemma_lex_total(a: Seq<char>, b: Seq<char>)
    ensures
        lex_le(a, b) || lex_le(b, a),
    decreases a.len(),
{
    if a.len() > 0 && b.len() > 0 && a[0] == b[0] {
        lemma_lex_total(a.drop_first(), b.drop_first());
    }
}

proof fn lemma_lex_trans(a: Seq<char>, b: Seq<char>, c: Seq<char>)
    requires
        lex_le(a, b),
        lex_le(b, c),
    ensures
        lex_le(a, c),
    decreases a.len(),
{
    if a.len() > 0 && b.len() > 0 && c.len() > 0 && a[0] == b[0] && b[0] == c[0] {
        lemma_lex_trans(a.drop_first(), b.drop_first(), c.drop_first());
    }
}

pub(crate) fn lex_le_chars(a: &Vec<char>, b: &Vec<char>) -> (r: bool)
    ensures
        r == lex_le(a@, b@),
{
    let mut i: usize = 0;
    proof {
        assert(a@.skip(0) == a@);
        assert(b@.skip(0) == b@);
    }
    while i < a.len() && i < b.len() && a[i] == b[i]
        invariant
            i <= a.len(),
            i <= b.len(),
            lex_le(a@, b@) == lex_le(a@.skip(i as int), b@.skip(i as int)),
        decreases a.len() - i,
    {
        proof {
            assert(a@.skip(i as int).drop_first() == a@.skip(i + 1));
            assert(b@.skip(i as int).drop_first() == b@.skip(i + 1));
            assert(a@.skip(i as int)[0] == a@[i as int]);
            assert(b@.skip(i as int)[0] == b@[i as int]);
        }
        i = i + 1;
    }
    proof {
        if i < a.len() {
            assert(a@.skip(i as int)[0] == a@[i as int]);
        }
        if i < b.len() {
            assert(b@.skip(i as int)[0] == b@[i as int]);
        }
    }
    if i == a.len() {
        true
    } else if i == b.len() {
        false
    } else {
        a[i] < b[i]
    }
}

/// `v` sorted in the order of `String`.
pub(crate) fn sort_names(v: Vec<String>) -> (r: Vec<String>)
    ensures
        sorted_names(names(r@)),
        names(r@).to_multiset() == names(v@).to_multiset(),
{
    let ghost all = names(v@).to_multiset();
    let mut rest = v;
    let mut out: Vec<String> = Vec::new();
    proof {
        vstd::seq_lib::to_multiset_len(names(out@));
        vstd::multiset::lemma_multiset_empty_len(names(out@).to_multiset());
        assert(names(out@).to_multiset() =~= Multiset::<Seq<char>>::empty());
        broadcast use vstd::multiset::group_multiset_axioms;
        assert(names(out@).to_multiset().add(names(rest@).to_multiset()) =~= all);
    }
    while rest.len() > 0
        invariant
            sorted_names(names(out@)),
            names(out@).to_multiset().add(names(rest@).to_multiset()) == all,
        decreases rest.len(),
    {
        let ghost old_rest = rest@;
        let s = rest.pop().unwrap();
        let sc = chars_of(s.as_str());
        let ghost o = names(out@);
        let mut pos: usize = 0;
        while pos < out.len() && lex_le_chars(&chars_of(out[pos].as_str()), &sc)
            invariant
                pos <= out.len(),
                o == names(out@),
                sc@ == s@,
                forall|j: int| 0 <= j < pos ==> lex_le(o[j], s@),
            decreases out.len() - pos,
        {
            pos = pos + 1;
        }
        proof {
            if pos < out.len() {
                lemma_lex_total(o[pos as int], s@);
                assert(lex_le(s@, o[pos as int]));
                assert forall|j: int| pos <= j < o.len() implies lex_le(s@, o[j]) by {
                    if j > pos {
                        assert(lex_le(o[pos as int], o[j]));
                        lemma_lex_trans(s@, o[pos as int], o[j]);
                    }
                }
            }
        }
        out.insert(pos, s);
        proof {
            let n = names(out@);
            assert(n =~= o.insert(pos as int, s@));
            assert forall|i: int, j: int| 0 <= i < j < n.len() implies lex_le(#[trigger] n[i], #[trigger] n[j]) by {
                if j < pos {
                    assert(n[i] == o[i] && n[j] == o[j]);
                } else if j == pos {
                    assert(n[i] == o[i]);
                } else if i == pos {
                    assert(n[j] == o[j - 1]);
                } else if i < pos {
                    assert(n[i] == o[i] && n[j] == o[j - 1]);
                } else {
                    assert(n[i] == o[i - 1] && n[j] == o[j - 1]);
                }
            }
            vstd::seq_lib::to_multiset_insert(o, pos as int, s@);
            assert(names(old_rest) =~= names(rest@).push(s@));
            vstd::seq_lib::to_multiset_build(names(rest@), s@);
            broadcast use vstd::multiset::group_multiset_axioms;
            assert(names(out@).to_multiset().add(names(rest@).to_multiset()) =~= all);
        }
    }
    proof {
        vstd::seq_lib::to_multiset_len(names(rest@));
        vstd::multiset::lemma_multiset_empty_len(names(rest@).to_multiset());
        assert(names(rest@).to_multiset() =~= Multiset::<Seq<char>>::empty());
        broadcast use vstd::multiset::group_multiset_axioms;
        assert(names(out@).to_multiset() =~= all);
    }
    out
}

impl<T> DashboardState<T> {
    /// the config version, tick count and trade log of `self` and `other` agree.
    pub open spec fn same_records(self, other: Self) -> bool {
        &&& self.config_version == other.config_version
        &&& self.total_ticks == other.total_ticks
        &&& self.trade_log@ == other.trade_log@
    }

    /// the ticker order and the selected ticker of `self` and `other` agree.
    pub open spec fn same_selection(self, other: Self) -> bool {
        &&& self.ticker_order@ == other.ticker_order@
        &&& self.selected_ticker_idx == other.selected_ticker_idx
    }

    /// the page, scroll offset and line total of `self` and `other` agree.
    pub open spec fn same_view(self, other: Self) -> bool {
        &&& self.active_page == other.active_page
        &&& self.config_scroll_offset == other.config_scroll_offset
        &&& self.config_total_lines == other.config_total_lines
    }
}

impl<T> DashboardState<T> {
    pub fn new(config_version: i64) -> (s: Self)
        ensures
            s.config_version == config_version,
            s.total_ticks == 0,
            s.trade_log@.len() == 0,
            s.selected_ticker_idx == 0,
            s.ticker_order@.len() == 0,
            s.active_page == TuiPage::Dashboard,
            s.config_scroll_offset == 0,
            s.config_total_lines == 0,
    {
        DashboardState {
            config_version,
            total_ticks: 0,
            trade_log: Vec::new(),
            selected_ticker_idx: 0,
            ticker_order: Vec::new(),
            active_page: TuiPage::Dashboard,
            config_scroll_offset: 0,
            config_total_lines: 0,
        }
    }

    /// toggle between dashboard and config viewer pages.
    pub fn toggle_page(&mut self)
        ensures
            final(self).active_page == (match old(self).active_page {
                TuiPage::Dashboard => TuiPage::ConfigViewer,
                TuiPage::ConfigViewer => TuiPage::Dashboard,
            }),
            final(self).config_scroll_offset == 0,
            final(self).config_total_lines == old(self).config_total_lines,
            final(self).same_selection(*old(self)),
            final(self).same_records(*old(self)),
    {
        self.active_page = match self.active_page {
            TuiPage::Dashboard => TuiPage::ConfigViewer,
            TuiPage::ConfigViewer => TuiPage::Dashboard,
        };
        self.config_scroll_offset = 0;
    }

    /// scroll config viewer up by one line, stopping at the top.
    pub fn scroll_up(&mut self)
        ensures
            final(self).config_scroll_offset == (if old(self).config_scroll_offset > 0 {
                old(self).config_scroll_offset - 1
            } else {
                0
            }),
            final(self).active_page == old(self).active_page,
            final(self).config_total_lines == old(self).config_total_lines,
            final(self).same_selection(*old(self)),
            final(self).same_records(*old(self)),
    {
        self.config_scroll_offset = self.config_scroll_offset.saturating_sub(1);
    }

    /// scroll config viewer down by one line, clamped to max.
    pub fn scroll_down(&mut self, max: u16)
        ensures
            final(self).config_scroll_offset == (if old(self).config_scroll_offset < max {
                old(self).config_scroll_offset + 1
            } else {
                old(self).config_scroll_offset as int
            }),
            final(self).active_page == old(self).active_page,
            final(self).config_total_lines == old(self).config_total_lines,
            final(self).same_selection(*old(self)),
            final(self).same_records(*old(self)),
    {
        if self.config_scroll_offset < max {
            self.config_scroll_offset = self.config_scroll_offset + 1;
        }
    }

    /// scroll config viewer up by half a viewport, stopping at the top.
    pub fn scroll_page_up(&mut self, viewport_h: u16)
        ensures
            final(self).config_scroll_offset == (if old(self).config_scroll_offset >= viewport_h / 2 {
                old(self).config_scroll_offset - viewport_h / 2
            } else {
                0
            }),
            final(self).active_page == old(self).active_page,
            final(self).config_total_lines == old(self).config_total_lines,
            final(self).same_selection(*old(self)),
            final(self).same_records(*old(self)),
    {
        let jump = viewport_h / 2;
        self.config_scroll_offset = self.config_scroll_offset.saturating_sub(jump);
    }

    /// scroll config viewer down by half a viewport, clamped to max.
    pub fn scroll_page_down(&mut self, viewport_h: u16, max: u16)
        requires
            old(self).config_scroll_offset + viewport_h / 2 <= u16::MAX,
        ensures
            final(self).config_scroll_offset == (if old(self).config_scroll_offset + viewport_h / 2
                <= max {
                old(self).config_scroll_offset + viewport_h / 2
            } else {
                max as int
            }),
            final(self).active_page == old(self).active_page,
            final(self).config_total_lines == old(self).config_total_lines,
            final(self).same_selection(*old(self)),
            final(self).same_records(*old(self)),
    {
        let jump = viewport_h / 2;
        let down = self.config_scroll_offset + jump;
        self.config_scroll_offset = if down < max {
            down
        } else {
            max
        };
    }

    /// record the config viewer's total line count; the scroll offset is clamped
    /// to it if the config shrank.
    pub fn set_config_total_lines(&mut self, total: u16)
        ensures
            final(self).config_total_lines == total,
            final(self).config_scroll_offset == (if old(self).config_scroll_offset > total {
                total
            } else {
                old(self).config_scroll_offset
            }),
            final(self).active_page == old(self).active_page,
            final(self).same_selection(*old(self)),
            final(self).same_records(*old(self)),
    {
        self.config_total_lines = total;
        if self.config_scroll_offset > self.config_total_lines {
            self.config_scroll_offset = self.config_total_lines;
        }
    }

    /// add a trade to the log, keeping the last ten.
    pub fn add_trade(&mut self, entry: T)
        ensures
            final(self).trade_log@ == log_after_add(old(self).trade_log@, entry),
            final(self).config_version == old(self).config_version,
            final(self).total_ticks == old(self).total_ticks,
            final(self).same_selection(*old(self)),
            final(self).same_view(*old(self)),
    {
        self.trade_log.push(entry);
        if self.trade_log.len() > TRADE_LOG_CAPACITY {
            let ghost before = self.trade_log@;
            let _ = self.trade_log.remove(0);
            proof {
                assert(self.trade_log@ =~= before.drop_first());
            }
        }
    }

    /// the currently selected ticker name, if any.
    pub fn selected_ticker(&self) -> (r: Option<&str>)
        ensures
            match r {
                Some(t) => self.selected_ticker_idx < self.ticker_order@.len() && t@
                    == self.ticker_order@[self.selected_ticker_idx as int]@,
                None => self.selected_ticker_idx >= self.ticker_order@.len(),
            },
    {
        if self.selected_ticker_idx < self.ticker_order.len() {
            Some(self.ticker_order[self.selected_ticker_idx].as_str())
        } else {
            None
        }
    }

    /// advance to the next ticker (wraps around).
    pub fn next_ticker(&mut self)
        requires
            old(self).ticker_order@.len() > 0 ==> old(self).selected_ticker_idx < usize::MAX,
        ensures
            final(self).selected_ticker_idx == next_index(
                old(self).selected_ticker_idx as int,
                old(self).ticker_order@.len() as int,
            ),
            final(self).ticker_order@ == old(self).ticker_order@,
            final(self).same_view(*old(self)),
            final(self).same_records(*old(self)),
    {
        if self.ticker_order.len() > 0 {
            self.selected_ticker_idx = (self.selected_ticker_idx + 1) % self.ticker_order.len();
        }
    }

    /// go to the previous ticker (wraps around).
    pub fn prev_ticker(&mut self)
        ensures
            final(self).selected_ticker_idx == prev_index(
                old(self).selected_ticker_idx as int,
                old(self).ticker_order@.len() as int,
            ),
            final(self).ticker_order@ == old(self).ticker_order@,
            final(self).same_view(*old(self)),
            final(self).same_records(*old(self)),
    {
        if self.ticker_order.len() > 0 {
            if self.selected_ticker_idx == 0 {
                self.selected_ticker_idx = self.ticker_order.len() - 1;
            } else {
                self.selected_ticker_idx = self.selected_ticker_idx - 1;
            }
        }
    }

    /// ensure a ticker exists in the order list; the list is then sorted.
    pub fn ensure_ticker_order(&mut self, ticker: &str)
        ensures
            names(old(self).ticker_order@).contains(ticker@) ==> names(final(self).ticker_order@)
                == names(old(self).ticker_order@),
            !names(old(self).ticker_order@).contains(ticker@) ==> {
                &&& sorted_names(names(final(self).ticker_order@))
                &&& names(final(self).ticker_order@).to_multiset() == names(
                    old(self).ticker_order@,
                ).push(ticker@).to_multiset()
            },
            final(self).selected_ticker_idx == old(self).selected_ticker_idx,
            final(self).same_view(*old(self)),
            final(self).same_records(*old(self)),
    {
        let t = String::from_str(ticker);
        let ghost old_names = names(self.ticker_order@);
        let mut i: usize = 0;
        let mut found = false;
        while i < self.ticker_order.len()
            invariant
                i <= self.ticker_order.len(),
                old_names == names(self.ticker_order@),
                t@ == ticker@,
                !found ==> forall|j: int| 0 <= j < i ==> old_names[j] != ticker@,
                found ==> old_names.contains(ticker@),
            decreases self.ticker_order.len() - i,
        {
            if self.ticker_order[i] == t {
                proof {
                    assert(old_names[i as int] == ticker@);
                }
                found = true;
            }
            i = i + 1;
        }
        if !found {
            let mut v: Vec<String> = Vec::new();
            std::mem::swap(&mut v, &mut self.ticker_order);
            let ghost before = v@;
            v.push(t);
            proof {
                assert(names(v@) =~= names(before).push(ticker@));
            }
            self.ticker_order = sort_names(v);
        }
    }
}

/// Stepping to the next ticker and back returns to the same tab, and a
/// selection inside the list stays inside it.
pub proof fn lemma_next_then_prev(idx: int, len: int)
    requires
        0 <= idx < len,
    ensures
        0 <= next_index(idx, len) < len,
        prev_index(next_index(idx, len), len) == idx,
{
    if idx + 1 < len {
        vstd::arithmetic::div_mod::lemma_small_mod((idx + 1) as nat, len as nat);
    } else {
        vstd::arithmetic::div_mod::lemma_mod_self_0(len);
    }
}

/// Stepping back and then forward returns to the same tab, and a selection
/// inside the list stays inside it.
pub proof fn lemma_prev_then_next(idx: int, len: int)
    requires
        0 <= idx < len,
    ensures
        0 <= prev_index(idx, len) < len,
        next_index(prev_index(idx, len), len) == idx,
{
    if idx == 0 {
        vstd::arithmetic::div_mod::lemma_mod_self_0(len);
    } else {
        vstd::arithmetic::div_mod::lemma_small_mod(idx as nat, len as nat);
    }
}

/// A trade log within capacity stays within capacity when a trade is added,
/// and the added trade is its newest entry.
pub proof fn lemma_trade_log_bounded<T>(log: Seq<T>, entry: T)
    requires
        log.len() <= TRADE_LOG_CAPACITY,
    ensures
        log_after_add(log, entry).len() <= TRADE_LOG_CAPACITY,
        log_after_add(log, entry).last() == entry,
{
}

/// Adding a ticker that is not yet listed to a list without duplicates (the
/// way `ensure_ticker_order` does) leaves a list without duplicates.
pub proof fn lemma_ticker_order_stays_distinct(before: Seq<Seq<char>>, after: Seq<Seq<char>>, ticker: Seq<char>)
    requires
        before.no_duplicates(),
        !before.contains(ticker),
        after.to_multiset() == before.push(ticker).to_multiset(),
    ensures
        after.no_duplicates(),
{
    broadcast use vstd::multiset::group_multiset_axioms;
    broadcast use vstd::seq_lib::group_to_multiset_ensures;
    before.lemma_multiset_has_no_duplicates();
    assert forall|x: Seq<char>| after.to_multiset().contains(x) implies after.to_multiset().count(x) == 1 by {
        if x == ticker {
            assert(before.to_multiset().count(x) == 0);
        } else {
            assert(before.push(ticker).to_multiset().count(x) == before.to_multiset().count(x));
        }
    }
    after.lemma_multiset_has_no_duplicates_conv();
}

} // verus!
