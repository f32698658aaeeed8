//! Warm-up history for the live loop: the last few days of one-minute bars,
//! paged from the IEX feed that the live stream uses and, when a request there
//! fails, from the consolidated (SIP) feed, whose bars come sixteen minutes late.
//! The caller issues each request and hands back what came of it; this module
//! decides what to ask for next, when to stop, and which bars to keep in what
//! order.

use vstd::prelude::*;
use crate::bars::{all_in_range, in_regular_hours, regular_hours_order};
use crate::clock::{ts_in_range, DAY_LIMIT};
use crate::feed::{next_history_page, MAX_HISTORY_PAGES};
use crate::order::key_position_sorted;

verus! {

/// Milliseconds in a day.
pub const DAY_MS: i64 = 86_400_000;

/// Consolidated (SIP) bars are served this late: sixteen minutes.
pub const SIP_LAG_MS: i64 = 960_000;

/// The feed a warm-up request goes to.
#[derive(Debug, Clone, Copy, PartialEq, Eq, Structural)]
pub enum HistorySource {
    Iex,
    Sip,
}

/// A warm-up fetch in progress: the source and window being paged, how many
/// pages came from it, and the stamps of their bars in arrival order.
#[derive(Debug)]
pub struct HistoryFetch {
    pub source: HistorySource,
    pub lookback_ms: i64,
    pub start_ms: i64,
    pub end_ms: i64,
    pub page: u32,
    pub stamps: Vec<i64>,
    pub done: bool,
}

/// What came of a request.
#[derive(Debug)]
pub enum HistoryReply {
    /// a page of bars (their stamps, in the order sent) and the next page's token.
    Page { stamps: Vec<i64>, next: Option<String> },
    /// the request failed at `now_ms`.
    Failed { now_ms: i64 },
}

/// What the caller does next.
#[derive(Debug, PartialEq, Eq)]
pub enum HistoryAction {
    /// request the one-minute bars of `start_ms..end_ms` from `source`, at page `token`.
    Request { source: HistorySource, start_ms: i64, end_ms: i64, token: Option<String> },
    /// done: the received bars to keep, as positions into them, in the order to use them.
    Finished { order: Vec<usize> },
    /// the consolidated feed failed too: report its error.
    GiveUp,
}

pub struct FetchV {
    pub source: HistorySource,
    pub lookback_ms: int,
    pub start_ms: int,
    pub end_ms: int,
    pub page: int,
    pub stamps: Seq<i64>,
    pub done: bool,
}

pub enum ReplyV {
    Page(Seq<i64>, Option<Seq<char>>),
    Failed(int),
}

pub enum StepV {
    Request(HistorySource, int, int, Option<Seq<char>>),
    Finished,
    GiveUp,
}

pub open spec fn token_v(t: Option<String>) -> Option<Seq<char>> {
    match t {
        Some(s) => Some(s@),
        None => None,
    }
}

pub open spec fn fetch_v(f: HistoryFetch) -> FetchV {
    FetchV {
        source: f.source,
        lookback_ms: f.lookback_ms as int,
        start_ms: f.start_ms as int,
        end_ms: f.end_ms as int,
        page: f.page as int,
        stamps: f.stamps@,
        done: f.done,
    }
}

pub open spec fn reply_v(r: HistoryReply) -> ReplyV {
    match r {
        HistoryReply::Page { stamps, next } => ReplyV::Page(stamps@, token_v(next)),
        HistoryReply::Failed { now_ms } => ReplyV::Failed(now_ms as int),
    }
}

pub open spec fn action_v(a: HistoryAction) -> StepV {
    match a {
        HistoryAction::Request { source, start_ms, end_ms, token } => StepV::Request(
            source,
            start_ms as int,
            end_ms as int,
            token_v(token),
        ),
        HistoryAction::Finished { .. } => StepV::Finished,
        HistoryAction::GiveUp => StepV::GiveUp,
    }
}

/// A fresh fetch of the `lookback_ms` before `end_ms` from `source`.
pub open spec fn opened(source: HistorySource, end_ms: int, lookback_ms: int) -> FetchV {
    FetchV {
        source,
        lookback_ms,
        start_ms: end_ms - lookback_ms,
        end_ms,
        page: 0,
        stamps: Seq::empty(),
        done: false,
    }
}

/// Page `page` (0-based) came with `next`: another page follows.
pub open spec fn continues(page: int, next: Option<Seq<char>>) -> bool {
    page + 1 < MAX_HISTORY_PAGES && next is Some && next->0.len() > 0
}

/// The fetch after a reply. A page adds its bars and ends the fetch unless it
/// names a next page within the limit; a failure of IEX starts over on SIP, with
/// a window that ends sixteen minutes before the failure; a failure of SIP ends it.
pub open spec fn next_state(s: FetchV, r: ReplyV) -> FetchV {
    match r {
        ReplyV::Page(ps, next) => FetchV {
            page: s.page + 1,
            stamps: s.stamps + ps,
            done: !continues(s.page, next),
            ..s
        },
        ReplyV::Failed(now) => if s.source == HistorySource::Iex {
            opened(HistorySource::Sip, now - SIP_LAG_MS, s.lookback_ms)
        } else {
            FetchV { done: true, ..s }
        },
    }
}

/// What to do after a reply: ask for the next page of the same source and
/// window; after an IEX failure, ask SIP for its first page; otherwise finish,
/// or give up when SIP failed.
pub open spec fn next_step(s: FetchV, r: ReplyV) -> StepV {
    match r {
        ReplyV::Page(_, next) => if continues(s.page, next) {
            StepV::Request(s.source, s.start_ms, s.end_ms, next)
        } else {
            StepV::Finished
        },
        ReplyV::Failed(now) => if s.source == HistorySource::Iex {
            StepV::Request(
                HistorySource::Sip,
                now - SIP_LAG_MS - s.lookback_ms,
                now - SIP_LAG_MS,
                None,
            )
        } else {
            StepV::GiveUp
        },
    }
}

/// `r` lists the bars of `ts` inside regular trading hours, each once, by time,
/// bars with equal stamps in the order they came.
pub open spec fn kept_in_order(ts: Seq<i64>, r: Seq<usize>) -> bool {
    &&& forall|x: usize| r.contains(x) <==> (x < ts.len() && in_regular_hours(ts[x as int]))
    &&& key_position_sorted(ts, r)
    &&& r.no_duplicates()
    &&& forall|j: int| 0 <= j < r.len() ==> r[j] < ts.len()
}

/// A window of `lookback_ms` ending at `end_ms` lies within the clock's range.
pub open spec fn window_ok(end_ms: int, lookback_ms: int) -> bool {
    ts_in_range(end_ms) && ts_in_range(end_ms - lookback_ms)
}

pub open spec fn lookback_ok(lookback_ms: int) -> bool {
    -DAY_LIMIT * DAY_MS <= lookback_ms <= DAY_LIMIT * DAY_MS
}

pub open spec fn fetch_wf(s: FetchV) -> bool {
    &&& lookback_ok(s.lookback_ms)
    &&& window_ok(s.end_ms, s.lookback_ms)
    &&& s.start_ms == s.end_ms - s.lookback_ms
    &&& all_in_range(s.stamps)
    &&& 0 <= s.page
    &&& (s.done || s.page < MAX_HISTORY_PAGES)
}

/// The stamps of a page lie in the clock's range; after an IEX failure the
/// fallback window does too.
pub open spec fn reply_ok(s: FetchV, r: ReplyV) -> bool {
    match r {
        ReplyV::Page(ps, _) => all_in_range(ps),
        ReplyV::Failed(now) => s.source == HistorySource::Sip || (ts_in_range(now) && window_ok(
            now - SIP_LAG_MS,
            s.lookback_ms,
        )),
    }
}

impl HistoryFetch {
    /// Begin a warm-up of the last `lookback_days` days before `now_ms`: the first
    /// page of that window from IEX.
    pub fn start(now_ms: i64, lookback_days: i64) -> (r: (HistoryFetch, HistoryAction))
        requires
            ts_in_range(now_ms as int),
            -DAY_LIMIT <= lookback_days <= DAY_LIMIT,
            ts_in_range(now_ms - lookback_days * DAY_MS),
        ensures
            fetch_v(r.0) == opened(HistorySource::Iex, now_ms as int, lookback_days * DAY_MS),
            fetch_wf(fetch_v(r.0)),
            action_v(r.1) == StepV::Request(
                HistorySource::Iex,
                now_ms - lookback_days * DAY_MS,
                now_ms as int,
                None,
            ),
    {
        assert(-DAY_LIMIT * DAY_MS <= lookback_days * DAY_MS <= DAY_LIMIT * DAY_MS) by (nonlinear_arith)
            requires
                -DAY_LIMIT <= lookback_days <= DAY_LIMIT,
        ;
        let lookback_ms = lookback_days * DAY_MS;
        let start_ms = now_ms - lookback_ms;
        let f = HistoryFetch {
            source: HistorySource::Iex,
            lookback_ms,
            start_ms,
            end_ms: now_ms,
            page: 0,
            stamps: Vec::new(),
            done: false,
        };
        proof {
            assert(fetch_v(f) =~= opened(HistorySource::Iex, now_ms as int, lookback_ms as int));
        }
        let a = HistoryAction::Request {
            source: HistorySource::Iex,
            start_ms,
            end_ms: now_ms,
            token: None,
        };
        (f, a)
    }

    /// Take in what came of the last request and say what to do next (see
    /// `next_state` and `next_step`); when finished, which bars to keep.
    pub fn step(&mut self, r: HistoryReply) -> (a: HistoryAction)
        requires
            fetch_wf(fetch_v(*old(self))),
            !old(self).done,
            reply_ok(fetch_v(*old(self)), reply_v(r)),
        ensures
            fetch_v(*final(self)) == next_state(fetch_v(*old(self)), reply_v(r)),
            fetch_wf(fetch_v(*final(self))),
            action_v(a) == next_step(fetch_v(*old(self)), reply_v(r)),
            a matches HistoryAction::Finished { order } ==> kept_in_order(
                final(self).stamps@,
                order@,
            ),
    {
        let ghost s0 = fetch_v(*self);
        let ghost rv = reply_v(r);
        match r {
            HistoryReply::Page { stamps, next } => {
                let mut ps = stamps;
                let ghost ps0 = ps@;
                let ghost next_v = token_v(next);
                self.stamps.append(&mut ps);
                let page = self.page;
                self.page = page + 1;
                proof {
                    assert(self.stamps@ =~= s0.stamps + ps0);
                    assert(all_in_range(self.stamps@)) by {
                        assert forall|i: int| 0 <= i < self.stamps@.len() implies ts_in_range(
                            #[trigger] self.stamps@[i] as int,
                        ) by {
                            if i < s0.stamps.len() {
                                assert(self.stamps@[i] == s0.stamps[i]);
                            } else {
                                assert(self.stamps@[i] == ps0[i - s0.stamps.len()]);
                            }
                        }
                    }
                }
                match next_history_page(page, next) {
                    Some(t) => {
                        proof {
                            assert(fetch_v(*self) =~= next_state(s0, rv));
                        }
                        HistoryAction::Request {
                            source: self.source,
                            start_ms: self.start_ms,
                            end_ms: self.end_ms,
                            token: Some(t),
                        }
                    },
                    None => {
                        self.done = true;
                        proof {
                            assert(!continues(s0.page, next_v));
                            assert(fetch_v(*self) =~= next_state(s0, rv));
                        }
                        let order = regular_hours_order(&self.stamps);
                        HistoryAction::Finished { order }
                    },
                }
            },
            HistoryReply::Failed { now_ms } => {
                if self.source == HistorySource::Iex {
                    let end_ms = now_ms - SIP_LAG_MS;
                    let start_ms = end_ms - self.lookback_ms;
                    self.source = HistorySource::Sip;
                    self.start_ms = start_ms;
                    self.end_ms = end_ms;
                    self.page = 0;
                    self.stamps = Vec::new();
                    proof {
                        assert(fetch_v(*self) =~= next_state(s0, rv));
                    }
                    HistoryAction::Request {
                        source: HistorySource::Sip,
                        start_ms,
                        end_ms,
                        token: None,
                    }
                } else {
                    self.done = true;
                    proof {
                        assert(fetch_v(*self) =~= next_state(s0, rv));
                    }
                    HistoryAction::GiveUp
                }
            },
        }
    }
}

/// The fetch after the replies `rs`, one after another.
pub open spec fn run(s: FetchV, rs: Seq<ReplyV>) -> FetchV
    decreases rs.len(),
{
    if rs.len() == 0 {
        s
    } else {
        next_state(run(s, rs.drop_last()), rs.last())
    }
}

/// The bars of `pages`, one page after another.
pub open spec fn flatten(pages: Seq<Seq<i64>>) -> Seq<i64>
    decreases pages.len(),
{
    if pages.len() == 0 {
        Seq::empty()
    } else {
        flatten(pages.drop_last()) + pages.last()
    }
}

/// Replies that bring the pages `pages` with the next-page tokens `tokens`.
pub open spec fn page_replies(pages: Seq<Seq<i64>>, tokens: Seq<Option<Seq<char>>>) -> Seq<ReplyV> {
    Seq::new(pages.len(), |i: int| ReplyV::Page(pages[i], tokens[i]))
}

proof fn lemma_paging_prefix(
    s: FetchV,
    pages: Seq<Seq<i64>>,
    tokens: Seq<Option<Seq<char>>>,
    n: int,
)
    requires
        pages.len() == tokens.len(),
        0 <= n <= pages.len(),
    ensures
        run(s, page_replies(pages, tokens).take(n)) == (FetchV {
            page: s.page + n,
            stamps: s.stamps + flatten(pages.take(n)),
            done: if n == 0 {
                s.done
            } else {
                !continues(s.page + n - 1, tokens[n - 1])
            },
            ..s
        }),
    decreases n,
{
    let rs = page_replies(pages, tokens);
    if n == 0 {
        assert(rs.take(0) =~= Seq::<ReplyV>::empty());
        assert(pages.take(0) =~= Seq::<Seq<i64>>::empty());
        assert(s.stamps + flatten(pages.take(0)) =~= s.stamps);
    } else {
        lemma_paging_prefix(s, pages, tokens, n - 1);
        assert(rs.take(n).drop_last() =~= rs.take(n - 1));
        assert(rs.take(n).last() == ReplyV::Page(pages[n - 1], tokens[n - 1]));
        assert(pages.take(n).drop_last() =~= pages.take(n - 1));
        assert(pages.take(n).last() == pages[n - 1]);
        assert(flatten(pages.take(n)) == flatten(pages.take(n - 1)) + pages[n - 1]);
        assert(s.stamps + flatten(pages.take(n)) =~= (s.stamps + flatten(pages.take(n - 1))) + pages[
            n - 1
        ]);
    }
}

/// Paging one source. While each page but the last names a next page, every
/// reply but the last asks for exactly that page from the same source and
/// window, and the fetch goes on; no more than twenty pages are taken; the bars
/// collected are those of the pages, in the order they came; the last page ends
/// the fetch unless it names a next page within the limit.
pub proof fn lemma_paging(s: FetchV, pages: Seq<Seq<i64>>, tokens: Seq<Option<Seq<char>>>)
    requires
        !s.done,
        0 <= s.page < MAX_HISTORY_PAGES,
        pages.len() == tokens.len(),
        pages.len() >= 1,
        forall|i: int| 0 <= i < pages.len() - 1 ==> continues(s.page + i, #[trigger] tokens[i]),
    ensures
        s.page + pages.len() <= MAX_HISTORY_PAGES,
        forall|i: int|
            0 <= i < pages.len() - 1 ==> {
                &&& !(#[trigger] run(s, page_replies(pages, tokens).take(i + 1))).done
                &&& next_step(
                    run(s, page_replies(pages, tokens).take(i)),
                    ReplyV::Page(pages[i], tokens[i]),
                ) == StepV::Request(s.source, s.start_ms, s.end_ms, tokens[i])
            },
        ({
            let last = run(s, page_replies(pages, tokens));
            &&& last.stamps == s.stamps + flatten(pages)
            &&& last.source == s.source
            &&& last.start_ms == s.start_ms
            &&& last.end_ms == s.end_ms
            &&& last.done == !continues(s.page + pages.len() - 1, tokens[pages.len() - 1])
        }),
{
    let rs = page_replies(pages, tokens);
    let n = pages.len() as int;
    if n >= 2 {
        assert(continues(s.page + n - 2, tokens[n - 2]));
    }
    assert forall|i: int| 0 <= i < n - 1 implies {
        &&& !(#[trigger] run(s, rs.take(i + 1))).done
        &&& next_step(run(s, rs.take(i)), ReplyV::Page(pages[i], tokens[i])) == StepV::Request(
            s.source,
            s.start_ms,
            s.end_ms,
            tokens[i],
        )
    } by {
        lemma_paging_prefix(s, pages, tokens, i);
        lemma_paging_prefix(s, pages, tokens, i + 1);
        assert(continues(s.page + i, tokens[i]));
    }
    lemma_paging_prefix(s, pages, tokens, n);
    assert(rs.take(n) =~= rs);
    assert(pages.take(n) =~= pages);
}

/// A failure of IEX, after any pages, drops what IEX sent and starts over on
/// SIP from its first page, with a window of the same length that ends sixteen
/// minutes before the failure.
pub proof fn lemma_fallback(s: FetchV, rs: Seq<ReplyV>, now: int)
    requires
        s.source == HistorySource::Iex,
        forall|i: int| 0 <= i < rs.len() ==> (#[trigger] rs[i]) is Page,
    ensures
        run(s, rs.push(ReplyV::Failed(now))) == opened(
            HistorySource::Sip,
            now - SIP_LAG_MS,
            s.lookback_ms,
        ),
        next_step(run(s, rs), ReplyV::Failed(now)) == StepV::Request(
            HistorySource::Sip,
            now - SIP_LAG_MS - s.lookback_ms,
            now - SIP_LAG_MS,
            None,
        ),
{
    lemma_pages_keep_source(s, rs);
    assert(rs.push(ReplyV::Failed(now)).drop_last() =~= rs);
}

proof fn lemma_pages_keep_source(s: FetchV, rs: Seq<ReplyV>)
    requires
        forall|i: int| 0 <= i < rs.len() ==> (#[trigger] rs[i]) is Page,
    ensures
        run(s, rs).source == s.source,
        run(s, rs).lookback_ms == s.lookback_ms,
    decreases rs.len(),
{
    if rs.len() > 0 {
        let init = rs.drop_last();
        assert forall|i: int| 0 <= i < init.len() implies (#[trigger] init[i]) is Page by {
            assert(init[i] == rs[i]);
        }
        lemma_pages_keep_source(s, init);
        assert(rs.last() == rs[rs.len() - 1]);
    }
}

} // verus!
