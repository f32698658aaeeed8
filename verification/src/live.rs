//! The live trading loop as a state machine: the loop hands each event (a bar,
//! an opened or closed position, a heartbeat, a new promoted config, a shutdown)
//! to `step`, which returns the next state and the actions to perform. Feeding
//! engines, talking to the broker and the database stay with the caller.
//!
//! A promoted config is hot-reloaded ticker by ticker: a ticker in a position
//! keeps its engine until it is flat; a flat ticker the new config drops is
//! removed; a flat ticker it keeps gets an engine built from the new config
//! (where that engine can be built; otherwise the old one stays). The swap is
//! complete once every remaining ticker runs the new config.

use vstd::prelude::*;
use crate::clock::{eastern_day, eastern_minute_of_day, is_regular_hours, regular_hours_spec, ts_in_range, weekday_of};
use crate::dashboard::names;
use crate::runtime::{
    capacity_blocks_entry, feed_stale, feed_stale_spec, missed_close_flatten, pending_swap_action,
    swap_action_spec, SwapAction, MISSED_CLOSE_GRACE_MINUTES,
};

verus! {

/// One traded ticker: the config its engine runs, whether it holds a position,
/// its last bar and whether its feed is marked stale.
#[derive(Debug)]
pub struct LiveTicker {
    pub ticker: String,
    pub config_version: i64,
    pub has_position: bool,
    pub last_bar_ms: Option<i64>,
    pub feed_stale: bool,
}

/// A promoted config waiting to be applied: its version, the tickers it trades,
/// and those of the current tickers whose engine it builds.
#[derive(Debug)]
pub struct PendingConfig {
    pub version: i64,
    pub tickers: Vec<String>,
    pub buildable: Vec<String>,
}

/// The loop's state.
#[derive(Debug)]
pub struct LiveState {
    pub tickers: Vec<LiveTicker>,
    pub pending: Option<PendingConfig>,
    /// the session's force-exit cut-off, minutes after midnight US/Eastern.
    pub force_exit_by: Option<u32>,
    pub max_concurrent: usize,
    /// demo bars are synthetic: no market-hours filter, no staleness.
    pub demo: bool,
}

/// What happened.
#[derive(Debug)]
pub enum LiveEvent {
    Bar { ticker: String, ts_ms: i64 },
    PositionOpened { ticker: String },
    TradeClosed { ticker: String },
    Heartbeat { now_ms: i64 },
    ConfigDetected { version: i64, tickers: Vec<String>, buildable: Vec<String> },
    Shutdown,
}

/// What the caller does next.
#[derive(Debug, PartialEq, Eq)]
pub enum LiveAction {
    /// feed a regular-hours bar to the cross-ticker context.
    RecordBar { ticker: String },
    /// run the ticker's engine on the bar; entries blocked at capacity.
    TickEngine { ticker: String, block_entries: bool },
    FeedResumed { ticker: String },
    FeedStale { ticker: String },
    /// close every open position (engine and broker).
    FlattenAll,
    /// replace the ticker's engine with one built from config `version`.
    RebuildEngine { ticker: String, version: i64 },
    /// the new config's engine could not be built: the old one stays.
    KeepOldEngine { ticker: String },
    DropTicker { ticker: String },
    SwapComplete { version: i64 },
    /// the new config trades a ticker that is not subscribed.
    WarnUnsubscribed { ticker: String },
    /// the new config no longer trades the ticker: remove its state row.
    DeleteState { ticker: String },
    PersistAll,
    Stop,
}

pub struct TickerV {
    pub ticker: Seq<char>,
    pub config_version: i64,
    pub has_position: bool,
    pub last_bar_ms: Option<i64>,
    pub feed_stale: bool,
}

pub struct PendingV {
    pub version: i64,
    pub tickers: Seq<Seq<char>>,
    pub buildable: Seq<Seq<char>>,
}

pub struct LiveV {
    pub tickers: Seq<TickerV>,
    pub pending: Option<PendingV>,
    pub force_exit_by: Option<u32>,
    pub max_concurrent: usize,
    pub demo: bool,
}

pub enum ActionV {
    RecordBar(Seq<char>),
    TickEngine(Seq<char>, bool),
    FeedResumed(Seq<char>),
    FeedStale(Seq<char>),
    FlattenAll,
    RebuildEngine(Seq<char>, i64),
    KeepOldEngine(Seq<char>),
    DropTicker(Seq<char>),
    SwapComplete(i64),
    WarnUnsubscribed(Seq<char>),
    DeleteState(Seq<char>),
    PersistAll,
    Stop,
}

pub open spec fn ticker_v(t: LiveTicker) -> TickerV {
    TickerV {
        ticker: t.ticker@,
        config_version: t.config_version,
        has_position: t.has_position,
        last_bar_ms: t.last_bar_ms,
        feed_stale: t.feed_stale,
    }
}

pub open spec fn tickers_v(s: Seq<LiveTicker>) -> Seq<TickerV> {
    Seq::new(s.len(), |i: int| ticker_v(s[i]))
}

pub open spec fn pending_v(p: Option<PendingConfig>) -> Option<PendingV> {
    match p {
        Some(c) => Some(PendingV { version: c.version, tickers: names(c.tickers@), buildable: names(c.buildable@) }),
        None => None,
    }
}

/// The mathematical form of the loop's state.
pub open spec fn live_v(s: LiveState) -> LiveV {
    LiveV {
        tickers: tickers_v(s.tickers@),
        pending: pending_v(s.pending),
        force_exit_by: s.force_exit_by,
        max_concurrent: s.max_concurrent,
        demo: s.demo,
    }
}

pub open spec fn action_v(a: LiveAction) -> ActionV {
    match a {
        LiveAction::RecordBar { ticker } => ActionV::RecordBar(ticker@),
        LiveAction::TickEngine { ticker, block_entries } => ActionV::TickEngine(ticker@, block_entries),
        LiveAction::FeedResumed { ticker } => ActionV::FeedResumed(ticker@),
        LiveAction::FeedStale { ticker } => ActionV::FeedStale(ticker@),
        LiveAction::FlattenAll => ActionV::FlattenAll,
        LiveAction::RebuildEngine { ticker, version } => ActionV::RebuildEngine(ticker@, version),
        LiveAction::KeepOldEngine { ticker } => ActionV::KeepOldEngine(ticker@),
        LiveAction::DropTicker { ticker } => ActionV::DropTicker(ticker@),
        LiveAction::SwapComplete { version } => ActionV::SwapComplete(version),
        LiveAction::WarnUnsubscribed { ticker } => ActionV::WarnUnsubscribed(ticker@),
        LiveAction::DeleteState { ticker } => ActionV::DeleteState(ticker@),
        LiveAction::PersistAll => ActionV::PersistAll,
        LiveAction::Stop => ActionV::Stop,
    }
}

pub open spec fn actions_v(s: Seq<LiveAction>) -> Seq<ActionV> {
    Seq::new(s.len(), |i: int| action_v(s[i]))
}

/// One pass of the config swap over the tickers, in order: the tickers left and
/// the actions it takes.
pub open spec fn swap_pass(ts: Seq<TickerV>, p: PendingV) -> (Seq<TickerV>, Seq<ActionV>)
    decreases ts.len(),
{
    if ts.len() == 0 {
        (Seq::empty(), Seq::empty())
    } else {
        let (rest_t, rest_a) = swap_pass(ts.drop_first(), p);
        let t = ts[0];
        match swap_action_spec(t.config_version, t.has_position, p.version, p.tickers.contains(t.ticker)) {
            SwapAction::Keep => (seq![t] + rest_t, rest_a),
            SwapAction::Drop => (rest_t, seq![ActionV::DropTicker(t.ticker)] + rest_a),
            SwapAction::Rebuild => if p.buildable.contains(t.ticker) {
                (
                    seq![TickerV { config_version: p.version, ..t }] + rest_t,
                    seq![ActionV::RebuildEngine(t.ticker, p.version)] + rest_a,
                )
            } else {
                (seq![t] + rest_t, seq![ActionV::KeepOldEngine(t.ticker)] + rest_a)
            },
        }
    }
}

/// Every ticker runs config `version`.
pub open spec fn all_on(ts: Seq<TickerV>, version: i64) -> bool {
    forall|i: int| 0 <= i < ts.len() ==> #[trigger] ts[i].config_version == version
}

/// Apply a waiting config where tickers are flat; clear it once every ticker
/// runs it.
pub open spec fn apply_pending(s: LiveV) -> (LiveV, Seq<ActionV>) {
    match s.pending {
        None => (s, Seq::empty()),
        Some(p) => {
            let (ts, acts) = swap_pass(s.tickers, p);
            if all_on(ts, p.version) {
                (LiveV { tickers: ts, pending: None, ..s }, acts.push(ActionV::SwapComplete(p.version)))
            } else {
                (LiveV { tickers: ts, ..s }, acts)
            }
        },
    }
}

pub open spec fn pend_v(c: PendingConfig) -> PendingV {
    PendingV { version: c.version, tickers: names(c.tickers@), buildable: names(c.buildable@) }
}

/// The names of the tickers, in order.
pub open spec fn ticker_names(ts: Seq<TickerV>) -> Seq<Seq<char>> {
    Seq::new(ts.len(), |i: int| ts[i].ticker)
}

/// How many tickers hold a position.
pub open spec fn open_count(ts: Seq<TickerV>) -> nat
    decreases ts.len(),
{
    if ts.len() == 0 {
        0
    } else {
        open_count(ts.drop_last()) + if ts.last().has_position {
            1nat
        } else {
            0nat
        }
    }
}

/// `i` is the position of the first ticker named `t`.
pub open spec fn is_ticker_index(ts: Seq<TickerV>, t: Seq<char>, i: int) -> bool {
    &&& 0 <= i < ts.len()
    &&& ts[i].ticker == t
    &&& forall|j: int| 0 <= j < i ==> ts[j].ticker != t
}

/// The position of the first ticker named `t`, if any.
pub open spec fn ticker_index(ts: Seq<TickerV>, t: Seq<char>) -> Option<int> {
    if exists|i: int| is_ticker_index(ts, t, i) {
        Some(choose|i: int| is_ticker_index(ts, t, i))
    } else {
        None
    }
}

/// The tickers with the first one named `t` marked as holding a position or not.
pub open spec fn with_position(ts: Seq<TickerV>, t: Seq<char>, held: bool) -> Seq<TickerV> {
    match ticker_index(ts, t) {
        Some(i) => ts.update(i, TickerV { has_position: held, ..ts[i] }),
        None => ts,
    }
}

/// Every ticker flat.
pub open spec fn all_flat(ts: Seq<TickerV>) -> Seq<TickerV> {
    Seq::new(ts.len(), |i: int| TickerV { has_position: false, ..ts[i] })
}

/// Every ticker with its staleness at `now_ms`.
pub open spec fn stale_marked(ts: Seq<TickerV>, now_ms: i64) -> Seq<TickerV> {
    Seq::new(ts.len(), |i: int| TickerV { feed_stale: feed_stale_spec(ts[i].last_bar_ms, now_ms), ..ts[i] })
}

/// An alert for each ticker whose feed turns stale at `now_ms`, in order.
pub open spec fn stale_alerts(ts: Seq<TickerV>, now_ms: i64) -> Seq<ActionV>
    decreases ts.len(),
{
    if ts.len() == 0 {
        Seq::empty()
    } else {
        let t = ts.last();
        stale_alerts(ts.drop_last(), now_ms) + if feed_stale_spec(t.last_bar_ms, now_ms) && !t.feed_stale {
            seq![ActionV::FeedStale(t.ticker)]
        } else {
            Seq::empty()
        }
    }
}

/// A warning for each ticker of a new config that is not subscribed, in order.
pub open spec fn unsubscribed(new: Seq<Seq<char>>, ts: Seq<TickerV>) -> Seq<ActionV>
    decreases new.len(),
{
    if new.len() == 0 {
        Seq::empty()
    } else {
        unsubscribed(new.drop_last(), ts) + if !ticker_names(ts).contains(new.last()) {
            seq![ActionV::WarnUnsubscribed(new.last())]
        } else {
            Seq::empty()
        }
    }
}

/// A state-row removal for each ticker that a new config no longer trades.
pub open spec fn dropped_states(ts: Seq<TickerV>, new: Seq<Seq<char>>) -> Seq<ActionV>
    decreases ts.len(),
{
    if ts.len() == 0 {
        Seq::empty()
    } else {
        dropped_states(ts.drop_last(), new) + if !new.contains(ts.last().ticker) {
            seq![ActionV::DeleteState(ts.last().ticker)]
        } else {
            Seq::empty()
        }
    }
}

pub enum EventV {
    Bar(Seq<char>, i64),
    PositionOpened(Seq<char>),
    TradeClosed(Seq<char>),
    Heartbeat(i64),
    ConfigDetected(i64, Seq<Seq<char>>, Seq<Seq<char>>),
    Shutdown,
}

pub open spec fn event_v(e: LiveEvent) -> EventV {
    match e {
        LiveEvent::Bar { ticker, ts_ms } => EventV::Bar(ticker@, ts_ms),
        LiveEvent::PositionOpened { ticker } => EventV::PositionOpened(ticker@),
        LiveEvent::TradeClosed { ticker } => EventV::TradeClosed(ticker@),
        LiveEvent::Heartbeat { now_ms } => EventV::Heartbeat(now_ms),
        LiveEvent::ConfigDetected { version, tickers, buildable } => EventV::ConfigDetected(
            version,
            names(tickers@),
            names(buildable@),
        ),
        LiveEvent::Shutdown => EventV::Shutdown,
    }
}

/// The instant an event carries is one the session clock reads.
pub open spec fn event_in_range(e: EventV) -> bool {
    match e {
        EventV::Bar(_, ts) => ts_in_range(ts as int),
        EventV::Heartbeat(now) => ts_in_range(now as int),
        _ => true,
    }
}

pub open spec fn in_regular_hours(ts_ms: i64) -> bool {
    regular_hours_spec(weekday_of(eastern_day(ts_ms)), eastern_minute_of_day(ts_ms))
}

/// A bar: outside regular hours (demo bars aside) it is ignored; otherwise it
/// feeds the cross-ticker context, and a traded ticker records it, resumes a
/// stale feed and ticks its engine, entries blocked while the process is at
/// capacity and the ticker is flat.
pub open spec fn on_bar(s: LiveV, t: Seq<char>, ts_ms: i64) -> (LiveV, Seq<ActionV>) {
    if !s.demo && !in_regular_hours(ts_ms) {
        (s, Seq::empty())
    } else {
        match ticker_index(s.tickers, t) {
            None => (s, seq![ActionV::RecordBar(t)]),
            Some(i) => {
                let k = s.tickers[i];
                let blocked = open_count(s.tickers) >= s.max_concurrent && !k.has_position;
                let nk = TickerV { last_bar_ms: Some(ts_ms), feed_stale: false, ..k };
                (
                    LiveV { tickers: s.tickers.update(i, nk), ..s },
                    seq![ActionV::RecordBar(t)] + (if k.feed_stale {
                        seq![ActionV::FeedResumed(t)]
                    } else {
                        Seq::empty()
                    }) + seq![ActionV::TickEngine(t, blocked)],
                )
            },
        }
    }
}

/// A heartbeat: during regular hours (not in demo) each ticker's staleness is
/// updated, with an alert where it turns stale; past the force-exit cut-off with
/// positions open, everything is flattened and a waiting config applied; then the
/// state rows are persisted.
pub open spec fn on_heartbeat(s: LiveV, now_ms: i64) -> (LiveV, Seq<ActionV>) {
    let watch = in_regular_hours(now_ms) && !s.demo;
    let s1 = if watch {
        LiveV { tickers: stale_marked(s.tickers, now_ms), ..s }
    } else {
        s
    };
    let a1 = if watch {
        stale_alerts(s.tickers, now_ms)
    } else {
        Seq::empty()
    };
    let flatten = s1.force_exit_by is Some && eastern_minute_of_day(now_ms) >= s1.force_exit_by->0
        + MISSED_CLOSE_GRACE_MINUTES && open_count(s1.tickers) > 0;
    if flatten {
        let (s2, a2) = apply_pending(LiveV { tickers: all_flat(s1.tickers), ..s1 });
        (s2, a1 + seq![ActionV::FlattenAll] + a2 + seq![ActionV::PersistAll])
    } else {
        (s1, a1 + seq![ActionV::PersistAll])
    }
}

/// A new promoted config: warnings for its unsubscribed tickers, state-row
/// removals for the tickers it drops, then it waits and is applied where tickers
/// are flat; then the state rows are persisted.
pub open spec fn on_config(s: LiveV, version: i64, new: Seq<Seq<char>>, buildable: Seq<Seq<char>>) -> (
    LiveV,
    Seq<ActionV>,
) {
    let pre = unsubscribed(new, s.tickers) + dropped_states(s.tickers, new);
    let (s2, a2) = apply_pending(
        LiveV { pending: Some(PendingV { version, tickers: new, buildable }), ..s },
    );
    (s2, pre + a2 + seq![ActionV::PersistAll])
}

/// The loop's next state and actions for an event.
pub open spec fn step_spec(s: LiveV, e: EventV) -> (LiveV, Seq<ActionV>) {
    match e {
        EventV::Bar(t, ts) => on_bar(s, t, ts),
        EventV::PositionOpened(t) => (LiveV { tickers: with_position(s.tickers, t, true), ..s }, Seq::empty()),
        EventV::TradeClosed(t) => apply_pending(LiveV { tickers: with_position(s.tickers, t, false), ..s }),
        EventV::Heartbeat(now) => on_heartbeat(s, now),
        EventV::ConfigDetected(v, new, b) => on_config(s, v, new, b),
        EventV::Shutdown => (
            LiveV { tickers: all_flat(s.tickers), ..s },
            seq![ActionV::FlattenAll, ActionV::PersistAll, ActionV::Stop],
        ),
    }
}

fn name_listed(v: &Vec<String>, t: &String) -> (b: bool)
    ensures
        b == names(v@).contains(t@),
{
    let mut i: usize = 0;
    while i < v.len()
        invariant
            i <= v.len(),
            forall|j: int| 0 <= j < i ==> names(v@)[j] != t@,
        decreases v.len() - i,
    {
        if v[i] == *t {
            proof {
                assert(names(v@)[i as int] == t@);
            }
            return true;
        }
        i = i + 1;
    }
    false
}

fn push_action(acts: &mut Vec<LiveAction>, a: LiveAction)
    ensures
        actions_v(final(acts)@) == actions_v(old(acts)@).push(action_v(a)),
{
    let ghost av = action_v(a);
    acts.push(a);
    proof {
        assert(actions_v(acts@) =~= actions_v(old(acts)@).push(av));
    }
}

/// One swap pass over the tickers (see `swap_pass`); the actions are appended.
fn swap_pass_exec(tickers: &mut Vec<LiveTicker>, p: &PendingConfig, acts: &mut Vec<LiveAction>)
    ensures
        tickers_v(final(tickers)@) == swap_pass(tickers_v(old(tickers)@), pend_v(*p)).0,
        actions_v(final(acts)@) == actions_v(old(acts)@) + swap_pass(tickers_v(old(tickers)@), pend_v(*p)).1,
{
    let ghost pv = pend_v(*p);
    let ghost all = tickers_v(tickers@);
    let ghost acts0 = actions_v(acts@);
    let mut kept: Vec<LiveTicker> = Vec::new();
    let ghost mut done_a: Seq<ActionV> = Seq::empty();
    while tickers.len() > 0
        invariant
            pv == pend_v(*p),
            swap_pass(all, pv).0 == tickers_v(kept@) + swap_pass(tickers_v(tickers@), pv).0,
            swap_pass(all, pv).1 == done_a + swap_pass(tickers_v(tickers@), pv).1,
            actions_v(acts@) == acts0 + done_a,
        decreases tickers.len(),
    {
        let ghost rest = tickers_v(tickers@);
        let t = tickers.remove(0);
        proof {
            assert(rest.drop_first() =~= tickers_v(tickers@));
            assert(rest[0] == ticker_v(t));
        }
        let ghost tv = ticker_v(t);
        let in_new = name_listed(&p.tickers, &t.ticker);
        match pending_swap_action(t.config_version, t.has_position, p.version, in_new) {
            SwapAction::Keep => {
                let ghost k0 = kept@;
                kept.push(t);
                proof {
                    assert(tickers_v(kept@) =~= tickers_v(k0).push(tv));
                    assert(tickers_v(k0).push(tv) + swap_pass(tickers_v(tickers@), pv).0 =~= tickers_v(k0)
                        + (seq![tv] + swap_pass(tickers_v(tickers@), pv).0));
                }
            },
            SwapAction::Drop => {
                let a = LiveAction::DropTicker { ticker: t.ticker };
                let ghost a_v = action_v(a);
                push_action(acts, a);
                proof {
                    assert(done_a.push(a_v) + swap_pass(tickers_v(tickers@), pv).1 =~= done_a + (seq![a_v]
                        + swap_pass(tickers_v(tickers@), pv).1));
                    done_a = done_a.push(a_v);
                    assert(actions_v(acts@) =~= acts0 + done_a);
                }
            },
            SwapAction::Rebuild => {
                if name_listed(&p.buildable, &t.ticker) {
                    let a = LiveAction::RebuildEngine { ticker: t.ticker.clone(), version: p.version };
                    let ghost a_v = action_v(a);
                    push_action(acts, a);
                    let nt = LiveTicker {
                        ticker: t.ticker,
                        config_version: p.version,
                        has_position: t.has_position,
                        last_bar_ms: t.last_bar_ms,
                        feed_stale: t.feed_stale,
                    };
                    let ghost ntv = ticker_v(nt);
                    let ghost k0 = kept@;
                    kept.push(nt);
                    proof {
                        assert(ntv == TickerV { config_version: pv.version, ..tv });
                        assert(tickers_v(kept@) =~= tickers_v(k0).push(ntv));
                        assert(tickers_v(k0).push(ntv) + swap_pass(tickers_v(tickers@), pv).0 =~= tickers_v(k0)
                            + (seq![ntv] + swap_pass(tickers_v(tickers@), pv).0));
                        assert(done_a.push(a_v) + swap_pass(tickers_v(tickers@), pv).1 =~= done_a + (seq![a_v]
                            + swap_pass(tickers_v(tickers@), pv).1));
                        done_a = done_a.push(a_v);
                        assert(actions_v(acts@) =~= acts0 + done_a);
                    }
                } else {
                    let a = LiveAction::KeepOldEngine { ticker: t.ticker.clone() };
                    let ghost a_v = action_v(a);
                    push_action(acts, a);
                    let ghost k0 = kept@;
                    kept.push(t);
                    proof {
                        assert(tickers_v(kept@) =~= tickers_v(k0).push(tv));
                        assert(tickers_v(k0).push(tv) + swap_pass(tickers_v(tickers@), pv).0 =~= tickers_v(k0)
                            + (seq![tv] + swap_pass(tickers_v(tickers@), pv).0));
                        assert(done_a.push(a_v) + swap_pass(tickers_v(tickers@), pv).1 =~= done_a + (seq![a_v]
                            + swap_pass(tickers_v(tickers@), pv).1));
                        done_a = done_a.push(a_v);
                        assert(actions_v(acts@) =~= acts0 + done_a);
                    }
                }
            },
        }
    }
    proof {
        assert(tickers_v(tickers@) =~= Seq::<TickerV>::empty());
        assert(tickers_v(kept@) + Seq::<TickerV>::empty() =~= tickers_v(kept@));
        assert(done_a + Seq::<ActionV>::empty() =~= done_a);
    }
    *tickers = kept;
}

fn all_on_exec(ts: &Vec<LiveTicker>, version: i64) -> (b: bool)
    ensures
        b == all_on(tickers_v(ts@), version),
{
    let mut i: usize = 0;
    while i < ts.len()
        invariant
            i <= ts.len(),
            forall|j: int| 0 <= j < i ==> #[trigger] tickers_v(ts@)[j].config_version == version,
        decreases ts.len() - i,
    {
        if ts[i].config_version != version {
            proof {
                assert(tickers_v(ts@)[i as int].config_version != version);
            }
            return false;
        }
        i = i + 1;
    }
    true
}

/// Apply a waiting config where tickers are flat (see `apply_pending`).
fn apply_pending_exec(s: &mut LiveState, acts: &mut Vec<LiveAction>)
    ensures
        live_v(*final(s)) == apply_pending(live_v(*old(s))).0,
        actions_v(final(acts)@) == actions_v(old(acts)@) + apply_pending(live_v(*old(s))).1,
{
    let ghost s0 = live_v(*s);
    let ghost a0 = actions_v(acts@);
    match &s.pending {
        None => {
            proof {
                assert(a0 + Seq::<ActionV>::empty() =~= a0);
            }
        },
        Some(p) => {
            let version = p.version;
            swap_pass_exec(&mut s.tickers, p, acts);
            if all_on_exec(&s.tickers, version) {
                let ghost a1 = actions_v(acts@);
                push_action(acts, LiveAction::SwapComplete { version });
                s.pending = None;
                proof {
                    assert(actions_v(acts@) =~= a0 + swap_pass(s0.tickers, s0.pending->0).1.push(ActionV::SwapComplete(version)));
                }
            }
        },
    }
}

proof fn lemma_ticker_index(ts: Seq<TickerV>, t: Seq<char>, i: int)
    requires
        is_ticker_index(ts, t, i),
    ensures
        ticker_index(ts, t) == Some(i),
{
    let c = choose|c: int| is_ticker_index(ts, t, c);
    assert(is_ticker_index(ts, t, c));
    if c < i {
        assert(ts[c].ticker != t);
    } else if i < c {
        assert(ts[i].ticker != t);
    }
}

fn find_ticker(ts: &Vec<LiveTicker>, t: &String) -> (r: Option<usize>)
    ensures
        match r {
            Some(i) => ticker_index(tickers_v(ts@), t@) == Some(i as int),
            None => ticker_index(tickers_v(ts@), t@) == None::<int>,
        },
{
    let ghost tv = tickers_v(ts@);
    let mut i: usize = 0;
    while i < ts.len()
        invariant
            i <= ts.len(),
            tv == tickers_v(ts@),
            forall|j: int| 0 <= j < i ==> tv[j].ticker != t@,
        decreases ts.len() - i,
    {
        if ts[i].ticker == *t {
            proof {
                lemma_ticker_index(tv, t@, i as int);
            }
            return Some(i);
        }
        i = i + 1;
    }
    proof {
        if exists|c: int| is_ticker_index(tv, t@, c) {
            let c = choose|c: int| is_ticker_index(tv, t@, c);
            assert(tv[c].ticker == t@);
        }
    }
    None
}

fn open_count_exec(ts: &Vec<LiveTicker>) -> (r: usize)
    ensures
        r == open_count(tickers_v(ts@)),
{
    let ghost tv = tickers_v(ts@);
    let mut n: usize = 0;
    let mut i: usize = 0;
    while i < ts.len()
        invariant
            i <= ts.len(),
            tv == tickers_v(ts@),
            n == open_count(tv.take(i as int)),
            n <= i,
        decreases ts.len() - i,
    {
        proof {
            assert(tv.take(i + 1).drop_last() =~= tv.take(i as int));
        }
        if ts[i].has_position {
            n = n + 1;
        }
        i = i + 1;
    }
    proof {
        assert(tv.take(ts.len() as int) =~= tv);
    }
    n
}

fn set_position(ts: &mut Vec<LiveTicker>, t: &String, held: bool)
    ensures
        tickers_v(final(ts)@) == with_position(tickers_v(old(ts)@), t@, held),
{
    match find_ticker(ts, t) {
        Some(i) => {
            let mut k = ts.remove(i);
            k.has_position = held;
            ts.insert(i, k);
            proof {
                assert(tickers_v(ts@) =~= with_position(tickers_v(old(ts)@), t@, held));
            }
        },
        None => {},
    }
}

fn flatten_tickers(ts: &mut Vec<LiveTicker>)
    ensures
        tickers_v(final(ts)@) == all_flat(tickers_v(old(ts)@)),
{
    let ghost before = tickers_v(ts@);
    let mut i: usize = 0;
    while i < ts.len()
        invariant
            i <= ts.len(),
            ts.len() == before.len(),
            forall|j: int| 0 <= j < i ==> ticker_v(#[trigger] ts@[j]) == all_flat(before)[j],
            forall|j: int| i <= j < ts.len() ==> ticker_v(#[trigger] ts@[j]) == before[j],
        decreases ts.len() - i,
    {
        let mut k = ts.remove(i);
        k.has_position = false;
        ts.insert(i, k);
        i = i + 1;
    }
    proof {
        assert(tickers_v(ts@) =~= all_flat(before));
    }
}

fn mark_stale(ts: &mut Vec<LiveTicker>, now_ms: i64, acts: &mut Vec<LiveAction>)
    requires
        ts_in_range(now_ms as int),
    ensures
        tickers_v(final(ts)@) == stale_marked(tickers_v(old(ts)@), now_ms),
        actions_v(final(acts)@) == actions_v(old(acts)@) + stale_alerts(tickers_v(old(ts)@), now_ms),
{
    let ghost before = tickers_v(ts@);
    let ghost a0 = actions_v(acts@);
    let mut i: usize = 0;
    while i < ts.len()
        invariant
            i <= ts.len(),
            ts.len() == before.len(),
            ts_in_range(now_ms as int),
            forall|j: int| 0 <= j < i ==> ticker_v(#[trigger] ts@[j]) == stale_marked(before, now_ms)[j],
            forall|j: int| i <= j < ts.len() ==> ticker_v(#[trigger] ts@[j]) == before[j],
            actions_v(acts@) == a0 + stale_alerts(before.take(i as int), now_ms),
        decreases ts.len() - i,
    {
        proof {
            assert(before.take(i + 1).drop_last() =~= before.take(i as int));
            assert(before.take(i + 1).last() == before[i as int]);
        }
        let mut k = ts.remove(i);
        let stale = feed_stale(k.last_bar_ms, now_ms);
        let ghost a1 = actions_v(acts@);
        if stale && !k.feed_stale {
            push_action(acts, LiveAction::FeedStale { ticker: k.ticker.clone() });
            proof {
                assert(a1.push(ActionV::FeedStale(k.ticker@)) =~= a0 + stale_alerts(before.take(i + 1), now_ms));
            }
        } else {
            proof {
                assert(a1 =~= a0 + stale_alerts(before.take(i + 1), now_ms));
            }
        }
        k.feed_stale = stale;
        ts.insert(i, k);
        i = i + 1;
    }
    proof {
        assert(before.take(ts.len() as int) =~= before);
        assert(tickers_v(ts@) =~= stale_marked(before, now_ms));
    }
}

fn warn_unsubscribed(new: &Vec<String>, ts: &Vec<LiveTicker>, acts: &mut Vec<LiveAction>)
    ensures
        actions_v(final(acts)@) == actions_v(old(acts)@) + unsubscribed(names(new@), tickers_v(ts@)),
{
    let ghost a0 = actions_v(acts@);
    let ghost nn = names(new@);
    let ghost tv = tickers_v(ts@);
    let mut i: usize = 0;
    while i < new.len()
        invariant
            i <= new.len(),
            nn == names(new@),
            tv == tickers_v(ts@),
            actions_v(acts@) == a0 + unsubscribed(nn.take(i as int), tv),
        decreases new.len() - i,
    {
        proof {
            assert(nn.take(i + 1).drop_last() =~= nn.take(i as int));
            assert(nn.take(i + 1).last() == new@[i as int]@);
        }
        let listed = find_ticker(ts, &new[i]).is_some();
        proof {
            if listed {
                let c = ticker_index(tv, new@[i as int]@)->0;
                assert(is_ticker_index(tv, new@[i as int]@, c)) by {
                    lemma_ticker_index_found(tv, new@[i as int]@);
                }
                assert(ticker_names(tv)[c] == new@[i as int]@);
            } else {
                lemma_ticker_index_missing(tv, new@[i as int]@);
            }
        }
        let ghost a1 = actions_v(acts@);
        if !listed {
            push_action(acts, LiveAction::WarnUnsubscribed { ticker: new[i].clone() });
            proof {
                assert(a1.push(ActionV::WarnUnsubscribed(new@[i as int]@)) =~= a0 + unsubscribed(nn.take(i + 1), tv));
            }
        } else {
            proof {
                assert(a1 =~= a0 + unsubscribed(nn.take(i + 1), tv));
            }
        }
        i = i + 1;
    }
    proof {
        assert(nn.take(new.len() as int) =~= nn);
    }
}

proof fn lemma_ticker_index_found(ts: Seq<TickerV>, t: Seq<char>)
    requires
        ticker_index(ts, t) is Some,
    ensures
        is_ticker_index(ts, t, ticker_index(ts, t)->0),
{
}

proof fn lemma_ticker_index_missing(ts: Seq<TickerV>, t: Seq<char>)
    requires
        ticker_index(ts, t) is None,
    ensures
        !ticker_names(ts).contains(t),
{
    if ticker_names(ts).contains(t) {
        let k = choose|k: int| 0 <= k < ticker_names(ts).len() && ticker_names(ts)[k] == t;
        lemma_first_exists(ts, t, k);
    }
}

proof fn lemma_first_exists(ts: Seq<TickerV>, t: Seq<char>, k: int)
    requires
        0 <= k < ts.len(),
        ts[k].ticker == t,
    ensures
        exists|i: int| is_ticker_index(ts, t, i),
    decreases k,
{
    if exists|j: int| 0 <= j < k && ts[j].ticker == t {
        let j = choose|j: int| 0 <= j < k && ts[j].ticker == t;
        lemma_first_exists(ts, t, j);
    } else {
        assert(is_ticker_index(ts, t, k));
    }
}

fn delete_dropped(ts: &Vec<LiveTicker>, new: &Vec<String>, acts: &mut Vec<LiveAction>)
    ensures
        actions_v(final(acts)@) == actions_v(old(acts)@) + dropped_states(tickers_v(ts@), names(new@)),
{
    let ghost a0 = actions_v(acts@);
    let ghost tv = tickers_v(ts@);
    let mut i: usize = 0;
    while i < ts.len()
        invariant
            i <= ts.len(),
            tv == tickers_v(ts@),
            actions_v(acts@) == a0 + dropped_states(tv.take(i as int), names(new@)),
        decreases ts.len() - i,
    {
        proof {
            assert(tv.take(i + 1).drop_last() =~= tv.take(i as int));
            assert(tv.take(i + 1).last() == tv[i as int]);
        }
        let listed = name_listed(new, &ts[i].ticker);
        let ghost a1 = actions_v(acts@);
        if !listed {
            push_action(acts, LiveAction::DeleteState { ticker: ts[i].ticker.clone() });
            proof {
                assert(a1.push(ActionV::DeleteState(tv[i as int].ticker)) =~= a0 + dropped_states(tv.take(i + 1), names(new@)));
            }
        } else {
            proof {
                assert(a1 =~= a0 + dropped_states(tv.take(i + 1), names(new@)));
            }
        }
        i = i + 1;
    }
    proof {
        assert(tv.take(ts.len() as int) =~= tv);
    }
}

/// Handle one event: the loop's next state, and the actions to perform in order
/// (see `step_spec`).
pub fn step(s: &mut LiveState, e: LiveEvent) -> (acts: Vec<LiveAction>)
    requires
        event_in_range(event_v(e)),
    ensures
        (live_v(*final(s)), actions_v(acts@)) == step_spec(live_v(*old(s)), event_v(e)),
{
    let ghost s0 = live_v(*s);
    let mut acts: Vec<LiveAction> = Vec::new();
    proof {
        assert(actions_v(acts@) =~= Seq::<ActionV>::empty());
    }
    match e {
        LiveEvent::Bar { ticker, ts_ms } => {
            if !s.demo && !is_regular_hours(ts_ms) {
                return acts;
            }
            match find_ticker(&s.tickers, &ticker) {
                None => {
                    push_action(&mut acts, LiveAction::RecordBar { ticker });
                    proof {
                        assert(actions_v(acts@) =~= seq![ActionV::RecordBar(ticker@)]);
                    }
                },
                Some(i) => {
                    let open = open_count_exec(&s.tickers);
                    let mut k = s.tickers.remove(i);
                    let blocked = capacity_blocks_entry(open, s.max_concurrent, k.has_position);
                    push_action(&mut acts, LiveAction::RecordBar { ticker: ticker.clone() });
                    let was_stale = k.feed_stale;
                    if was_stale {
                        push_action(&mut acts, LiveAction::FeedResumed { ticker: ticker.clone() });
                    }
                    push_action(&mut acts, LiveAction::TickEngine { ticker: ticker.clone(), block_entries: blocked });
                    k.last_bar_ms = Some(ts_ms);
                    k.feed_stale = false;
                    s.tickers.insert(i, k);
                    proof {
                        let t = ticker@;
                        let tail = (if was_stale {
                            seq![ActionV::FeedResumed(t)]
                        } else {
                            Seq::empty()
                        });
                        assert(actions_v(acts@) =~= seq![ActionV::RecordBar(t)] + tail + seq![ActionV::TickEngine(t, blocked)]);
                        assert(tickers_v(s.tickers@) =~= on_bar(s0, t, ts_ms).0.tickers);
                    }
                },
            }
        },
        LiveEvent::PositionOpened { ticker } => {
            set_position(&mut s.tickers, &ticker, true);
        },
        LiveEvent::TradeClosed { ticker } => {
            set_position(&mut s.tickers, &ticker, false);
            apply_pending_exec(s, &mut acts);
            proof {
                assert(Seq::<ActionV>::empty() + apply_pending(LiveV { tickers: with_position(s0.tickers, ticker@, false), ..s0 }).1
                    =~= apply_pending(LiveV { tickers: with_position(s0.tickers, ticker@, false), ..s0 }).1);
            }
        },
        LiveEvent::Heartbeat { now_ms } => {
            let watch = !s.demo && is_regular_hours(now_ms);
            if watch {
                mark_stale(&mut s.tickers, now_ms, &mut acts);
            }
            let ghost a1 = actions_v(acts@);
            let ghost s1 = live_v(*s);
            proof {
                assert(a1 =~= (if watch {
                    stale_alerts(s0.tickers, now_ms)
                } else {
                    Seq::empty()
                }));
            }
            let open = open_count_exec(&s.tickers);
            if missed_close_flatten(s.force_exit_by, open, now_ms) {
                flatten_tickers(&mut s.tickers);
                push_action(&mut acts, LiveAction::FlattenAll);
                let ghost a2 = actions_v(acts@);
                apply_pending_exec(s, &mut acts);
                push_action(&mut acts, LiveAction::PersistAll);
                proof {
                    let (s2, ap) = apply_pending(LiveV { tickers: all_flat(s1.tickers), ..s1 });
                    assert(actions_v(acts@) =~= a1 + seq![ActionV::FlattenAll] + ap + seq![ActionV::PersistAll]);
                }
            } else {
                push_action(&mut acts, LiveAction::PersistAll);
            }
        },
        LiveEvent::ConfigDetected { version, tickers, buildable } => {
            warn_unsubscribed(&tickers, &s.tickers, &mut acts);
            delete_dropped(&s.tickers, &tickers, &mut acts);
            let ghost pre = actions_v(acts@);
            let ghost new_v = names(tickers@);
            let ghost b_v = names(buildable@);
            s.pending = Some(PendingConfig { version, tickers, buildable });
            let ghost s1 = live_v(*s);
            proof {
                assert(s1 == LiveV { pending: Some(PendingV { version, tickers: new_v, buildable: b_v }), ..s0 });
            }
            apply_pending_exec(s, &mut acts);
            push_action(&mut acts, LiveAction::PersistAll);
            proof {
                assert(pre =~= unsubscribed(new_v, s0.tickers) + dropped_states(s0.tickers, new_v));
                assert(actions_v(acts@) =~= pre + apply_pending(s1).1 + seq![ActionV::PersistAll]);
            }
        },
        LiveEvent::Shutdown => {
            flatten_tickers(&mut s.tickers);
            push_action(&mut acts, LiveAction::FlattenAll);
            push_action(&mut acts, LiveAction::PersistAll);
            push_action(&mut acts, LiveAction::Stop);
            proof {
                assert(actions_v(acts@) =~= seq![ActionV::FlattenAll, ActionV::PersistAll, ActionV::Stop]);
            }
        },
    }
    acts
}

/// A config swap leaves a ticker that holds a position exactly as it was: it is
/// neither dropped nor given a new engine until it is flat.
pub proof fn lemma_swap_keeps_open_positions(ts: Seq<TickerV>, p: PendingV, i: int)
    requires
        0 <= i < ts.len(),
        ts[i].has_position,
    ensures
        swap_pass(ts, p).0.contains(ts[i]),
    decreases ts.len(),
{
    let rest = swap_pass(ts.drop_first(), p).0;
    if i == 0 {
        assert((seq![ts[0]] + rest)[0] == ts[0]);
    } else {
        lemma_swap_keeps_open_positions(ts.drop_first(), p, i - 1);
        let k = choose|k: int| 0 <= k < rest.len() && rest[k] == ts[i];
        let t = ts[0];
        match swap_action_spec(t.config_version, t.has_position, p.version, p.tickers.contains(t.ticker)) {
            SwapAction::Drop => {},
            _ => {
                let first = swap_pass(ts, p).0[0];
                assert(swap_pass(ts, p).0 == seq![first] + rest);
                assert(swap_pass(ts, p).0[k + 1] == ts[i]);
            },
        }
    }
}

/// A waiting config is cleared exactly when every ticker left runs it, and the
/// swap-complete action is then the last one taken.
pub proof fn lemma_swap_completes_when_all_on(s: LiveV)
    requires
        s.pending is Some,
    ensures
        apply_pending(s).0.pending is None <==> all_on(swap_pass(s.tickers, s.pending->0).0, s.pending->0.version),
        apply_pending(s).0.pending is None ==> apply_pending(s).1.last() == ActionV::SwapComplete(s.pending->0.version),
{
}

/// A shutdown flattens every ticker and ends with the stop action.
pub proof fn lemma_shutdown_flattens_and_stops(s: LiveV)
    ensures
        forall|i: int| 0 <= i < step_spec(s, EventV::Shutdown).0.tickers.len() ==> !(#[trigger] step_spec(s, EventV::Shutdown).0.tickers[i]).has_position,
        step_spec(s, EventV::Shutdown).1.last() == ActionV::Stop,
{
}

} // verus!
