//! Session gates of the trading engine: per-day session state (keyed to the
//! US/Eastern date, opening at 09:30 Eastern), the reasons an entry may be
//! blocked, the force-exit cut-off, and the clock bounds of entry windows.

use vstd::prelude::*;
use crate::clock::{
    eastern_clock, eastern_day, eastern_from_local, eastern_instant_of, eastern_minute_of_day,
    eastern_minutes, eastern_offset_at, lemma_wall_clock_reading, ts_in_range, RTH_OPEN_MINUTES,
};
use crate::hm::{pair_fits, pair_minutes, parse_hm_to_minutes};

verus! {

/// `a / b` rounded toward zero, as chrono's `num_minutes` / `num_seconds` count
/// whole units of a duration.
pub open spec fn trunc_div(a: int, b: int) -> int {
    if a >= 0 {
        a / b
    } else {
        -((-a) / b)
    }
}

pub fn trunc_div_i128(a: i128, b: i128) -> (q: i128)
    requires
        b > 0,
        a > i128::MIN,
    ensures
        q == trunc_div(a as int, b as int),
{
    if a >= 0 {
        a / b
    } else {
        -((-a) / b)
    }
}

/// Why entries are not evaluated on a tick.
#[derive(Debug, Clone, Copy, PartialEq, Eq, Structural)]
pub enum EntryBlock {
    EntriesBlocked,
    DailyLossBreaker,
    AvoidFirstMinutes,
    NoNewEntriesAfter,
    EntryCooldown,
}

impl EntryBlock {
    pub open spec fn label(self) -> Seq<char> {
        match self {
            EntryBlock::EntriesBlocked => "entries_blocked"@,
            EntryBlock::DailyLossBreaker => "daily_loss_breaker"@,
            EntryBlock::AvoidFirstMinutes => "avoid_first_minutes"@,
            EntryBlock::NoNewEntriesAfter => "no_new_entries_after"@,
            EntryBlock::EntryCooldown => "entry_cooldown"@,
        }
    }

    pub fn as_str(self) -> (s: &'static str)
        ensures
            s@ == self.label(),
    {
        match self {
            EntryBlock::EntriesBlocked => "entries_blocked",
            EntryBlock::DailyLossBreaker => "daily_loss_breaker",
            EntryBlock::AvoidFirstMinutes => "avoid_first_minutes",
            EntryBlock::NoNewEntriesAfter => "no_new_entries_after",
            EntryBlock::EntryCooldown => "entry_cooldown",
        }
    }
}

/// Session constraints that gate entries (clock settings already read as minutes
/// since midnight, US/Eastern).
#[derive(Debug, Clone, Copy)]
pub struct SessionTimes {
    pub avoid_first_minutes: u32,
    pub no_new_entries_after_minutes: Option<u32>,
    pub entry_cooldown_ms: i64,
    pub force_exit_by_minutes: Option<u32>,
}

/// Per-day session state of one ticker's engine.
#[derive(Debug, Clone, Copy)]
pub struct SessionState {
    /// US/Eastern calendar day of the current session, once a tick has been seen.
    pub current_session_day: Option<i64>,
    /// 09:30 US/Eastern of the current session day.
    pub session_start_ms: Option<i64>,
    /// when the last position was closed (for the re-entry cooldown).
    pub last_exit_ms: Option<i64>,
    /// true when the daily loss breaker has been triggered.
    pub daily_loss_breaker_active: bool,
}

/// Session start for a tick of a new day: 09:30 Eastern of that day when that
/// wall-clock time is unambiguous, else the tick itself.
pub open spec fn session_open_for(day: i64, tick_ms: i64) -> i64 {
    match eastern_instant_of(day, 9, 30) {
        Some(open) => open,
        None => tick_ms,
    }
}

/// The first gate that blocks entries on a tick at `ts_ms`, or none.
pub open spec fn entry_block_spec(
    st: SessionState,
    entries_blocked: bool,
    config: Option<SessionTimes>,
    ts_ms: i64,
) -> Option<EntryBlock> {
    if entries_blocked {
        Some(EntryBlock::EntriesBlocked)
    } else if st.daily_loss_breaker_active {
        Some(EntryBlock::DailyLossBreaker)
    } else {
        match config {
            None => None,
            Some(sc) => if st.session_start_ms is Some && trunc_div(
                ts_ms - st.session_start_ms->0,
                60000,
            ) < sc.avoid_first_minutes {
                Some(EntryBlock::AvoidFirstMinutes)
            } else if sc.no_new_entries_after_minutes is Some && eastern_minute_of_day(ts_ms)
                >= sc.no_new_entries_after_minutes->0 {
                Some(EntryBlock::NoNewEntriesAfter)
            } else if sc.entry_cooldown_ms > 0 && st.last_exit_ms is Some && ts_ms
                - st.last_exit_ms->0 < sc.entry_cooldown_ms {
                Some(EntryBlock::EntryCooldown)
            } else {
                None
            },
        }
    }
}

/// The session state after a tick at `ts_ms`: unchanged within the same US/Eastern
/// day; on a new day, a fresh session opened at 09:30 Eastern with no exit yet and
/// the loss breaker off.
pub open spec fn session_after_tick(st: SessionState, ts_ms: i64) -> SessionState {
    let day = eastern_day(ts_ms) as i64;
    if st.current_session_day == Some(day) {
        st
    } else {
        SessionState {
            current_session_day: Some(day),
            session_start_ms: Some(session_open_for(day, ts_ms)),
            last_exit_ms: None,
            daily_loss_breaker_active: false,
        }
    }
}

impl SessionState {
    pub fn new() -> (s: Self)
        ensures
            s.current_session_day is None,
            s.session_start_ms is None,
            s.last_exit_ms is None,
            !s.daily_loss_breaker_active,
    {
        SessionState {
            current_session_day: None,
            session_start_ms: None,
            last_exit_ms: None,
            daily_loss_breaker_active: false,
        }
    }

    /// Detect a new trading day (US/Eastern) at a tick and reset the per-day state:
    /// the session start moves to 09:30 Eastern of the new day, the loss breaker
    /// and the cooldown clear. Returns whether a new session started.
    pub fn on_tick(&mut self, ts_ms: i64) -> (started: bool)
        requires
            ts_in_range(ts_ms as int),
        ensures
            started == (old(self).current_session_day != Some(eastern_day(ts_ms) as i64)),
            *final(self) == session_after_tick(*old(self), ts_ms),
            started ==> match eastern_instant_of(eastern_day(ts_ms) as i64, 9, 30) {
                Some(open) => ts_in_range(open as int) ==> eastern_day(open) == eastern_day(ts_ms)
                    && eastern_minute_of_day(open) == RTH_OPEN_MINUTES,
                None => true,
            },
    {
        let day = eastern_clock(ts_ms).day;
        let same = match self.current_session_day {
            Some(d) => d == day,
            None => false,
        };
        if same {
            return false;
        }
        let open = match eastern_from_local(day, 9, 30) {
            Some(o) => {
                proof {
                    if ts_in_range(o as int) {
                        lemma_wall_clock_reading(o as int, eastern_offset_at(o), day as int, 570int);
                    }
                }
                o
            },
            None => ts_ms,
        };
        self.current_session_day = Some(day);
        self.session_start_ms = Some(open);
        self.last_exit_ms = None;
        self.daily_loss_breaker_active = false;
        true
    }

    /// Record that a position was closed at `ts_ms`.
    pub fn record_exit(&mut self, ts_ms: i64)
        requires
            ts_in_range(ts_ms as int),
        ensures
            final(self).last_exit_ms == Some(ts_ms),
            final(self).current_session_day == old(self).current_session_day,
            final(self).session_start_ms == old(self).session_start_ms,
            final(self).daily_loss_breaker_active == old(self).daily_loss_breaker_active,
    {
        self.last_exit_ms = Some(ts_ms);
    }

    /// Trip the daily loss breaker for the rest of the session.
    pub fn trip_loss_breaker(&mut self)
        ensures
            final(self).daily_loss_breaker_active,
            final(self).current_session_day == old(self).current_session_day,
            final(self).session_start_ms == old(self).session_start_ms,
            final(self).last_exit_ms == old(self).last_exit_ms,
    {
        self.daily_loss_breaker_active = true;
    }

    /// The first gate that blocks entries at `ts_ms`: the cross-ticker block, the
    /// daily loss breaker, the first minutes after the open, the no-new-entries
    /// cut-off, and the re-entry cooldown, in that order.
    pub fn entry_block_reason(&self, entries_blocked: bool, config: Option<SessionTimes>, ts_ms: i64) -> (r: Option<EntryBlock>)
        requires
            ts_in_range(ts_ms as int),
        ensures
            r == entry_block_spec(*self, entries_blocked, config, ts_ms),
    {
        if entries_blocked {
            return Some(EntryBlock::EntriesBlocked);
        }
        if self.daily_loss_breaker_active {
            return Some(EntryBlock::DailyLossBreaker);
        }
        if let Some(sc) = config {
            if let Some(start) = self.session_start_ms {
                let elapsed = trunc_div_i128(ts_ms as i128 - start as i128, 60000);
                if elapsed < sc.avoid_first_minutes as i128 {
                    return Some(EntryBlock::AvoidFirstMinutes);
                }
            }
            if let Some(cutoff) = sc.no_new_entries_after_minutes {
                if eastern_minutes(ts_ms) >= cutoff {
                    return Some(EntryBlock::NoNewEntriesAfter);
                }
            }
            if sc.entry_cooldown_ms > 0 {
                if let Some(last_exit) = self.last_exit_ms {
                    if (ts_ms as i128) - (last_exit as i128) < sc.entry_cooldown_ms as i128 {
                        return Some(EntryBlock::EntryCooldown);
                    }
                }
            }
        }
        None
    }
}

/// Is the session force-exit cut-off reached at `ts_ms`?
pub fn force_exit_due(force_exit_by_minutes: Option<u32>, ts_ms: i64) -> (b: bool)
    requires
        ts_in_range(ts_ms as int),
    ensures
        b == (force_exit_by_minutes is Some && eastern_minute_of_day(ts_ms)
            >= force_exit_by_minutes->0),
{
    match force_exit_by_minutes {
        Some(cutoff) => eastern_minutes(ts_ms) >= cutoff,
        None => false,
    }
}

/// Entry-window clock bounds at Eastern minute `now`: `entry_after <= now < entry_before`,
/// each bound only when set.
pub open spec fn window_clock_open_at(entry_after: Option<u32>, entry_before: Option<u32>, now: int) -> bool {
    (entry_after is None || now >= entry_after->0) && (entry_before is None || now < entry_before->0)
}

/// Is an entry window's clock open at `ts_ms`? Always, when it has no bounds.
pub fn window_clock_open(entry_after: Option<u32>, entry_before: Option<u32>, ts_ms: i64) -> (b: bool)
    requires
        ts_in_range(ts_ms as int),
    ensures
        b == window_clock_open_at(entry_after, entry_before, eastern_minute_of_day(ts_ms)),
{
    if entry_after.is_none() && entry_before.is_none() {
        return true;
    }
    let now = eastern_minutes(ts_ms);
    let after_ok = match entry_after {
        Some(a) => now >= a,
        None => true,
    };
    let before_ok = match entry_before {
        Some(b) => now < b,
        None => true,
    };
    after_ok && before_ok
}

/// The replay's session window: at least `avoid_first_minutes` whole minutes after
/// the first bar of the data, and before the `no_new_entries_after` cut-off
/// (exact "H:M", US/Eastern) when that text reads as one.
pub open spec fn replay_entry_allowed(
    ts_ms: i64,
    first_bar_ms: i64,
    avoid_first_minutes: u32,
    no_new_entries_after: Seq<char>,
) -> bool {
    &&& trunc_div(ts_ms - first_bar_ms, 60000) >= avoid_first_minutes
    &&& match pair_minutes(no_new_entries_after) {
        Some(cutoff) => eastern_minute_of_day(ts_ms) < cutoff,
        None => true,
    }
}

/// Whether the replay may enter at `ts_ms`, given the first bar's time and the
/// session's avoid-first-minutes and no-new-entries-after settings.
pub fn entry_allowed(ts_ms: i64, first_bar_ms: i64, avoid_first_minutes: u32, no_new_entries_after: &str) -> (b: bool)
    requires
        ts_in_range(ts_ms as int),
        ts_in_range(first_bar_ms as int),
        pair_fits(no_new_entries_after@),
    ensures
        b == replay_entry_allowed(ts_ms, first_bar_ms, avoid_first_minutes, no_new_entries_after@),
{
    let elapsed = trunc_div_i128(ts_ms as i128 - first_bar_ms as i128, 60000);
    if elapsed < avoid_first_minutes as i128 {
        return false;
    }
    if let Some(cutoff) = parse_hm_to_minutes(no_new_entries_after) {
        if eastern_minutes(ts_ms) >= cutoff {
            return false;
        }
    }
    true
}

/// The cross-ticker block and the loss breaker block entries whatever the
/// session settings and the clock say.
pub proof fn lemma_breaker_blocks_entries(st: SessionState, config: Option<SessionTimes>, ts_ms: i64)
    requires
        st.daily_loss_breaker_active,
    ensures
        entry_block_spec(st, false, config, ts_ms) == Some(EntryBlock::DailyLossBreaker),
        entry_block_spec(st, true, config, ts_ms) == Some(EntryBlock::EntriesBlocked),
{
}

/// The first tick of a new US/Eastern trading day lifts the daily loss breaker
/// and the cooldown of the previous day: afterwards neither blocks an entry, at any
/// instant, until an exit or a breaker trip is recorded again.
pub proof fn lemma_new_day_clears_breaker_and_cooldown(
    st: SessionState,
    ts_ms: i64,
    config: Option<SessionTimes>,
    later_ms: i64,
)
    requires
        st.current_session_day != Some(eastern_day(ts_ms) as i64),
    ensures
        entry_block_spec(session_after_tick(st, ts_ms), false, config, later_ms) != Some(
            EntryBlock::DailyLossBreaker,
        ),
        entry_block_spec(session_after_tick(st, ts_ms), false, config, later_ms) != Some(
            EntryBlock::EntryCooldown,
        ),
{
}

/// `avoid_first_minutes` counts from the 09:30 US/Eastern open of the day, not
/// from the first tick: once a day's session has started, every instant before the
/// open plus that many minutes (pre-market included) is blocked, unless entries are
/// blocked outright.
pub proof fn lemma_avoid_first_minutes(
    st: SessionState,
    first_tick_ms: i64,
    sc: SessionTimes,
    open_ms: i64,
    t_ms: i64,
)
    requires
        st.current_session_day != Some(eastern_day(first_tick_ms) as i64),
        eastern_instant_of(eastern_day(first_tick_ms) as i64, 9, 30) == Some(open_ms),
        sc.avoid_first_minutes > 0,
        t_ms < open_ms + sc.avoid_first_minutes * 60000,
    ensures
        entry_block_spec(session_after_tick(st, first_tick_ms), false, Some(sc), t_ms) == Some(
            EntryBlock::AvoidFirstMinutes,
        ),
{
    let d = t_ms - open_ms;
    if d >= 0 {
        assert(d / 60000 < sc.avoid_first_minutes) by {
            vstd::arithmetic::div_mod::lemma_fundamental_div_mod(d as int, 60000);
        }
    } else {
        assert((-d) / 60000 >= 0) by {
            vstd::arithmetic::div_mod::lemma_fundamental_div_mod((-d) as int, 60000);
        }
    }
}

/// The re-entry cooldown is counted in milliseconds from the last exit: where the
/// same settings without a cooldown would allow the entry, a cooldown of `c`
/// milliseconds blocks it exactly while less than `c` milliseconds have passed
/// since the exit, and allows it from then on.
pub proof fn lemma_cooldown_counts_milliseconds(st: SessionState, sc: SessionTimes, ts_ms: i64, exit_ms: i64)
    requires
        st.last_exit_ms == Some(exit_ms),
        sc.entry_cooldown_ms > 0,
        entry_block_spec(st, false, Some(SessionTimes { entry_cooldown_ms: 0, ..sc }), ts_ms) is None,
    ensures
        entry_block_spec(st, false, Some(sc), ts_ms) == (if ts_ms - exit_ms < sc.entry_cooldown_ms {
            Some(EntryBlock::EntryCooldown)
        } else {
            None::<EntryBlock>
        }),
        ts_ms >= exit_ms + sc.entry_cooldown_ms ==> entry_block_spec(st, false, Some(sc), ts_ms) is None,
        exit_ms <= ts_ms < exit_ms + sc.entry_cooldown_ms ==> entry_block_spec(st, false, Some(sc), ts_ms)
            == Some(EntryBlock::EntryCooldown),
{
}

/// Once the cooldown's milliseconds have passed since the last exit, the cooldown
/// is not what blocks an entry, whatever else does.
pub proof fn lemma_cooldown_expires(
    st: SessionState,
    entries_blocked: bool,
    sc: SessionTimes,
    ts_ms: i64,
    exit_ms: i64,
)
    requires
        st.last_exit_ms == Some(exit_ms),
        ts_ms - exit_ms >= sc.entry_cooldown_ms,
    ensures
        entry_block_spec(st, entries_blocked, Some(sc), ts_ms) != Some(EntryBlock::EntryCooldown),
{
}

/// The no-new-entries cut-off is a US/Eastern minute of the day: where the same
/// settings without a cut-off or cooldown would allow the entry, a cut-off at
/// minute `m` blocks it exactly from minute `m` of the day on.
pub proof fn lemma_cutoff_blocks_from_its_minute(st: SessionState, sc: SessionTimes, ts_ms: i64, m: u32)
    requires
        sc.no_new_entries_after_minutes == Some(m),
        sc.entry_cooldown_ms <= 0,
        entry_block_spec(
            st,
            false,
            Some(SessionTimes { no_new_entries_after_minutes: None, ..sc }),
            ts_ms,
        ) is None,
    ensures
        entry_block_spec(st, false, Some(sc), ts_ms) == (if eastern_minute_of_day(ts_ms) >= m {
            Some(EntryBlock::NoNewEntriesAfter)
        } else {
            None::<EntryBlock>
        }),
{
}

/// From the open plus `avoid_first_minutes` minutes on, the opening gate no
/// longer blocks, whatever else does.
pub proof fn lemma_avoid_first_minutes_ends(
    st: SessionState,
    entries_blocked: bool,
    sc: SessionTimes,
    open_ms: i64,
    t_ms: i64,
)
    requires
        st.session_start_ms == Some(open_ms),
        t_ms >= open_ms + sc.avoid_first_minutes * 60000,
    ensures
        entry_block_spec(st, entries_blocked, Some(sc), t_ms) != Some(EntryBlock::AvoidFirstMinutes),
{
    let d = t_ms - open_ms;
    assert(d / 60000 >= sc.avoid_first_minutes) by {
        vstd::arithmetic::div_mod::lemma_fundamental_div_mod(d as int, 60000);
    }
}

} // verus!
