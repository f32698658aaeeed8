//! Decisions of the live trading loop that sit between the feed, the engines and
//! the database: the cross-ticker capacity gate, feed staleness, the missed-close
//! safety net, throttling of entry-block events, and deferring a config swap for
//! each ticker until it is flat.

use vstd::prelude::*;
use crate::clock::{eastern_minute_of_day, eastern_minutes, ts_in_range, RTH_OPEN_MINUTES};
use crate::gates::{trunc_div, trunc_div_i128};
use crate::model::BlockKind;

verus! {

/// No bar for this long during regular hours means the feed is stale.
pub const FEED_STALE_AFTER_SECS: i64 = 180;

/// A never-seen ticker counts as stale this many minutes after the open.
pub const FEED_GRACE_MINUTES: u32 = 5;

/// The clock flattens positions this many minutes after the force-exit cut-off.
pub const MISSED_CLOSE_GRACE_MINUTES: u32 = 2;

/// A near-miss diagnostic is persisted at most this often per ticker.
pub const NEAR_MISS_THROTTLE_SECS: i64 = 300;

/// A repeated gate reason is re-persisted at most this often per ticker.
pub const GATE_REPEAT_SECS: i64 = 900;

/// Entries are blocked for a flat ticker once the process holds as many open
/// positions as the config allows; a ticker in a position still ticks for exits.
pub fn capacity_blocks_entry(open_positions: usize, max_concurrent: usize, has_position: bool) -> (b: bool)
    ensures
        b == (open_positions >= max_concurrent && !has_position),
{
    open_positions >= max_concurrent && !has_position
}

/// Staleness of one traded ticker's feed at `now_ms`, given its last bar (if any).
pub open spec fn feed_stale_spec(last_bar_ms: Option<i64>, now_ms: i64) -> bool {
    match last_bar_ms {
        Some(at) => trunc_div(now_ms - at, 1000) > FEED_STALE_AFTER_SECS,
        None => eastern_minute_of_day(now_ms) > RTH_OPEN_MINUTES + FEED_GRACE_MINUTES,
    }
}

/// Is a ticker's feed stale during market hours? No bar for more than three
/// minutes; a ticker that never had a bar only counts once we are well past the open.
pub fn feed_stale(last_bar_ms: Option<i64>, now_ms: i64) -> (b: bool)
    requires
        ts_in_range(now_ms as int),
    ensures
        b == feed_stale_spec(last_bar_ms, now_ms),
{
    match last_bar_ms {
        Some(at) => trunc_div_i128(now_ms as i128 - at as i128, 1000) > FEED_STALE_AFTER_SECS as i128,
        None => eastern_minutes(now_ms) > RTH_OPEN_MINUTES + FEED_GRACE_MINUTES,
    }
}

/// Should the clock flatten every open position? Only when positions are open and
/// it is two minutes past the force-exit cut-off (a silent ticker never sees the
/// cut-off tick).
pub fn missed_close_flatten(force_exit_by_minutes: Option<u32>, open_positions: usize, now_ms: i64) -> (b: bool)
    requires
        ts_in_range(now_ms as int),
    ensures
        b == (force_exit_by_minutes is Some && eastern_minute_of_day(now_ms)
            >= force_exit_by_minutes->0 + MISSED_CLOSE_GRACE_MINUTES && open_positions > 0),
{
    match force_exit_by_minutes {
        Some(cutoff) => (eastern_minutes(now_ms) as u64) >= (cutoff as u64)
            + (MISSED_CLOSE_GRACE_MINUTES as u64) && open_positions > 0,
        None => false,
    }
}

/// Per-ticker memory of the entry-block events already persisted.
pub struct BlockEventThrottle {
    /// last persisted gate reason and when.
    pub last_gate: Option<(String, i64)>,
    /// last persisted near-miss time.
    pub last_near_miss: Option<i64>,
}

/// The last stored gate event has the same reason and is under fifteen minutes old at `ts_ms`.
pub open spec fn gate_is_repeat(last_gate: Option<(Seq<char>, i64)>, reason: Seq<char>, ts_ms: i64) -> bool {
    match last_gate {
        Some((r, at)) => r == reason && trunc_div(ts_ms - at, 1000) < GATE_REPEAT_SECS,
        None => false,
    }
}

/// The last stored near-miss is under five minutes old at `ts_ms`.
pub open spec fn near_miss_throttled(last: Option<i64>, ts_ms: i64) -> bool {
    match last {
        Some(at) => trunc_div(ts_ms - at, 1000) < NEAR_MISS_THROTTLE_SECS,
        None => false,
    }
}

impl BlockEventThrottle {
    /// The persisted gate as text and time.
    pub open spec fn gate_view(&self) -> Option<(Seq<char>, i64)> {
        match self.last_gate {
            Some((r, at)) => Some((r@, at)),
            None => None,
        }
    }

    pub fn new() -> (t: Self)
        ensures
            t.gate_view() is None,
            t.last_near_miss is None,
    {
        BlockEventThrottle { last_gate: None, last_near_miss: None }
    }

    /// Which entry-block event, if any, to persist for a tick at `ts_ms` that was
    /// blocked by `entry_blocked_by` or reported `near_miss`. A gate reason is
    /// persisted unless the same reason was persisted within fifteen minutes; a
    /// near-miss (only when no gate blocked) at most every five minutes. The
    /// memory is updated for what is persisted.
    pub fn decide(&mut self, entry_blocked_by: Option<&str>, near_miss: bool, ts_ms: i64) -> (r: Option<BlockKind>)
        ensures
            match entry_blocked_by {
                Some(reason) => if gate_is_repeat(old(self).gate_view(), reason@, ts_ms) {
                    r is None && final(self).gate_view() == old(self).gate_view()
                } else {
                    r == Some(BlockKind::Gate) && final(self).gate_view() == Some((reason@, ts_ms))
                },
                None => if near_miss && !near_miss_throttled(old(self).last_near_miss, ts_ms) {
                    r == Some(BlockKind::NearMiss) && final(self).gate_view() == old(self).gate_view()
                } else {
                    r is None && final(self).gate_view() == old(self).gate_view()
                },
            },
            entry_blocked_by is Some ==> final(self).last_near_miss == old(self).last_near_miss,
            entry_blocked_by is None ==> final(self).last_near_miss == (if near_miss
                && !near_miss_throttled(old(self).last_near_miss, ts_ms) {
                Some(ts_ms)
            } else {
                old(self).last_near_miss
            }),
    {
        match entry_blocked_by {
            Some(reason) => {
                let reason_text = String::from_str(reason);
                let repeat = match &self.last_gate {
                    Some((r, at)) => {
                        let same = *r == reason_text;
                        same && trunc_div_i128(ts_ms as i128 - *at as i128, 1000) < GATE_REPEAT_SECS as i128
                    },
                    None => false,
                };
                if repeat {
                    None
                } else {
                    self.last_gate = Some((reason_text, ts_ms));
                    Some(BlockKind::Gate)
                }
            },
            None => {
                if !near_miss {
                    return None;
                }
                let throttled = match self.last_near_miss {
                    Some(at) => trunc_div_i128(ts_ms as i128 - at as i128, 1000)
                        < NEAR_MISS_THROTTLE_SECS as i128,
                    None => false,
                };
                if throttled {
                    None
                } else {
                    self.last_near_miss = Some(ts_ms);
                    Some(BlockKind::NearMiss)
                }
            },
        }
    }
}

/// Once a gate reason is persisted at `t0`, the same reason is not persisted
/// again for fifteen minutes.
pub proof fn lemma_gate_not_repeated_within_window(reason: Seq<char>, t0: i64, t1: i64)
    requires
        t0 <= t1,
        t1 - t0 < GATE_REPEAT_SECS * 1000,
    ensures
        gate_is_repeat(Some((reason, t0)), reason, t1),
{
    vstd::arithmetic::div_mod::lemma_fundamental_div_mod((t1 - t0) as int, 1000);
}

/// What to do with one ticker while a new config waits to be applied.
#[derive(Debug, Clone, Copy, PartialEq, Eq, Structural)]
pub enum SwapAction {
    /// leave the ticker's engine as it is.
    Keep,
    /// the new config no longer trades the ticker: drop its session.
    Drop,
    /// rebuild the ticker's engine from the new config.
    Rebuild,
}

/// The swap step for a ticker whose engine runs config `session_version`, while
/// config `pending_id` waits: a ticker already on it, or holding a position, is
/// kept; a flat ticker is dropped if the new config does not trade it, and
/// rebuilt otherwise.
pub open spec fn swap_action_spec(session_version: i64, has_position: bool, pending_id: i64, in_new_config: bool) -> SwapAction {
    if session_version == pending_id || has_position {
        SwapAction::Keep
    } else if !in_new_config {
        SwapAction::Drop
    } else {
        SwapAction::Rebuild
    }
}

pub fn pending_swap_action(session_version: i64, has_position: bool, pending_id: i64, in_new_config: bool) -> (a: SwapAction)
    ensures
        a == swap_action_spec(session_version, has_position, pending_id, in_new_config),
{
    if session_version == pending_id || has_position {
        SwapAction::Keep
    } else if !in_new_config {
        SwapAction::Drop
    } else {
        SwapAction::Rebuild
    }
}

/// `ticker` is one of `tickers`.
pub fn trades_ticker(tickers: &Vec<String>, ticker: &str) -> (b: bool)
    ensures
        b == exists|i: int| 0 <= i < tickers@.len() && #[trigger] tickers@[i]@ == ticker@,
{
    let t = String::from_str(ticker);
    let mut i: usize = 0;
    while i < tickers.len()
        invariant
            i <= tickers.len(),
            t@ == ticker@,
            forall|j: int| 0 <= j < i ==> #[trigger] tickers@[j]@ != ticker@,
        decreases tickers.len() - i,
    {
        if tickers[i] == t {
            return true;
        }
        i = i + 1;
    }
    false
}

/// The swap is complete once every remaining ticker runs the pending config.
pub fn swap_complete(session_versions: &Vec<i64>, pending_id: i64) -> (b: bool)
    ensures
        b == forall|i: int| 0 <= i < session_versions@.len() ==> #[trigger] session_versions@[i] == pending_id,
{
    let mut i: usize = 0;
    while i < session_versions.len()
        invariant
            i <= session_versions.len(),
            forall|j: int| 0 <= j < i ==> #[trigger] session_versions@[j] == pending_id,
        decreases session_versions.len() - i,
    {
        if session_versions[i] != pending_id {
            return false;
        }
        i = i + 1;
    }
    true
}

/// A config swap never touches a ticker that holds a position; it waits
/// until the ticker is flat.
pub proof fn lemma_swap_waits_for_flat(session_version: i64, pending_id: i64, in_new_config: bool)
    ensures
        swap_action_spec(session_version, true, pending_id, in_new_config) == SwapAction::Keep,
{
}

} // verus!
