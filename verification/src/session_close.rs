//! The session-close exit action: force any open position out once the clock
//! reaches the configured "HH:MM".

use vstd::prelude::*;
use crate::clock::{utc_minute_of_day, utc_minutes};
use crate::hm::{hm_pair, pair_fits, parse_hm_pair};
use crate::model::{ActionPhase, ExitReason, ExitSignal};

verus! {

/// Exits an open position at or after `force_exit_by`.
pub struct SessionCloseExit {
    force_exit_by: String,
    instance_id: String,
}

/// The decision of a session-close action with cut-off text `force_exit_by`, for a
/// position that is open or not, at `ts_ms`. The cut-off is compared with the
/// hour and minute of the instant in UTC.
pub open spec fn session_close_decision(force_exit_by: Seq<char>, has_position: bool, ts_ms: int) -> ExitSignal {
    if !has_position {
        ExitSignal::Hold
    } else {
        match hm_pair(force_exit_by) {
            Some((h, m)) => if utc_minute_of_day(ts_ms) >= h * 60 + m {
                ExitSignal::Exit { reason: ExitReason::SessionClose }
            } else {
                ExitSignal::Hold
            },
            None => ExitSignal::Hold,
        }
    }
}

impl SessionCloseExit {
    pub closed spec fn cutoff_text(&self) -> Seq<char> {
        self.force_exit_by@
    }

    pub closed spec fn instance(&self) -> Seq<char> {
        self.instance_id@
    }

    /// `force_exit_by` is in "HH:MM" format.
    pub fn new(force_exit_by: String, instance_id: String) -> (r: Self)
        ensures
            r.cutoff_text() == force_exit_by@,
            r.instance() == instance_id@,
    {
        Self { force_exit_by, instance_id }
    }

    /// Hour and minute of the cut-off: exactly one colon, each side a `u32`.
    pub fn parse_hm(&self) -> (r: Option<(u32, u32)>)
        ensures
            r == hm_pair(self.cutoff_text()),
    {
        parse_hm_pair(self.force_exit_by.as_str())
    }

    pub fn name(&self) -> (s: &'static str)
        ensures
            s@ == "session_close"@,
    {
        "session_close"
    }

    pub fn phase(&self) -> (p: ActionPhase)
        ensures
            p == ActionPhase::Exit,
    {
        ActionPhase::Exit
    }

    /// Exit with `SessionClose` when a position is open and the clock has reached
    /// the cut-off; hold otherwise (also when the cut-off does not parse).
    pub fn evaluate(&self, has_position: bool, ts_ms: i64) -> (s: ExitSignal)
        requires
            pair_fits(self.cutoff_text()),
        ensures
            s == session_close_decision(self.cutoff_text(), has_position, ts_ms as int),
    {
        if !has_position {
            return ExitSignal::Hold;
        }
        if let Some((exit_hour, exit_min)) = self.parse_hm() {
            let current_minutes = utc_minutes(ts_ms);
            let exit_minutes = exit_hour * 60 + exit_min;
            if current_minutes >= exit_minutes {
                return ExitSignal::Exit { reason: ExitReason::SessionClose };
            }
        }
        ExitSignal::Hold
    }
}

/// The cut-off used when an action config gives none.
pub open spec fn default_cutoff() -> Seq<char> {
    "15:55"@
}

/// Build a session-close action from its config: the `force_exit_by` parameter
/// when it is given as text, "15:55" otherwise.
pub fn session_close_factory(force_exit_by: Option<&str>, instance_id: &str) -> (r: SessionCloseExit)
    ensures
        r.cutoff_text() == (match force_exit_by {
            Some(t) => t@,
            None => default_cutoff(),
        }),
        r.instance() == instance_id@,
{
    let time = match force_exit_by {
        Some(t) => String::from_str(t),
        None => String::from_str("15:55"),
    };
    SessionCloseExit::new(time, String::from_str(instance_id))
}

/// A session-close action never exits when no position is open.
pub proof fn lemma_session_close_needs_position(force_exit_by: Seq<char>, ts_ms: int)
    ensures
        session_close_decision(force_exit_by, false, ts_ms) == ExitSignal::Hold,
{
}

proof fn lemma_utc_minute_in_day(t: int)
    ensures
        utc_minute_of_day(t) == (t % 86_400_000) / 60000,
{
    let d = t / 86_400_000;
    let r = t % 86_400_000;
    vstd::arithmetic::div_mod::lemma_fundamental_div_mod(t, 86_400_000);
    let q = r / 60000;
    let s = r % 60000;
    vstd::arithmetic::div_mod::lemma_fundamental_div_mod(r, 60000);
    assert(0 <= q < 1440) by (nonlinear_arith)
        requires
            r == 60000 * q + s,
            0 <= s < 60000,
            0 <= r < 86_400_000,
    ;
    assert(t == (1440 * d + q) * 60000 + s) by (nonlinear_arith)
        requires
            t == 86_400_000 * d + r,
            r == 60000 * q + s,
    ;
    vstd::arithmetic::div_mod::lemma_fundamental_div_mod_converse(t, 60000, 1440 * d + q, s);
    vstd::arithmetic::div_mod::lemma_fundamental_div_mod_converse(1440 * d + q, 1440, d, q);
}

/// Once the cut-off is reached, later instants of the same UTC day exit too.
pub proof fn lemma_session_close_stays_closed(force_exit_by: Seq<char>, t1: int, t2: int)
    requires
        t1 <= t2,
        t1 / 86_400_000 == t2 / 86_400_000,
        session_close_decision(force_exit_by, true, t1) != ExitSignal::Hold,
    ensures
        session_close_decision(force_exit_by, true, t2) != ExitSignal::Hold,
{
    lemma_utc_minute_in_day(t1);
    lemma_utc_minute_in_day(t2);
    vstd::arithmetic::div_mod::lemma_fundamental_div_mod(t1, 86_400_000);
    vstd::arithmetic::div_mod::lemma_fundamental_div_mod(t2, 86_400_000);
    vstd::arithmetic::div_mod::lemma_div_is_ordered(t1 % 86_400_000, t2 % 86_400_000, 60000);
}

} // verus!
