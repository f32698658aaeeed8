//! Order handling rules of the paper broker: waiting for a market order to fill,
//! and what a failed position close means.

use vstd::prelude::*;
use crate::errors::BrokerError;
use crate::text::{chars_of, contains_chars, contains_seq};

verus! {

/// How long to wait for a market order to fill before giving up.
pub const FILL_TIMEOUT_MS: u64 = 15_000;

/// Pause between polls of an unfilled order.
pub const FILL_POLL_MS: u64 = 250;

/// Where an order stands, as far as waiting for its fill goes.
#[derive(Debug, Clone, Copy, PartialEq, Eq, Structural)]
pub enum OrderState {
    /// completely filled.
    Filled,
    /// canceled, expired, rejected, stopped or suspended: it will not fill.
    Ended,
    /// anything else: accepted, new, partially filled, pending, ...
    Working,
}

/// The next step while waiting for a fill.
#[derive(Debug, Clone, Copy, PartialEq, Eq, Structural)]
pub enum FillStep {
    /// the order filled: report the fill.
    Done,
    /// the order ended unfilled: report the rejection.
    Rejected,
    /// the wait is over: cancel the order and report the timeout.
    CancelAndGiveUp,
    /// wait `FILL_POLL_MS`, then poll the order again.
    PollAgain,
}

/// The step for an order in `state`, with the deadline passed or not. A filled or
/// ended order is settled whatever the clock says.
pub open spec fn fill_step_spec(state: OrderState, deadline_passed: bool) -> FillStep {
    match state {
        OrderState::Filled => FillStep::Done,
        OrderState::Ended => FillStep::Rejected,
        OrderState::Working => if deadline_passed {
            FillStep::CancelAndGiveUp
        } else {
            FillStep::PollAgain
        },
    }
}

pub fn fill_step(state: OrderState, deadline_passed: bool) -> (s: FillStep)
    ensures
        s == fill_step_spec(state, deadline_passed),
{
    match state {
        OrderState::Filled => FillStep::Done,
        OrderState::Ended => FillStep::Rejected,
        OrderState::Working => if deadline_passed {
            FillStep::CancelAndGiveUp
        } else {
            FillStep::PollAgain
        },
    }
}

/// A submission with no time to wait gives up at once unless the order came back
/// filled.
pub fn immediate_fill_required(timeout_ms: u64, state: OrderState) -> (b: bool)
    ensures
        b == (timeout_ms == 0 && state != OrderState::Filled),
{
    timeout_ms == 0 && state != OrderState::Filled
}

/// The broker's reply to a position close says there was no such position.
pub open spec fn says_not_found(msg: Seq<char>) -> bool {
    contains_seq(msg, "404"@) || contains_seq(msg, "not found"@) || contains_seq(msg, "NotFound"@)
}

/// The error of a failed position close: no position when the broker's reply says
/// it found none, a connection error carrying the reply otherwise.
pub fn close_error(ticker: &str, msg: String) -> (e: BrokerError)
    ensures
        says_not_found(msg@) ==> (e matches BrokerError::NoPosition(t) && t@ == ticker@),
        !says_not_found(msg@) ==> (e matches BrokerError::ConnectionError(m) && m@ == msg@),
{
    let m = chars_of(msg.as_str());
    let missing = contains_chars(&m, &chars_of("404")) || contains_chars(&m, &chars_of("not found"))
        || contains_chars(&m, &chars_of("NotFound"));
    if missing {
        BrokerError::NoPosition(String::from_str(ticker))
    } else {
        BrokerError::ConnectionError(msg)
    }
}

} // verus!
