//! The brokerage account as the trading session reads it, and when its live
//! equity is consulted for the capital budget.

use vstd::prelude::*;

verus! {

/// The part of the broker's account record the session reads. Amounts are kept
/// as the decimal text the broker sends.
#[derive(Debug)]
pub struct AccountSummary {
    pub status: String,
    pub equity: String,
    pub cash: String,
    pub buying_power: String,
    pub trading_blocked: bool,
    pub shorting_enabled: bool,
    pub multiplier: String,
}

/// Live equity caps the capital budget only for the paper broker, and only when
/// both credentials are present.
pub open spec fn live_equity_consulted(broker_mode: Seq<char>, api_key: Seq<char>, api_secret: Seq<char>) -> bool {
    broker_mode == "alpaca_paper"@ && api_key.len() > 0 && api_secret.len() > 0
}

/// Whether the session asks the broker for its equity before settling on capital.
pub fn uses_live_equity(broker_mode: &str, api_key: &str, api_secret: &str) -> (b: bool)
    ensures
        b == live_equity_consulted(broker_mode@, api_key@, api_secret@),
{
    let paper = String::from_str(broker_mode) == String::from_str("alpaca_paper");
    paper && api_key.unicode_len() > 0 && api_secret.unicode_len() > 0
}

} // verus!
