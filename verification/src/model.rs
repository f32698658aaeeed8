//! Shared vocabulary of the trading system: trade direction, exit reasons, action
//! phases, and the labels under which they are stored.

use vstd::prelude::*;

verus! {

/// Side of a position.
#[derive(Debug, Clone, Copy, PartialEq, Eq, Structural)]
pub enum TradeDirection {
    Long,
    Short,
}

/// Why a position was closed.
#[derive(Debug, Clone, Copy, PartialEq, Eq, Structural)]
pub enum ExitReason {
    TrailingStop,
    HardStop,
    TakeProfit,
    MaxHoldTimeout,
    SessionClose,
    FilterAlignment,
    ManualOverride,
    ConfigChange,
    ScoreExit,
    DailyLossLimit,
    BreakevenStop,
}

/// Phase in which an action is evaluated.
#[derive(Debug, Clone, Copy, PartialEq, Eq, Structural)]
pub enum ActionPhase {
    Entry,
    Monitor,
    Exit,
    Sizing,
}

/// What an exit action asks for.
#[derive(Debug, Clone, Copy, PartialEq, Eq, Structural)]
pub enum ExitSignal {
    Hold,
    Exit { reason: ExitReason },
}

/// Kind of entry-block event.
#[derive(Debug, Clone, Copy, PartialEq, Eq, Structural)]
pub enum BlockKind {
    /// a session gate or reject gate prevented entry evaluation.
    Gate,
    /// windows were evaluated, at least one met its composite floor, none fired.
    NearMiss,
}

/// Bar interval of a candle series.
#[derive(Debug, Clone, Copy, PartialEq, Eq, Hash, Structural)]
pub enum Timescale {
    OneMinute,
    FiveMinute,
    OneHour,
    OneDay,
    OneMonth,
}

/// The side that closes a position of side `d`.
pub fn opposite_direction(d: TradeDirection) -> (r: TradeDirection)
    ensures
        r != d,
{
    match d {
        TradeDirection::Long => TradeDirection::Short,
        TradeDirection::Short => TradeDirection::Long,
    }
}

/// The stored label of a direction (the `trade_direction` database enum).
pub open spec fn direction_label(d: TradeDirection) -> Seq<char> {
    match d {
        TradeDirection::Long => "long"@,
        TradeDirection::Short => "short"@,
    }
}

/// The stored label of an exit reason (the `exit_reason` database enum).
pub open spec fn exit_reason_label(r: ExitReason) -> Seq<char> {
    match r {
        ExitReason::TrailingStop => "trailing_stop"@,
        ExitReason::HardStop => "hard_stop"@,
        ExitReason::TakeProfit => "take_profit"@,
        ExitReason::MaxHoldTimeout => "max_hold_timeout"@,
        ExitReason::SessionClose => "session_close"@,
        ExitReason::FilterAlignment => "filter_alignment"@,
        ExitReason::ManualOverride => "manual_override"@,
        ExitReason::ConfigChange => "config_change"@,
        ExitReason::ScoreExit => "score_exit"@,
        ExitReason::DailyLossLimit => "daily_loss_limit"@,
        ExitReason::BreakevenStop => "breakeven_stop"@,
    }
}

/// The stored label of an entry-block kind.
pub open spec fn block_kind_label(k: BlockKind) -> Seq<char> {
    match k {
        BlockKind::Gate => "gate"@,
        BlockKind::NearMiss => "near_miss"@,
    }
}

pub fn direction_to_str(d: &TradeDirection) -> (s: &'static str)
    ensures
        s@ == direction_label(*d),
{
    match d {
        TradeDirection::Long => "long",
        TradeDirection::Short => "short",
    }
}

pub fn exit_reason_to_str(r: &ExitReason) -> (s: &'static str)
    ensures
        s@ == exit_reason_label(*r),
{
    match r {
        ExitReason::TrailingStop => "trailing_stop",
        ExitReason::HardStop => "hard_stop",
        ExitReason::TakeProfit => "take_profit",
        ExitReason::MaxHoldTimeout => "max_hold_timeout",
        ExitReason::SessionClose => "session_close",
        ExitReason::FilterAlignment => "filter_alignment",
        ExitReason::ManualOverride => "manual_override",
        ExitReason::ConfigChange => "config_change",
        ExitReason::ScoreExit => "score_exit",
        ExitReason::DailyLossLimit => "daily_loss_limit",
        ExitReason::BreakevenStop => "breakeven_stop",
    }
}

impl BlockKind {
    pub fn as_str(self) -> (s: &'static str)
        ensures
            s@ == block_kind_label(self),
    {
        match self {
            BlockKind::Gate => "gate",
            BlockKind::NearMiss => "near_miss",
        }
    }
}

/// The label a timescale is shown under.
pub open spec fn timescale_label_spec(t: Timescale) -> Seq<char> {
    match t {
        Timescale::OneMinute => "1min"@,
        Timescale::FiveMinute => "5min"@,
        Timescale::OneHour => "1hour"@,
        Timescale::OneDay => "1day"@,
        Timescale::OneMonth => "1month"@,
    }
}

pub fn timescale_label(t: &Timescale) -> (s: &'static str)
    ensures
        s@ == timescale_label_spec(*t),
{
    match t {
        Timescale::OneMinute => "1min",
        Timescale::FiveMinute => "5min",
        Timescale::OneHour => "1hour",
        Timescale::OneDay => "1day",
        Timescale::OneMonth => "1month",
    }
}

/// The timescale a condition names, by its full name or its short form
/// ("1m" is a minute, "1M" a month).
pub open spec fn timescale_named(name: Seq<char>) -> Option<Timescale> {
    if name == "OneMinute"@ || name == "1m"@ {
        Some(Timescale::OneMinute)
    } else if name == "FiveMinute"@ || name == "5m"@ {
        Some(Timescale::FiveMinute)
    } else if name == "OneHour"@ || name == "1h"@ {
        Some(Timescale::OneHour)
    } else if name == "OneDay"@ || name == "1d"@ {
        Some(Timescale::OneDay)
    } else if name == "OneMonth"@ || name == "1M"@ {
        Some(Timescale::OneMonth)
    } else {
        None
    }
}

/// Each timescale has two names, its full name and its short form, and no
/// two timescales share one: "1m"/"OneMinute" is a minute, "5m"/"FiveMinute"
/// five minutes, "1h"/"OneHour" an hour, "1d"/"OneDay" a day and
/// "1M"/"OneMonth" a month.
pub proof fn lemma_timescale_names(a: Seq<char>, b: Seq<char>)
    ensures
        timescale_named("1m"@) == Some(Timescale::OneMinute),
        timescale_named("OneMinute"@) == Some(Timescale::OneMinute),
        timescale_named("5m"@) == Some(Timescale::FiveMinute),
        timescale_named("FiveMinute"@) == Some(Timescale::FiveMinute),
        timescale_named("1h"@) == Some(Timescale::OneHour),
        timescale_named("OneHour"@) == Some(Timescale::OneHour),
        timescale_named("1d"@) == Some(Timescale::OneDay),
        timescale_named("OneDay"@) == Some(Timescale::OneDay),
        timescale_named("1M"@) == Some(Timescale::OneMonth),
        timescale_named("OneMonth"@) == Some(Timescale::OneMonth),
        timescale_named(a) is Some && timescale_named(a) == timescale_named(b) && a.len() == b.len() ==> a == b,
{
    reveal_strlit("1m");
    reveal_strlit("OneMinute");
    reveal_strlit("5m");
    reveal_strlit("FiveMinute");
    reveal_strlit("1h");
    reveal_strlit("OneHour");
    reveal_strlit("1d");
    reveal_strlit("OneDay");
    reveal_strlit("1M");
    reveal_strlit("OneMonth");
    assert("1m"@[0] != "5m"@[0]);
    assert("1m"@[1] != "1h"@[1]);
    assert("1m"@[1] != "1d"@[1]);
    assert("1m"@[1] != "1M"@[1]);
    assert("5m"@[0] != "1h"@[0]);
    assert("5m"@[0] != "1d"@[0]);
    assert("5m"@[0] != "1M"@[0]);
    assert("1h"@[1] != "1d"@[1]);
    assert("1h"@[1] != "1M"@[1]);
    assert("1d"@[1] != "1M"@[1]);
    assert("OneMinute"@.len() == 9 && "FiveMinute"@.len() == 10 && "OneHour"@.len() == 7);
    assert("OneDay"@.len() == 6 && "OneMonth"@.len() == 8);
}

fn text_is(a: &str, b: &str) -> (r: bool)
    ensures
        r == (a@ == b@),
{
    String::from_str(a) == String::from_str(b)
}

/// The timescale of an entry condition from its `timescale` field: an error when
/// the field is absent or names no timescale.
pub fn parse_timescale(name: Option<&str>) -> (r: Result<Timescale, String>)
    ensures
        match name {
            None => r matches Err(e) && e@ == "condition missing 'timescale' field"@,
            Some(n) => match timescale_named(n@) {
                Some(t) => r == Ok::<Timescale, String>(t),
                None => r matches Err(e) && e@ == "unknown timescale: '"@ + n@ + "'"@,
            },
        },
{
    match name {
        None => Err(String::from_str("condition missing 'timescale' field")),
        Some(n) => {
            if text_is(n, "OneMinute") || text_is(n, "1m") {
                Ok(Timescale::OneMinute)
            } else if text_is(n, "FiveMinute") || text_is(n, "5m") {
                Ok(Timescale::FiveMinute)
            } else if text_is(n, "OneHour") || text_is(n, "1h") {
                Ok(Timescale::OneHour)
            } else if text_is(n, "OneDay") || text_is(n, "1d") {
                Ok(Timescale::OneDay)
            } else if text_is(n, "OneMonth") || text_is(n, "1M") {
                Ok(Timescale::OneMonth)
            } else {
                let mut msg = String::from_str("unknown timescale: '");
                msg.append(n);
                msg.append("'");
                Err(msg)
            }
        },
    }
}

/// Distinct directions are stored under distinct labels.
pub proof fn lemma_direction_labels_distinct(a: TradeDirection, b: TradeDirection)
    requires
        a != b,
    ensures
        direction_label(a) != direction_label(b),
{
    reveal_strlit("long");
    reveal_strlit("short");
    assert(direction_label(a).len() != direction_label(b).len());
}

/// Distinct exit reasons are stored under distinct labels, so a stored trade
/// says unambiguously why it was closed.
pub proof fn lemma_exit_reason_labels_distinct(a: ExitReason, b: ExitReason)
    requires
        a != b,
    ensures
        exit_reason_label(a) != exit_reason_label(b),
{
    reveal_strlit("trailing_stop");
    reveal_strlit("hard_stop");
    reveal_strlit("take_profit");
    reveal_strlit("max_hold_timeout");
    reveal_strlit("session_close");
    reveal_strlit("filter_alignment");
    reveal_strlit("manual_override");
    reveal_strlit("config_change");
    reveal_strlit("score_exit");
    reveal_strlit("daily_loss_limit");
    reveal_strlit("breakeven_stop");
    let la = exit_reason_label(a);
    let lb = exit_reason_label(b);
    if la == lb {
        assert(la.len() == lb.len());
        assert(la[0] == lb[0]);
        assert(la[1] == lb[1]);
        assert(la[2] == lb[2]);
    }
}

/// The two entry-block kinds are stored under distinct labels.
pub proof fn lemma_block_kind_labels_distinct()
    ensures
        block_kind_label(BlockKind::Gate) != block_kind_label(BlockKind::NearMiss),
{
    reveal_strlit("gate");
    reveal_strlit("near_miss");
    assert(block_kind_label(BlockKind::Gate).len() != block_kind_label(BlockKind::NearMiss).len());
}

} // verus!
