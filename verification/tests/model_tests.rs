use galactic_trader::session_close::session_close_factory;
use galactic_trader::model::{
    direction_to_str, exit_reason_to_str, ActionPhase, BlockKind, ExitReason, ExitSignal,
    TradeDirection,
};
use galactic_trader::session_close::SessionCloseExit;
use chrono::{TimeZone, Utc};

fn ms(y: i32, mo: u32, d: u32, h: u32, mi: u32, s: u32) -> i64 {
    Utc.with_ymd_and_hms(y, mo, d, h, mi, s).unwrap().timestamp_millis()
}

#[test]
fn block_kind_strings() {
    assert_eq!(BlockKind::Gate.as_str(), "gate");
    assert_eq!(BlockKind::NearMiss.as_str(), "near_miss");
}

#[test]
fn direction_str_mapping() {
    assert_eq!(direction_to_str(&TradeDirection::Long), "long");
    assert_eq!(direction_to_str(&TradeDirection::Short), "short");
}

#[test]
fn exit_reason_str_mapping() {
    assert_eq!(exit_reason_to_str(&ExitReason::TrailingStop), "trailing_stop");
    assert_eq!(exit_reason_to_str(&ExitReason::HardStop), "hard_stop");
    assert_eq!(exit_reason_to_str(&ExitReason::TakeProfit), "take_profit");
    assert_eq!(exit_reason_to_str(&ExitReason::MaxHoldTimeout), "max_hold_timeout");
    assert_eq!(exit_reason_to_str(&ExitReason::SessionClose), "session_close");
    assert_eq!(exit_reason_to_str(&ExitReason::FilterAlignment), "filter_alignment");
    assert_eq!(exit_reason_to_str(&ExitReason::ManualOverride), "manual_override");
    assert_eq!(exit_reason_to_str(&ExitReason::ConfigChange), "config_change");
    assert_eq!(exit_reason_to_str(&ExitReason::ScoreExit), "score_exit");
    assert_eq!(exit_reason_to_str(&ExitReason::DailyLossLimit), "daily_loss_limit");
}

#[test]
fn breakeven_stop_label() {
    assert_eq!(exit_reason_to_str(&ExitReason::BreakevenStop), "breakeven_stop");
}

#[test]
fn session_close_exits_after_time() {
    let action = SessionCloseExit::new("15:55".to_string(), "sc1".into());
    // 15:56 UTC
    let ts = ms(2024, 1, 15, 15, 56, 0);
    match action.evaluate(true, ts) {
        ExitSignal::Exit { reason } => assert_eq!(reason, ExitReason::SessionClose),
        other => panic!("expected Exit SessionClose, got {other:?}"),
    }
}

#[test]
fn session_close_holds_before_time() {
    let action = SessionCloseExit::new("15:55".to_string(), "sc1".into());
    let ts = ms(2024, 1, 15, 14, 30, 0);
    assert!(matches!(action.evaluate(true, ts), ExitSignal::Hold));
}

#[test]
fn session_close_exits_exactly_at_cutoff() {
    let action = SessionCloseExit::new("15:55".to_string(), "sc1".into());
    assert_eq!(action.evaluate(true, ms(2024, 1, 15, 15, 55, 0)), ExitSignal::Exit { reason: ExitReason::SessionClose });
    assert_eq!(action.evaluate(true, ms(2024, 1, 15, 15, 54, 59)), ExitSignal::Hold);
}

#[test]
fn session_close_never_exits_without_position() {
    let action = SessionCloseExit::new("00:00".to_string(), "sc1".into());
    assert_eq!(action.evaluate(false, ms(2024, 1, 15, 23, 59, 0)), ExitSignal::Hold);
}

#[test]
fn session_close_unparsable_cutoff_holds() {
    let action = SessionCloseExit::new("15h55".to_string(), "sc1".into());
    assert_eq!(action.parse_hm(), None);
    assert_eq!(action.evaluate(true, ms(2024, 1, 15, 23, 59, 0)), ExitSignal::Hold);
}

#[test]
fn session_close_identity() {
    let action = SessionCloseExit::new("15:55".to_string(), "sc1".into());
    assert_eq!(action.name(), "session_close");
    assert_eq!(action.phase(), ActionPhase::Exit);
    assert_eq!(action.parse_hm(), Some((15, 55)));
}

#[test]
fn session_close_factory_defaults_to_1555() {
    assert_eq!(session_close_factory(None, "sc1").parse_hm(), Some((15, 55)));
    assert_eq!(session_close_factory(Some("15:45"), "sc1").parse_hm(), Some((15, 45)));
}
