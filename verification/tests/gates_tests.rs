use galactic_trader::gates::entry_allowed;
use chrono::{NaiveDate, TimeZone, Utc};
use galactic_trader::gates::{
    force_exit_due, trunc_div_i128, window_clock_open, EntryBlock, SessionState, SessionTimes,
};

fn ms(y: i32, mo: u32, d: u32, h: u32, mi: u32) -> i64 {
    Utc.with_ymd_and_hms(y, mo, d, h, mi, 0).unwrap().timestamp_millis()
}

fn times(avoid: u32, cutoff: Option<u32>, cooldown: i64) -> SessionTimes {
    SessionTimes {
        avoid_first_minutes: avoid,
        no_new_entries_after_minutes: cutoff,
        entry_cooldown_ms: cooldown,
        force_exit_by_minutes: Some(15 * 60 + 55),
    }
}

#[test]
fn avoid_first_minutes_counts_from_eastern_open() {
    let sc = times(30, None, 0);
    let mut st = SessionState::new();
    // 2024-06-03 is a monday; the first tick arrives at 09:27 EDT
    assert!(st.on_tick(ms(2024, 6, 3, 13, 27)));
    assert_eq!(st.session_start_ms, Some(ms(2024, 6, 3, 13, 30)));
    assert_eq!(
        st.entry_block_reason(false, Some(sc), ms(2024, 6, 3, 13, 31)),
        Some(EntryBlock::AvoidFirstMinutes)
    );
    // 10:01 EDT: 31 minutes after the open, gate lifted
    assert!(!st.on_tick(ms(2024, 6, 3, 14, 1)));
    assert_eq!(st.entry_block_reason(false, Some(sc), ms(2024, 6, 3, 14, 1)), None);
    // pre-market tick on the same day is blocked (negative elapsed)
    assert_eq!(
        st.entry_block_reason(false, Some(sc), ms(2024, 6, 3, 12, 0)).map(|b| b.as_str()),
        Some("avoid_first_minutes")
    );
}

#[test]
fn new_trading_day_resets_daily_loss_breaker_and_cooldown() {
    let sc = times(0, None, 3_600_000);
    let mut st = SessionState::new();
    st.on_tick(ms(2024, 6, 3, 13, 56));
    st.record_exit(ms(2024, 6, 3, 14, 10));
    assert_eq!(
        st.entry_block_reason(false, Some(sc), ms(2024, 6, 3, 14, 26)),
        Some(EntryBlock::EntryCooldown)
    );
    st.trip_loss_breaker();
    assert_eq!(
        st.entry_block_reason(false, Some(sc), ms(2024, 6, 3, 14, 26)).map(|b| b.as_str()),
        Some("daily_loss_breaker")
    );
    // next trading day at 10:00 EDT
    assert!(st.on_tick(ms(2024, 6, 4, 13, 56)));
    assert!(!st.daily_loss_breaker_active);
    assert_eq!(st.last_exit_ms, None);
    assert_eq!(st.entry_block_reason(false, Some(sc), ms(2024, 6, 4, 13, 56)), None);
    let day = NaiveDate::from_ymd_opt(2024, 6, 4).unwrap().to_epoch_days() as i64;
    assert_eq!(st.current_session_day, Some(day));
}

#[test]
fn entries_blocked_comes_first() {
    let mut st = SessionState::new();
    st.trip_loss_breaker();
    assert_eq!(
        st.entry_block_reason(true, None, ms(2024, 6, 3, 15, 0)),
        Some(EntryBlock::EntriesBlocked)
    );
    assert_eq!(EntryBlock::EntriesBlocked.as_str(), "entries_blocked");
}

#[test]
fn no_new_entries_after_uses_eastern_time() {
    let sc = times(0, Some(15 * 60 + 30), 0);
    let mut st = SessionState::new();
    st.on_tick(ms(2024, 1, 19, 15, 0));
    // 15:40 UTC is 10:40 EST: still open for entries
    assert_eq!(st.entry_block_reason(false, Some(sc), ms(2024, 1, 19, 15, 40)), None);
    // 20:31 UTC is 15:31 EST
    assert_eq!(
        st.entry_block_reason(false, Some(sc), ms(2024, 1, 19, 20, 31)),
        Some(EntryBlock::NoNewEntriesAfter)
    );
    assert_eq!(EntryBlock::NoNewEntriesAfter.as_str(), "no_new_entries_after");
}

#[test]
fn without_session_config_only_flags_and_breaker_block() {
    let mut st = SessionState::new();
    st.on_tick(ms(2024, 6, 3, 13, 31));
    st.record_exit(ms(2024, 6, 3, 13, 31));
    assert_eq!(st.entry_block_reason(false, None, ms(2024, 6, 3, 13, 32)), None);
}

#[test]
fn force_exit_by_safety_net_uses_eastern_time() {
    let cutoff = Some(15 * 60 + 55);
    // 15:56 UTC is 10:56 EST
    assert!(!force_exit_due(cutoff, ms(2024, 1, 15, 15, 56)));
    // 20:56 UTC is 15:56 EST
    assert!(force_exit_due(cutoff, ms(2024, 1, 15, 20, 56)));
    assert!(!force_exit_due(None, ms(2024, 1, 15, 20, 56)));
}

#[test]
fn entry_window_clock_bounds() {
    // 14:45 UTC on 2024-06-03 is 10:45 EDT
    let t = ms(2024, 6, 3, 14, 45);
    assert!(window_clock_open(None, None, t));
    assert!(window_clock_open(Some(10 * 60), Some(11 * 60), t));
    assert!(!window_clock_open(Some(11 * 60), None, t));
    assert!(!window_clock_open(None, Some(10 * 60 + 45), t));
    assert!(window_clock_open(Some(10 * 60 + 45), None, t));
}

#[test]
fn truncating_division() {
    assert_eq!(trunc_div_i128(-59_999, 60_000), 0);
    assert_eq!(trunc_div_i128(-60_000, 60_000), -1);
    assert_eq!(trunc_div_i128(119_999, 60_000), 1);
}

#[test]
fn replay_entry_window() {
    let first = ms(2024, 1, 16, 14, 30);
    // 10 minutes in with a 15-minute warm-up
    assert!(!entry_allowed(ms(2024, 1, 16, 14, 40), first, 15, "15:30"));
    assert!(entry_allowed(ms(2024, 1, 16, 14, 45), first, 15, "15:30"));
    // 20:30 UTC is 15:30 EST: cut-off reached
    assert!(!entry_allowed(ms(2024, 1, 16, 20, 30), first, 15, "15:30"));
    assert!(entry_allowed(ms(2024, 1, 16, 20, 29), first, 15, "15:30"));
    // an unreadable cut-off does not block
    assert!(entry_allowed(ms(2024, 1, 16, 20, 30), first, 15, " 15:30"));
}
