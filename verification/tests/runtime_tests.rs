use chrono::{TimeZone, Utc};
use galactic_trader::model::BlockKind;
use galactic_trader::runtime::{
    capacity_blocks_entry, feed_stale, missed_close_flatten, pending_swap_action, swap_complete,
    trades_ticker, BlockEventThrottle, SwapAction,
};

fn ms(y: i32, mo: u32, d: u32, h: u32, mi: u32, s: u32) -> i64 {
    Utc.with_ymd_and_hms(y, mo, d, h, mi, s).unwrap().timestamp_millis()
}

#[test]
fn capacity_only_blocks_new_positions() {
    assert!(capacity_blocks_entry(3, 3, false));
    assert!(!capacity_blocks_entry(3, 3, true));
    assert!(!capacity_blocks_entry(2, 3, false));
}

#[test]
fn feed_staleness() {
    let now = ms(2024, 6, 3, 15, 0, 0);
    assert!(!feed_stale(Some(now - 180_000), now));
    assert!(!feed_stale(Some(now - 180_999), now));
    assert!(feed_stale(Some(now - 181_000), now));
    // no bar yet: stale once 09:35 EDT has passed
    assert!(!feed_stale(None, ms(2024, 6, 3, 13, 35, 59)));
    assert!(feed_stale(None, ms(2024, 6, 3, 13, 36, 0)));
}

#[test]
fn missed_close_grace() {
    let cutoff = Some(15 * 60 + 55);
    // 19:56 UTC = 15:56 EDT: inside the grace period
    assert!(!missed_close_flatten(cutoff, 1, ms(2024, 6, 3, 19, 56, 0)));
    assert!(missed_close_flatten(cutoff, 1, ms(2024, 6, 3, 19, 57, 0)));
    assert!(!missed_close_flatten(cutoff, 0, ms(2024, 6, 3, 19, 57, 0)));
    assert!(!missed_close_flatten(None, 2, ms(2024, 6, 3, 19, 57, 0)));
}

#[test]
fn gate_events_are_not_repeated_within_fifteen_minutes() {
    let mut t = BlockEventThrottle::new();
    let t0 = ms(2024, 6, 3, 14, 0, 0);
    assert_eq!(t.decide(Some("avoid_first_minutes"), false, t0), Some(BlockKind::Gate));
    assert_eq!(t.decide(Some("avoid_first_minutes"), false, t0 + 899_999), None);
    assert_eq!(t.decide(Some("avoid_first_minutes"), false, t0 + 900_000), Some(BlockKind::Gate));
    assert_eq!(t.decide(Some("entry_cooldown"), false, t0 + 900_001), Some(BlockKind::Gate));
    assert_eq!(t.decide(Some("avoid_first_minutes"), false, t0 + 900_002), Some(BlockKind::Gate));
}

#[test]
fn near_misses_are_throttled_to_one_per_five_minutes() {
    let mut t = BlockEventThrottle::new();
    let t0 = ms(2024, 6, 3, 14, 0, 0);
    assert_eq!(t.decide(None, false, t0), None);
    assert_eq!(t.decide(None, true, t0), Some(BlockKind::NearMiss));
    assert_eq!(t.decide(None, true, t0 + 299_999), None);
    assert_eq!(t.decide(None, true, t0 + 300_000), Some(BlockKind::NearMiss));
    assert_eq!(t.last_near_miss, Some(t0 + 300_000));
}

#[test]
fn config_swap_waits_for_flat_sessions() {
    assert_eq!(pending_swap_action(7, false, 7, true), SwapAction::Keep);
    assert_eq!(pending_swap_action(6, true, 7, false), SwapAction::Keep);
    assert_eq!(pending_swap_action(6, false, 7, false), SwapAction::Drop);
    assert_eq!(pending_swap_action(6, false, 7, true), SwapAction::Rebuild);
}

#[test]
fn swap_completion_and_ticker_membership() {
    assert!(swap_complete(&vec![7, 7, 7], 7));
    assert!(!swap_complete(&vec![7, 6, 7], 7));
    assert!(swap_complete(&vec![], 7));
    let tickers = vec!["SPY".to_string(), "QQQ".to_string()];
    assert!(trades_ticker(&tickers, "QQQ"));
    assert!(!trades_ticker(&tickers, "qqq"));
}
