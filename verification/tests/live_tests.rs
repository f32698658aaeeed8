use galactic_trader::live::{step, LiveAction, LiveEvent, LiveState, LiveTicker, PendingConfig};

// 2024-03-12 is a Tuesday; US/Eastern is UTC-4 that day.
const AT_1100_ET: i64 = 1_710_255_600_000;
const AT_1110_ET: i64 = 1_710_256_200_000;
const AT_0800_ET: i64 = 1_710_244_800_000;
const AT_1555_ET: i64 = 1_710_273_300_000;

fn ticker(name: &str, version: i64, has_position: bool) -> LiveTicker {
    LiveTicker { ticker: name.to_string(), config_version: version, has_position, last_bar_ms: None, feed_stale: false }
}

fn state(tickers: Vec<LiveTicker>) -> LiveState {
    LiveState { tickers, pending: None, force_exit_by: Some(15 * 60 + 50), max_concurrent: 1, demo: false }
}

fn strings(v: &[&str]) -> Vec<String> {
    v.iter().map(|s| s.to_string()).collect()
}

fn bar(t: &str, ts_ms: i64) -> LiveEvent {
    LiveEvent::Bar { ticker: t.to_string(), ts_ms }
}

#[test]
fn a_bar_outside_regular_hours_is_ignored() {
    let mut s = state(vec![ticker("SPY", 1, false)]);
    assert_eq!(step(&mut s, bar("SPY", AT_0800_ET)), vec![]);
    assert_eq!(s.tickers[0].last_bar_ms, None);
    s.demo = true;
    assert_eq!(step(&mut s, bar("SPY", AT_0800_ET)).len(), 2);
}

#[test]
fn an_untraded_symbol_only_feeds_the_cross_context() {
    let mut s = state(vec![ticker("SPY", 1, false)]);
    assert_eq!(step(&mut s, bar("QQQ", AT_1100_ET)), vec![LiveAction::RecordBar { ticker: "QQQ".to_string() }]);
}

#[test]
fn entries_are_blocked_for_a_flat_ticker_at_capacity() {
    let mut s = state(vec![ticker("AAPL", 1, true), ticker("SPY", 1, false)]);
    let acts = step(&mut s, bar("SPY", AT_1100_ET));
    assert_eq!(
        acts,
        vec![
            LiveAction::RecordBar { ticker: "SPY".to_string() },
            LiveAction::TickEngine { ticker: "SPY".to_string(), block_entries: true },
        ]
    );
    let acts = step(&mut s, bar("AAPL", AT_1100_ET));
    assert_eq!(acts[1], LiveAction::TickEngine { ticker: "AAPL".to_string(), block_entries: false });
    assert_eq!(s.tickers[1].last_bar_ms, Some(AT_1100_ET));
}

#[test]
fn a_silent_feed_turns_stale_once_and_resumes_with_a_bar() {
    let mut s = state(vec![ticker("SPY", 1, false)]);
    step(&mut s, bar("SPY", AT_1100_ET));
    let acts = step(&mut s, LiveEvent::Heartbeat { now_ms: AT_1110_ET });
    assert_eq!(acts, vec![LiveAction::FeedStale { ticker: "SPY".to_string() }, LiveAction::PersistAll]);
    assert!(s.tickers[0].feed_stale);
    assert_eq!(step(&mut s, LiveEvent::Heartbeat { now_ms: AT_1110_ET }), vec![LiveAction::PersistAll]);
    let acts = step(&mut s, bar("SPY", AT_1110_ET));
    assert_eq!(acts[1], LiveAction::FeedResumed { ticker: "SPY".to_string() });
    assert!(!s.tickers[0].feed_stale);
}

#[test]
fn a_new_config_waits_for_open_positions() {
    let mut s = state(vec![ticker("AAPL", 1, true), ticker("SPY", 1, false), ticker("TSLA", 1, false)]);
    let acts = step(
        &mut s,
        LiveEvent::ConfigDetected { version: 7, tickers: strings(&["AAPL", "SPY", "NVDA"]), buildable: strings(&["AAPL", "SPY"]) },
    );
    assert_eq!(
        acts,
        vec![
            LiveAction::WarnUnsubscribed { ticker: "NVDA".to_string() },
            LiveAction::DeleteState { ticker: "TSLA".to_string() },
            LiveAction::RebuildEngine { ticker: "SPY".to_string(), version: 7 },
            LiveAction::DropTicker { ticker: "TSLA".to_string() },
            LiveAction::PersistAll,
        ]
    );
    let versions: Vec<(&str, i64)> = s.tickers.iter().map(|t| (t.ticker.as_str(), t.config_version)).collect();
    assert_eq!(versions, vec![("AAPL", 1), ("SPY", 7)]);
    assert!(s.pending.is_some());
    assert_eq!(step(&mut s, LiveEvent::PositionOpened { ticker: "SPY".to_string() }), vec![]);
    let acts = step(&mut s, LiveEvent::TradeClosed { ticker: "AAPL".to_string() });
    assert_eq!(
        acts,
        vec![LiveAction::RebuildEngine { ticker: "AAPL".to_string(), version: 7 }, LiveAction::SwapComplete { version: 7 }]
    );
    assert!(s.pending.is_none());
    assert!(s.tickers[1].has_position);
}

#[test]
fn an_engine_that_cannot_be_built_keeps_the_old_one() {
    let mut s = state(vec![ticker("SPY", 1, false)]);
    let acts = step(
        &mut s,
        LiveEvent::ConfigDetected { version: 2, tickers: strings(&["SPY"]), buildable: vec![] },
    );
    assert_eq!(acts, vec![LiveAction::KeepOldEngine { ticker: "SPY".to_string() }, LiveAction::PersistAll]);
    assert_eq!(s.tickers[0].config_version, 1);
    match &s.pending {
        Some(PendingConfig { version, .. }) => assert_eq!(*version, 2),
        None => panic!("the config should still wait"),
    }
}

#[test]
fn the_clock_flattens_positions_missed_at_the_close() {
    let mut s = state(vec![ticker("SPY", 1, true)]);
    s.tickers[0].last_bar_ms = Some(AT_1555_ET);
    let acts = step(&mut s, LiveEvent::Heartbeat { now_ms: AT_1555_ET });
    assert_eq!(acts, vec![LiveAction::FlattenAll, LiveAction::PersistAll]);
    assert!(!s.tickers[0].has_position);
    assert_eq!(step(&mut s, LiveEvent::Heartbeat { now_ms: AT_1555_ET }), vec![LiveAction::PersistAll]);
}

#[test]
fn shutdown_flattens_and_stops() {
    let mut s = state(vec![ticker("SPY", 1, true), ticker("QQQ", 1, false)]);
    assert_eq!(
        step(&mut s, LiveEvent::Shutdown),
        vec![LiveAction::FlattenAll, LiveAction::PersistAll, LiveAction::Stop]
    );
    assert!(s.tickers.iter().all(|t| !t.has_position));
}
