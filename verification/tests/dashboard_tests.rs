use galactic_trader::dashboard::{DashboardState, TuiPage, TRADE_LOG_CAPACITY};

#[derive(Debug, Clone)]
struct TradeLogEntry {
    ticker: String,
    pnl: f64,
}

#[test]
fn dashboard_state_construction() {
    let state: DashboardState<TradeLogEntry> = DashboardState::new(42);
    assert_eq!(state.config_version, 42);
    assert!(state.trade_log.is_empty());
    assert_eq!(state.total_ticks, 0);
    assert_eq!(state.selected_ticker_idx, 0);
    assert!(state.ticker_order.is_empty());
    assert_eq!(state.active_page, TuiPage::Dashboard);
}

#[test]
fn add_trade_keeps_last_10() {
    let mut state = DashboardState::new(1);
    for i in 0..15 {
        state.add_trade(TradeLogEntry { ticker: "SPY".to_string(), pnl: i as f64 * 10.0 });
    }
    assert_eq!(state.trade_log.len(), 10);
    // first entry should be trade #5 (indices 5-14)
    assert!((state.trade_log[0].pnl - 50.0).abs() < f64::EPSILON);
    assert_eq!(state.trade_log[0].ticker, "SPY");
}

#[test]
fn add_trade_below_capacity_keeps_all_in_order() {
    let mut state = DashboardState::new(1);
    for i in 0..TRADE_LOG_CAPACITY {
        state.add_trade(i);
    }
    assert_eq!(state.trade_log, (0..10).collect::<Vec<usize>>());
    state.add_trade(10);
    assert_eq!(state.trade_log, (1..11).collect::<Vec<usize>>());
}

#[test]
fn next_ticker_cycles() {
    let mut state: DashboardState<()> = DashboardState::new(1);
    state.ticker_order = vec!["AAPL".to_string(), "QQQ".to_string(), "SPY".to_string()];
    assert_eq!(state.selected_ticker_idx, 0);
    assert_eq!(state.selected_ticker(), Some("AAPL"));

    state.next_ticker();
    assert_eq!(state.selected_ticker(), Some("QQQ"));

    state.next_ticker();
    assert_eq!(state.selected_ticker(), Some("SPY"));

    state.next_ticker();
    assert_eq!(state.selected_ticker(), Some("AAPL")); // wraps around
}

#[test]
fn prev_ticker_cycles() {
    let mut state: DashboardState<()> = DashboardState::new(1);
    state.ticker_order = vec!["AAPL".to_string(), "QQQ".to_string(), "SPY".to_string()];
    assert_eq!(state.selected_ticker(), Some("AAPL"));

    state.prev_ticker();
    assert_eq!(state.selected_ticker(), Some("SPY")); // wraps to end

    state.prev_ticker();
    assert_eq!(state.selected_ticker(), Some("QQQ"));
}

#[test]
fn next_then_prev_returns_to_the_same_tab() {
    let mut state: DashboardState<()> = DashboardState::new(1);
    state.ticker_order = vec!["AAPL".to_string(), "QQQ".to_string(), "SPY".to_string()];
    state.selected_ticker_idx = 2;
    state.next_ticker();
    assert_eq!(state.selected_ticker_idx, 0);
    state.prev_ticker();
    assert_eq!(state.selected_ticker_idx, 2);
}

#[test]
fn navigation_without_tickers_stays_put() {
    let mut state: DashboardState<()> = DashboardState::new(1);
    state.next_ticker();
    state.prev_ticker();
    assert_eq!(state.selected_ticker_idx, 0);
    assert_eq!(state.selected_ticker(), None);
}

#[test]
fn ensure_ticker_order_sorted() {
    let mut state: DashboardState<()> = DashboardState::new(1);
    state.ensure_ticker_order("SPY");
    state.ensure_ticker_order("AAPL");
    state.ensure_ticker_order("QQQ");
    // should not duplicate
    state.ensure_ticker_order("SPY");

    assert_eq!(
        state.ticker_order,
        vec!["AAPL".to_string(), "QQQ".to_string(), "SPY".to_string()]
    );
}

#[test]
fn ensure_ticker_order_is_byte_order() {
    let mut state: DashboardState<()> = DashboardState::new(1);
    state.ensure_ticker_order("spy");
    state.ensure_ticker_order("SPY");
    state.ensure_ticker_order("BRK.B");
    state.ensure_ticker_order("BRK");
    assert_eq!(state.ticker_order, vec!["BRK", "BRK.B", "SPY", "spy"]);
}

#[test]
fn page_toggle_cycles() {
    let mut state: DashboardState<()> = DashboardState::new(1);
    assert_eq!(state.active_page, TuiPage::Dashboard);

    state.toggle_page();
    assert_eq!(state.active_page, TuiPage::ConfigViewer);
    assert_eq!(state.config_scroll_offset, 0);

    // set some scroll offset, then toggle back
    state.config_scroll_offset = 10;
    state.toggle_page();
    assert_eq!(state.active_page, TuiPage::Dashboard);
    assert_eq!(state.config_scroll_offset, 0); // reset on toggle

    state.toggle_page();
    assert_eq!(state.active_page, TuiPage::ConfigViewer);
}

#[test]
fn scroll_bounds() {
    let mut state: DashboardState<()> = DashboardState::new(1);

    // scroll_up from 0 stays at 0
    state.scroll_up();
    assert_eq!(state.config_scroll_offset, 0);

    // scroll_down clamps at max
    state.scroll_down(5);
    assert_eq!(state.config_scroll_offset, 1);
    state.scroll_down(5);
    state.scroll_down(5);
    state.scroll_down(5);
    state.scroll_down(5);
    assert_eq!(state.config_scroll_offset, 5);
    state.scroll_down(5);
    assert_eq!(state.config_scroll_offset, 5); // clamped

    // page scroll
    state.config_scroll_offset = 3;
    state.scroll_page_up(10);
    assert_eq!(state.config_scroll_offset, 0); // 3 - 5 = saturates to 0

    state.config_scroll_offset = 0;
    state.scroll_page_down(10, 20);
    assert_eq!(state.config_scroll_offset, 5); // 0 + 5 = 5

    state.scroll_page_down(10, 6);
    assert_eq!(state.config_scroll_offset, 6); // clamped to max
}

#[test]
fn shrinking_config_clamps_scroll() {
    let mut state: DashboardState<()> = DashboardState::new(1);
    state.set_config_total_lines(40);
    state.config_scroll_offset = 30;
    state.set_config_total_lines(12);
    assert_eq!(state.config_total_lines, 12);
    assert_eq!(state.config_scroll_offset, 12);
    state.set_config_total_lines(50);
    assert_eq!(state.config_scroll_offset, 12);
}

#[test]
fn ticker_navigation_keeps_the_log_and_the_config_view() {
    let mut state: DashboardState<u32> = DashboardState::new(7);
    state.ticker_order = vec!["AAPL".to_string(), "QQQ".to_string(), "SPY".to_string()];
    state.add_trade(1);
    state.add_trade(2);
    state.total_ticks = 42;
    state.set_config_total_lines(30);
    state.scroll_down(30);
    state.scroll_down(30);
    state.next_ticker();
    state.prev_ticker();
    state.prev_ticker();
    assert_eq!(state.selected_ticker(), Some("SPY"));
    assert_eq!(state.trade_log, vec![1, 2]);
    assert_eq!(state.config_scroll_offset, 2);
    assert_eq!(state.config_total_lines, 30);
    assert_eq!(state.total_ticks, 42);
    assert_eq!(state.config_version, 7);
    state.scroll_up();
    assert_eq!(state.selected_ticker(), Some("SPY"));
    assert_eq!(state.trade_log, vec![1, 2]);
}
