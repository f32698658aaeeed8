use galactic_trader::account::{uses_live_equity, AccountSummary};
use galactic_trader::feed::{clamp_fetch_window, fetch_chunks};
use galactic_trader::errors::{AccountError, BrokerError, DataFeedError};
use galactic_trader::feed::{
    has_retryable_fragment, is_retryable_error, next_history_page, next_range_page, retries_exhausted_message,
    retry_pause_ms, AlpacaFeed, Reconnect, StreamBackoff, StreamEnd, INITIAL_BACKOFF_MS,
    MAX_BACKOFF_MS,
};

#[test]
fn account_error_display() {
    let e = AccountError::ConnectionFailed("timeout".to_string());
    assert!(e.to_string().contains("timeout"));

    let e = AccountError::FetchError("unauthorized".to_string());
    assert!(e.to_string().contains("unauthorized"));
}

#[test]
fn account_error_messages_exact() {
    assert_eq!(AccountError::ConnectionFailed("x".into()).to_string(), "account connection failed: x");
    assert_eq!(AccountError::FetchError("y".into()).to_string(), "account fetch error: y");
}

#[test]
fn alpaca_feed_construction() {
    let feed = AlpacaFeed::new(
        "test_key".to_string(),
        "test_secret".to_string(),
        vec!["SPY".to_string(), "QQQ".to_string()],
    );
    assert_eq!(feed.symbols().len(), 2);
    assert_eq!(feed.api_key(), "test_key");
    assert_eq!(feed.api_secret(), "test_secret");
    assert_eq!(feed.symbols()[1], "QQQ");
}

#[test]
fn data_feed_error_display() {
    let e = DataFeedError::ConnectionFailed("timeout".to_string());
    assert!(e.to_string().contains("timeout"));
}

#[test]
fn data_feed_error_messages_exact() {
    assert_eq!(DataFeedError::ConnectionFailed("a".into()).to_string(), "connection failed: a");
    assert_eq!(DataFeedError::StreamError("b".into()).to_string(), "stream error: b");
    assert_eq!(
        DataFeedError::HistoricalFetchError("c".into()).to_string(),
        "historical fetch error: c"
    );
}

#[test]
fn broker_error_messages_exact() {
    assert_eq!(BrokerError::OrderRejected("q".into()).to_string(), "order rejected: q");
    assert_eq!(BrokerError::ConnectionError("r".into()).to_string(), "connection error: r");
    assert_eq!(BrokerError::NoPosition("SPY".into()).to_string(), "no position: SPY");
}

#[test]
fn backoff_doubles_up_to_the_cap() {
    let mut b = StreamBackoff::new();
    assert_eq!(b.backoff_ms, INITIAL_BACKOFF_MS);
    let err: Result<StreamEnd, DataFeedError> = Err(DataFeedError::StreamError("reset".into()));
    let mut sleeps = Vec::new();
    for _ in 0..7 {
        match b.on_stream_end(false, &err) {
            Reconnect::Retry { sleep_ms } => sleeps.push(sleep_ms),
            Reconnect::Stop => panic!("a stream error must be retried"),
        }
    }
    assert_eq!(sleeps, vec![1000, 2000, 4000, 8000, 16000, 30000, 30000]);
    assert_eq!(b.backoff_ms, MAX_BACKOFF_MS);
}

#[test]
fn backoff_resets_after_a_long_connection() {
    let mut b = StreamBackoff { backoff_ms: 16000 };
    let closed: Result<StreamEnd, DataFeedError> = Ok(StreamEnd::ServerClosed);
    assert_eq!(b.on_stream_end(true, &closed), Reconnect::Retry { sleep_ms: 1000 });
    assert_eq!(b.backoff_ms, 2000);
}

#[test]
fn closed_channel_stops_the_stream() {
    let mut b = StreamBackoff { backoff_ms: 4000 };
    let done: Result<StreamEnd, DataFeedError> = Ok(StreamEnd::ChannelClosed);
    assert_eq!(b.on_stream_end(false, &done), Reconnect::Stop);
    assert_eq!(b.backoff_ms, 4000);
}

#[test]
fn history_paging_stops_at_the_page_cap() {
    assert_eq!(next_history_page(0, Some("tok".to_string())), Some("tok".to_string()));
    assert_eq!(next_history_page(18, Some("tok".to_string())), Some("tok".to_string()));
    assert_eq!(next_history_page(19, Some("tok".to_string())), None);
    assert_eq!(next_history_page(3, Some(String::new())), None);
    assert_eq!(next_history_page(3, None), None);
}

#[test]
fn range_paging_follows_tokens() {
    assert_eq!(next_range_page(Some("abc".to_string())), Some("abc".to_string()));
    assert_eq!(next_range_page(Some(String::new())), None);
    assert_eq!(next_range_page(None), None);
}

#[test]
fn retryable_errors_are_recognised_case_insensitively() {
    assert!(is_retryable_error("HTTP 429 Too Many Requests"));
    assert!(is_retryable_error("Rate Limit exceeded"));
    assert!(is_retryable_error("upstream returned 503"));
    assert!(is_retryable_error("request TIMEOUT"));
    assert!(is_retryable_error("Connection reset by peer"));
    assert!(!is_retryable_error("invalid symbol"));
    assert!(!is_retryable_error("403 forbidden"));
    assert!(!is_retryable_error(""));
}

#[test]
fn retryable_fragments_are_searched_in_lowered_text_as_given() {
    assert!(has_retryable_fragment("http 429 too many requests"));
    assert!(has_retryable_fragment("gateway 502"));
    assert!(has_retryable_fragment("connection refused"));
    // the search itself does not lower the text: that is `is_retryable_error`'s part.
    assert!(!has_retryable_fragment("TIMEOUT"));
    assert!(!has_retryable_fragment("404 not found"));
    assert!(!has_retryable_fragment(""));
}

#[test]
fn retry_pauses_double_and_stop_after_three() {
    assert_eq!(retry_pause_ms(0, "timeout"), Some(1000));
    assert_eq!(retry_pause_ms(1, "timeout"), Some(2000));
    assert_eq!(retry_pause_ms(2, "timeout"), Some(4000));
    assert_eq!(retry_pause_ms(3, "timeout"), None);
    assert_eq!(retry_pause_ms(0, "bad request"), None);
}

#[test]
fn exhausted_retries_message() {
    assert_eq!(
        retries_exhausted_message("502 bad gateway"),
        "alpaca bars request failed after 4 attempts: 502 bad gateway"
    );
}

#[test]
fn fetch_window_ends_sixteen_minutes_ago() {
    let now = 1_700_000_000_000i64;
    let open = now - 3_600_000;
    assert_eq!(clamp_fetch_window(open, now + 60_000, now), Some((open, now - 960_000)));
    assert_eq!(clamp_fetch_window(open, now - 2_000_000, now), Some((open, now - 2_000_000)));
    assert_eq!(clamp_fetch_window(now - 600_000, now, now), None);
}

#[test]
fn live_equity_only_for_paper_with_credentials() {
    assert!(uses_live_equity("alpaca_paper", "k", "s"));
    assert!(!uses_live_equity("alpaca_paper", "", "s"));
    assert!(!uses_live_equity("alpaca_paper", "k", ""));
    assert!(!uses_live_equity("simulated", "k", "s"));
    let a = AccountSummary {
        status: "ACTIVE".into(),
        equity: "100000".into(),
        cash: "100000".into(),
        buying_power: "200000".into(),
        trading_blocked: false,
        shorting_enabled: true,
        multiplier: "2".into(),
    };
    assert_eq!(a.equity, "100000");
}

#[test]
fn history_is_fetched_in_twenty_day_chunks() {
    assert_eq!(fetch_chunks(100, 100), vec![(100, 100)]);
    assert_eq!(fetch_chunks(100, 119), vec![(100, 119)]);
    assert_eq!(fetch_chunks(100, 120), vec![(100, 119), (120, 120)]);
    assert_eq!(fetch_chunks(100, 150), vec![(100, 119), (120, 139), (140, 150)]);
    assert!(fetch_chunks(101, 100).is_empty());
}

#[test]
fn retryable_error_worked_examples() {
    assert!(is_retryable_error("HTTP 429 Too Many Requests"));
    assert!(is_retryable_error("Request TIMEOUT"));
    assert!(!is_retryable_error("invalid symbol"));
    assert!(is_retryable_error("CONNECTION refused"));
}
