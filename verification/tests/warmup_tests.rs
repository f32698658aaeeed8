use galactic_trader::feed::MAX_HISTORY_PAGES;
use galactic_trader::warmup::{HistoryAction, HistoryFetch, HistoryReply, HistorySource, DAY_MS, SIP_LAG_MS};

// 2024-01-02 is a Tuesday; US/Eastern is UTC-5 then.
const JAN2_0000Z: i64 = 1_704_153_600_000;
const HOUR: i64 = 3_600_000;
const MINUTE: i64 = 60_000;
const AT_1300Z: i64 = JAN2_0000Z + 13 * HOUR; // 08:00 ET, before the open
const AT_1429Z: i64 = JAN2_0000Z + 14 * HOUR + 29 * MINUTE; // 09:29 ET
const AT_1430Z: i64 = JAN2_0000Z + 14 * HOUR + 30 * MINUTE; // 09:30 ET, the open
const AT_1500Z: i64 = JAN2_0000Z + 15 * HOUR; // 10:00 ET
const AT_2100Z: i64 = JAN2_0000Z + 21 * HOUR; // 16:00 ET, the close

fn page(stamps: Vec<i64>, next: Option<&str>) -> HistoryReply {
    HistoryReply::Page { stamps, next: next.map(|t| t.to_string()) }
}

#[test]
fn warm_up_starts_with_the_first_iex_page_of_the_window() {
    let now = AT_1500Z;
    let (fetch, action) = HistoryFetch::start(now, 5);
    assert_eq!(
        action,
        HistoryAction::Request { source: HistorySource::Iex, start_ms: now - 5 * DAY_MS, end_ms: now, token: None }
    );
    assert_eq!(fetch.page, 0);
    assert!(fetch.stamps.is_empty());
    assert!(!fetch.done);
}

#[test]
fn warm_up_follows_page_tokens_and_keeps_session_bars_by_time() {
    let now = AT_2100Z;
    let (mut fetch, _) = HistoryFetch::start(now, 3);
    let a = fetch.step(page(vec![AT_1500Z, AT_1300Z], Some("tok-1")));
    assert_eq!(
        a,
        HistoryAction::Request {
            source: HistorySource::Iex,
            start_ms: now - 3 * DAY_MS,
            end_ms: now,
            token: Some("tok-1".to_string()),
        }
    );
    let a = fetch.step(page(vec![AT_1430Z, AT_1429Z, AT_2100Z], None));
    // kept: 10:00 (0) and 09:30 (2); 08:00, 09:29 and 16:00 lie outside the session.
    assert_eq!(a, HistoryAction::Finished { order: vec![2, 0] });
    assert_eq!(fetch.stamps, vec![AT_1500Z, AT_1300Z, AT_1430Z, AT_1429Z, AT_2100Z]);
    assert!(fetch.done);
}

#[test]
fn warm_up_keeps_equal_stamps_in_arrival_order() {
    let (mut fetch, _) = HistoryFetch::start(AT_2100Z, 1);
    let a = fetch.step(page(vec![AT_1500Z, AT_1430Z, AT_1500Z], None));
    assert_eq!(a, HistoryAction::Finished { order: vec![1, 0, 2] });
}

#[test]
fn warm_up_stops_at_an_empty_page_token() {
    let (mut fetch, _) = HistoryFetch::start(AT_2100Z, 1);
    let a = fetch.step(page(vec![AT_1500Z], Some("")));
    assert_eq!(a, HistoryAction::Finished { order: vec![0] });
}

#[test]
fn warm_up_takes_no_more_than_twenty_pages() {
    let (mut fetch, _) = HistoryFetch::start(AT_2100Z, 30);
    let mut requests = 0;
    let mut last = None;
    for k in 0..MAX_HISTORY_PAGES {
        let a = fetch.step(page(vec![AT_1500Z + k as i64 * MINUTE], Some("more")));
        match a {
            HistoryAction::Request { .. } => requests += 1,
            other => {
                last = Some(other);
                break;
            }
        }
    }
    assert_eq!(requests, MAX_HISTORY_PAGES - 1);
    assert_eq!(last, Some(HistoryAction::Finished { order: (0..MAX_HISTORY_PAGES as usize).collect() }));
    assert_eq!(fetch.page, MAX_HISTORY_PAGES);
}

#[test]
fn warm_up_falls_back_to_sip_sixteen_minutes_behind_and_drops_iex_bars() {
    let (mut fetch, _) = HistoryFetch::start(AT_2100Z, 5);
    let _ = fetch.step(page(vec![AT_1300Z, AT_1430Z], Some("tok")));
    let failed_at = AT_2100Z + 2 * MINUTE;
    let a = fetch.step(HistoryReply::Failed { now_ms: failed_at });
    assert_eq!(
        a,
        HistoryAction::Request {
            source: HistorySource::Sip,
            start_ms: failed_at - SIP_LAG_MS - 5 * DAY_MS,
            end_ms: failed_at - 16 * MINUTE,
            token: None,
        }
    );
    assert!(fetch.stamps.is_empty());
    assert_eq!(fetch.page, 0);
    let a = fetch.step(page(vec![AT_1500Z], None));
    assert_eq!(a, HistoryAction::Finished { order: vec![0] });
    assert_eq!(fetch.stamps, vec![AT_1500Z]);
}

#[test]
fn warm_up_gives_up_when_sip_fails_too() {
    let (mut fetch, _) = HistoryFetch::start(AT_2100Z, 5);
    let _ = fetch.step(HistoryReply::Failed { now_ms: AT_2100Z });
    let a = fetch.step(HistoryReply::Failed { now_ms: AT_2100Z + MINUTE });
    assert_eq!(a, HistoryAction::GiveUp);
    assert!(fetch.done);
}
