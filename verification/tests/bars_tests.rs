use chrono::{TimeZone, Utc};
use galactic_trader::bars::{
    aggregation_runs, bucket_runs, cached_bar_order, collect_timescales, primary_timescale,
    regular_hours_order, regular_hours_positions, session_trade_positions, BucketRun,
};
use galactic_trader::model::{parse_timescale, timescale_label, Timescale};

#[derive(Debug, Clone, Copy)]
struct Candle {
    ts: i64,
    open: f64,
    high: f64,
    low: f64,
    close: f64,
    volume: f64,
}

fn make_1min_candle(hour: u32, minute: u32, open: f64, high: f64, low: f64, close: f64, volume: f64) -> Candle {
    let ts = Utc.with_ymd_and_hms(2025, 6, 15, hour, minute, 0).unwrap().timestamp_millis();
    Candle { ts, open, high, low, close, volume }
}

/// Folds the prices of each run the library groups together.
fn aggregate(candles: &[Candle], timescale: Timescale) -> Vec<Candle> {
    let ts: Vec<i64> = candles.iter().map(|c| c.ts).collect();
    aggregation_runs(&ts, timescale)
        .iter()
        .map(|r| {
            let part = &candles[r.first..r.end];
            Candle {
                ts: r.start_ms,
                open: part[0].open,
                high: part.iter().fold(part[0].high, |a, c| a.max(c.high)),
                low: part.iter().fold(part[0].low, |a, c| a.min(c.low)),
                close: part[part.len() - 1].close,
                volume: part.iter().map(|c| c.volume).sum(),
            }
        })
        .collect()
}

#[test]
fn aggregate_one_minute_is_passthrough() {
    let candles = vec![
        make_1min_candle(14, 30, 100.0, 101.0, 99.0, 100.5, 1000.0),
        make_1min_candle(14, 31, 100.5, 102.0, 100.0, 101.0, 1500.0),
    ];
    let result = aggregate(&candles, Timescale::OneMinute);
    assert_eq!(result.len(), 2);
    assert!((result[0].open - 100.0).abs() < f64::EPSILON);
    assert!((result[1].close - 101.0).abs() < f64::EPSILON);
}

#[test]
fn aggregate_five_minute_basic() {
    // 5 candles in the 14:30 bucket
    let candles: Vec<Candle> = (0..5)
        .map(|m| make_1min_candle(14, 30 + m, 100.0, 102.0, 99.0, 101.0, 1000.0))
        .collect();
    let result = aggregate(&candles, Timescale::FiveMinute);
    assert_eq!(result.len(), 1);
    assert!((result[0].open - 100.0).abs() < f64::EPSILON);
    assert!((result[0].volume - 5000.0).abs() < f64::EPSILON);
}

#[test]
fn aggregate_five_minute_two_buckets() {
    // 10 candles spanning two 5-min buckets: 14:30-14:34, 14:35-14:39
    let candles: Vec<Candle> = (0..10)
        .map(|m| make_1min_candle(14, 30 + m, 100.0, 102.0, 99.0, 101.0, 1000.0))
        .collect();
    let result = aggregate(&candles, Timescale::FiveMinute);
    assert_eq!(result.len(), 2);
    assert!((result[0].volume - 5000.0).abs() < f64::EPSILON);
    assert!((result[1].volume - 5000.0).abs() < f64::EPSILON);
}

#[test]
fn aggregate_five_minute_ohlcv_correctness() {
    let candles = vec![
        make_1min_candle(14, 30, 100.0, 102.0, 99.0, 101.0, 1000.0),
        make_1min_candle(14, 31, 101.0, 105.0, 100.0, 104.0, 2000.0),
        make_1min_candle(14, 32, 104.0, 106.0, 103.0, 103.0, 1500.0),
        make_1min_candle(14, 33, 103.0, 104.0, 97.0, 98.0, 3000.0),
        make_1min_candle(14, 34, 98.0, 100.0, 96.0, 99.0, 500.0),
    ];
    let result = aggregate(&candles, Timescale::FiveMinute);
    assert_eq!(result.len(), 1);
    let bar = &result[0];
    assert!((bar.open - 100.0).abs() < f64::EPSILON);
    assert!((bar.high - 106.0).abs() < f64::EPSILON);
    assert!((bar.low - 96.0).abs() < f64::EPSILON);
    assert!((bar.close - 99.0).abs() < f64::EPSILON);
    assert!((bar.volume - 8000.0).abs() < f64::EPSILON);
}

#[test]
fn aggregate_hourly_basic() {
    // 60 candles in hour 14
    let candles: Vec<Candle> = (0..60)
        .map(|m| make_1min_candle(14, m, 100.0, 102.0, 99.0, 101.0, 1000.0))
        .collect();
    let result = aggregate(&candles, Timescale::OneHour);
    assert_eq!(result.len(), 1);
    assert!((result[0].volume - 60000.0).abs() < f64::EPSILON);
}

#[test]
fn aggregate_hourly_two_hours() {
    let mut candles = Vec::new();
    for m in 0..60 {
        candles.push(make_1min_candle(14, m, 100.0, 102.0, 99.0, 101.0, 1000.0));
    }
    for m in 0..30 {
        candles.push(make_1min_candle(15, m, 101.0, 103.0, 100.0, 102.0, 1500.0));
    }
    let result = aggregate(&candles, Timescale::OneHour);
    assert_eq!(result.len(), 2);
    assert!((result[0].volume - 60000.0).abs() < f64::EPSILON);
    assert!((result[1].volume - 45000.0).abs() < f64::EPSILON);
}

#[test]
fn aggregate_empty_returns_empty() {
    let result = aggregate(&[], Timescale::FiveMinute);
    assert!(result.is_empty());
}

#[test]
fn daily_aggregation_is_one_bar_stamped_at_the_first() {
    let candles: Vec<Candle> = (0..7)
        .map(|m| make_1min_candle(14, 30 + m, 100.0, 102.0, 99.0, 101.0, 10.0))
        .collect();
    let ts: Vec<i64> = candles.iter().map(|c| c.ts).collect();
    assert_eq!(
        aggregation_runs(&ts, Timescale::OneDay),
        vec![BucketRun { start_ms: ts[0], first: 0, end: 7 }]
    );
    assert!(aggregation_runs(&vec![], Timescale::OneMonth).is_empty());
}

#[test]
fn bucket_runs_stamp_aligned_starts() {
    let t = |h: u32, m: u32, s: u32| Utc.with_ymd_and_hms(2025, 6, 15, h, m, s).unwrap().timestamp_millis();
    let ts = vec![t(14, 33, 10), t(14, 34, 59), t(14, 35, 0), t(14, 52, 0), t(14, 33, 0)];
    assert_eq!(
        bucket_runs(&ts, 5),
        vec![
            BucketRun { start_ms: t(14, 30, 0), first: 0, end: 2 },
            BucketRun { start_ms: t(14, 35, 0), first: 2, end: 3 },
            BucketRun { start_ms: t(14, 50, 0), first: 3, end: 4 },
            BucketRun { start_ms: t(14, 30, 0), first: 4, end: 5 },
        ]
    );
}

#[test]
fn build_backtest_data_selects_finest_primary() {
    assert_eq!(primary_timescale(&vec![Timescale::FiveMinute, Timescale::OneHour]), Timescale::FiveMinute);
}

#[test]
fn build_backtest_data_one_minute_primary() {
    let candles: Vec<Candle> = (0..5)
        .map(|m| make_1min_candle(14, 30 + m, 100.0, 102.0, 99.0, 101.0, 1000.0))
        .collect();
    assert_eq!(primary_timescale(&vec![Timescale::OneMinute, Timescale::FiveMinute]), Timescale::OneMinute);
    assert_eq!(aggregate(&candles, Timescale::OneMinute).len(), 5);
    assert_eq!(aggregate(&candles, Timescale::FiveMinute).len(), 1);
}

#[test]
fn primary_timescale_fallbacks() {
    assert_eq!(primary_timescale(&vec![Timescale::OneHour, Timescale::OneDay]), Timescale::OneHour);
    assert_eq!(primary_timescale(&vec![Timescale::OneDay]), Timescale::OneMinute);
    assert_eq!(primary_timescale(&vec![]), Timescale::OneMinute);
}

#[test]
fn timescale_names_and_labels() {
    assert_eq!(parse_timescale(Some("FiveMinute")), Ok(Timescale::FiveMinute));
    assert_eq!(parse_timescale(Some("5m")), Ok(Timescale::FiveMinute));
    assert_eq!(parse_timescale(Some("1m")), Ok(Timescale::OneMinute));
    assert_eq!(parse_timescale(Some("1M")), Ok(Timescale::OneMonth));
    assert_eq!(parse_timescale(Some("1d")), Ok(Timescale::OneDay));
    assert_eq!(parse_timescale(Some("OneHour")), Ok(Timescale::OneHour));
    assert_eq!(parse_timescale(Some("2m")), Err("unknown timescale: '2m'".to_string()));
    assert_eq!(parse_timescale(None), Err("condition missing 'timescale' field".to_string()));
    assert_eq!(timescale_label(&Timescale::OneMinute), "1min");
    assert_eq!(timescale_label(&Timescale::FiveMinute), "5min");
    assert_eq!(timescale_label(&Timescale::OneHour), "1hour");
    assert_eq!(timescale_label(&Timescale::OneDay), "1day");
    assert_eq!(timescale_label(&Timescale::OneMonth), "1month");
}

#[test]
fn fetched_bars_keep_regular_hours_in_time_order() {
    let t = |d: u32, h: u32, m: u32| Utc.with_ymd_and_hms(2024, 7, d, h, m, 0).unwrap().timestamp_millis();
    // tue 2024-07-16: 13:29 UTC is pre-market, 13:30 and 19:59 UTC inside, 20:00 UTC closed;
    // sat 2024-07-13 is closed all day
    let ts = vec![t(16, 19, 59), t(16, 13, 29), t(16, 13, 31), t(13, 15, 0), t(16, 13, 30), t(16, 20, 0), t(16, 13, 31)];
    assert_eq!(regular_hours_positions(&ts), vec![0, 2, 4, 6]);
    assert_eq!(regular_hours_order(&ts), vec![4, 2, 6, 0]);
}

#[test]
fn cached_bars_are_windowed_sorted_and_deduplicated() {
    // stamps in seconds-as-ms for brevity; window 100..=400
    let ts = vec![300, 50, 200, 300, 100, 400, 200, 401];
    // in window: 0(300) 2(200) 3(300) 4(100) 5(400) 6(200); first of each stamp: 0, 2, 4, 5
    assert_eq!(cached_bar_order(&ts, 100, 400), vec![4, 2, 0, 5]);
    assert!(cached_bar_order(&ts, 500, 600).is_empty());
    assert!(cached_bar_order(&vec![], 0, 10).is_empty());
}

#[test]
fn replay_timescales_are_collected_once() {
    let got = collect_timescales(
        &vec![Timescale::FiveMinute, Timescale::OneHour, Timescale::FiveMinute],
        &vec![Timescale::OneHour, Timescale::OneMinute],
    );
    assert_eq!(got, vec![Timescale::FiveMinute, Timescale::OneHour, Timescale::OneMinute]);
    assert!(collect_timescales(&vec![], &vec![]).is_empty());
}

#[test]
fn only_trades_entered_in_the_session_are_kept_with_their_scores_and_reasons() {
    let entries = vec![100, 200, 300, 400, 500];
    // scores exist for the first three trades, reasons for the first four
    let (trades, scores, reasons) = session_trade_positions(&entries, 3, 4, 200, 450);
    assert_eq!(trades, vec![1, 2, 3]);
    assert_eq!(scores, vec![1, 2]);
    assert_eq!(reasons, vec![Some(1), Some(2), Some(3)]);
    let (trades, scores, reasons) = session_trade_positions(&entries, 5, 5, 600, 700);
    assert!(trades.is_empty() && scores.is_empty() && reasons.is_empty());
    let (trades, _, reasons) = session_trade_positions(&entries, 0, 0, 500, 500);
    assert_eq!(trades, vec![4]);
    assert_eq!(reasons, vec![None]);
}
