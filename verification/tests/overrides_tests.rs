use galactic_trader::overrides::{
    add_indicator_args, classify_key, hold_tier_args, indicator_weight_args, parse_ticker_override,
    parse_ticker_overrides, OverrideKey,
};

fn args(v: &[&str]) -> Vec<String> {
    v.iter().map(|s| s.to_string()).collect()
}

#[test]
fn ticker_override_reads_ticker_and_settings() {
    let o = parse_ticker_override("NVDA:entry_threshold=0.35,stop_loss_pct=0.03").unwrap();
    assert_eq!(o.ticker, "NVDA");
    assert_eq!(
        o.settings,
        vec![
            (OverrideKey::EntryThreshold, "0.35".to_string()),
            (OverrideKey::StopLossPct, "0.03".to_string()),
        ]
    );
}

#[test]
fn ticker_override_trims_and_skips_pieces_without_equals() {
    let o = parse_ticker_override("SPY: max_hold_ms = 3600000 ,junk,, weight:rsi_5m=0.2,foo=1=2").unwrap();
    assert_eq!(o.ticker, "SPY");
    assert_eq!(
        o.settings,
        vec![
            (OverrideKey::MaxHoldMs, "3600000".to_string()),
            (OverrideKey::IndicatorWeight("rsi_5m".to_string()), "0.2".to_string()),
            (OverrideKey::Unknown("foo".to_string()), "1=2".to_string()),
        ]
    );
    assert!(parse_ticker_override("no colon here").is_none());
    assert!(parse_ticker_override("QQQ:").unwrap().settings.is_empty());
}

#[test]
fn override_keys() {
    assert_eq!(classify_key("exit_threshold".into()), OverrideKey::ExitThreshold);
    assert_eq!(classify_key("atr_multiplier".into()), OverrideKey::AtrMultiplier);
    assert_eq!(classify_key("sizing_fraction".into()), OverrideKey::SizingFraction);
    assert_eq!(classify_key("weight:weight:macd".into()), OverrideKey::IndicatorWeight("macd".into()));
    assert_eq!(classify_key("weight:".into()), OverrideKey::IndicatorWeight(String::new()));
    assert_eq!(classify_key("Weight:x".into()), OverrideKey::Unknown("Weight:x".into()));
}

#[test]
fn ticker_override_flags_consume_their_value() {
    let a = args(&[
        "bt",
        "--ticker-override",
        "NVDA:entry_threshold=0.4",
        "--ticker-override",
        "--ticker-override",
        "--ticker-override",
        "AMD:exit_threshold=-0.2",
        "--ticker-override",
    ]);
    let got = parse_ticker_overrides(&a);
    assert_eq!(got.len(), 2);
    assert_eq!(got[0].ticker, "NVDA");
    assert_eq!(got[1].ticker, "AMD");
    assert_eq!(got[1].settings, vec![(OverrideKey::ExitThreshold, "-0.2".to_string())]);
}

fn pair(a: &str, b: &str) -> (String, String) {
    (a.to_string(), b.to_string())
}

#[test]
fn indicator_weight_and_hold_tier_flags() {
    let a = args(&[
        "bt",
        "--indicator-weight",
        "macd_5min=0.35",
        "--indicator-weight",
        "noequals",
        "--hold-tier",
        "0.01:600000",
        "--indicator-weight",
        " rsi = 0.1",
        "--hold-tier",
    ]);
    assert_eq!(indicator_weight_args(&a), vec![pair("macd_5min", "0.35"), pair(" rsi ", " 0.1")]);
    assert_eq!(hold_tier_args(&a), vec![pair("0.01", "600000")]);
}

#[test]
fn add_indicator_flags_need_three_parts() {
    let a = args(&[
        "--add-indicator",
        "vpin:5m:0.2",
        "--add-indicator",
        "ofi:5m",
        "--add-indicator",
        "a:b:c:d",
        "--add-indicator",
        "::",
    ]);
    assert_eq!(
        add_indicator_args(&a),
        vec![
            ("vpin".to_string(), "5m".to_string(), "0.2".to_string()),
            (String::new(), String::new(), String::new()),
        ]
    );
}
