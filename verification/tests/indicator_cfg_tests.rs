use galactic_trader::config::{ActionPatch, Json, JsonNum, NumRepr};
use galactic_trader::indicator_cfg::{apply_indicator_overrides, IndicatorCfg, IndicatorOverrides};
use galactic_trader::model::Timescale;

fn bits(x: f64) -> u64 {
    x.to_bits()
}

fn float(x: f64) -> Json {
    Json::Num(JsonNum { repr: NumRepr::Float(x.to_bits()), f64_bits: x.to_bits() })
}

fn indicator(t: &str, id: &str, w: f64) -> IndicatorCfg {
    IndicatorCfg {
        indicator_type: t.to_string(),
        instance_id: id.to_string(),
        timescale: Timescale::OneHour,
        enabled: true,
        weight_bits: bits(w),
        params: vec![],
        last_modified_by: None,
        last_modified_at: None,
        modification_reason: None,
    }
}

fn none() -> IndicatorOverrides {
    IndicatorOverrides {
        add_rvol_weight: None,
        indicator_weights: vec![],
        add_ofi_weight: None,
        add_vpin_weight: None,
        vpin_gate_reason: None,
        add_position_direction: None,
        add_unrealized_pnl: None,
        add_hold_duration: None,
        add_session_remaining: None,
        add_momentum_persistence: None,
        add_candle_pattern: None,
        candle_pattern_no_reversion: false,
        candle_pattern_no_confluence: false,
        candle_pattern_min_confluence: None,
        candle_pattern_no_affirmative: false,
        extra_indicators: vec![],
    }
}

#[test]
fn inactive_indicator_overrides_change_nothing() {
    let mut o = none();
    o.candle_pattern_no_reversion = true;
    assert!(!o.any_active());
    let mut list = vec![indicator("macd", "macd_5min", 0.3)];
    apply_indicator_overrides(&o, &vec![], &mut list);
    assert_eq!(list, vec![indicator("macd", "macd_5min", 0.3)]);
}

#[test]
fn an_added_relative_volume_indicator_can_be_reweighed() {
    let mut o = none();
    o.add_rvol_weight = Some(bits(0.1));
    o.indicator_weights = vec![("rvol_20_5min".to_string(), bits(0.2)), ("macd_5min".to_string(), bits(0.5)), ("rvol_20_5min".to_string(), bits(0.25))];
    let mut list = vec![indicator("macd", "macd_5min", 0.3)];
    apply_indicator_overrides(&o, &vec![], &mut list);
    assert_eq!(list[0].weight_bits, bits(0.5));
    let r = &list[1];
    assert_eq!((r.indicator_type.as_str(), r.instance_id.as_str(), r.timescale), ("relative_volume", "rvol_20_5min", Timescale::FiveMinute));
    assert_eq!(r.weight_bits, bits(0.25));
    assert_eq!(
        r.params,
        vec![
            ("lookback_period".to_string(), Json::Num(JsonNum { repr: NumRepr::PosInt(20), f64_bits: 20f64.to_bits() })),
            ("high_threshold".to_string(), float(1.5)),
            ("low_threshold".to_string(), float(0.5)),
        ]
    );
    assert_eq!(r.last_modified_by.as_deref(), Some("backtest_cli"));
    assert_eq!(r.modification_reason.as_deref(), Some("CLI override for testing"));
}

#[test]
fn meta_indicators_are_added_in_order() {
    let mut o = none();
    o.add_ofi_weight = Some(bits(0.1));
    o.add_vpin_weight = Some(bits(0.2));
    o.vpin_gate_reason = Some("CLI override: VPIN hard gate at 0.85".to_string());
    o.add_momentum_persistence = Some(bits(0.3));
    let mut list = vec![];
    apply_indicator_overrides(&o, &vec![], &mut list);
    let ids: Vec<(&str, u64)> = list.iter().map(|i| (i.instance_id.as_str(), i.weight_bits)).collect();
    assert_eq!(ids, vec![("ofi_5min", bits(0.1)), ("vpin_5min", bits(0.2)), ("vpin_gate_5min", 0), ("mom_persist_5min", bits(0.3))]);
    assert_eq!(list[2].modification_reason.as_deref(), Some("CLI override: VPIN hard gate at 0.85"));
    assert_eq!(list[3].modification_reason.as_deref(), Some("CLI override: momentum persistence"));
}

#[test]
fn candle_pattern_settings_reach_every_candle_indicator() {
    let mut o = none();
    o.add_candle_pattern = Some(bits(0.15));
    o.candle_pattern_no_confluence = true;
    o.candle_pattern_min_confluence = Some(float(0.6));
    o.candle_pattern_no_affirmative = true;
    let mut list = vec![indicator("candle_pattern", "candle_1hr", 0.1), indicator("rsi", "rsi_5min", 0.1)];
    apply_indicator_overrides(&o, &vec![], &mut list);
    assert_eq!(
        list[0].params,
        vec![("min_confluence_product".to_string(), float(0.6)), ("affirmative_only".to_string(), Json::Bool(false))]
    );
    assert!(list[1].params.is_empty());
    assert_eq!(
        list[2].params,
        vec![
            ("use_confluence".to_string(), Json::Bool(false)),
            ("min_confluence_product".to_string(), float(0.6)),
            ("affirmative_only".to_string(), Json::Bool(false)),
        ]
    );
    assert_eq!(list[2].instance_id, "candle_5min");
}

#[test]
fn extra_indicators_are_named_after_type_and_timescale() {
    let mut o = none();
    o.extra_indicators = vec![
        ("stoch".to_string(), "1h".to_string(), bits(0.2)),
        ("obv".to_string(), "OneMinute".to_string(), bits(0.1)),
        ("atr".to_string(), "weekly".to_string(), bits(0.05)),
    ];
    let patches = vec![ActionPatch { disable: Json::Null, actions: vec![], indicators: vec![indicator("vwap", "vwap_1hr", 0.4)] }];
    let mut list = vec![];
    apply_indicator_overrides(&o, &patches, &mut list);
    let got: Vec<(&str, Timescale, &str)> = list
        .iter()
        .map(|i| (i.instance_id.as_str(), i.timescale, i.modification_reason.as_deref().unwrap_or("")))
        .collect();
    assert_eq!(
        got,
        vec![
            ("stoch_1h", Timescale::OneHour, "CLI override: stoch"),
            ("obv_OneMinute", Timescale::OneMinute, "CLI override: obv"),
            ("atr_weekly", Timescale::FiveMinute, "CLI override: atr"),
            ("vwap_1hr", Timescale::OneHour, ""),
        ]
    );
}
