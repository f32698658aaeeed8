use galactic_trader::config::{
    apply_research_overrides, apply_setting_overrides, EntryWindowOverrides, ResearchOverrides, SettingOverrides,
    apply_overrides, mirror_condition, set_action_param, split_param_setting, ActionCfg, ActionOverrides, ActionPatch, Json,
    JsonNum, NumRepr, ParamOutcome,
};
use galactic_trader::indicator_cfg::{IndicatorCfg, IndicatorOverrides};
use galactic_trader::model::{ActionPhase, Timescale};

fn float(x: f64) -> Json {
    Json::Num(JsonNum { repr: NumRepr::Float(x.to_bits()), f64_bits: x.to_bits() })
}

fn uint(x: u64) -> Json {
    Json::Num(JsonNum { repr: NumRepr::PosInt(x), f64_bits: (x as f64).to_bits() })
}

fn text(s: &str) -> Json {
    Json::Str(s.to_string())
}

fn obj(members: Vec<(&str, Json)>) -> Json {
    Json::Obj(members.into_iter().map(|(k, v)| (k.to_string(), v)).collect())
}

fn get<'a>(j: &'a Json, key: &str) -> Option<&'a Json> {
    match j {
        Json::Obj(m) => m.iter().find(|(k, _)| k == key).map(|(_, v)| v),
        _ => None,
    }
}

fn as_f64(j: Option<&Json>) -> Option<f64> {
    match j {
        Some(Json::Num(n)) => Some(f64::from_bits(n.f64_bits)),
        _ => None,
    }
}

fn action(action_type: &str, id: &str, enabled: bool, params: Vec<(&str, Json)>) -> ActionCfg {
    ActionCfg {
        action_type: action_type.to_string(),
        instance_id: id.to_string(),
        phase: ActionPhase::Entry,
        enabled,
        priority: 10,
        params: params.into_iter().map(|(k, v)| (k.to_string(), v)).collect(),
        last_modified_by: Some("research".to_string()),
        last_modified_at: Some((1_700_000_000, 5)),
        modification_reason: None,
    }
}

fn no_overrides() -> ActionOverrides {
    ActionOverrides {
        sizing_fraction: None,
        no_vol_sizing: false,
        profit_extension_ms: None,
        loss_reduction_ms: None,
        score_scaled_sizing: false,
        score_scaled_min: None,
        score_scaled_max: None,
        entry_threshold: None,
        disable_actions: vec![],
        enable_actions: vec![],
        mirror_short: false,
        short_only: false,
        patches: vec![],
        set_action_params: vec![],
        max_hold_ms: None,
        hold_score_gate: None,
        hold_tiers: vec![],
        add_profit_trail: None,
        profit_trail_min: None,
        use_entry_windows: false,
        windows: no_windows(),
    }
}

fn thrust_window() -> ActionCfg {
    action(
        "entry_window",
        "window_5m_thrust",
        true,
        vec![
            ("name", text("5m thrust")),
            ("direction", text("long")),
            (
                "conditions",
                Json::Arr(vec![
                    obj(vec![("type", text("composite_min")), ("min_score", float(0.35))]),
                    obj(vec![("type", text("timescale_lead")), ("timescale", text("FiveMinute")), ("lead_by", float(0.15))]),
                ]),
            ),
        ],
    )
}

#[test]
fn mirror_turns_a_minimum_into_a_negated_maximum() {
    let c = obj(vec![("type", text("timescale_min")), ("timescale", text("OneHour")), ("min_score", float(0.3))]);
    let m = mirror_condition(&c);
    assert_eq!(get(&m, "type"), Some(&text("timescale_max")));
    assert_eq!(get(&m, "timescale"), Some(&text("OneHour")));
    assert_eq!(get(&m, "min_score"), None);
    assert_eq!(as_f64(get(&m, "max_score")), Some(-0.3));
}

#[test]
fn mirror_turns_a_composite_maximum_into_a_minimum() {
    let c = obj(vec![("type", text("composite_max")), ("max_score", float(-0.2))]);
    let m = mirror_condition(&c);
    assert_eq!(get(&m, "type"), Some(&text("composite_min")));
    assert_eq!(as_f64(get(&m, "min_score")), Some(0.2));
    assert_eq!(get(&m, "max_score"), None);
}

#[test]
fn mirror_turns_a_lead_into_a_lag_written_as_float() {
    let c = obj(vec![("type", text("timescale_lead")), ("lead_by", uint(1))]);
    let m = mirror_condition(&c);
    assert_eq!(get(&m, "type"), Some(&text("timescale_lag")));
    assert_eq!(get(&m, "lead_by"), None);
    assert_eq!(get(&m, "lag_by"), Some(&float(1.0)));
}

#[test]
fn mirror_negates_and_swaps_a_range_with_a_missing_bound() {
    let c = obj(vec![("type", text("timescale_range")), ("max_score", float(0.5))]);
    let m = mirror_condition(&c);
    assert_eq!(get(&m, "type"), Some(&text("timescale_range")));
    assert_eq!(as_f64(get(&m, "min_score")), Some(-0.5));
    let hi = as_f64(get(&m, "max_score")).unwrap();
    assert_eq!(hi, 0.0);
    assert!(hi.is_sign_negative());
}

#[test]
fn mirror_leaves_other_values_alone() {
    let c = obj(vec![("type", text("indicator_min")), ("min_score", float(0.4))]);
    assert_eq!(mirror_condition(&c), c);
    assert_eq!(mirror_condition(&text("x")), text("x"));
    let untyped = obj(vec![("min_score", float(0.4))]);
    assert_eq!(mirror_condition(&untyped), untyped);
}

#[test]
fn inactive_overrides_change_nothing() {
    let o = no_overrides();
    assert!(!o.any_active());
    let mut actions = vec![thrust_window(), action("score_threshold_entry", "entry", true, vec![])];
    let before = vec![thrust_window(), action("score_threshold_entry", "entry", true, vec![])];
    let outs = apply_overrides(&o, &mut actions);
    assert!(outs.is_empty());
    assert_eq!(actions, before);
}

#[test]
fn short_only_alone_is_not_active() {
    let mut o = no_overrides();
    o.short_only = true;
    assert!(!o.any_active());
    o.mirror_short = true;
    assert!(o.any_active());
}

#[test]
fn enable_list_wins_over_disable_list() {
    let mut o = no_overrides();
    o.disable_actions = vec!["a".to_string(), "b".to_string()];
    o.enable_actions = vec!["b".to_string(), "c".to_string()];
    let mut actions = vec![
        action("entry_window", "a", true, vec![]),
        action("entry_window", "b", false, vec![]),
        action("entry_window", "c", false, vec![]),
        action("entry_window", "d", false, vec![]),
    ];
    apply_overrides(&o, &mut actions);
    let on: Vec<bool> = actions.iter().map(|a| a.enabled).collect();
    assert_eq!(on, vec![false, true, true, false]);
}

#[test]
fn mirror_short_appends_twins_of_enabled_long_windows() {
    let mut o = no_overrides();
    o.mirror_short = true;
    let gate = action(
        "entry_reject_gate",
        "reject_1m_noise",
        true,
        vec![("conditions", Json::Arr(vec![obj(vec![("type", text("timescale_max")), ("max_score", float(0.35))])]))],
    );
    let candle = action(
        "entry_window",
        "window_candle_reversal",
        true,
        vec![("conditions", Json::Arr(vec![obj(vec![("type", text("indicator_min")), ("min_score", float(0.4))])]))],
    );
    let off = action("entry_window", "off_window", false, vec![("conditions", Json::Arr(vec![]))]);
    let unnamed = action("entry_window", "w9", true, vec![("conditions", Json::Arr(vec![]))]);
    let mut actions = vec![thrust_window(), gate, candle, off, unnamed];
    apply_overrides(&o, &mut actions);
    let ids: Vec<&str> = actions.iter().map(|a| a.instance_id.as_str()).collect();
    assert_eq!(
        ids,
        vec![
            "window_5m_thrust",
            "reject_1m_noise",
            "window_candle_reversal",
            "off_window",
            "w9",
            "window_5m_thrust_short",
            "reject_1m_noise_short",
            "w9_short",
        ]
    );
    let twin = &actions[5];
    assert!(twin.enabled);
    assert_eq!(twin.priority, 10);
    assert_eq!(twin.last_modified_at, Some((1_700_000_000, 5)));
    let params = Json::Obj(twin.params.iter().map(|(k, v)| (k.clone(), copy_of(v))).collect());
    assert_eq!(get(&params, "direction"), Some(&text("short")));
    assert_eq!(get(&params, "name"), Some(&text("5m thrust short")));
    match get(&params, "conditions") {
        Some(Json::Arr(cs)) => {
            assert_eq!(get(&cs[0], "type"), Some(&text("composite_max")));
            assert_eq!(as_f64(get(&cs[0], "max_score")), Some(-0.35));
            assert_eq!(get(&cs[1], "type"), Some(&text("timescale_lag")));
            assert_eq!(as_f64(get(&cs[1], "lag_by")), Some(0.15));
        },
        other => panic!("conditions: {:?}", other),
    }
    // a gate gets no direction or name
    assert!(actions[6].params.iter().all(|(k, _)| k != "direction" && k != "name"));
    // an unnamed window is named after its id
    let w9 = Json::Obj(actions[7].params.iter().map(|(k, v)| (k.clone(), copy_of(v))).collect());
    assert_eq!(get(&w9, "name"), Some(&text("w9 short")));
    // the originals stay on
    assert!(actions[0].enabled);
}

fn copy_of(j: &Json) -> Json {
    match j {
        Json::Null => Json::Null,
        Json::Bool(b) => Json::Bool(*b),
        Json::Num(n) => Json::Num(*n),
        Json::Str(s) => Json::Str(s.clone()),
        Json::Arr(v) => Json::Arr(v.iter().map(copy_of).collect()),
        Json::Obj(m) => Json::Obj(m.iter().map(|(k, v)| (k.clone(), copy_of(v))).collect()),
    }
}

#[test]
fn short_only_turns_the_long_windows_off() {
    let mut o = no_overrides();
    o.mirror_short = true;
    o.short_only = true;
    let gate = action("entry_reject_gate", "gate", true, vec![("conditions", Json::Arr(vec![]))]);
    let mut actions = vec![thrust_window(), gate];
    apply_overrides(&o, &mut actions);
    let on: Vec<(&str, bool)> = actions.iter().map(|a| (a.instance_id.as_str(), a.enabled)).collect();
    assert_eq!(
        on,
        vec![("window_5m_thrust", false), ("gate", true), ("window_5m_thrust_short", true), ("gate_short", true)]
    );
}

#[test]
fn set_action_param_descends_a_path() {
    let mut actions = vec![thrust_window()];
    let out = set_action_param(
        &mut actions,
        &"window_5m_thrust".to_string(),
        &"conditions/1/lead_by".to_string(),
        float(0.4),
    );
    assert_eq!(out, ParamOutcome::Applied);
    match &actions[0].params[2].1 {
        Json::Arr(cs) => assert_eq!(as_f64(get(&cs[1], "lead_by")), Some(0.4)),
        other => panic!("conditions: {:?}", other),
    }
}

#[test]
fn set_action_param_sets_or_adds_a_top_level_param() {
    let mut actions = vec![action("fixed_pct_stop", "hard_stop", true, vec![("stop_loss_pct", float(0.01))])];
    let id = "hard_stop".to_string();
    assert_eq!(set_action_param(&mut actions, &id, &"stop_loss_pct".to_string(), float(0.02)), ParamOutcome::Applied);
    assert_eq!(set_action_param(&mut actions, &id, &"trail".to_string(), Json::Bool(true)), ParamOutcome::Applied);
    assert_eq!(actions[0].params, vec![("stop_loss_pct".to_string(), float(0.02)), ("trail".to_string(), Json::Bool(true))]);
}

#[test]
fn set_action_param_reports_what_it_could_not_find() {
    let mut actions = vec![thrust_window()];
    let id = "window_5m_thrust".to_string();
    assert_eq!(set_action_param(&mut actions, &"nope".to_string(), &"x".to_string(), Json::Null), ParamOutcome::NoAction);
    assert_eq!(set_action_param(&mut actions, &id, &"missing/0".to_string(), Json::Null), ParamOutcome::NoParam);
    assert_eq!(set_action_param(&mut actions, &id, &"conditions/2/min_score".to_string(), Json::Null), ParamOutcome::NoPath);
    assert_eq!(set_action_param(&mut actions, &id, &"conditions/01/min_score".to_string(), Json::Null), ParamOutcome::NoPath);
    assert_eq!(set_action_param(&mut actions, &id, &"name/x".to_string(), Json::Null), ParamOutcome::NoPath);
    assert_eq!(actions, vec![thrust_window()]);
}

#[test]
fn set_action_param_unescapes_pointer_tokens() {
    let inner = obj(vec![("a/b", uint(1)), ("c~d", uint(2))]);
    let mut actions = vec![action("entry_window", "w", true, vec![("p", inner)])];
    let id = "w".to_string();
    assert_eq!(set_action_param(&mut actions, &id, &"p/a~1b".to_string(), uint(7)), ParamOutcome::Applied);
    assert_eq!(set_action_param(&mut actions, &id, &"p/c~0d".to_string(), uint(8)), ParamOutcome::Applied);
    assert_eq!(actions[0].params[0].1, obj(vec![("a/b", uint(7)), ("c~d", uint(8))]));
}

#[test]
fn patches_turn_off_string_ids_and_append_actions() {
    let mut o = no_overrides();
    o.patches = vec![ActionPatch {
        disable: Json::Arr(vec![text("a"), uint(3), text("zz")]),
        actions: vec![action("entry_window", "new_w", true, vec![])],
        indicators: vec![],
    }];
    let mut actions = vec![action("entry_window", "a", true, vec![]), action("entry_window", "3", true, vec![])];
    apply_overrides(&o, &mut actions);
    let on: Vec<(&str, bool)> = actions.iter().map(|a| (a.instance_id.as_str(), a.enabled)).collect();
    assert_eq!(on, vec![("a", false), ("3", true), ("new_w", true)]);
}

#[test]
fn parameter_settings_follow_patches() {
    let mut o = no_overrides();
    o.patches = vec![ActionPatch {
        disable: Json::Null,
        actions: vec![action("entry_window", "late", true, vec![])],
        indicators: vec![],
    }];
    o.set_action_params = vec![
        ("late".to_string(), "name".to_string(), text("late window")),
        ("ghost".to_string(), "name".to_string(), text("x")),
    ];
    let mut actions = vec![];
    let outs = apply_overrides(&o, &mut actions);
    assert_eq!(outs, vec![ParamOutcome::Applied, ParamOutcome::NoAction]);
    assert_eq!(actions[0].params, vec![("name".to_string(), text("late window"))]);
}

#[test]
fn param_setting_splits_at_the_first_colon_then_equals() {
    assert_eq!(
        split_param_setting("window_5m_thrust:conditions/1/min_score=0.4"),
        Some(("window_5m_thrust".to_string(), "conditions/1/min_score".to_string(), "0.4".to_string()))
    );
    assert_eq!(
        split_param_setting("a:b=c=d:e"),
        Some(("a".to_string(), "b".to_string(), "c=d:e".to_string()))
    );
    assert_eq!(split_param_setting("hard_stop=0.02"), None);
    assert_eq!(split_param_setting("hard_stop:stop_loss_pct"), None);
}

fn sizing(t: &str, id: &str, params: Vec<(&str, Json)>) -> ActionCfg {
    let mut a = action(t, id, false, params);
    a.phase = ActionPhase::Sizing;
    a
}

#[test]
fn a_sizing_fraction_reaches_fraction_and_base_fraction_params() {
    let mut o = no_overrides();
    o.sizing_fraction = Some(float(0.05));
    let mut actions = vec![
        sizing("fixed_fractional", "ff", vec![("fraction", float(0.02))]),
        sizing("volatility_scaled", "vs", vec![("base_fraction", float(0.02))]),
        sizing("score_scaled", "ss", vec![]),
        action("entry_window", "w", false, vec![("fraction", float(0.02))]),
    ];
    apply_overrides(&o, &mut actions);
    assert_eq!(actions[0].params, vec![("fraction".to_string(), float(0.05))]);
    assert!(actions[0].enabled);
    assert_eq!(actions[1].params, vec![("base_fraction".to_string(), float(0.05))]);
    assert!(!actions[1].enabled);
    assert!(actions[2].params.is_empty());
    assert_eq!(actions[3].params, vec![("fraction".to_string(), float(0.02))]);
}

#[test]
fn no_vol_sizing_drops_volatility_sizing_and_enables_fixed_fractional() {
    let mut o = no_overrides();
    o.no_vol_sizing = true;
    let mut actions = vec![sizing("volatility_scaled", "vs", vec![]), sizing("fixed_fractional", "ff", vec![])];
    apply_overrides(&o, &mut actions);
    assert_eq!(actions.len(), 1);
    assert_eq!(actions[0].instance_id, "ff");
    assert!(actions[0].enabled);
}

#[test]
fn score_scaled_sizing_replaces_the_other_sizing_actions() {
    let mut o = no_overrides();
    o.score_scaled_sizing = true;
    o.score_scaled_max = Some(float(0.08));
    let mut ff = sizing("fixed_fractional", "ff", vec![]);
    ff.enabled = true;
    let mut actions = vec![ff];
    apply_overrides(&o, &mut actions);
    assert!(!actions[0].enabled);
    let s = &actions[1];
    assert_eq!((s.action_type.as_str(), s.instance_id.as_str(), s.phase, s.enabled, s.priority), ("score_scaled", "sizing_score", ActionPhase::Sizing, true, 0));
    assert_eq!(
        s.params,
        vec![
            ("min_fraction".to_string(), float(0.03)),
            ("max_fraction".to_string(), float(0.08)),
            ("entry_threshold".to_string(), float(0.58)),
        ]
    );
    assert_eq!(s.last_modified_by.as_deref(), Some("backtest_cli"));
    assert_eq!(s.modification_reason.as_deref(), Some("CLI override for testing"));
}

#[test]
fn hold_overrides_set_the_timeout_params_and_tiers() {
    let mut o = no_overrides();
    o.max_hold_ms = Some(uint(600_000));
    o.hold_tiers = vec![(float(0.005), uint(300_000)), (float(0.01), uint(900_000))];
    o.profit_extension_ms = Some(uint(120_000));
    let mut actions = vec![action("max_hold_timeout", "max_hold", true, vec![("max_hold_ms", uint(1))])];
    apply_overrides(&o, &mut actions);
    assert_eq!(
        actions[0].params,
        vec![
            ("max_hold_ms".to_string(), uint(600_000)),
            ("profit_extension_ms".to_string(), uint(120_000)),
            ("tier1_pnl_pct".to_string(), float(0.005)),
            ("tier1_extension_ms".to_string(), uint(300_000)),
            ("tier2_pnl_pct".to_string(), float(0.01)),
            ("tier2_extension_ms".to_string(), uint(900_000)),
        ]
    );
}

#[test]
fn a_profit_trail_is_appended_last() {
    let mut o = no_overrides();
    o.add_profit_trail = Some(float(0.3));
    o.entry_threshold = Some(float(0.4));
    let mut actions = vec![action("score_threshold_entry", "entry", true, vec![])];
    apply_overrides(&o, &mut actions);
    assert_eq!(actions[0].params, vec![("entry_threshold".to_string(), float(0.4))]);
    let t = &actions[1];
    assert_eq!((t.action_type.as_str(), t.instance_id.as_str(), t.phase, t.priority), ("profit_trailing_stop", "profit_trail", ActionPhase::Exit, 2));
    assert_eq!(
        t.params,
        vec![("giveback_fraction".to_string(), float(0.3)), ("min_profit_pct".to_string(), float(0.0005))]
    );
}

fn no_windows() -> EntryWindowOverrides {
    EntryWindowOverrides {
        only_window: None,
        disable_window: None,
        reject_1m_lead: None,
        reject_5m_max: None,
        w1_composite_min: None,
        w1_lead_by: None,
        w1_5m_min: None,
        w1_1h_min: None,
        w4_composite_min: None,
        w4_5m_min: None,
        w4_1h_min: None,
        w5_indicator_min: None,
        w5_1h_min: None,
        w5_composite_min: None,
    }
}

#[test]
fn entry_windows_replace_the_score_threshold_entry() {
    let mut o = no_overrides();
    o.use_entry_windows = true;
    o.windows.disable_window = Some("strong core".to_string());
    o.windows.w1_lead_by = Some(float(0.2));
    let mut actions = vec![action("score_threshold_entry", "entry", true, vec![]), action("fixed_pct_stop", "hard_stop", true, vec![])];
    apply_overrides(&o, &mut actions);
    let ids: Vec<(&str, bool, i32)> = actions.iter().map(|a| (a.instance_id.as_str(), a.enabled, a.priority)).collect();
    assert_eq!(
        ids,
        vec![
            ("hard_stop", true, 10),
            ("reject_1m_noise", true, 0),
            ("window_5m_thrust", true, 10),
            ("window_candle_reversal", true, 15),
            ("window_strong_core", false, 20),
        ]
    );
    let gate = Json::Obj(actions[1].params.iter().map(|(k, v)| (k.clone(), copy_of(v))).collect());
    assert_eq!(get(&gate, "name"), Some(&text("1m noise filter")));
    match get(&gate, "conditions") {
        Some(Json::Arr(cs)) => {
            assert_eq!(
                cs[0],
                obj(vec![("type", text("timescale_lead")), ("timescale", text("OneMinute")), ("lead_by", float(0.15))])
            );
            assert_eq!(
                cs[1],
                obj(vec![("type", text("timescale_max")), ("timescale", text("FiveMinute")), ("max_score", float(0.35))])
            );
        }
        other => panic!("conditions: {:?}", other),
    }
    let thrust = Json::Obj(actions[2].params.iter().map(|(k, v)| (k.clone(), copy_of(v))).collect());
    assert_eq!(get(&thrust, "direction"), Some(&text("long")));
    match get(&thrust, "conditions") {
        Some(Json::Arr(cs)) => {
            assert_eq!(cs.len(), 4);
            assert_eq!(as_f64(get(&cs[1], "lead_by")), Some(0.2));
            assert_eq!(cs[3], obj(vec![("type", text("timescale_min")), ("timescale", text("OneHour")), ("min_score", float(0.0))]));
        }
        other => panic!("conditions: {:?}", other),
    }
}

#[test]
fn only_window_turns_the_others_off() {
    let mut o = no_overrides();
    o.use_entry_windows = true;
    o.windows.only_window = Some("window_candle_reversal".to_string());
    let mut actions = vec![];
    apply_overrides(&o, &mut actions);
    let on: Vec<bool> = actions.iter().map(|a| a.enabled).collect();
    assert_eq!(on, vec![true, false, true, false]);
}

#[test]
fn window_thresholds_alone_count_as_active() {
    let mut o = no_overrides();
    o.windows.w5_1h_min = Some(float(0.1));
    assert!(o.any_active());
    o.windows.w5_1h_min = None;
    o.windows.w1_lead_by = Some(float(0.1));
    assert!(!o.any_active());
}

#[test]
fn mirroring_a_minimum_twice_restores_it() {
    let c = obj(vec![("type", text("timescale_min")), ("timescale", text("FiveMinute")), ("min_score", uint(1))]);
    let twice = mirror_condition(&mirror_condition(&c));
    assert_eq!(get(&twice, "type"), Some(&text("timescale_min")));
    assert_eq!(get(&twice, "min_score"), Some(&float(1.0)));
    assert_eq!(get(&twice, "max_score"), None);
    assert_eq!(get(&twice, "timescale"), Some(&text("FiveMinute")));
}

fn no_settings() -> SettingOverrides {
    SettingOverrides {
        entry_cooldown_ms: None,
        max_daily_loss_pct: None,
        max_capital_deployed_pct: None,
        max_position_pct: None,
        avoid_first_minutes: None,
        max_concurrent_positions: None,
        exit_threshold: None,
        timescale_weight_1m: None,
        timescale_weight_5m: None,
        timescale_weight_1h: None,
        enable_agreement: false,
        agreement_exponent: None,
        enable_dynamic_fusion: false,
        fusion_vol_weight: None,
        fusion_trend_weight: None,
        fusion_adjustment: None,
        fusion_bias: None,
        vpin_gate_score: None,
        hourly_exit_override: None,
        force_exit_by: None,
        no_new_entries_after: None,
        tickers_override: None,
    }
}

#[test]
fn settings_without_values_leave_the_config_alone() {
    let mut o = no_settings();
    o.agreement_exponent = Some(float(0.7));
    assert!(!o.any_active());
    let mut cfg = obj(vec![("session", obj(vec![("entry_cooldown_ms", uint(1000))]))]);
    apply_setting_overrides(&o, &no_overrides(), &mut cfg);
    assert_eq!(cfg, obj(vec![("session", obj(vec![("entry_cooldown_ms", uint(1000))]))]));
}

#[test]
fn settings_are_written_into_session_and_scoring() {
    let mut o = no_settings();
    o.entry_cooldown_ms = Some(uint(60_000));
    o.timescale_weight_1h = Some(float(0.5));
    o.enable_agreement = true;
    let mut a = no_overrides();
    a.mirror_short = true;
    a.entry_threshold = Some(float(0.45));
    let mut cfg = obj(vec![
        ("session", obj(vec![("entry_cooldown_ms", uint(1000)), ("force_exit_by", text("15:50"))])),
        ("scoring", obj(vec![("hard_gate_timescales", Json::Arr(vec![text("OneHour")]))])),
    ]);
    apply_setting_overrides(&o, &a, &mut cfg);
    assert_eq!(
        get(&cfg, "session"),
        Some(&obj(vec![("entry_cooldown_ms", uint(60_000)), ("force_exit_by", text("15:50"))]))
    );
    let scoring = get(&cfg, "scoring").unwrap();
    assert_eq!(get(scoring, "hard_gate_timescales"), Some(&Json::Arr(vec![])));
    assert_eq!(get(scoring, "entry_threshold"), Some(&float(0.45)));
    assert_eq!(get(scoring, "timescale_weights"), Some(&obj(vec![("OneHour", float(0.5))])));
    assert_eq!(
        get(scoring, "agreement"),
        Some(&obj(vec![
            ("enabled", Json::Bool(true)),
            ("mode", text("ConfidenceMultiplier")),
            ("exponent", float(0.5)),
            ("gate_threshold", float(0.0)),
        ]))
    );
}

#[test]
fn dynamic_fusion_uses_its_defaults() {
    let mut o = no_settings();
    o.enable_dynamic_fusion = true;
    o.fusion_bias = Some(float(0.1));
    let mut cfg = obj(vec![]);
    apply_setting_overrides(&o, &no_overrides(), &mut cfg);
    let scoring = get(&cfg, "scoring").unwrap();
    assert_eq!(get(scoring, "aggregation"), Some(&text("DynamicFusion")));
    assert_eq!(
        get(scoring, "dynamic_fusion"),
        Some(&obj(vec![
            ("volatility_weight", float(0.3)),
            ("trend_weight", float(0.2)),
            ("bias", float(0.1)),
            ("adjustment", float(0.15)),
            ("volatility_indicator_id", text("bb_bw_20_1hr")),
            ("trend_indicator_id", text("adx_14_1hr")),
        ]))
    );
}

#[test]
fn every_mirrored_type_round_trips() {
    let cases = vec![
        ("timescale_min", "min_score"),
        ("timescale_max", "max_score"),
        ("composite_min", "min_score"),
        ("composite_max", "max_score"),
        ("timescale_all_min", "min_score"),
        ("timescale_all_max", "max_score"),
        ("timescale_lead", "lead_by"),
        ("timescale_lag", "lag_by"),
    ];
    for (t, k) in cases {
        let c = obj(vec![("type", text(t)), ("timescale", text("OneHour")), (k, float(0.25))]);
        let once = mirror_condition(&c);
        assert_ne!(get(&once, "type"), Some(&text(t)), "{t} is mirrored");
        let twice = mirror_condition(&once);
        assert_eq!(get(&twice, "type"), Some(&text(t)));
        assert_eq!(as_f64(get(&twice, k)), Some(0.25), "{t}");
        assert_eq!(get(&twice, "timescale"), Some(&text("OneHour")));
        if let Json::Obj(m) = &twice {
            assert_eq!(m.len(), 3, "{t}");
        }
    }
    let r = obj(vec![("type", text("timescale_range")), ("min_score", float(-0.1)), ("max_score", float(0.4))]);
    let twice = mirror_condition(&mirror_condition(&r));
    assert_eq!(as_f64(get(&twice, "min_score")), Some(-0.1));
    assert_eq!(as_f64(get(&twice, "max_score")), Some(0.4));
}

#[test]
fn mirror_turns_an_all_timescale_maximum_into_a_minimum() {
    let c = obj(vec![("type", text("timescale_all_max")), ("max_score", float(-0.2))]);
    let m = mirror_condition(&c);
    assert_eq!(get(&m, "type"), Some(&text("timescale_all_min")));
    assert_eq!(as_f64(get(&m, "min_score")), Some(0.2));
    assert_eq!(get(&m, "max_score"), None);
}

fn no_indicator_overrides() -> IndicatorOverrides {
    IndicatorOverrides {
        add_rvol_weight: None,
        indicator_weights: vec![],
        add_ofi_weight: None,
        add_vpin_weight: None,
        vpin_gate_reason: None,
        add_position_direction: None,
        add_unrealized_pnl: None,
        add_hold_duration: None,
        add_session_remaining: None,
        add_momentum_persistence: None,
        add_candle_pattern: None,
        candle_pattern_no_reversion: false,
        candle_pattern_no_confluence: false,
        candle_pattern_min_confluence: None,
        candle_pattern_no_affirmative: false,
        extra_indicators: vec![],
    }
}

#[test]
fn one_research_run_reaches_document_actions_and_indicators() {
    let mut o = ResearchOverrides { actions: no_overrides(), indicators: no_indicator_overrides(), settings: no_settings() };
    let mut doc = obj(vec![("tickers", Json::Arr(vec![text("SPY")]))]);
    let mut actions = vec![action("session_close", "close", true, vec![]), action("score_threshold_entry", "entry", true, vec![])];
    let mut inds: Vec<IndicatorCfg> = vec![];
    assert!(!o.any_active());
    assert!(apply_research_overrides(&o, &mut doc, &mut actions, &mut inds).is_empty());
    assert_eq!(doc, obj(vec![("tickers", Json::Arr(vec![text("SPY")]))]));
    assert!(actions.iter().all(|a| a.params.is_empty()));

    o.actions.entry_threshold = Some(float(0.4));
    o.actions.patches = vec![ActionPatch {
        disable: Json::Null,
        actions: vec![],
        indicators: vec![IndicatorCfg {
            indicator_type: "vwap".to_string(),
            instance_id: "vwap_1hr".to_string(),
            timescale: Timescale::OneHour,
            enabled: true,
            weight_bits: 0.2f64.to_bits(),
            params: vec![],
            last_modified_by: None,
            last_modified_at: None,
            modification_reason: None,
        }],
    }];
    o.settings.force_exit_by = Some("15:45".to_string());
    o.settings.tickers_override = Some("NVDA, AAPL ,".to_string());
    assert!(o.any_active());
    apply_research_overrides(&o, &mut doc, &mut actions, &mut inds);
    assert_eq!(get(&doc, "tickers"), Some(&Json::Arr(vec![text("NVDA"), text("AAPL"), text("")])));
    let scoring = get(&doc, "scoring").unwrap();
    assert_eq!(get(scoring, "entry_threshold"), Some(&float(0.4)));
    let session = get(&doc, "session").unwrap();
    assert_eq!(get(session, "force_exit_by"), Some(&text("15:45")));
    assert_eq!(actions[0].params, vec![("force_exit_by".to_string(), text("15:45"))]);
    assert_eq!(actions[1].params, vec![("entry_threshold".to_string(), float(0.4))]);
    assert_eq!(inds.len(), 1);
}
