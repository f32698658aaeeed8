use galactic_trader::plan::validate_promoted_config;
use galactic_trader::model::ActionPhase;
use galactic_trader::plan::{build_actions, default_action_registry, ActionConfig, ActionRegistry};

fn make_action_config(action_type: &str, instance_id: &str, phase: ActionPhase, priority: i32) -> ActionConfig {
    ActionConfig {
        action_type: action_type.to_string(),
        instance_id: instance_id.to_string(),
        phase,
        enabled: true,
        priority,
    }
}

#[test]
fn registry_register_and_create() {
    let mut reg = ActionRegistry::new();
    reg.register("score_threshold_entry");
    let cfg = make_action_config("score_threshold_entry", "e1", ActionPhase::Entry, 0);
    assert!(reg.contains(&"score_threshold_entry".to_string()));
    let result = build_actions(&vec![cfg], &reg).unwrap();
    assert_eq!(result.entry, vec![0]);
}

#[test]
fn registry_unknown_type_returns_error() {
    let reg = default_action_registry();
    let cfg = make_action_config("nonexistent_action", "bad", ActionPhase::Entry, 0);
    let result = build_actions(&vec![cfg], &reg);
    assert!(result.is_err());
}

#[test]
fn unknown_type_error_names_the_type() {
    let reg = default_action_registry();
    let configs = vec![
        make_action_config("session_close", "sc", ActionPhase::Exit, 0),
        make_action_config("mystery", "m1", ActionPhase::Exit, 0),
        make_action_config("other_mystery", "m2", ActionPhase::Exit, 0),
    ];
    let err = build_actions(&configs, &reg).unwrap_err();
    assert_eq!(err, "unknown action type: 'mystery'");
}

#[test]
fn registry_actions_sorted_by_priority() {
    let reg = default_action_registry();
    let configs = vec![
        make_action_config("atr_trailing_stop", "ts_low", ActionPhase::Exit, 10),
        make_action_config("fixed_pct_stop", "fps_high", ActionPhase::Exit, 0),
        make_action_config("session_close", "sc_mid", ActionPhase::Exit, 5),
    ];
    let result = build_actions(&configs, &reg).unwrap();
    assert_eq!(result.exit.len(), 3);
    assert_eq!(configs[result.exit[0]].action_type, "fixed_pct_stop"); // priority 0
    assert_eq!(configs[result.exit[1]].action_type, "session_close"); // priority 5
    assert_eq!(configs[result.exit[2]].action_type, "atr_trailing_stop"); // priority 10
}

#[test]
fn equal_priorities_keep_config_order() {
    let reg = default_action_registry();
    let configs = vec![
        make_action_config("fixed_pct_stop", "a", ActionPhase::Exit, 3),
        make_action_config("session_close", "b", ActionPhase::Exit, -1),
        make_action_config("atr_trailing_stop", "c", ActionPhase::Exit, 3),
        make_action_config("max_hold_timeout", "d", ActionPhase::Exit, 3),
    ];
    let result = build_actions(&configs, &reg).unwrap();
    assert_eq!(result.exit, vec![1, 0, 2, 3]);
}

#[test]
fn registry_disabled_actions_not_loaded() {
    let reg = default_action_registry();
    let mut cfg = make_action_config("score_threshold_entry", "e1", ActionPhase::Entry, 0);
    cfg.enabled = false;
    let result = build_actions(&vec![cfg], &reg).unwrap();
    assert!(result.entry.is_empty());
}

#[test]
fn disabled_unknown_type_is_not_an_error() {
    let reg = default_action_registry();
    let mut cfg = make_action_config("nonexistent_action", "bad", ActionPhase::Entry, 0);
    cfg.enabled = false;
    let result = build_actions(&vec![cfg], &reg).unwrap();
    assert!(result.entry.is_empty());
}

#[test]
fn registry_actions_grouped_by_phase() {
    let reg = default_action_registry();
    let configs = vec![
        make_action_config("score_threshold_entry", "e1", ActionPhase::Entry, 0),
        make_action_config("breakeven_stop", "be1", ActionPhase::Monitor, 0),
        make_action_config("atr_trailing_stop", "ts1", ActionPhase::Exit, 0),
        make_action_config("fixed_fractional", "ff1", ActionPhase::Sizing, 0),
    ];
    let result = build_actions(&configs, &reg).unwrap();
    assert_eq!(result.entry.len(), 1);
    assert_eq!(result.monitor.len(), 1);
    assert_eq!(result.exit.len(), 1);
    assert_eq!(result.sizing.len(), 1);
}

#[test]
fn default_registry_has_all_types() {
    let reg = default_action_registry();
    let expected = vec![
        "score_threshold_entry", "atr_trailing_stop", "fixed_pct_stop",
        "session_close", "max_hold_timeout", "breakeven_stop", "fixed_fractional",
    ];
    for t in expected {
        assert!(reg.contains(&t.to_string()), "registry missing factory for '{t}'");
    }
}

#[test]
fn profit_trail_registry_entry() {
    let registry = default_action_registry();
    assert!(registry.contains(&"profit_trailing_stop".to_string()));
}

#[test]
fn empty_registry_knows_nothing() {
    let reg = ActionRegistry::new();
    assert!(!reg.contains(&"session_close".to_string()));
}

#[test]
fn promoted_config_needs_indicators_and_actions() {
    assert_eq!(validate_promoted_config(0, 3), Err("config must have at least one indicator".to_string()));
    assert_eq!(validate_promoted_config(0, 0), Err("config must have at least one indicator".to_string()));
    assert_eq!(validate_promoted_config(2, 0), Err("config must have at least one action".to_string()));
    assert_eq!(validate_promoted_config(2, 1), Ok(()));
}
