use galactic_trader::config::{ActionCfg, Json};
use galactic_trader::config_view::{action_lines, indicator_lines, Section, ViewLine};
use galactic_trader::indicator_cfg::IndicatorCfg;
use galactic_trader::model::{ActionPhase, Timescale};

fn action(id: &str, phase: ActionPhase, keys: &[&str], by: Option<&str>, reason: Option<&str>) -> ActionCfg {
    ActionCfg {
        action_type: "t".to_string(),
        instance_id: id.to_string(),
        phase,
        enabled: true,
        priority: 0,
        params: keys.iter().map(|k| (k.to_string(), Json::Null)).collect(),
        last_modified_by: by.map(|s| s.to_string()),
        last_modified_at: None,
        modification_reason: reason.map(|s| s.to_string()),
    }
}

fn indicator(id: &str, t: Timescale) -> IndicatorCfg {
    IndicatorCfg {
        indicator_type: "rsi".to_string(),
        instance_id: id.to_string(),
        timescale: t,
        enabled: false,
        weight_bits: 0,
        params: vec![],
        last_modified_by: None,
        last_modified_at: None,
        modification_reason: None,
    }
}

#[test]
fn actions_are_grouped_by_phase_with_sorted_params() {
    let acts = vec![
        action("stop", ActionPhase::Exit, &["z", "a", "m"], Some("alice"), Some("")),
        action("win", ActionPhase::Entry, &[], Some("bob"), Some("tuned")),
        action("size", ActionPhase::Sizing, &["b"], None, Some("ignored")),
    ];
    assert_eq!(
        action_lines(&acts),
        vec![
            ViewLine::Title(Section::Actions),
            ViewLine::Blank,
            ViewLine::Group(0),
            ViewLine::Entry(1),
            ViewLine::Modified(1),
            ViewLine::Reason(1),
            ViewLine::Blank,
            ViewLine::Group(2),
            ViewLine::Entry(0),
            ViewLine::Param(0, 1),
            ViewLine::Param(0, 2),
            ViewLine::Param(0, 0),
            ViewLine::Modified(0),
            ViewLine::Blank,
            ViewLine::Group(3),
            ViewLine::Entry(2),
            ViewLine::Param(2, 0),
            ViewLine::Blank,
        ]
    );
}

#[test]
fn indicators_are_grouped_by_timescale_label() {
    let inds = vec![
        indicator("a", Timescale::FiveMinute),
        indicator("b", Timescale::OneHour),
        indicator("c", Timescale::OneMinute),
        indicator("d", Timescale::OneHour),
    ];
    assert_eq!(
        indicator_lines(&inds),
        vec![
            ViewLine::Title(Section::Indicators),
            ViewLine::Blank,
            ViewLine::Group(1),
            ViewLine::Entry(1),
            ViewLine::Entry(3),
            ViewLine::Blank,
            ViewLine::Group(2),
            ViewLine::Entry(2),
            ViewLine::Blank,
            ViewLine::Group(4),
            ViewLine::Entry(0),
            ViewLine::Blank,
        ]
    );
    assert_eq!(indicator_lines(&vec![]), vec![ViewLine::Title(Section::Indicators), ViewLine::Blank]);
}
