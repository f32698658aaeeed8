use galactic_trader::model::{parse_timescale, Timescale};
use galactic_trader::conditions::{
    condition_fields, condition_kind, field_error, field_name, ConditionField, ConditionKind,
};

#[test]
fn condition_kinds_by_type() {
    assert_eq!(condition_kind(Some("timescale_min")), Ok(ConditionKind::TimescaleMin));
    assert_eq!(condition_kind(Some("timescale_lead")), Ok(ConditionKind::TimescaleLead));
    assert_eq!(condition_kind(Some("indicator_range")), Ok(ConditionKind::IndicatorRange));
    assert_eq!(condition_kind(Some("composite_min")), Ok(ConditionKind::CompositeMin));
    assert_eq!(condition_kind(Some("timescale_spread_max")), Ok(ConditionKind::TimescaleSpreadMax));
}

#[test]
fn condition_from_json_unknown_type_errors() {
    assert_eq!(
        condition_kind(Some("nonexistent_condition")),
        Err("unknown condition type: 'nonexistent_condition'".to_string())
    );
    assert_eq!(condition_kind(None), Err("condition missing 'type' field".to_string()));
}

#[test]
fn condition_fields_in_reading_order() {
    assert_eq!(
        condition_fields(ConditionKind::TimescaleRange),
        vec![ConditionField::Timescale, ConditionField::MinScore, ConditionField::MaxScore]
    );
    assert_eq!(
        condition_fields(ConditionKind::IndicatorMin),
        vec![ConditionField::InstanceId, ConditionField::MinScore]
    );
    assert_eq!(condition_fields(ConditionKind::TimescaleSpreadMax), vec![ConditionField::MaxSpread]);
    assert_eq!(condition_fields(ConditionKind::TimescaleLead), vec![ConditionField::Timescale, ConditionField::LeadBy]);
}

#[test]
fn field_errors() {
    assert_eq!(field_name(ConditionField::LeadBy), "lead_by");
    assert_eq!(field_error(ConditionField::MinScore), "condition missing or invalid 'min_score' field");
    assert_eq!(field_error(ConditionField::MaxSpread), "condition missing or invalid 'max_spread' field");
    assert_eq!(field_error(ConditionField::InstanceId), "condition missing 'instance_id' field");
    assert_eq!(field_error(ConditionField::Timescale), "condition missing 'timescale' field");
}

#[test]
fn condition_from_json_parsing() {
    use_types_of(&[
        ("timescale_min", Some("5m")),
        ("timescale_lead", Some("FiveMinute")),
        ("indicator_min", None),
        ("timescale_spread_max", None),
        ("timescale_all_min", None),
        ("timescale_range", Some("5m")),
    ]);
}

/// Every listed condition type is known, and every timescale it names reads.
fn use_types_of(conditions: &[(&str, Option<&str>)]) {
    let mut parsed = 0;
    for (t, ts) in conditions {
        let kind = condition_kind(Some(t)).unwrap();
        let fields = condition_fields(kind);
        assert_eq!(fields.contains(&ConditionField::Timescale), ts.is_some());
        if let Some(ts) = ts {
            assert_eq!(parse_timescale(Some(ts)), Ok(Timescale::FiveMinute));
        }
        parsed += 1;
    }
    assert_eq!(parsed, 6);
}
