//! The config format of entry-window conditions: which condition a `type` names,
//! which fields it reads and in what order, and the error for a field that is
//! missing. The scores the conditions compare are read by the caller.

use vstd::prelude::*;

verus! {

/// The kinds of entry-window condition.
#[derive(Debug, Clone, Copy, PartialEq, Eq, Structural)]
pub enum ConditionKind {
    TimescaleMin,
    TimescaleMax,
    TimescaleRange,
    TimescaleLead,
    TimescaleSpreadMax,
    TimescaleAllMin,
    IndicatorMin,
    IndicatorMax,
    IndicatorRange,
    CompositeMin,
}

/// A field a condition reads.
#[derive(Debug, Clone, Copy, PartialEq, Eq, Structural)]
pub enum ConditionField {
    /// `timescale`: a timescale name.
    Timescale,
    /// `instance_id`: an indicator instance.
    InstanceId,
    /// `min_score`: a number.
    MinScore,
    /// `max_score`: a number.
    MaxScore,
    /// `lead_by`: a number.
    LeadBy,
    /// `max_spread`: a number.
    MaxSpread,
}

/// The kind a `type` text names.
pub open spec fn kind_named(t: Seq<char>) -> Option<ConditionKind> {
    if t == "timescale_min"@ {
        Some(ConditionKind::TimescaleMin)
    } else if t == "timescale_max"@ {
        Some(ConditionKind::TimescaleMax)
    } else if t == "timescale_range"@ {
        Some(ConditionKind::TimescaleRange)
    } else if t == "timescale_lead"@ {
        Some(ConditionKind::TimescaleLead)
    } else if t == "timescale_spread_max"@ {
        Some(ConditionKind::TimescaleSpreadMax)
    } else if t == "timescale_all_min"@ {
        Some(ConditionKind::TimescaleAllMin)
    } else if t == "indicator_min"@ {
        Some(ConditionKind::IndicatorMin)
    } else if t == "indicator_max"@ {
        Some(ConditionKind::IndicatorMax)
    } else if t == "indicator_range"@ {
        Some(ConditionKind::IndicatorRange)
    } else if t == "composite_min"@ {
        Some(ConditionKind::CompositeMin)
    } else {
        None
    }
}

/// The fields of a kind, in the order they are read (the first bad one is the
/// error reported).
pub open spec fn fields_of(k: ConditionKind) -> Seq<ConditionField> {
    match k {
        ConditionKind::TimescaleMin => seq![ConditionField::Timescale, ConditionField::MinScore],
        ConditionKind::TimescaleMax => seq![ConditionField::Timescale, ConditionField::MaxScore],
        ConditionKind::TimescaleRange => seq![
            ConditionField::Timescale,
            ConditionField::MinScore,
            ConditionField::MaxScore,
        ],
        ConditionKind::TimescaleLead => seq![ConditionField::Timescale, ConditionField::LeadBy],
        ConditionKind::TimescaleSpreadMax => seq![ConditionField::MaxSpread],
        ConditionKind::TimescaleAllMin => seq![ConditionField::MinScore],
        ConditionKind::IndicatorMin => seq![ConditionField::InstanceId, ConditionField::MinScore],
        ConditionKind::IndicatorMax => seq![ConditionField::InstanceId, ConditionField::MaxScore],
        ConditionKind::IndicatorRange => seq![
            ConditionField::InstanceId,
            ConditionField::MinScore,
            ConditionField::MaxScore,
        ],
        ConditionKind::CompositeMin => seq![ConditionField::MinScore],
    }
}

pub open spec fn field_name_spec(f: ConditionField) -> Seq<char> {
    match f {
        ConditionField::Timescale => "timescale"@,
        ConditionField::InstanceId => "instance_id"@,
        ConditionField::MinScore => "min_score"@,
        ConditionField::MaxScore => "max_score"@,
        ConditionField::LeadBy => "lead_by"@,
        ConditionField::MaxSpread => "max_spread"@,
    }
}

/// The error for a field that is absent or of the wrong kind: a text field is
/// missing, a number is missing or invalid. (A timescale's own errors come from
/// reading its name.)
pub open spec fn field_error_spec(f: ConditionField) -> Seq<char> {
    match f {
        ConditionField::Timescale => "condition missing 'timescale' field"@,
        ConditionField::InstanceId => "condition missing 'instance_id' field"@,
        _ => "condition missing or invalid '"@ + field_name_spec(f) + "' field"@,
    }
}

fn text_is(a: &str, b: &str) -> (r: bool)
    ensures
        r == (a@ == b@),
{
    String::from_str(a) == String::from_str(b)
}

/// The kind of a condition from its `type` field: an error when the field is
/// absent or names no kind.
pub fn condition_kind(cond_type: Option<&str>) -> (r: Result<ConditionKind, String>)
    ensures
        match cond_type {
            None => r matches Err(e) && e@ == "condition missing 'type' field"@,
            Some(t) => match kind_named(t@) {
                Some(k) => r == Ok::<ConditionKind, String>(k),
                None => r matches Err(e) && e@ == "unknown condition type: '"@ + t@ + "'"@,
            },
        },
{
    let t = match cond_type {
        None => {
            return Err(String::from_str("condition missing 'type' field"));
        },
        Some(t) => t,
    };
    if text_is(t, "timescale_min") {
        Ok(ConditionKind::TimescaleMin)
    } else if text_is(t, "timescale_max") {
        Ok(ConditionKind::TimescaleMax)
    } else if text_is(t, "timescale_range") {
        Ok(ConditionKind::TimescaleRange)
    } else if text_is(t, "timescale_lead") {
        Ok(ConditionKind::TimescaleLead)
    } else if text_is(t, "timescale_spread_max") {
        Ok(ConditionKind::TimescaleSpreadMax)
    } else if text_is(t, "timescale_all_min") {
        Ok(ConditionKind::TimescaleAllMin)
    } else if text_is(t, "indicator_min") {
        Ok(ConditionKind::IndicatorMin)
    } else if text_is(t, "indicator_max") {
        Ok(ConditionKind::IndicatorMax)
    } else if text_is(t, "indicator_range") {
        Ok(ConditionKind::IndicatorRange)
    } else if text_is(t, "composite_min") {
        Ok(ConditionKind::CompositeMin)
    } else {
        let mut msg = String::from_str("unknown condition type: '");
        msg.append(t);
        msg.append("'");
        Err(msg)
    }
}

/// The fields a condition of kind `k` reads, in order.
pub fn condition_fields(k: ConditionKind) -> (r: Vec<ConditionField>)
    ensures
        r@ == fields_of(k),
{
    let r = match k {
        ConditionKind::TimescaleMin => vec![ConditionField::Timescale, ConditionField::MinScore],
        ConditionKind::TimescaleMax => vec![ConditionField::Timescale, ConditionField::MaxScore],
        ConditionKind::TimescaleRange => vec![
            ConditionField::Timescale,
            ConditionField::MinScore,
            ConditionField::MaxScore,
        ],
        ConditionKind::TimescaleLead => vec![ConditionField::Timescale, ConditionField::LeadBy],
        ConditionKind::TimescaleSpreadMax => vec![ConditionField::MaxSpread],
        ConditionKind::TimescaleAllMin => vec![ConditionField::MinScore],
        ConditionKind::IndicatorMin => vec![ConditionField::InstanceId, ConditionField::MinScore],
        ConditionKind::IndicatorMax => vec![ConditionField::InstanceId, ConditionField::MaxScore],
        ConditionKind::IndicatorRange => vec![
            ConditionField::InstanceId,
            ConditionField::MinScore,
            ConditionField::MaxScore,
        ],
        ConditionKind::CompositeMin => vec![ConditionField::MinScore],
    };
    proof {
        assert(r@ =~= fields_of(k));
    }
    r
}

/// The JSON key of a field.
pub fn field_name(f: ConditionField) -> (s: &'static str)
    ensures
        s@ == field_name_spec(f),
{
    match f {
        ConditionField::Timescale => "timescale",
        ConditionField::InstanceId => "instance_id",
        ConditionField::MinScore => "min_score",
        ConditionField::MaxScore => "max_score",
        ConditionField::LeadBy => "lead_by",
        ConditionField::MaxSpread => "max_spread",
    }
}

/// The error for a missing or unusable field.
pub fn field_error(f: ConditionField) -> (s: String)
    ensures
        s@ == field_error_spec(f),
{
    match f {
        ConditionField::Timescale => String::from_str("condition missing 'timescale' field"),
        ConditionField::InstanceId => String::from_str("condition missing 'instance_id' field"),
        _ => {
            let mut s = String::from_str("condition missing or invalid '");
            s.append(field_name(f));
            s.append("' field");
            s
        },
    }
}

spec fn type_name_of(k: ConditionKind) -> Seq<char> {
    match k {
        ConditionKind::TimescaleMin => "timescale_min"@,
        ConditionKind::TimescaleMax => "timescale_max"@,
        ConditionKind::TimescaleRange => "timescale_range"@,
        ConditionKind::TimescaleLead => "timescale_lead"@,
        ConditionKind::TimescaleSpreadMax => "timescale_spread_max"@,
        ConditionKind::TimescaleAllMin => "timescale_all_min"@,
        ConditionKind::IndicatorMin => "indicator_min"@,
        ConditionKind::IndicatorMax => "indicator_max"@,
        ConditionKind::IndicatorRange => "indicator_range"@,
        ConditionKind::CompositeMin => "composite_min"@,
    }
}

proof fn lemma_named_kind_has_that_name(t: Seq<char>)
    ensures
        kind_named(t) matches Some(k) ==> t == type_name_of(k),
{
}

/// Each condition type names a kind of its own: two texts that name the same
/// kind are the same text.
pub proof fn lemma_kind_names_distinct(a: Seq<char>, b: Seq<char>)
    requires
        kind_named(a) is Some,
        kind_named(a) == kind_named(b),
    ensures
        a == b,
{
    lemma_named_kind_has_that_name(a);
    lemma_named_kind_has_that_name(b);
}

/// `s` ends with `suffix`.
pub open spec fn ends_with(s: Seq<char>, suffix: Seq<char>) -> bool {
    suffix.len() <= s.len() && s.subrange(s.len() - suffix.len(), s.len() as int) == suffix
}

/// `s` begins with `prefix`.
pub open spec fn starts_with(s: Seq<char>, prefix: Seq<char>) -> bool {
    prefix.len() <= s.len() && s.subrange(0, prefix.len() as int) == prefix
}

proof fn lemma_not_ends_with(t: Seq<char>, suffix: Seq<char>, j: int)
    requires
        0 <= j < suffix.len(),
        suffix.len() <= t.len(),
        t[t.len() - suffix.len() + j] != suffix[j],
    ensures
        !ends_with(t, suffix),
{
    assert(t.subrange(t.len() - suffix.len(), t.len() as int)[j] == t[t.len() - suffix.len() + j]);
}

proof fn lemma_not_starts_with(t: Seq<char>, prefix: Seq<char>, j: int)
    requires
        0 <= j < prefix.len(),
        prefix.len() <= t.len(),
        t[j] != prefix[j],
    ensures
        !starts_with(t, prefix),
{
    assert(t.subrange(0, prefix.len() as int)[j] == t[j]);
}

/// A condition reads the fields its type names: a "..._min" type reads a minimum
/// score and no maximum, a "..._max" type a maximum (a score, or a spread) and
/// no minimum, a "..._range" type both scores; an "indicator_..." type reads an
/// indicator instance, a "timescale_..." type never does.
pub proof fn lemma_kind_reads_what_its_name_says(t: Seq<char>)
    requires
        kind_named(t) is Some,
    ensures
        ({
            let f = fields_of(kind_named(t)->0);
            &&& ends_with(t, "_min"@) ==> f.contains(ConditionField::MinScore) && !f.contains(
                ConditionField::MaxScore,
            )
            &&& ends_with(t, "_max"@) ==> (f.contains(ConditionField::MaxScore) || f.contains(
                ConditionField::MaxSpread,
            )) && !f.contains(ConditionField::MinScore)
            &&& ends_with(t, "_range"@) ==> f.contains(ConditionField::MinScore) && f.contains(
                ConditionField::MaxScore,
            )
            &&& starts_with(t, "indicator_"@) ==> f.contains(ConditionField::InstanceId)
            &&& starts_with(t, "timescale_"@) ==> !f.contains(ConditionField::InstanceId)
        }),
{
    lemma_named_kind_has_that_name(t);
    reveal_strlit("timescale_min");
    reveal_strlit("timescale_max");
    reveal_strlit("timescale_range");
    reveal_strlit("timescale_lead");
    reveal_strlit("timescale_spread_max");
    reveal_strlit("timescale_all_min");
    reveal_strlit("indicator_min");
    reveal_strlit("indicator_max");
    reveal_strlit("indicator_range");
    reveal_strlit("composite_min");
    reveal_strlit("_min");
    reveal_strlit("_max");
    reveal_strlit("_range");
    reveal_strlit("indicator_");
    reveal_strlit("timescale_");
    let k = kind_named(t)->0;
    let f = fields_of(k);
    let (mn, mx, rg, ind, ts) = ("_min"@, "_max"@, "_range"@, "indicator_"@, "timescale_"@);
    match k {
        ConditionKind::TimescaleMin => {
            lemma_not_ends_with(t, mx, 2);
            lemma_not_ends_with(t, rg, 0);
            lemma_not_starts_with(t, ind, 0);
            assert(f[1] == ConditionField::MinScore);
        },
        ConditionKind::TimescaleMax => {
            lemma_not_ends_with(t, mn, 2);
            lemma_not_ends_with(t, rg, 0);
            lemma_not_starts_with(t, ind, 0);
            assert(f[1] == ConditionField::MaxScore);
        },
        ConditionKind::TimescaleRange => {
            lemma_not_ends_with(t, mn, 0);
            lemma_not_ends_with(t, mx, 0);
            lemma_not_starts_with(t, ind, 0);
            assert(f[1] == ConditionField::MinScore);
            assert(f[2] == ConditionField::MaxScore);
        },
        ConditionKind::TimescaleLead => {
            lemma_not_ends_with(t, mn, 0);
            lemma_not_ends_with(t, mx, 0);
            lemma_not_ends_with(t, rg, 0);
            lemma_not_starts_with(t, ind, 0);
        },
        ConditionKind::TimescaleSpreadMax => {
            lemma_not_ends_with(t, mn, 2);
            lemma_not_ends_with(t, rg, 0);
            lemma_not_starts_with(t, ind, 0);
            assert(f[0] == ConditionField::MaxSpread);
        },
        ConditionKind::TimescaleAllMin => {
            lemma_not_ends_with(t, mx, 2);
            lemma_not_ends_with(t, rg, 0);
            lemma_not_starts_with(t, ind, 0);
            assert(f[0] == ConditionField::MinScore);
        },
        ConditionKind::IndicatorMin => {
            lemma_not_ends_with(t, mx, 2);
            lemma_not_ends_with(t, rg, 0);
            lemma_not_starts_with(t, ts, 0);
            assert(f[0] == ConditionField::InstanceId);
            assert(f[1] == ConditionField::MinScore);
        },
        ConditionKind::IndicatorMax => {
            lemma_not_ends_with(t, mn, 2);
            lemma_not_ends_with(t, rg, 0);
            lemma_not_starts_with(t, ts, 0);
            assert(f[0] == ConditionField::InstanceId);
            assert(f[1] == ConditionField::MaxScore);
        },
        ConditionKind::IndicatorRange => {
            lemma_not_ends_with(t, mn, 0);
            lemma_not_ends_with(t, mx, 0);
            lemma_not_starts_with(t, ts, 0);
            assert(f[0] == ConditionField::InstanceId);
            assert(f[1] == ConditionField::MinScore);
            assert(f[2] == ConditionField::MaxScore);
        },
        ConditionKind::CompositeMin => {
            lemma_not_ends_with(t, mx, 2);
            lemma_not_ends_with(t, rg, 0);
            lemma_not_starts_with(t, ind, 0);
            lemma_not_starts_with(t, ts, 0);
            assert(f[0] == ConditionField::MinScore);
        },
    }
}

proof fn lemma_type_names_differ()
    ensures
        "timescale_min"@ != "timescale_max"@,
        "timescale_min"@ != "indicator_min"@,
        "timescale_min"@ != "indicator_max"@,
        "timescale_min"@ != "composite_min"@,
        "timescale_max"@ != "indicator_min"@,
        "timescale_max"@ != "indicator_max"@,
        "timescale_max"@ != "composite_min"@,
        "indicator_min"@ != "indicator_max"@,
        "indicator_min"@ != "composite_min"@,
        "indicator_max"@ != "composite_min"@,
        "timescale_range"@ != "indicator_range"@,
{
    reveal_strlit("timescale_min");
    reveal_strlit("timescale_max");
    reveal_strlit("timescale_range");
    reveal_strlit("indicator_min");
    reveal_strlit("indicator_max");
    reveal_strlit("indicator_range");
    reveal_strlit("composite_min");
    assert("timescale_min"@[11] != "timescale_max"@[11]);
    assert("indicator_min"@[11] != "indicator_max"@[11]);
    assert("timescale_min"@[0] != "indicator_min"@[0]);
    assert("timescale_min"@[0] != "indicator_max"@[0]);
    assert("timescale_min"@[0] != "composite_min"@[0]);
    assert("timescale_max"@[0] != "indicator_min"@[0]);
    assert("timescale_max"@[0] != "indicator_max"@[0]);
    assert("timescale_max"@[0] != "composite_min"@[0]);
    assert("indicator_min"@[0] != "composite_min"@[0]);
    assert("indicator_max"@[0] != "composite_min"@[0]);
    assert("timescale_range"@[0] != "indicator_range"@[0]);
}

/// The kind each condition type names.
pub proof fn lemma_kind_of_each_type()
    ensures
        kind_named("timescale_min"@) == Some(ConditionKind::TimescaleMin),
        kind_named("timescale_max"@) == Some(ConditionKind::TimescaleMax),
        kind_named("timescale_range"@) == Some(ConditionKind::TimescaleRange),
        kind_named("timescale_lead"@) == Some(ConditionKind::TimescaleLead),
        kind_named("timescale_spread_max"@) == Some(ConditionKind::TimescaleSpreadMax),
        kind_named("timescale_all_min"@) == Some(ConditionKind::TimescaleAllMin),
        kind_named("indicator_min"@) == Some(ConditionKind::IndicatorMin),
        kind_named("indicator_max"@) == Some(ConditionKind::IndicatorMax),
        kind_named("indicator_range"@) == Some(ConditionKind::IndicatorRange),
        kind_named("composite_min"@) == Some(ConditionKind::CompositeMin),
{
    reveal_strlit("timescale_min");
    reveal_strlit("timescale_max");
    reveal_strlit("timescale_range");
    reveal_strlit("timescale_lead");
    reveal_strlit("timescale_spread_max");
    reveal_strlit("timescale_all_min");
    reveal_strlit("indicator_min");
    reveal_strlit("indicator_max");
    reveal_strlit("indicator_range");
    reveal_strlit("composite_min");
    lemma_type_names_differ();
    assert("timescale_min"@.len() == 13 && "timescale_max"@.len() == 13);
    assert("timescale_range"@.len() == 15 && "timescale_lead"@.len() == 14);
    assert("timescale_spread_max"@.len() == 20 && "timescale_all_min"@.len() == 17);
    assert("indicator_min"@.len() == 13 && "indicator_max"@.len() == 13);
    assert("indicator_range"@.len() == 15 && "composite_min"@.len() == 13);
}

/// Each field is read under its own key: "timescale", "instance_id",
/// "min_score", "max_score", "lead_by", "max_spread"; no two fields share one.
pub proof fn lemma_field_keys(f: ConditionField, g: ConditionField)
    ensures
        field_name_spec(ConditionField::Timescale) == "timescale"@,
        field_name_spec(ConditionField::InstanceId) == "instance_id"@,
        field_name_spec(ConditionField::MinScore) == "min_score"@,
        field_name_spec(ConditionField::MaxScore) == "max_score"@,
        field_name_spec(ConditionField::LeadBy) == "lead_by"@,
        field_name_spec(ConditionField::MaxSpread) == "max_spread"@,
        field_name_spec(f) == field_name_spec(g) ==> f == g,
{
    reveal_strlit("timescale");
    reveal_strlit("instance_id");
    reveal_strlit("min_score");
    reveal_strlit("max_score");
    reveal_strlit("lead_by");
    reveal_strlit("max_spread");
    assert("timescale"@.len() == 9 && "instance_id"@.len() == 11 && "min_score"@.len() == 9);
    assert("max_score"@.len() == 9 && "lead_by"@.len() == 7 && "max_spread"@.len() == 10);
    assert("timescale"@[0] != "min_score"@[0]);
    assert("timescale"@[0] != "max_score"@[0]);
    assert("min_score"@[1] != "max_score"@[1]);
}

} // verus!
