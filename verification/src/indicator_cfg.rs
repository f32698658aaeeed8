//! Indicator configs of a strategy and the overrides a research run applies to
//! them: indicators added with a weight, weights replaced by id, candle-pattern
//! parameters, and indicators appended by patches. A weight is held by its `f64`
//! bits and copied, never computed on.

use vstd::prelude::*;
use crate::config::{
    copy_json, copy_members, copy_text_opt, float_json, jv, members_v, opt_text, set_member, with_member, Json,
    JsonNum, JsonV, NumRepr, F64_0_5,
};
use crate::config::ActionPatch;
use crate::model::{timescale_named, Timescale};

verus! {

/// An indicator as configured: type, id, timescale, switch, weight (`f64` bits),
/// parameters, and who last changed it, when (seconds and nanoseconds since the
/// epoch) and why.
#[derive(Debug, PartialEq)]
pub struct IndicatorCfg {
    pub indicator_type: String,
    pub instance_id: String,
    pub timescale: Timescale,
    pub enabled: bool,
    pub weight_bits: u64,
    pub params: Vec<(String, Json)>,
    pub last_modified_by: Option<String>,
    pub last_modified_at: Option<(i64, u32)>,
    pub modification_reason: Option<String>,
}

pub struct IndicatorV {
    pub indicator_type: Seq<char>,
    pub instance_id: Seq<char>,
    pub timescale: Timescale,
    pub enabled: bool,
    pub weight_bits: u64,
    pub params: Seq<(Seq<char>, JsonV)>,
    pub last_modified_by: Option<Seq<char>>,
    pub last_modified_at: Option<(i64, u32)>,
    pub modification_reason: Option<Seq<char>>,
}

pub open spec fn iv(a: IndicatorCfg) -> IndicatorV {
    IndicatorV {
        indicator_type: a.indicator_type@,
        instance_id: a.instance_id@,
        timescale: a.timescale,
        enabled: a.enabled,
        weight_bits: a.weight_bits,
        params: members_v(a.params@),
        last_modified_by: opt_text(a.last_modified_by),
        last_modified_at: a.last_modified_at,
        modification_reason: opt_text(a.modification_reason),
    }
}

pub open spec fn indicators_v(s: Seq<IndicatorCfg>) -> Seq<IndicatorV> {
    Seq::new(s.len(), |i: int| iv(s[i]))
}

/// The indicator overrides of a research run, applied in this order: a relative
/// volume indicator; weights replaced by id (the last given weight wins); order
/// flow imbalance, VPIN, the VPIN gate (weight 0, with its reason as given),
/// position direction, unrealized P&L, hold duration, session remaining and
/// momentum persistence indicators; a candle-pattern indicator (optionally
/// without mean reversion or confluence); the minimum confluence and the
/// affirmative switch of every candle-pattern indicator; then the indicators
/// given as `TYPE:TIMESCALE:WEIGHT`; last, each patch's indicators.
#[derive(Debug)]
pub struct IndicatorOverrides {
    pub add_rvol_weight: Option<u64>,
    pub indicator_weights: Vec<(String, u64)>,
    pub add_ofi_weight: Option<u64>,
    pub add_vpin_weight: Option<u64>,
    pub vpin_gate_reason: Option<String>,
    pub add_position_direction: Option<u64>,
    pub add_unrealized_pnl: Option<u64>,
    pub add_hold_duration: Option<u64>,
    pub add_session_remaining: Option<u64>,
    pub add_momentum_persistence: Option<u64>,
    pub add_candle_pattern: Option<u64>,
    pub candle_pattern_no_reversion: bool,
    pub candle_pattern_no_confluence: bool,
    pub candle_pattern_min_confluence: Option<Json>,
    pub candle_pattern_no_affirmative: bool,
    pub extra_indicators: Vec<(String, String, u64)>,
}

/// `f64` bits of 1.5, the high threshold of the relative volume indicator.
pub const F64_1_5: u64 = 0x3ff8_0000_0000_0000;

/// An indicator the research run adds: on, last changed by `backtest_cli` for `reason`.
pub open spec fn cli_indicator(t: Seq<char>, id: Seq<char>, ts: Timescale, w: u64, params: Seq<(Seq<char>, JsonV)>, reason: Seq<char>) -> IndicatorV {
    IndicatorV {
        indicator_type: t,
        instance_id: id,
        timescale: ts,
        enabled: true,
        weight_bits: w,
        params,
        last_modified_by: Some("backtest_cli"@),
        last_modified_at: None,
        modification_reason: Some(reason),
    }
}

/// A five-minute indicator without parameters, where a weight is given.
pub open spec fn push_five_min(s: Seq<IndicatorV>, w: Option<u64>, t: Seq<char>, id: Seq<char>, reason: Seq<char>) -> Seq<IndicatorV> {
    match w {
        Some(w) => s.push(cli_indicator(t, id, Timescale::FiveMinute, w, Seq::empty(), reason)),
        None => s,
    }
}

/// The relative volume indicator.
pub open spec fn rvol_indicator(w: u64) -> IndicatorV {
    cli_indicator(
        "relative_volume"@,
        "rvol_20_5min"@,
        Timescale::FiveMinute,
        w,
        seq![
            ("lookback_period"@, JsonV::Num(JsonNum { repr: NumRepr::PosInt(20), f64_bits: 0x4034_0000_0000_0000 })),
            ("high_threshold"@, float_json(F64_1_5)),
            ("low_threshold"@, float_json(F64_0_5)),
        ],
        "CLI override for testing"@,
    )
}

/// Every indicator with id `id` gets weight `w`.
pub open spec fn reweighed(s: Seq<IndicatorV>, id: Seq<char>, w: u64) -> Seq<IndicatorV> {
    Seq::new(s.len(), |i: int| if s[i].instance_id == id { IndicatorV { weight_bits: w, ..s[i] } } else { s[i] })
}

/// The weights replaced in turn.
pub open spec fn reweighed_all(s: Seq<IndicatorV>, ws: Seq<(Seq<char>, u64)>) -> Seq<IndicatorV>
    decreases ws.len(),
{
    if ws.len() == 0 {
        s
    } else {
        reweighed(reweighed_all(s, ws.drop_last()), ws.last().0, ws.last().1)
    }
}

/// The candle-pattern indicator's parameters.
pub open spec fn candle_params(no_reversion: bool, no_confluence: bool) -> Seq<(Seq<char>, JsonV)> {
    let p0: Seq<(Seq<char>, JsonV)> = Seq::empty();
    let p1 = if no_reversion {
        with_member(p0, "mean_reversion_mode"@, JsonV::Bool(false))
    } else {
        p0
    };
    if no_confluence {
        with_member(p1, "use_confluence"@, JsonV::Bool(false))
    } else {
        p1
    }
}

/// Every candle-pattern indicator with parameter `k` set to `v`.
pub open spec fn candle_param(s: Seq<IndicatorV>, k: Seq<char>, v: JsonV) -> Seq<IndicatorV> {
    Seq::new(
        s.len(),
        |i: int|
            if s[i].indicator_type == "candle_pattern"@ {
                IndicatorV { params: with_member(s[i].params, k, v), ..s[i] }
            } else {
                s[i]
            },
    )
}

/// The timescale an `--add-indicator` timescale text names (five minutes where
/// it names none).
pub open spec fn extra_timescale(t: Seq<char>) -> Timescale {
    if t == "1m"@ || t == "OneMinute"@ {
        Timescale::OneMinute
    } else if t == "5m"@ || t == "FiveMinute"@ {
        Timescale::FiveMinute
    } else if t == "1h"@ || t == "OneHour"@ {
        Timescale::OneHour
    } else {
        Timescale::FiveMinute
    }
}

/// The timescale text of an added indicator is read as the conditions read
/// timescale names: "1m" and "OneMinute" name one minute, "5m" and "FiveMinute"
/// five minutes, "1h" and "OneHour" one hour; any other text (the daily and
/// monthly names included) gives five minutes.
pub proof fn lemma_extra_timescale_reads_names(t: Seq<char>)
    ensures
        extra_timescale("1m"@) == Timescale::OneMinute,
        extra_timescale("OneMinute"@) == Timescale::OneMinute,
        extra_timescale("5m"@) == Timescale::FiveMinute,
        extra_timescale("FiveMinute"@) == Timescale::FiveMinute,
        extra_timescale("1h"@) == Timescale::OneHour,
        extra_timescale("OneHour"@) == Timescale::OneHour,
        timescale_named(t) == Some(Timescale::OneMinute) ==> extra_timescale(t) == Timescale::OneMinute,
        timescale_named(t) == Some(Timescale::FiveMinute) ==> extra_timescale(t) == Timescale::FiveMinute,
        timescale_named(t) == Some(Timescale::OneHour) ==> extra_timescale(t) == Timescale::OneHour,
        !(timescale_named(t) matches Some(k) && (k is OneMinute || k is FiveMinute || k is OneHour))
            ==> extra_timescale(t) == Timescale::FiveMinute,
{
    reveal_strlit("1m");
    reveal_strlit("OneMinute");
    reveal_strlit("5m");
    reveal_strlit("FiveMinute");
    reveal_strlit("1h");
    reveal_strlit("OneHour");
    reveal_strlit("1d");
    reveal_strlit("OneDay");
    reveal_strlit("1M");
    reveal_strlit("OneMonth");
    assert("5m"@[0] != "1m"@[0]);
    assert("5m"@.len() != "OneMinute"@.len());
    assert("FiveMinute"@.len() != "1m"@.len());
    assert("FiveMinute"@.len() != "OneMinute"@.len());
    assert("1h"@[1] != "1m"@[1]);
    assert("1h"@[0] != "5m"@[0]);
    assert("OneHour"@.len() != "OneMinute"@.len());
    assert("OneHour"@.len() != "FiveMinute"@.len());
}

/// The indicators given as `TYPE:TIMESCALE:WEIGHT`, appended in order.
pub open spec fn with_extras(s: Seq<IndicatorV>, xs: Seq<(Seq<char>, Seq<char>, u64)>) -> Seq<IndicatorV>
    decreases xs.len(),
{
    if xs.len() == 0 {
        s
    } else {
        let x = xs.last();
        with_extras(s, xs.drop_last()).push(
            cli_indicator(x.0, x.0 + "_"@ + x.1, extra_timescale(x.1), x.2, Seq::empty(), "CLI override: "@ + x.0),
        )
    }
}

pub open spec fn weights_v(ws: Seq<(String, u64)>) -> Seq<(Seq<char>, u64)> {
    Seq::new(ws.len(), |i: int| (ws[i].0@, ws[i].1))
}

pub open spec fn extras_v(xs: Seq<(String, String, u64)>) -> Seq<(Seq<char>, Seq<char>, u64)> {
    Seq::new(xs.len(), |i: int| (xs[i].0@, xs[i].1@, xs[i].2))
}

/// The indicators appended by the patches, in order.
pub open spec fn patch_indicators_v(ps: Seq<ActionPatch>) -> Seq<IndicatorV>
    decreases ps.len(),
{
    if ps.len() == 0 {
        Seq::empty()
    } else {
        patch_indicators_v(ps.drop_last()) + indicators_v(ps.last().indicators@)
    }
}

/// The indicators after all the overrides; the patches are those of the
/// action overrides.
pub open spec fn indicators_after(o: IndicatorOverrides, patches: Seq<ActionPatch>, s: Seq<IndicatorV>) -> Seq<IndicatorV> {
    let s1 = match o.add_rvol_weight {
        Some(w) => s.push(rvol_indicator(w)),
        None => s,
    };
    let s2 = reweighed_all(s1, weights_v(o.indicator_weights@));
    let s3 = push_five_min(s2, o.add_ofi_weight, "ofi"@, "ofi_5min"@, "CLI override: OFI indicator"@);
    let s4 = push_five_min(s3, o.add_vpin_weight, "vpin"@, "vpin_5min"@, "CLI override: VPIN indicator"@);
    let s5 = match o.vpin_gate_reason {
        Some(r) => s4.push(cli_indicator("vpin"@, "vpin_gate_5min"@, Timescale::FiveMinute, 0, Seq::empty(), r@)),
        None => s4,
    };
    let s6 = push_five_min(s5, o.add_position_direction, "position_direction"@, "pos_dir_5min"@, "CLI override: position direction"@);
    let s7 = push_five_min(s6, o.add_unrealized_pnl, "unrealized_pnl"@, "upnl_5min"@, "CLI override: unrealized P&L"@);
    let s8 = push_five_min(s7, o.add_hold_duration, "hold_duration"@, "hold_dur_5min"@, "CLI override: hold duration"@);
    let s9 = push_five_min(s8, o.add_session_remaining, "session_remaining"@, "sess_rem_5min"@, "CLI override: session remaining"@);
    let s10 = push_five_min(s9, o.add_momentum_persistence, "momentum_persistence"@, "mom_persist_5min"@, "CLI override: momentum persistence"@);
    let s11 = match o.add_candle_pattern {
        Some(w) => s10.push(
            cli_indicator(
                "candle_pattern"@,
                "candle_5min"@,
                Timescale::FiveMinute,
                w,
                candle_params(o.candle_pattern_no_reversion, o.candle_pattern_no_confluence),
                "CLI override: candle pattern"@,
            ),
        ),
        None => s10,
    };
    let s12 = match o.candle_pattern_min_confluence {
        Some(v) => candle_param(s11, "min_confluence_product"@, jv(v)),
        None => s11,
    };
    let s13 = if o.candle_pattern_no_affirmative {
        candle_param(s12, "affirmative_only"@, JsonV::Bool(false))
    } else {
        s12
    };
    with_extras(s13, extras_v(o.extra_indicators@)) + patch_indicators_v(patches)
}

fn push_ind(list: &mut Vec<IndicatorCfg>, a: IndicatorCfg)
    ensures
        indicators_v(final(list)@) == indicators_v(old(list)@).push(iv(a)),
{
    let ghost a_v = iv(a);
    list.push(a);
    proof {
        assert(indicators_v(list@) =~= indicators_v(old(list)@).push(a_v));
    }
}

fn cli_indicator_exec(t: String, id: String, ts: Timescale, w: u64, params: Vec<(String, Json)>, reason: String) -> (r: IndicatorCfg)
    ensures
        iv(r) == cli_indicator(t@, id@, ts, w, members_v(params@), reason@),
{
    IndicatorCfg {
        indicator_type: t,
        instance_id: id,
        timescale: ts,
        enabled: true,
        weight_bits: w,
        params,
        last_modified_by: Some(String::from_str("backtest_cli")),
        last_modified_at: None,
        modification_reason: Some(reason),
    }
}

fn push_five_min_exec(list: &mut Vec<IndicatorCfg>, w: Option<u64>, t: &str, id: &str, reason: &str)
    ensures
        indicators_v(final(list)@) == push_five_min(indicators_v(old(list)@), w, t@, id@, reason@),
{
    if let Some(w) = w {
        let params: Vec<(String, Json)> = Vec::new();
        proof {
            assert(members_v(params@) =~= Seq::<(Seq<char>, JsonV)>::empty());
        }
        let a = cli_indicator_exec(String::from_str(t), String::from_str(id), Timescale::FiveMinute, w, params, String::from_str(reason));
        push_ind(list, a);
    }
}

fn rvol_exec(w: u64) -> (r: IndicatorCfg)
    ensures
        iv(r) == rvol_indicator(w),
{
    let mut params: Vec<(String, Json)> = Vec::new();
    params.push((String::from_str("lookback_period"), Json::Num(JsonNum { repr: NumRepr::PosInt(20), f64_bits: 0x4034_0000_0000_0000 })));
    params.push((String::from_str("high_threshold"), Json::Num(JsonNum { repr: NumRepr::Float(F64_1_5), f64_bits: F64_1_5 })));
    params.push((String::from_str("low_threshold"), Json::Num(JsonNum { repr: NumRepr::Float(F64_0_5), f64_bits: F64_0_5 })));
    let ghost pv = members_v(params@);
    let r = cli_indicator_exec(String::from_str("relative_volume"), String::from_str("rvol_20_5min"), Timescale::FiveMinute, w, params, String::from_str("CLI override for testing"));
    proof {
        assert(pv =~= seq![
            ("lookback_period"@, JsonV::Num(JsonNum { repr: NumRepr::PosInt(20), f64_bits: 0x4034_0000_0000_0000 })),
            ("high_threshold"@, float_json(F64_1_5)),
            ("low_threshold"@, float_json(F64_0_5)),
        ]);
    }
    r
}

fn reweigh(list: &mut Vec<IndicatorCfg>, id: &String, w: u64)
    ensures
        indicators_v(final(list)@) == reweighed(indicators_v(old(list)@), id@, w),
{
    let ghost before = indicators_v(list@);
    let mut i: usize = 0;
    while i < list.len()
        invariant
            i <= list.len(),
            list.len() == before.len(),
            forall|j: int| 0 <= j < i ==> iv(#[trigger] list@[j]) == reweighed(before, id@, w)[j],
            forall|j: int| i <= j < list.len() ==> iv(#[trigger] list@[j]) == before[j],
        decreases list.len() - i,
    {
        if list[i].instance_id == *id {
            let mut a = list.remove(i);
            a.weight_bits = w;
            list.insert(i, a);
        }
        i = i + 1;
    }
    proof {
        assert(indicators_v(list@) =~= reweighed(before, id@, w));
    }
}

fn candle_param_exec(list: &mut Vec<IndicatorCfg>, k: &str, v: &Json)
    ensures
        indicators_v(final(list)@) == candle_param(indicators_v(old(list)@), k@, jv(*v)),
{
    let ghost before = indicators_v(list@);
    let cp = String::from_str("candle_pattern");
    let mut i: usize = 0;
    while i < list.len()
        invariant
            i <= list.len(),
            list.len() == before.len(),
            cp@ == "candle_pattern"@,
            forall|j: int| 0 <= j < i ==> iv(#[trigger] list@[j]) == candle_param(before, k@, jv(*v))[j],
            forall|j: int| i <= j < list.len() ==> iv(#[trigger] list@[j]) == before[j],
        decreases list.len() - i,
    {
        if list[i].indicator_type == cp {
            let mut a = list.remove(i);
            set_member(&mut a.params, String::from_str(k), copy_json(v));
            list.insert(i, a);
        }
        i = i + 1;
    }
    proof {
        assert(indicators_v(list@) =~= candle_param(before, k@, jv(*v)));
    }
}

fn extra_timescale_exec(t: &String) -> (r: Timescale)
    ensures
        r == extra_timescale(t@),
{
    let is = |s: &str| -> (b: bool)
        ensures
            b == (t@ == s@),
        { *t == String::from_str(s) };
    if is("1m") || is("OneMinute") {
        Timescale::OneMinute
    } else if is("5m") || is("FiveMinute") {
        Timescale::FiveMinute
    } else if is("1h") || is("OneHour") {
        Timescale::OneHour
    } else {
        Timescale::FiveMinute
    }
}

/// A copy of an indicator config with the same form.
pub fn copy_indicator(a: &IndicatorCfg) -> (r: IndicatorCfg)
    ensures
        iv(r) == iv(*a),
{
    IndicatorCfg {
        indicator_type: a.indicator_type.clone(),
        instance_id: a.instance_id.clone(),
        timescale: a.timescale,
        enabled: a.enabled,
        weight_bits: a.weight_bits,
        params: copy_members(&a.params),
        last_modified_by: copy_text_opt(&a.last_modified_by),
        last_modified_at: a.last_modified_at,
        modification_reason: copy_text_opt(&a.modification_reason),
    }
}

/// Apply the indicator overrides (see `IndicatorOverrides`).
pub fn apply_indicator_overrides(o: &IndicatorOverrides, patches: &Vec<ActionPatch>, list: &mut Vec<IndicatorCfg>)
    ensures
        indicators_v(final(list)@) == indicators_after(*o, patches@, indicators_v(old(list)@)),
{
    if let Some(w) = o.add_rvol_weight {
        push_ind(list, rvol_exec(w));
    }
    let ghost s1 = indicators_v(list@);
    let mut k: usize = 0;
    while k < o.indicator_weights.len()
        invariant
            k <= o.indicator_weights.len(),
            indicators_v(list@) == reweighed_all(s1, weights_v(o.indicator_weights@).take(k as int)),
        decreases o.indicator_weights.len() - k,
    {
        reweigh(list, &o.indicator_weights[k].0, o.indicator_weights[k].1);
        proof {
            assert(weights_v(o.indicator_weights@).take(k + 1).drop_last() =~= weights_v(o.indicator_weights@).take(k as int));
        }
        k = k + 1;
    }
    proof {
        assert(weights_v(o.indicator_weights@).take(o.indicator_weights.len() as int) =~= weights_v(o.indicator_weights@));
    }
    push_five_min_exec(list, o.add_ofi_weight, "ofi", "ofi_5min", "CLI override: OFI indicator");
    push_five_min_exec(list, o.add_vpin_weight, "vpin", "vpin_5min", "CLI override: VPIN indicator");
    if let Some(r) = &o.vpin_gate_reason {
        let params: Vec<(String, Json)> = Vec::new();
        proof {
            assert(members_v(params@) =~= Seq::<(Seq<char>, JsonV)>::empty());
        }
        let a = cli_indicator_exec(String::from_str("vpin"), String::from_str("vpin_gate_5min"), Timescale::FiveMinute, 0, params, r.clone());
        push_ind(list, a);
    }
    push_five_min_exec(list, o.add_position_direction, "position_direction", "pos_dir_5min", "CLI override: position direction");
    push_five_min_exec(list, o.add_unrealized_pnl, "unrealized_pnl", "upnl_5min", "CLI override: unrealized P&L");
    push_five_min_exec(list, o.add_hold_duration, "hold_duration", "hold_dur_5min", "CLI override: hold duration");
    push_five_min_exec(list, o.add_session_remaining, "session_remaining", "sess_rem_5min", "CLI override: session remaining");
    push_five_min_exec(list, o.add_momentum_persistence, "momentum_persistence", "mom_persist_5min", "CLI override: momentum persistence");
    if let Some(w) = o.add_candle_pattern {
        let mut params: Vec<(String, Json)> = Vec::new();
        proof {
            assert(members_v(params@) =~= Seq::<(Seq<char>, JsonV)>::empty());
        }
        if o.candle_pattern_no_reversion {
            set_member(&mut params, String::from_str("mean_reversion_mode"), Json::Bool(false));
        }
        if o.candle_pattern_no_confluence {
            set_member(&mut params, String::from_str("use_confluence"), Json::Bool(false));
        }
        let a = cli_indicator_exec(String::from_str("candle_pattern"), String::from_str("candle_5min"), Timescale::FiveMinute, w, params, String::from_str("CLI override: candle pattern"));
        push_ind(list, a);
    }
    if let Some(v) = &o.candle_pattern_min_confluence {
        candle_param_exec(list, "min_confluence_product", v);
    }
    if o.candle_pattern_no_affirmative {
        candle_param_exec(list, "affirmative_only", &Json::Bool(false));
    }
    let ghost s13 = indicators_v(list@);
    let mut k: usize = 0;
    while k < o.extra_indicators.len()
        invariant
            k <= o.extra_indicators.len(),
            indicators_v(list@) == with_extras(s13, extras_v(o.extra_indicators@).take(k as int)),
        decreases o.extra_indicators.len() - k,
    {
        let x = &o.extra_indicators[k];
        let mut id = x.0.clone();
        id.append("_");
        id.append(x.1.as_str());
        let mut reason = String::from_str("CLI override: ");
        reason.append(x.0.as_str());
        let params: Vec<(String, Json)> = Vec::new();
        proof {
            assert(members_v(params@) =~= Seq::<(Seq<char>, JsonV)>::empty());
        }
        let a = cli_indicator_exec(x.0.clone(), id, extra_timescale_exec(&x.1), x.2, params, reason);
        push_ind(list, a);
        proof {
            assert(extras_v(o.extra_indicators@).take(k + 1).drop_last() =~= extras_v(o.extra_indicators@).take(k as int));
        }
        k = k + 1;
    }
    proof {
        assert(extras_v(o.extra_indicators@).take(o.extra_indicators.len() as int) =~= extras_v(o.extra_indicators@));
    }
    let ghost s14 = indicators_v(list@);
    let mut p: usize = 0;
    while p < patches.len()
        invariant
            p <= patches.len(),
            indicators_v(list@) == s14 + patch_indicators_v(patches@.take(p as int)),
        decreases patches.len() - p,
    {
        let ghost before_p = indicators_v(list@);
        let batch = &patches[p].indicators;
        let mut q: usize = 0;
        while q < batch.len()
            invariant
                q <= batch.len(),
                indicators_v(list@) == before_p + indicators_v(batch@).take(q as int),
            decreases batch.len() - q,
        {
            let a = copy_indicator(&batch[q]);
            push_ind(list, a);
            proof {
                assert(indicators_v(batch@).take(q + 1) =~= indicators_v(batch@).take(q as int).push(iv(batch@[q as int])));
            }
            q = q + 1;
        }
        proof {
            assert(indicators_v(batch@).take(batch.len() as int) =~= indicators_v(batch@));
            assert(patches@.take(p + 1).drop_last() =~= patches@.take(p as int));
            assert(patches@.take(p + 1).last().indicators == *batch);
        }
        p = p + 1;
    }
    proof {
        assert(patches@.take(patches.len() as int) =~= patches@);
    }
}

/// Does any of the indicator overrides change anything? (The candle-pattern
/// switches alone, without a candle-pattern weight, change nothing.)
pub open spec fn indicators_active(o: IndicatorOverrides) -> bool {
    ||| o.add_rvol_weight is Some
    ||| o.indicator_weights@.len() > 0
    ||| o.add_ofi_weight is Some
    ||| o.add_vpin_weight is Some
    ||| o.vpin_gate_reason is Some
    ||| o.add_position_direction is Some
    ||| o.add_unrealized_pnl is Some
    ||| o.add_hold_duration is Some
    ||| o.add_session_remaining is Some
    ||| o.add_momentum_persistence is Some
    ||| o.add_candle_pattern is Some
    ||| o.candle_pattern_min_confluence is Some
    ||| o.candle_pattern_no_affirmative
    ||| o.extra_indicators@.len() > 0
}

impl IndicatorOverrides {
    /// Is any indicator override given?
    pub fn any_active(&self) -> (b: bool)
        ensures
            b == indicators_active(*self),
    {
        self.add_rvol_weight.is_some() || !self.indicator_weights.is_empty() || self.add_ofi_weight.is_some()
            || self.add_vpin_weight.is_some() || self.vpin_gate_reason.is_some()
            || self.add_position_direction.is_some() || self.add_unrealized_pnl.is_some()
            || self.add_hold_duration.is_some() || self.add_session_remaining.is_some()
            || self.add_momentum_persistence.is_some() || self.add_candle_pattern.is_some()
            || self.candle_pattern_min_confluence.is_some() || self.candle_pattern_no_affirmative
            || !self.extra_indicators.is_empty()
    }
}

/// Indicator overrides that are not active, without patches, leave the
/// indicators as they are.
pub proof fn lemma_inactive_indicators_unchanged(o: IndicatorOverrides, s: Seq<IndicatorV>)
    requires
        !indicators_active(o),
    ensures
        indicators_after(o, Seq::empty(), s) == s,
{
    assert(weights_v(o.indicator_weights@).len() == 0);
    assert(extras_v(o.extra_indicators@).len() == 0);
    assert(s + Seq::<IndicatorV>::empty() =~= s);
}

/// A weight given by id is the weight of every indicator with that id, unless
/// a later weight for the same id replaces it; other indicators keep theirs.
pub proof fn lemma_last_weight_wins(s: Seq<IndicatorV>, ws: Seq<(Seq<char>, u64)>, i: int)
    requires
        0 <= i < s.len(),
    ensures
        reweighed_all(s, ws).len() == s.len(),
        reweighed_all(s, ws)[i].instance_id == s[i].instance_id,
        (forall|k: int| 0 <= k < ws.len() ==> ws[k].0 != s[i].instance_id) ==> reweighed_all(s, ws)[i] == s[i],
        ws.len() > 0 && ws.last().0 == s[i].instance_id ==> reweighed_all(s, ws)[i].weight_bits == ws.last().1,
    decreases ws.len(),
{
    if ws.len() > 0 {
        lemma_last_weight_wins(s, ws.drop_last(), i);
        let r = reweighed_all(s, ws.drop_last());
        if forall|k: int| 0 <= k < ws.len() ==> ws[k].0 != s[i].instance_id {
            assert forall|k: int| 0 <= k < ws.drop_last().len() implies ws.drop_last()[k].0 != s[i].instance_id by {
                assert(ws.drop_last()[k] == ws[k]);
            }
            assert(ws[ws.len() - 1].0 != s[i].instance_id);
        }
    }
}

} // verus!
