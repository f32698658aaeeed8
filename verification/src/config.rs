//! Strategy action configs as JSON documents, and the overrides a research run
//! applies to them: switching actions on and off, adding sign-mirrored short
//! twins of long entry windows, appending patched actions, and setting one
//! parameter by path.
//!
//! A JSON number keeps the form it was written in (unsigned, negative or
//! floating) together with the bits of its `f64` reading, so a number can be
//! negated exactly: flipping the sign bit of a finite `f64` negates it.

use vstd::prelude::*;
use crate::model::ActionPhase;
use crate::dashboard::names;
use crate::text::{all_digits, decimal_value, first_index_of, find_char, is_digit, lemma_decimal_prefix};
use crate::overrides::string_of;
use crate::text::{chars_of, dec_text, digit_char, split_once};
use crate::cli::{split_trimmed, trimmed_pieces};
use crate::overrides::split_pieces;

verus! {

/// The form a JSON number was written in; a floating number is held by its `f64` bits.
#[derive(Debug, Clone, Copy, PartialEq, Eq, Structural)]
pub enum NumRepr {
    PosInt(u64),
    NegInt(i64),
    Float(u64),
}

/// A JSON number: its written form, and the bits of the `f64` it reads as.
#[derive(Debug, Clone, Copy, PartialEq, Eq, Structural)]
pub struct JsonNum {
    pub repr: NumRepr,
    pub f64_bits: u64,
}

/// The sign bit of an `f64`.
pub const F64_SIGN_BIT: u64 = 0x8000_0000_0000_0000;

/// A JSON value. An object is a list of members; reading a key finds its first
/// member.
#[derive(Debug, PartialEq)]
pub enum Json {
    Null,
    Bool(bool),
    Num(JsonNum),
    Str(String),
    Arr(Vec<Json>),
    Obj(Vec<(String, Json)>),
}

/// The mathematical form of a JSON value.
pub enum JsonV {
    Null,
    Bool(bool),
    Num(JsonNum),
    Str(Seq<char>),
    Arr(Seq<JsonV>),
    Obj(Seq<(Seq<char>, JsonV)>),
}

/// The mathematical form of a JSON value.
pub open spec fn jv(j: Json) -> JsonV
    decreases j,
{
    match j {
        Json::Null => JsonV::Null,
        Json::Bool(b) => JsonV::Bool(b),
        Json::Num(n) => JsonV::Num(n),
        Json::Str(s) => JsonV::Str(s@),
        Json::Arr(v) => JsonV::Arr(
            Seq::new(
                v@.len(),
                |i: int|
                    if 0 <= i < v@.len() {
                        jv(v@[i])
                    } else {
                        JsonV::Null
                    },
            ),
        ),
        Json::Obj(m) => JsonV::Obj(
            Seq::new(
                m@.len(),
                |i: int|
                    if 0 <= i < m@.len() {
                        (m@[i].0@, jv(m@[i].1))
                    } else {
                        (Seq::empty(), JsonV::Null)
                    },
            ),
        ),
    }
}

/// The mathematical form of each element of an array.
pub open spec fn arr_v(v: Seq<Json>) -> Seq<JsonV> {
    Seq::new(v.len(), |i: int| jv(v[i]))
}

/// The mathematical form of each member of an object.
pub open spec fn members_v(m: Seq<(String, Json)>) -> Seq<(Seq<char>, JsonV)> {
    Seq::new(m.len(), |i: int| (m[i].0@, jv(m[i].1)))
}

/// An array's form is the form of its elements; an object's, of its members.
pub proof fn lemma_jv_unfold(j: Json)
    ensures
        j matches Json::Arr(v) ==> jv(j) == JsonV::Arr(arr_v(v@)),
        j matches Json::Obj(m) ==> jv(j) == JsonV::Obj(members_v(m@)),
{
    match j {
        Json::Arr(v) => {
            assert(jv(j)->Arr_0 =~= arr_v(v@));
        },
        Json::Obj(m) => {
            assert(jv(j)->Obj_0 =~= members_v(m@));
        },
        _ => {},
    }
}

/// A copy of a JSON value with the same form.
pub fn copy_json(j: &Json) -> (r: Json)
    ensures
        jv(r) == jv(*j),
    decreases j,
{
    match j {
        Json::Null => Json::Null,
        Json::Bool(b) => Json::Bool(*b),
        Json::Num(n) => Json::Num(*n),
        Json::Str(s) => Json::Str(s.clone()),
        Json::Arr(v) => {
            let mut out: Vec<Json> = Vec::new();
            let mut i: usize = 0;
            while i < v.len()
                invariant
                    i <= v.len(),
                    *j == Json::Arr(*v),
                    out@.len() == i,
                    forall|k: int| 0 <= k < i ==> jv(#[trigger] out@[k]) == jv(v@[k]),
                decreases v.len() - i,
            {
                proof {
                    assert(decreases_to!(*j => (*j)->Arr_0));
                    assert(decreases_to!(*v => v@));
                    assert(decreases_to!(v@ => v@[i as int]));
                    assert(decreases_to!(*j => v@[i as int]));
                }
                let e = copy_json(&v[i]);
                out.push(e);
                i = i + 1;
            }
            let r = Json::Arr(out);
            proof {
                lemma_jv_unfold(r);
                lemma_jv_unfold(*j);
                assert(arr_v(out@) =~= arr_v(v@));
            }
            r
        },
        Json::Obj(m) => {
            let mut out: Vec<(String, Json)> = Vec::new();
            let mut i: usize = 0;
            while i < m.len()
                invariant
                    i <= m.len(),
                    *j == Json::Obj(*m),
                    out@.len() == i,
                    forall|k: int|
                        0 <= k < i ==> (#[trigger] out@[k]).0@ == m@[k].0@ && jv(out@[k].1) == jv(
                            m@[k].1,
                        ),
                decreases m.len() - i,
            {
                proof {
                    assert(decreases_to!(*j => (*j)->Obj_0));
                    assert(decreases_to!(*m => m@));
                    assert(decreases_to!(m@ => m@[i as int]));
                    assert(decreases_to!(m@[i as int] => m@[i as int].1));
                    assert(decreases_to!(*j => m@[i as int].1));
                }
                let e = copy_json(&m[i].1);
                out.push((m[i].0.clone(), e));
                i = i + 1;
            }
            let r = Json::Obj(out);
            proof {
                lemma_jv_unfold(r);
                lemma_jv_unfold(*j);
                assert(members_v(out@) =~= members_v(m@));
            }
            r
        },
    }
}

/// `i` is the position of the first member named `k`.
pub open spec fn is_key_index(m: Seq<(Seq<char>, JsonV)>, k: Seq<char>, i: int) -> bool {
    &&& 0 <= i < m.len()
    &&& m[i].0 == k
    &&& forall|j: int| 0 <= j < i ==> m[j].0 != k
}

/// The position of the first member named `k`, if any.
pub open spec fn key_index(m: Seq<(Seq<char>, JsonV)>, k: Seq<char>) -> Option<int> {
    if exists|i: int| is_key_index(m, k, i) {
        Some(choose|i: int| is_key_index(m, k, i))
    } else {
        None
    }
}

/// The value of the first member named `k`, if any.
pub open spec fn member(m: Seq<(Seq<char>, JsonV)>, k: Seq<char>) -> Option<JsonV> {
    match key_index(m, k) {
        Some(i) => Some(m[i].1),
        None => None,
    }
}

/// The members with `k` set to `v`: the first member named `k` takes the new
/// value in place, or a new member is appended.
pub open spec fn with_member(m: Seq<(Seq<char>, JsonV)>, k: Seq<char>, v: JsonV) -> Seq<
    (Seq<char>, JsonV),
> {
    match key_index(m, k) {
        Some(i) => m.update(i, (k, v)),
        None => m.push((k, v)),
    }
}

/// The members other than those named `k`, in order.
pub open spec fn without_key(m: Seq<(Seq<char>, JsonV)>, k: Seq<char>) -> Seq<(Seq<char>, JsonV)>
    decreases m.len(),
{
    if m.len() == 0 {
        m
    } else if m.last().0 == k {
        without_key(m.drop_last(), k)
    } else {
        without_key(m.drop_last(), k).push(m.last())
    }
}

proof fn lemma_key_index(m: Seq<(Seq<char>, JsonV)>, k: Seq<char>, i: int)
    requires
        is_key_index(m, k, i),
    ensures
        key_index(m, k) == Some(i),
{
    let c = choose|c: int| is_key_index(m, k, c);
    assert(is_key_index(m, k, c));
    if c < i {
        assert(m[c].0 != k);
    } else if i < c {
        assert(m[i].0 != k);
    }
}

proof fn lemma_no_key(m: Seq<(Seq<char>, JsonV)>, k: Seq<char>)
    requires
        forall|j: int| 0 <= j < m.len() ==> m[j].0 != k,
    ensures
        key_index(m, k) == None::<int>,
{
    if exists|i: int| is_key_index(m, k, i) {
        let c = choose|c: int| is_key_index(m, k, c);
        assert(m[c].0 == k);
    }
}

/// The position of the first member named `k`.
pub fn find_member(m: &Vec<(String, Json)>, k: &String) -> (r: Option<usize>)
    ensures
        match r {
            Some(i) => key_index(members_v(m@), k@) == Some(i as int),
            None => key_index(members_v(m@), k@) == None::<int>,
        },
{
    let ghost mv = members_v(m@);
    let mut i: usize = 0;
    while i < m.len()
        invariant
            i <= m.len(),
            mv == members_v(m@),
            forall|j: int| 0 <= j < i ==> mv[j].0 != k@,
        decreases m.len() - i,
    {
        if m[i].0 == *k {
            proof {
                lemma_key_index(mv, k@, i as int);
            }
            return Some(i);
        }
        i = i + 1;
    }
    proof {
        lemma_no_key(mv, k@);
    }
    None
}

/// The members other than those named `k`, copied in order.
pub fn remove_member(m: &Vec<(String, Json)>, k: &String) -> (r: Vec<(String, Json)>)
    ensures
        members_v(r@) == without_key(members_v(m@), k@),
{
    let ghost mv = members_v(m@);
    let mut out: Vec<(String, Json)> = Vec::new();
    let mut i: usize = 0;
    while i < m.len()
        invariant
            i <= m.len(),
            mv == members_v(m@),
            members_v(out@) == without_key(mv.take(i as int), k@),
        decreases m.len() - i,
    {
        proof {
            assert(mv.take(i + 1).drop_last() =~= mv.take(i as int));
        }
        if m[i].0 != *k {
            let v = copy_json(&m[i].1);
            let ghost before = out@;
            out.push((m[i].0.clone(), v));
            proof {
                assert(members_v(out@) =~= members_v(before).push(mv[i as int]));
            }
        }
        i = i + 1;
    }
    proof {
        assert(mv.take(m.len() as int) =~= mv);
    }
    out
}

/// Set member `k` to `v` in place: the first member named `k` takes the value, or
/// a new member is appended.
pub fn set_member(m: &mut Vec<(String, Json)>, k: String, v: Json)
    ensures
        members_v(final(m)@) == with_member(members_v(old(m)@), k@, jv(v)),
{
    let ghost kv = k@;
    let ghost vv = jv(v);
    match find_member(m, &k) {
        Some(i) => {
            let _ = m.remove(i);
            m.insert(i, (k, v));
            proof {
                assert(members_v(m@) =~= members_v(old(m)@).update(i as int, (kv, vv)));
            }
        },
        None => {
            m.push((k, v));
            proof {
                assert(members_v(m@) =~= members_v(old(m)@).push((kv, vv)));
            }
        },
    }
}

/// The number written for `-x`, where `bits` are the bits of `x`: a floating
/// number whose sign bit is flipped.
pub open spec fn neg_num(bits: u64) -> JsonV {
    JsonV::Num(JsonNum { repr: NumRepr::Float(bits ^ F64_SIGN_BIT), f64_bits: bits ^ F64_SIGN_BIT })
}

/// The number written for the `f64` with these bits.
pub open spec fn float_num(bits: u64) -> JsonV {
    JsonV::Num(JsonNum { repr: NumRepr::Float(bits), f64_bits: bits })
}

/// The `f64` bits of a value that is a number.
pub open spec fn num_bits(v: Option<JsonV>) -> Option<u64> {
    match v {
        Some(JsonV::Num(n)) => Some(n.f64_bits),
        _ => None,
    }
}

/// Where member `from` is a number, it is removed and `to` is set to its negation.
pub open spec fn negate_member(m: Seq<(Seq<char>, JsonV)>, from: Seq<char>, to: Seq<char>) -> Seq<
    (Seq<char>, JsonV),
> {
    match num_bits(member(m, from)) {
        Some(b) => with_member(without_key(m, from), to, neg_num(b)),
        None => m,
    }
}

/// Where member `from` is a number, it is removed and `to` is set to it, as a
/// floating number.
pub open spec fn rename_member(m: Seq<(Seq<char>, JsonV)>, from: Seq<char>, to: Seq<char>) -> Seq<
    (Seq<char>, JsonV),
> {
    match num_bits(member(m, from)) {
        Some(b) => with_member(without_key(m, from), to, float_num(b)),
        None => m,
    }
}

/// The condition's type: member `type` where it is a string, else empty.
pub open spec fn condition_type(m: Seq<(Seq<char>, JsonV)>) -> Seq<char> {
    match member(m, "type"@) {
        Some(JsonV::Str(t)) => t,
        _ => Seq::empty(),
    }
}

/// The members with `type` set to `t`.
pub open spec fn retype(m: Seq<(Seq<char>, JsonV)>, t: Seq<char>) -> Seq<(Seq<char>, JsonV)> {
    with_member(m, "type"@, JsonV::Str(t))
}

/// The `f64` bits of member `k` where it is a number, else those of 0.0.
pub open spec fn bits_or_zero(m: Seq<(Seq<char>, JsonV)>, k: Seq<char>) -> u64 {
    match num_bits(member(m, k)) {
        Some(b) => b,
        None => 0,
    }
}

/// The members of a condition mirrored for a short entry: a minimum becomes a
/// maximum of the negated score and a maximum a minimum, a lead becomes a lag and
/// a lag a lead, and a range is negated and swapped. Other conditions are
/// unchanged.
pub open spec fn mirror_members(m: Seq<(Seq<char>, JsonV)>) -> Seq<(Seq<char>, JsonV)> {
    let t = condition_type(m);
    if t == "timescale_min"@ {
        negate_member(retype(m, "timescale_max"@), "min_score"@, "max_score"@)
    } else if t == "timescale_max"@ {
        negate_member(retype(m, "timescale_min"@), "max_score"@, "min_score"@)
    } else if t == "composite_min"@ {
        negate_member(retype(m, "composite_max"@), "min_score"@, "max_score"@)
    } else if t == "composite_max"@ {
        negate_member(retype(m, "composite_min"@), "max_score"@, "min_score"@)
    } else if t == "timescale_lead"@ {
        rename_member(retype(m, "timescale_lag"@), "lead_by"@, "lag_by"@)
    } else if t == "timescale_lag"@ {
        rename_member(retype(m, "timescale_lead"@), "lag_by"@, "lead_by"@)
    } else if t == "timescale_all_min"@ {
        negate_member(retype(m, "timescale_all_max"@), "min_score"@, "max_score"@)
    } else if t == "timescale_all_max"@ {
        negate_member(retype(m, "timescale_all_min"@), "max_score"@, "min_score"@)
    } else if t == "timescale_range"@ {
        let lo = bits_or_zero(m, "min_score"@);
        let hi = bits_or_zero(m, "max_score"@);
        with_member(with_member(m, "min_score"@, neg_num(hi)), "max_score"@, neg_num(lo))
    } else {
        m
    }
}

/// A window condition mirrored for a short twin; a value that is not an object
/// is unchanged.
pub open spec fn mirror_spec(c: JsonV) -> JsonV {
    match c {
        JsonV::Obj(m) => JsonV::Obj(mirror_members(m)),
        _ => c,
    }
}

/// The `f64` bits of member `k` where it is a number.
fn member_bits(m: &Vec<(String, Json)>, k: &String) -> (r: Option<u64>)
    ensures
        r == num_bits(member(members_v(m@), k@)),
{
    match find_member(m, k) {
        Some(i) => match &m[i].1 {
            Json::Num(n) => Some(n.f64_bits),
            _ => None,
        },
        None => None,
    }
}

fn negate_member_exec(m: Vec<(String, Json)>, from: &str, to: &str) -> (r: Vec<(String, Json)>)
    ensures
        members_v(r@) == negate_member(members_v(m@), from@, to@),
{
    let from_s = String::from_str(from);
    match member_bits(&m, &from_s) {
        Some(b) => {
            let mut r = remove_member(&m, &from_s);
            let nb = b ^ F64_SIGN_BIT;
            set_member(&mut r, String::from_str(to), Json::Num(JsonNum { repr: NumRepr::Float(nb), f64_bits: nb }));
            r
        },
        None => m,
    }
}

fn rename_member_exec(m: Vec<(String, Json)>, from: &str, to: &str) -> (r: Vec<(String, Json)>)
    ensures
        members_v(r@) == rename_member(members_v(m@), from@, to@),
{
    let from_s = String::from_str(from);
    match member_bits(&m, &from_s) {
        Some(b) => {
            let mut r = remove_member(&m, &from_s);
            set_member(&mut r, String::from_str(to), Json::Num(JsonNum { repr: NumRepr::Float(b), f64_bits: b }));
            r
        },
        None => m,
    }
}

fn retype_exec(m: &mut Vec<(String, Json)>, t: &str)
    ensures
        members_v(final(m)@) == retype(members_v(old(m)@), t@),
{
    set_member(m, String::from_str("type"), Json::Str(String::from_str(t)));
}

/// Sign-flip a window condition for a short twin: a minimum becomes a maximum of
/// the negated score (and back), a lead becomes a lag (and back), a range's
/// bounds are negated and swapped (a missing bound reads as 0.0).
pub fn mirror_condition(c: &Json) -> (r: Json)
    ensures
        jv(r) == mirror_spec(jv(*c)),
{
    match c {
        Json::Obj(m0) => {
            proof {
                lemma_jv_unfold(*c);
            }
            let mut m = copy_members(m0);
            let ty = String::from_str("type");
            let t: String = match find_member(&m, &ty) {
                Some(i) => match &m[i].1 {
                    Json::Str(s) => s.clone(),
                    _ => String::new(),
                },
                None => String::new(),
            };
            proof {
                assert(t@ == condition_type(members_v(m@)));
            }
            let out = if t == String::from_str("timescale_min") {
                retype_exec(&mut m, "timescale_max");
                negate_member_exec(m, "min_score", "max_score")
            } else if t == String::from_str("timescale_max") {
                retype_exec(&mut m, "timescale_min");
                negate_member_exec(m, "max_score", "min_score")
            } else if t == String::from_str("composite_min") {
                retype_exec(&mut m, "composite_max");
                negate_member_exec(m, "min_score", "max_score")
            } else if t == String::from_str("composite_max") {
                retype_exec(&mut m, "composite_min");
                negate_member_exec(m, "max_score", "min_score")
            } else if t == String::from_str("timescale_lead") {
                retype_exec(&mut m, "timescale_lag");
                rename_member_exec(m, "lead_by", "lag_by")
            } else if t == String::from_str("timescale_lag") {
                retype_exec(&mut m, "timescale_lead");
                rename_member_exec(m, "lag_by", "lead_by")
            } else if t == String::from_str("timescale_all_min") {
                retype_exec(&mut m, "timescale_all_max");
                negate_member_exec(m, "min_score", "max_score")
            } else if t == String::from_str("timescale_all_max") {
                retype_exec(&mut m, "timescale_all_min");
                negate_member_exec(m, "max_score", "min_score")
            } else if t == String::from_str("timescale_range") {
                let lo = match member_bits(&m, &String::from_str("min_score")) {
                    Some(b) => b,
                    None => 0,
                };
                let hi = match member_bits(&m, &String::from_str("max_score")) {
                    Some(b) => b,
                    None => 0,
                };
                let nh = hi ^ F64_SIGN_BIT;
                let nl = lo ^ F64_SIGN_BIT;
                set_member(&mut m, String::from_str("min_score"), Json::Num(JsonNum { repr: NumRepr::Float(nh), f64_bits: nh }));
                set_member(&mut m, String::from_str("max_score"), Json::Num(JsonNum { repr: NumRepr::Float(nl), f64_bits: nl }));
                m
            } else {
                m
            };
            let r = Json::Obj(out);
            proof {
                lemma_jv_unfold(r);
            }
            r
        },
        _ => copy_json(c),
    }
}

/// A copy of an object's members with the same form.
pub fn copy_members(m: &Vec<(String, Json)>) -> (r: Vec<(String, Json)>)
    ensures
        members_v(r@) == members_v(m@),
{
    let mut out: Vec<(String, Json)> = Vec::new();
    let mut i: usize = 0;
    while i < m.len()
        invariant
            i <= m.len(),
            out@.len() == i,
            forall|k: int|
                0 <= k < i ==> (#[trigger] out@[k]).0@ == m@[k].0@ && jv(out@[k].1) == jv(m@[k].1),
        decreases m.len() - i,
    {
        let e = copy_json(&m[i].1);
        out.push((m[i].0.clone(), e));
        i = i + 1;
    }
    proof {
        assert(members_v(out@) =~= members_v(m@));
    }
    out
}

/// A strategy action as configured: its type, id, phase, switch, priority, its
/// parameters as a JSON object, and who last changed it, when (seconds and
/// nanoseconds since the epoch) and why.
#[derive(Debug, PartialEq)]
pub struct ActionCfg {
    pub action_type: String,
    pub instance_id: String,
    pub phase: ActionPhase,
    pub enabled: bool,
    pub priority: i32,
    pub params: Vec<(String, Json)>,
    pub last_modified_by: Option<String>,
    pub last_modified_at: Option<(i64, u32)>,
    pub modification_reason: Option<String>,
}

/// The mathematical form of an action config.
pub struct ActionV {
    pub action_type: Seq<char>,
    pub instance_id: Seq<char>,
    pub phase: ActionPhase,
    pub enabled: bool,
    pub priority: i32,
    pub params: Seq<(Seq<char>, JsonV)>,
    pub last_modified_by: Option<Seq<char>>,
    pub last_modified_at: Option<(i64, u32)>,
    pub modification_reason: Option<Seq<char>>,
}

pub open spec fn opt_text(o: Option<String>) -> Option<Seq<char>> {
    match o {
        Some(s) => Some(s@),
        None => None,
    }
}

/// The mathematical form of an action config.
pub open spec fn av(a: ActionCfg) -> ActionV {
    ActionV {
        action_type: a.action_type@,
        instance_id: a.instance_id@,
        phase: a.phase,
        enabled: a.enabled,
        priority: a.priority,
        params: members_v(a.params@),
        last_modified_by: opt_text(a.last_modified_by),
        last_modified_at: a.last_modified_at,
        modification_reason: opt_text(a.modification_reason),
    }
}

/// The mathematical form of each action config of a list.
pub open spec fn actions_v(s: Seq<ActionCfg>) -> Seq<ActionV> {
    Seq::new(s.len(), |i: int| av(s[i]))
}

/// The action with its switch set to `on`.
pub open spec fn with_enabled(a: ActionV, on: bool) -> ActionV {
    ActionV { enabled: on, ..a }
}

/// An action after the disable list and then the enable list are applied to it.
pub open spec fn switched(a: ActionV, disable: Seq<Seq<char>>, enable: Seq<Seq<char>>) -> ActionV {
    if enable.contains(a.instance_id) {
        with_enabled(a, true)
    } else if disable.contains(a.instance_id) {
        with_enabled(a, false)
    } else {
        a
    }
}

/// Every action after the disable and enable lists are applied to it.
pub open spec fn switched_all(s: Seq<ActionV>, disable: Seq<Seq<char>>, enable: Seq<Seq<char>>) -> Seq<ActionV> {
    Seq::new(s.len(), |i: int| switched(s[i], disable, enable))
}

pub fn copy_text_opt(o: &Option<String>) -> (r: Option<String>)
    ensures
        opt_text(r) == opt_text(*o),
{
    match o {
        Some(s) => Some(s.clone()),
        None => None,
    }
}

/// A copy of an action config with the same form.
pub fn copy_action(a: &ActionCfg) -> (r: ActionCfg)
    ensures
        av(r) == av(*a),
{
    ActionCfg {
        action_type: a.action_type.clone(),
        instance_id: a.instance_id.clone(),
        phase: a.phase,
        enabled: a.enabled,
        priority: a.priority,
        params: copy_members(&a.params),
        last_modified_by: copy_text_opt(&a.last_modified_by),
        last_modified_at: a.last_modified_at,
        modification_reason: copy_text_opt(&a.modification_reason),
    }
}

/// Is `s` one of `v`?
pub fn contains_text(v: &Vec<String>, s: &String) -> (b: bool)
    ensures
        b == names(v@).contains(s@),
{
    let mut i: usize = 0;
    while i < v.len()
        invariant
            i <= v.len(),
            forall|j: int| 0 <= j < i ==> names(v@)[j] != s@,
        decreases v.len() - i,
    {
        if v[i] == *s {
            proof {
                assert(names(v@)[i as int] == s@);
            }
            return true;
        }
        i = i + 1;
    }
    false
}

/// Turn off the actions named in `disable`, then turn on those named in `enable`.
pub fn switch_actions(actions: &mut Vec<ActionCfg>, disable: &Vec<String>, enable: &Vec<String>)
    ensures
        actions_v(final(actions)@) == switched_all(actions_v(old(actions)@), names(disable@), names(enable@)),
{
    let ghost before = actions_v(actions@);
    let mut i: usize = 0;
    while i < actions.len()
        invariant
            i <= actions.len(),
            actions.len() == before.len(),
            forall|j: int| 0 <= j < i ==> av(#[trigger] actions@[j]) == switched(before[j], names(disable@), names(enable@)),
            forall|j: int| i <= j < actions.len() ==> av(#[trigger] actions@[j]) == before[j],
        decreases actions.len() - i,
    {
        let in_disable = contains_text(disable, &actions[i].instance_id);
        let in_enable = contains_text(enable, &actions[i].instance_id);
        if in_disable || in_enable {
            let mut a = actions.remove(i);
            if in_disable {
                a.enabled = false;
            }
            if in_enable {
                a.enabled = true;
            }
            actions.insert(i, a);
        }
        i = i + 1;
    }
    proof {
        assert(actions_v(actions@) =~= switched_all(before, names(disable@), names(enable@)));
    }
}

/// A condition whose `type` is a string starting with `indicator_`.
pub open spec fn is_indicator_condition(c: JsonV) -> bool {
    match c {
        JsonV::Obj(m) => match member(m, "type"@) {
            Some(JsonV::Str(t)) => t.len() >= "indicator_"@.len() && t.take("indicator_"@.len() as int)
                == "indicator_"@,
            _ => false,
        },
        _ => false,
    }
}

/// The conditions of an action, where its `conditions` parameter is an array.
pub open spec fn conditions_of(a: ActionV) -> Option<Seq<JsonV>> {
    match member(a.params, "conditions"@) {
        Some(JsonV::Arr(cs)) => Some(cs),
        _ => None,
    }
}

/// An action that gets a short twin: an enabled entry window or entry reject gate
/// whose conditions are an array without indicator conditions.
pub open spec fn mirrorable(a: ActionV) -> bool {
    &&& a.enabled
    &&& (a.action_type == "entry_window"@ || a.action_type == "entry_reject_gate"@)
    &&& conditions_of(a) is Some
    &&& forall|i: int|
        0 <= i < conditions_of(a).unwrap().len() ==> !is_indicator_condition(
            #[trigger] conditions_of(a).unwrap()[i],
        )
}

/// The short twin of a mirrorable action: id suffixed `_short`, conditions
/// mirrored; an entry window also gets direction `short` and its name (its id
/// where it has none) suffixed ` short`.
pub open spec fn short_twin(a: ActionV) -> ActionV {
    let cs = conditions_of(a).unwrap();
    let mirrored = JsonV::Arr(Seq::new(cs.len(), |i: int| mirror_spec(cs[i])));
    let p1 = with_member(a.params, "conditions"@, mirrored);
    let p = if a.action_type == "entry_window"@ {
        let name = match member(a.params, "name"@) {
            Some(JsonV::Str(n)) => n,
            _ => a.instance_id,
        };
        with_member(with_member(p1, "direction"@, JsonV::Str("short"@)), "name"@, JsonV::Str(name + " short"@))
    } else {
        p1
    };
    ActionV { instance_id: a.instance_id + "_short"@, params: p, ..a }
}

/// The short twins of the mirrorable actions, in order.
pub open spec fn short_twins(s: Seq<ActionV>) -> Seq<ActionV>
    decreases s.len(),
{
    if s.len() == 0 {
        Seq::empty()
    } else if mirrorable(s.last()) {
        short_twins(s.drop_last()).push(short_twin(s.last()))
    } else {
        short_twins(s.drop_last())
    }
}

/// Every action, with entry windows turned off.
pub open spec fn long_windows_off(s: Seq<ActionV>) -> Seq<ActionV> {
    Seq::new(
        s.len(),
        |i: int|
            if s[i].action_type == "entry_window"@ {
                with_enabled(s[i], false)
            } else {
                s[i]
            },
    )
}

/// The actions after short twins are added: the originals (entry windows turned
/// off where `short_only`), then the twins.
pub open spec fn with_short_twins(s: Seq<ActionV>, short_only: bool) -> Seq<ActionV> {
    (if short_only {
        long_windows_off(s)
    } else {
        s
    }) + short_twins(s)
}

/// Does `t` start with `indicator_`?
fn starts_indicator(t: &String) -> (b: bool)
    ensures
        b == (t@.len() >= "indicator_"@.len() && t@.take("indicator_"@.len() as int) == "indicator_"@),
{
    let p = String::from_str("indicator_");
    let tv = crate::text::chars_of(t.as_str());
    let pv = crate::text::chars_of(p.as_str());
    if tv.len() < pv.len() {
        return false;
    }
    let mut i: usize = 0;
    while i < pv.len()
        invariant
            i <= pv.len() <= tv.len(),
            tv@ == t@,
            pv@ == "indicator_"@,
            forall|j: int| 0 <= j < i ==> tv@[j] == pv@[j],
        decreases pv.len() - i,
    {
        if tv[i] != pv[i] {
            proof {
                assert(t@.take(pv@.len() as int)[i as int] != pv@[i as int]);
            }
            return false;
        }
        i = i + 1;
    }
    proof {
        assert(t@.take(pv@.len() as int) =~= pv@);
    }
    true
}

fn is_indicator_condition_exec(c: &Json) -> (b: bool)
    ensures
        b == is_indicator_condition(jv(*c)),
{
    proof {
        lemma_jv_unfold(*c);
    }
    match c {
        Json::Obj(m) => match find_member(m, &String::from_str("type")) {
            Some(i) => match &m[i].1 {
                Json::Str(t) => starts_indicator(t),
                _ => false,
            },
            None => false,
        },
        _ => false,
    }
}

/// The short twin of `a`, if `a` is mirrorable.
pub fn short_twin_of(a: &ActionCfg) -> (r: Option<ActionCfg>)
    ensures
        match r {
            Some(t) => mirrorable(av(*a)) && av(t) == short_twin(av(*a)),
            None => !mirrorable(av(*a)),
        },
{
    let ghost a_v = av(*a);
    if !a.enabled {
        return None;
    }
    let is_window = a.action_type == String::from_str("entry_window");
    if !is_window && a.action_type != String::from_str("entry_reject_gate") {
        return None;
    }
    let ci = match find_member(&a.params, &String::from_str("conditions")) {
        Some(ci) => ci,
        None => return None,
    };
    let conds = match &a.params[ci].1 {
        Json::Arr(cs) => cs,
        _ => return None,
    };
    proof {
        lemma_jv_unfold(a.params@[ci as int].1);
        assert(conditions_of(a_v) == Some(arr_v(conds@)));
    }
    let mut k: usize = 0;
    while k < conds.len()
        invariant
            k <= conds.len(),
            a_v == av(*a),
            conditions_of(a_v) == Some(arr_v(conds@)),
            forall|j: int| 0 <= j < k ==> !is_indicator_condition(#[trigger] arr_v(conds@)[j]),
        decreases conds.len() - k,
    {
        if is_indicator_condition_exec(&conds[k]) {
            proof {
                assert(conditions_of(a_v).unwrap()[k as int] == jv(conds@[k as int]));
            }
            return None;
        }
        k = k + 1;
    }
    let mut mirrored: Vec<Json> = Vec::new();
    let mut k: usize = 0;
    while k < conds.len()
        invariant
            k <= conds.len(),
            mirrored@.len() == k,
            forall|j: int| 0 <= j < k ==> jv(#[trigger] mirrored@[j]) == mirror_spec(jv(conds@[j])),
        decreases conds.len() - k,
    {
        mirrored.push(mirror_condition(&conds[k]));
        k = k + 1;
    }
    let ghost cs = arr_v(conds@);
    let mirrored_json = Json::Arr(mirrored);
    proof {
        lemma_jv_unfold(mirrored_json);
        assert(arr_v(mirrored@) =~= Seq::new(cs.len(), |i: int| mirror_spec(cs[i])));
    }
    let mut params = copy_members(&a.params);
    set_member(&mut params, String::from_str("conditions"), mirrored_json);
    if is_window {
        let name_s = String::from_str("name");
        let mut name = match find_member(&a.params, &name_s) {
            Some(ni) => match &a.params[ni].1 {
                Json::Str(n) => n.clone(),
                _ => a.instance_id.clone(),
            },
            None => a.instance_id.clone(),
        };
        name.append(" short");
        set_member(&mut params, String::from_str("direction"), Json::Str(String::from_str("short")));
        set_member(&mut params, name_s, Json::Str(name));
    }
    let mut id = a.instance_id.clone();
    id.append("_short");
    let t = ActionCfg {
        action_type: a.action_type.clone(),
        instance_id: id,
        phase: a.phase,
        enabled: a.enabled,
        priority: a.priority,
        params,
        last_modified_by: copy_text_opt(&a.last_modified_by),
        last_modified_at: a.last_modified_at,
        modification_reason: copy_text_opt(&a.modification_reason),
    };
    Some(t)
}

/// Add a short twin of every mirrorable action after the existing actions; with
/// `short_only`, the existing entry windows are turned off.
pub fn add_short_twins(actions: &mut Vec<ActionCfg>, short_only: bool)
    ensures
        actions_v(final(actions)@) == with_short_twins(actions_v(old(actions)@), short_only),
{
    let ghost before = actions_v(actions@);
    let mut twins: Vec<ActionCfg> = Vec::new();
    let mut i: usize = 0;
    while i < actions.len()
        invariant
            i <= actions.len(),
            before == actions_v(actions@),
            actions_v(twins@) == short_twins(before.take(i as int)),
        decreases actions.len() - i,
    {
        proof {
            assert(before.take(i + 1).drop_last() =~= before.take(i as int));
        }
        let ghost tw = twins@;
        match short_twin_of(&actions[i]) {
            Some(t) => {
                twins.push(t);
                proof {
                    assert(actions_v(twins@) =~= actions_v(tw).push(av(twins@.last())));
                }
            },
            None => {},
        }
        i = i + 1;
    }
    proof {
        assert(before.take(actions.len() as int) =~= before);
    }
    if short_only {
        let mut j: usize = 0;
        while j < actions.len()
            invariant
                j <= actions.len(),
                actions.len() == before.len(),
                forall|k: int| 0 <= k < j ==> av(#[trigger] actions@[k]) == long_windows_off(before)[k],
                forall|k: int| j <= k < actions.len() ==> av(#[trigger] actions@[k]) == before[k],
            decreases actions.len() - j,
        {
            if actions[j].action_type == String::from_str("entry_window") {
                let mut a = actions.remove(j);
                a.enabled = false;
                actions.insert(j, a);
            }
            j = j + 1;
        }
        proof {
            assert(actions_v(actions@) =~= long_windows_off(before));
        }
    }
    let ghost kept = actions_v(actions@);
    proof {
        assert(actions_v(twins@).len() == twins@.len());
    }
    let mut k: usize = 0;
    let n = twins.len();
    let mut twins = twins;
    while k < n
        invariant
            k <= n == twins.len() + k,
            short_twins(before).len() == n,
            actions_v(actions@) == kept + short_twins(before).take(k as int),
            actions_v(twins@) == short_twins(before).skip(k as int),
        decreases n - k,
    {
        let ghost tw0 = twins@;
        let t = twins.remove(0);
        proof {
            assert(actions_v(tw0)[0] == av(t));
            assert(av(t) == short_twins(before)[k as int]);
        }
        let ghost a0 = actions@;
        actions.push(t);
        proof {
            assert(actions_v(actions@) =~= actions_v(a0).push(av(t)));
            assert(short_twins(before).take(k + 1) =~= short_twins(before).take(k as int).push(av(t)));
            assert forall|j: int| 0 <= j < twins@.len() implies actions_v(twins@)[j]
                == short_twins(before).skip(k + 1)[j] by {
                assert(twins@[j] == tw0[j + 1]);
                assert(actions_v(tw0)[j + 1] == short_twins(before).skip(k as int)[j + 1]);
            }
            assert(actions_v(twins@) =~= short_twins(before).skip(k + 1));
        }
        k = k + 1;
    }
    proof {
        assert(short_twins(before).take(n as int) =~= short_twins(before));
    }
}

/// `s` with every `a` immediately followed by `b` replaced by `c`, scanning left
/// to right without overlaps (what `str::replace` does for a two-character pattern).
pub open spec fn replace_pair(s: Seq<char>, a: char, b: char, c: char) -> Seq<char>
    decreases s.len(),
{
    if s.len() == 0 {
        s
    } else if s.len() >= 2 && s[0] == a && s[1] == b {
        seq![c] + replace_pair(s.skip(2), a, b, c)
    } else {
        seq![s[0]] + replace_pair(s.skip(1), a, b, c)
    }
}

/// A JSON pointer token with its escapes undone: `~1` is `/`, then `~0` is `~`.
pub open spec fn unescape_token(t: Seq<char>) -> Seq<char> {
    replace_pair(replace_pair(t, '~', '1', '/'), '~', '0', '~')
}

/// The array slot a pointer token names in an array of `len` elements: decimal
/// digits without a leading zero (but `0` itself), below `len`.
pub open spec fn array_slot(t: Seq<char>, len: nat) -> Option<int> {
    if t.len() > 0 && all_digits(t) && !(t[0] == '0' && t.len() != 1) && decimal_value(t) < len {
        Some(decimal_value(t))
    } else {
        None
    }
}

/// `v` placed at the position that the rest of a JSON pointer names inside `j`,
/// where `rest` is the pointer after its first `/`: each `/`-separated token,
/// unescaped, selects an object member or an array slot. `None` where a token
/// selects nothing.
pub open spec fn set_at(j: JsonV, rest: Seq<char>, v: JsonV) -> Option<JsonV>
    decreases rest.len(),
{
    let slash = first_index_of(rest, '/');
    let tok = unescape_token(
        match slash {
            Some(k) => rest.take(k),
            None => rest,
        },
    );
    match j {
        JsonV::Obj(m) => match key_index(m, tok) {
            Some(i) => {
                let inner = match slash {
                    Some(k) => if 0 <= k < rest.len() {
                        set_at(m[i].1, rest.skip(k + 1), v)
                    } else {
                        None
                    },
                    None => Some(v),
                };
                match inner {
                    Some(x) => Some(JsonV::Obj(m.update(i, (m[i].0, x)))),
                    None => None,
                }
            },
            None => None,
        },
        JsonV::Arr(xs) => match array_slot(tok, xs.len()) {
            Some(i) => {
                let inner = match slash {
                    Some(k) => if 0 <= k < rest.len() {
                        set_at(xs[i], rest.skip(k + 1), v)
                    } else {
                        None
                    },
                    None => Some(v),
                };
                match inner {
                    Some(x) => Some(JsonV::Arr(xs.update(i, x))),
                    None => None,
                }
            },
            None => None,
        },
        _ => None,
    }
}

proof fn lemma_first_index_bounds(s: Seq<char>, c: char)
    ensures
        first_index_of(s, c) matches Some(k) ==> 0 <= k < s.len() && s[k] == c,
{
    if exists|k: int| crate::text::is_first_index(s, c, k) {
        let k = choose|k: int| crate::text::is_first_index(s, c, k);
        assert(crate::text::is_first_index(s, c, k));
    }
}

/// `replace_pair` on `v[lo..hi]`.
fn replace_pair_exec(v: &Vec<char>, lo: usize, hi: usize, a: char, b: char, c: char) -> (r: Vec<char>)
    requires
        lo <= hi <= v.len(),
    ensures
        r@ == replace_pair(v@.subrange(lo as int, hi as int), a, b, c),
{
    let ghost s = v@.subrange(lo as int, hi as int);
    let mut out: Vec<char> = Vec::new();
    let mut i = lo;
    while i < hi
        invariant
            lo <= i <= hi <= v.len(),
            s == v@.subrange(lo as int, hi as int),
            replace_pair(s, a, b, c) == out@ + replace_pair(v@.subrange(i as int, hi as int), a, b, c),
        decreases hi - i,
    {
        let ghost t = v@.subrange(i as int, hi as int);
        if i + 1 < hi && v[i] == a && v[i + 1] == b {
            proof {
                assert(t[0] == a && t[1] == b);
                assert(t.skip(2) =~= v@.subrange(i + 2, hi as int));
                assert(out@.push(c) + replace_pair(t.skip(2), a, b, c) =~= out@ + (seq![c] + replace_pair(t.skip(2), a, b, c)));
            }
            out.push(c);
            i = i + 2;
        } else {
            let x = v[i];
            proof {
                assert(t[0] == x);
                assert(t.len() >= 2 ==> t[1] == v@[i + 1]);
                assert(t.skip(1) =~= v@.subrange(i + 1, hi as int));
                assert(out@.push(x) + replace_pair(t.skip(1), a, b, c) =~= out@ + (seq![x] + replace_pair(t.skip(1), a, b, c)));
            }
            out.push(x);
            i = i + 1;
        }
    }
    proof {
        assert(v@.subrange(hi as int, hi as int) =~= Seq::<char>::empty());
        assert(out@ + Seq::<char>::empty() =~= out@);
    }
    out
}

/// `unescape_token` on `v[lo..hi]`.
fn unescape_exec(v: &Vec<char>, lo: usize, hi: usize) -> (r: Vec<char>)
    requires
        lo <= hi <= v.len(),
    ensures
        r@ == unescape_token(v@.subrange(lo as int, hi as int)),
{
    let once = replace_pair_exec(v, lo, hi, '~', '1', '/');
    let n = once.len();
    let r = replace_pair_exec(&once, 0, n, '~', '0', '~');
    proof {
        assert(once@.subrange(0, n as int) =~= once@);
    }
    r
}

/// `array_slot` of a token.
fn array_slot_exec(t: &Vec<char>, len: usize) -> (r: Option<usize>)
    ensures
        match r {
            Some(i) => array_slot(t@, len as nat) == Some(i as int),
            None => array_slot(t@, len as nat) is None,
        },
{
    let n = t.len();
    if n == 0 || (t[0] == '0' && n != 1) || len == 0 {
        proof {
            if n > 0 && all_digits(t@) {
                lemma_decimal_prefix(t@, 0);
            }
        }
        return None;
    }
    let mut acc: usize = 0;
    let mut i: usize = 0;
    while i < n
        invariant
            0 < n == t.len(),
            i <= n,
            !(t@[0] == '0' && n != 1),
            all_digits(t@.take(i as int)),
            acc == decimal_value(t@.take(i as int)),
            acc < len,
        decreases n - i,
    {
        let ch = t[i];
        let ghost pre = t@.take(i as int);
        let ghost next = t@.take(i + 1);
        proof {
            assert(next.drop_last() =~= pre);
            assert(next.last() == ch);
        }
        if !('0' <= ch && ch <= '9') {
            proof {
                assert(!is_digit(t@[i as int]));
            }
            return None;
        }
        let d: usize = (ch as u32 - '0' as u32) as usize;
        proof {
            assert forall|j: int| 0 <= j < next.len() implies is_digit(#[trigger] next[j]) by {
                if j < pre.len() {
                    assert(next[j] == pre[j]);
                }
            }
        }
        if d >= len || acc > (len - 1 - d) / 10 {
            proof {
                assert(decimal_value(next) == acc * 10 + d);
                assert(decimal_value(next) >= len) by (nonlinear_arith)
                    requires
                        decimal_value(next) == acc * 10 + d,
                        acc >= 0,
                        d >= 0,
                        len >= 1,
                        d >= len || acc > (len - 1 - d) / 10,
                ;
                if all_digits(t@) {
                    lemma_decimal_prefix(t@, i + 1);
                }
            }
            return None;
        }
        proof {
            assert(acc * 10 + d < len) by (nonlinear_arith)
                requires
                    acc <= (len - 1 - d) / 10,
                    d < len,
                    acc >= 0,
                    d >= 0,
            ;
        }
        acc = acc * 10 + d;
        i = i + 1;
    }
    proof {
        assert(t@.take(n as int) =~= t@);
    }
    Some(acc)
}

/// Place `v` where the pointer rest `path[lo..]` leads inside `j` (see `set_at`).
pub fn set_at_exec(j: &Json, path: &Vec<char>, lo: usize, v: Json) -> (r: Option<Json>)
    requires
        lo <= path.len(),
    ensures
        match r {
            Some(x) => set_at(jv(*j), path@.skip(lo as int), jv(v)) == Some(jv(x)),
            None => set_at(jv(*j), path@.skip(lo as int), jv(v)) is None,
        },
    decreases path.len() - lo,
{
    let ghost rest = path@.skip(lo as int);
    let ghost vv = jv(v);
    let n = path.len();
    let slash = find_char(path, lo, n, '/');
    proof {
        assert(path@.subrange(lo as int, n as int) =~= rest);
        lemma_first_index_bounds(rest, '/');
    }
    let tok_end = match slash {
        Some(k) => k,
        None => n,
    };
    let tok = unescape_exec(path, lo, tok_end);
    proof {
        match slash {
            Some(k) => {
                assert(path@.subrange(lo as int, k as int) =~= rest.take(k - lo));
                assert(rest.skip(k - lo + 1) =~= path@.skip(k + 1));
            },
            None => {},
        }
        lemma_jv_unfold(*j);
    }
    match j {
        Json::Obj(m) => {
            let key = string_of(&tok, 0, tok.len());
            proof {
                assert(tok@.subrange(0, tok.len() as int) =~= tok@);
            }
            match find_member(m, &key) {
                None => None,
                Some(i) => {
                    let inner = match slash {
                        None => Some(v),
                        Some(k) => {
                            proof {
                                assert(decreases_to!(*j => (*j)->Obj_0));
                                assert(members_v(m@)[i as int].1 == jv(m@[i as int].1));
                            }
                            set_at_exec(&m[i].1, path, k + 1, v)
                        },
                    };
                    match inner {
                        None => None,
                        Some(x) => {
                            let ghost xv = jv(x);
                            let mut mm = copy_members(m);
                            let name = m[i].0.clone();
                            let _ = mm.remove(i);
                            mm.insert(i, (name, x));
                            let r = Json::Obj(mm);
                            proof {
                                lemma_jv_unfold(r);
                                assert(members_v(mm@) =~= members_v(m@).update(i as int, (members_v(m@)[i as int].0, xv)));
                            }
                            Some(r)
                        },
                    }
                },
            }
        },
        Json::Arr(xs) => {
            match array_slot_exec(&tok, xs.len()) {
                None => None,
                Some(i) => {
                    let inner = match slash {
                        None => Some(v),
                        Some(k) => {
                            proof {
                                assert(decreases_to!(*j => (*j)->Arr_0));
                            }
                            set_at_exec(&xs[i], path, k + 1, v)
                        },
                    };
                    match inner {
                        None => None,
                        Some(x) => {
                            let ghost xv = jv(x);
                            let mut out: Vec<Json> = Vec::new();
                            let mut q: usize = 0;
                            while q < xs.len()
                                invariant
                                    q <= xs.len(),
                                    out@.len() == q,
                                    forall|p: int| 0 <= p < q && p != i ==> jv(#[trigger] out@[p]) == jv(xs@[p]),
                                decreases xs.len() - q,
                            {
                                out.push(copy_json(&xs[q]));
                                q = q + 1;
                            }
                            let _ = out.remove(i);
                            out.insert(i, x);
                            let r = Json::Arr(out);
                            proof {
                                lemma_jv_unfold(r);
                                assert(arr_v(out@) =~= arr_v(xs@).update(i as int, xv));
                            }
                            Some(r)
                        },
                    }
                },
            }
        },
        _ => None,
    }
}

/// What setting one action parameter came to.
#[derive(Debug, Clone, Copy, PartialEq, Eq, Structural)]
pub enum ParamOutcome {
    /// The parameter was set.
    Applied,
    /// No action has the given id.
    NoAction,
    /// The action has no parameter named by the path's first part.
    NoParam,
    /// The rest of the path leads nowhere inside that parameter.
    NoPath,
}

/// `i` is the position of the first action with id `id`.
pub open spec fn is_action_index(s: Seq<ActionV>, id: Seq<char>, i: int) -> bool {
    &&& 0 <= i < s.len()
    &&& s[i].instance_id == id
    &&& forall|j: int| 0 <= j < i ==> s[j].instance_id != id
}

/// The position of the first action with id `id`, if any.
pub open spec fn action_index(s: Seq<ActionV>, id: Seq<char>) -> Option<int> {
    if exists|i: int| is_action_index(s, id, i) {
        Some(choose|i: int| is_action_index(s, id, i))
    } else {
        None
    }
}

/// A parameter list after `path` is set to `v`: without `/` the path names a
/// parameter that is set (or added); otherwise its first part names an existing
/// parameter, and the rest is a JSON pointer into it.
pub open spec fn param_update(p: Seq<(Seq<char>, JsonV)>, path: Seq<char>, v: JsonV) -> (
    ParamOutcome,
    Seq<(Seq<char>, JsonV)>,
) {
    match split_once(path, '/') {
        None => (ParamOutcome::Applied, with_member(p, path, v)),
        Some((key, rest)) => match key_index(p, key) {
            None => (ParamOutcome::NoParam, p),
            Some(i) => match set_at(p[i].1, rest, v) {
                Some(x) => (ParamOutcome::Applied, p.update(i, (p[i].0, x))),
                None => (ParamOutcome::NoPath, p),
            },
        },
    }
}

/// The actions after parameter `path` of the first action with id `id` is set
/// to `v`, and what that came to; where it was not set, the actions are unchanged.
pub open spec fn set_param_spec(s: Seq<ActionV>, id: Seq<char>, path: Seq<char>, v: JsonV) -> (
    ParamOutcome,
    Seq<ActionV>,
) {
    match action_index(s, id) {
        None => (ParamOutcome::NoAction, s),
        Some(i) => {
            let (o, p) = param_update(s[i].params, path, v);
            if o == ParamOutcome::Applied {
                (o, s.update(i, ActionV { params: p, ..s[i] }))
            } else {
                (o, s)
            }
        },
    }
}

proof fn lemma_action_index(s: Seq<ActionV>, id: Seq<char>, i: int)
    requires
        is_action_index(s, id, i),
    ensures
        action_index(s, id) == Some(i),
{
    let c = choose|c: int| is_action_index(s, id, c);
    assert(is_action_index(s, id, c));
    if c < i {
        assert(s[c].instance_id != id);
    } else if i < c {
        assert(s[i].instance_id != id);
    }
}

/// Set parameter `path` of the first action with id `id` to `v` (see `param_update`).
pub fn set_action_param(actions: &mut Vec<ActionCfg>, id: &String, path: &String, v: Json) -> (r: ParamOutcome)
    ensures
        (r, actions_v(final(actions)@)) == set_param_spec(actions_v(old(actions)@), id@, path@, jv(v)),
{
    let ghost before = actions_v(actions@);
    let ghost vv = jv(v);
    let mut i: usize = 0;
    while i < actions.len() && actions[i].instance_id != *id
        invariant
            i <= actions.len(),
            before == actions_v(actions@),
            forall|j: int| 0 <= j < i ==> before[j].instance_id != id@,
        decreases actions.len() - i,
    {
        i = i + 1;
    }
    if i == actions.len() {
        proof {
            if exists|c: int| is_action_index(before, id@, c) {
                let c = choose|c: int| is_action_index(before, id@, c);
                assert(before[c].instance_id == id@);
            }
        }
        return ParamOutcome::NoAction;
    }
    proof {
        lemma_action_index(before, id@, i as int);
    }
    let pv = chars_of(path.as_str());
    let n = pv.len();
    let slash = find_char(&pv, 0, n, '/');
    proof {
        assert(pv@.subrange(0, n as int) =~= path@);
    }
    let ghost old_params = members_v(actions@[i as int].params@);
    let mut a = actions.remove(i);
    let outcome = match slash {
        None => {
            set_member(&mut a.params, string_of(&pv, 0, n), v);
            ParamOutcome::Applied
        },
        Some(k) => {
            let key = string_of(&pv, 0, k);
            proof {
                assert(path@.take(k as int) =~= pv@.subrange(0, k as int));
            }
            match find_member(&a.params, &key) {
                None => ParamOutcome::NoParam,
                Some(pi) => {
                    proof {
                        assert(path@.skip(k + 1) =~= pv@.skip(k + 1));
                    }
                    match set_at_exec(&a.params[pi].1, &pv, k + 1, v) {
                        None => ParamOutcome::NoPath,
                        Some(x) => {
                            let ghost xv = jv(x);
                            let name = a.params[pi].0.clone();
                            let ghost p0 = a.params@;
                            let _ = a.params.remove(pi);
                            a.params.insert(pi, (name, x));
                            proof {
                                assert(members_v(a.params@) =~= members_v(p0).update(pi as int, (members_v(p0)[pi as int].0, xv)));
                            }
                            ParamOutcome::Applied
                        },
                    }
                },
            }
        },
    };
    actions.insert(i, a);
    proof {
        let (o, p) = param_update(old_params, path@, vv);
        assert(o == outcome);
        if outcome == ParamOutcome::Applied {
            assert(actions_v(actions@) =~= before.update(i as int, ActionV { params: p, ..before[i as int] }));
        } else {
            assert(actions_v(actions@) =~= before);
        }
    }
    outcome
}

/// A research patch: actions it turns off (a JSON array whose string elements are
/// ids; anything else turns nothing off), and the actions and indicators it
/// appends.
#[derive(Debug)]
pub struct ActionPatch {
    pub disable: Json,
    pub actions: Vec<ActionCfg>,
    pub indicators: Vec<crate::indicator_cfg::IndicatorCfg>,
}

/// Does the patch's disable list name `id`?
pub open spec fn patch_disables(d: JsonV, id: Seq<char>) -> bool {
    match d {
        JsonV::Arr(xs) => exists|i: int| 0 <= i < xs.len() && xs[i] == JsonV::Str(id),
        _ => false,
    }
}

/// The actions after a patch: those it names turned off, then its actions appended.
pub open spec fn patched(s: Seq<ActionV>, d: JsonV, add: Seq<ActionV>) -> Seq<ActionV> {
    Seq::new(
        s.len(),
        |i: int|
            if patch_disables(d, s[i].instance_id) {
                with_enabled(s[i], false)
            } else {
                s[i]
            },
    ) + add
}

fn patch_disables_exec(d: &Json, id: &String) -> (b: bool)
    ensures
        b == patch_disables(jv(*d), id@),
{
    proof {
        lemma_jv_unfold(*d);
    }
    match d {
        Json::Arr(xs) => {
            let mut i: usize = 0;
            while i < xs.len()
                invariant
                    i <= xs.len(),
                    jv(*d) == JsonV::Arr(arr_v(xs@)),
                    forall|j: int| 0 <= j < i ==> arr_v(xs@)[j] != JsonV::Str(id@),
                decreases xs.len() - i,
            {
                let hit = match &xs[i] {
                    Json::Str(x) => *x == *id,
                    _ => false,
                };
                if hit {
                    proof {
                        assert(arr_v(xs@)[i as int] == JsonV::Str(id@));
                    }
                    return true;
                }
                i = i + 1;
            }
            false
        },
        _ => false,
    }
}

/// Apply a research patch: turn off the actions it names, then append its actions.
pub fn apply_patch(actions: &mut Vec<ActionCfg>, patch: &ActionPatch)
    ensures
        actions_v(final(actions)@) == patched(actions_v(old(actions)@), jv(patch.disable), actions_v(patch.actions@)),
{
    let ghost before = actions_v(actions@);
    let ghost d = jv(patch.disable);
    let mut i: usize = 0;
    while i < actions.len()
        invariant
            i <= actions.len(),
            actions.len() == before.len(),
            d == jv(patch.disable),
            forall|j: int| 0 <= j < i ==> av(#[trigger] actions@[j]) == (if patch_disables(d, before[j].instance_id) {
                with_enabled(before[j], false)
            } else {
                before[j]
            }),
            forall|j: int| i <= j < actions.len() ==> av(#[trigger] actions@[j]) == before[j],
        decreases actions.len() - i,
    {
        if patch_disables_exec(&patch.disable, &actions[i].instance_id) {
            let mut a = actions.remove(i);
            a.enabled = false;
            actions.insert(i, a);
        }
        i = i + 1;
    }
    let ghost kept = actions_v(actions@);
    let mut k: usize = 0;
    while k < patch.actions.len()
        invariant
            k <= patch.actions.len(),
            actions_v(actions@) == kept + actions_v(patch.actions@).take(k as int),
        decreases patch.actions.len() - k,
    {
        let a = copy_action(&patch.actions[k]);
        let ghost a0 = actions@;
        actions.push(a);
        proof {
            assert(actions_v(actions@) =~= actions_v(a0).push(av(a)));
            assert(actions_v(patch.actions@).take(k + 1) =~= actions_v(patch.actions@).take(k as int).push(av(a)));
        }
        k = k + 1;
    }
    proof {
        assert(actions_v(patch.actions@).take(patch.actions.len() as int) =~= actions_v(patch.actions@));
        assert(actions_v(actions@) =~= patched(before, d, actions_v(patch.actions@)));
    }
}

/// The overrides a research run applies to a strategy's actions, in this order:
/// a new sizing fraction; dropping volatility-scaled sizing (fixed-fractional
/// sizing is turned on instead); profit-extension and loss-reduction times of the
/// max-hold timeouts; score-scaled sizing in place of the other sizing actions;
/// the entry threshold of the score-threshold entries; then the disable list and
/// the enable list switch actions by id; with `mirror_short`, every enabled long
/// entry window and entry reject gate gets a sign-mirrored short twin (with
/// `short_only`, the long entry windows are turned off); each patch turns off and
/// appends actions; each `(id, path, value)` sets one parameter of the first
/// action with that id; the max-hold timeouts get their hold overrides; a profit
/// trailing stop is added; last, with `use_entry_windows`, the score-threshold
/// entries give way to a reject gate and three long entry windows. Numbers are
/// JSON values as written.
#[derive(Debug)]
pub struct ActionOverrides {
    pub sizing_fraction: Option<Json>,
    pub no_vol_sizing: bool,
    pub profit_extension_ms: Option<Json>,
    pub loss_reduction_ms: Option<Json>,
    pub score_scaled_sizing: bool,
    pub score_scaled_min: Option<Json>,
    pub score_scaled_max: Option<Json>,
    pub entry_threshold: Option<Json>,
    pub disable_actions: Vec<String>,
    pub enable_actions: Vec<String>,
    pub mirror_short: bool,
    pub short_only: bool,
    pub patches: Vec<ActionPatch>,
    pub set_action_params: Vec<(String, String, Json)>,
    pub max_hold_ms: Option<Json>,
    pub hold_score_gate: Option<Json>,
    pub hold_tiers: Vec<(Json, Json)>,
    pub add_profit_trail: Option<Json>,
    pub profit_trail_min: Option<Json>,
    pub use_entry_windows: bool,
    pub windows: EntryWindowOverrides,
}

/// The patches, each as its disable list and its appended actions.
pub open spec fn patches_v(ps: Seq<ActionPatch>) -> Seq<(JsonV, Seq<ActionV>)> {
    Seq::new(ps.len(), |i: int| (jv(ps[i].disable), actions_v(ps[i].actions@)))
}

/// The parameter settings, each as id, path and value.
pub open spec fn settings_v(ps: Seq<(String, String, Json)>) -> Seq<(Seq<char>, Seq<char>, JsonV)> {
    Seq::new(ps.len(), |i: int| (ps[i].0@, ps[i].1@, jv(ps[i].2)))
}

/// The actions after each patch in turn.
pub open spec fn patched_all(s: Seq<ActionV>, ps: Seq<(JsonV, Seq<ActionV>)>) -> Seq<ActionV>
    decreases ps.len(),
{
    if ps.len() == 0 {
        s
    } else {
        patched(patched_all(s, ps.drop_last()), ps.last().0, ps.last().1)
    }
}

/// The actions after each parameter setting in turn, and what each came to.
pub open spec fn set_params_all(s: Seq<ActionV>, ps: Seq<(Seq<char>, Seq<char>, JsonV)>) -> (
    Seq<ParamOutcome>,
    Seq<ActionV>,
)
    decreases ps.len(),
{
    if ps.len() == 0 {
        (Seq::empty(), s)
    } else {
        let (outs, s1) = set_params_all(s, ps.drop_last());
        let (o, s2) = set_param_spec(s1, ps.last().0, ps.last().1, ps.last().2);
        (outs.push(o), s2)
    }
}

/// The actions after the overrides that come before switching.
pub open spec fn before_switch(o: ActionOverrides, s: Seq<ActionV>) -> Seq<ActionV> {
    let s1 = match o.sizing_fraction {
        Some(f) => Seq::new(s.len(), |i: int| sized(s[i], jv(f))),
        None => s,
    };
    let s2 = if o.no_vol_sizing {
        type_enabled(without_type(s1, "volatility_scaled"@), "fixed_fractional"@)
    } else {
        s1
    };
    let s3 = match o.profit_extension_ms {
        Some(v) => param_of_type(s2, "max_hold_timeout"@, "profit_extension_ms"@, jv(v)),
        None => s2,
    };
    let s4 = match o.loss_reduction_ms {
        Some(v) => param_of_type(s3, "max_hold_timeout"@, "loss_reduction_ms"@, jv(v)),
        None => s3,
    };
    let s5 = if o.score_scaled_sizing {
        phase_disabled(s4, ActionPhase::Sizing).push(
            score_scaled_action(
                match o.score_scaled_min {
                    Some(j) => jv(j),
                    None => float_json(SCORE_SCALED_MIN_BITS),
                },
                match o.score_scaled_max {
                    Some(j) => jv(j),
                    None => float_json(SCORE_SCALED_MAX_BITS),
                },
            ),
        )
    } else {
        s4
    };
    match o.entry_threshold {
        Some(v) => param_of_type(s5, "score_threshold_entry"@, "entry_threshold"@, jv(v)),
        None => s5,
    }
}

/// The actions after the hold overrides and the profit trailing stop.
pub open spec fn after_settings(o: ActionOverrides, s: Seq<ActionV>) -> Seq<ActionV> {
    let s1 = held(s, opt_jv(o.max_hold_ms), opt_jv(o.hold_score_gate), tiers_v(o.hold_tiers@));
    let s2 = match o.add_profit_trail {
        Some(g) => s1.push(
            profit_trail_action(
                jv(g),
                match o.profit_trail_min {
                    Some(j) => jv(j),
                    None => float_json(PROFIT_TRAIL_MIN_BITS),
                },
            ),
        ),
        None => s1,
    };
    if o.use_entry_windows {
        with_entry_windows(s2, o.windows)
    } else {
        s2
    }
}

/// The actions after all the overrides, and what each parameter setting came to.
pub open spec fn apply_spec(o: ActionOverrides, s: Seq<ActionV>) -> (Seq<ParamOutcome>, Seq<ActionV>) {
    let s0 = before_switch(o, s);
    let s1 = switched_all(s0, names(o.disable_actions@), names(o.enable_actions@));
    let s2 = if o.mirror_short {
        with_short_twins(s1, o.short_only)
    } else {
        s1
    };
    let s3 = patched_all(s2, patches_v(o.patches@));
    let (outs, s4) = set_params_all(s3, settings_v(o.set_action_params@));
    (outs, after_settings(o, s4))
}

/// Does any of these overrides change anything? (`short_only` alone, and a
/// profit-trail minimum alone, change nothing.)
pub open spec fn any_active_spec(o: ActionOverrides) -> bool {
    ||| o.sizing_fraction is Some
    ||| o.no_vol_sizing
    ||| o.profit_extension_ms is Some
    ||| o.loss_reduction_ms is Some
    ||| o.score_scaled_sizing
    ||| o.score_scaled_min is Some
    ||| o.score_scaled_max is Some
    ||| o.entry_threshold is Some
    ||| o.disable_actions@.len() > 0
    ||| o.enable_actions@.len() > 0
    ||| o.set_action_params@.len() > 0
    ||| o.mirror_short
    ||| o.patches@.len() > 0
    ||| o.max_hold_ms is Some
    ||| o.hold_score_gate is Some
    ||| o.hold_tiers@.len() > 0
    ||| o.add_profit_trail is Some
    ||| o.use_entry_windows
    ||| o.windows.w5_indicator_min is Some
    ||| o.windows.w5_1h_min is Some
    ||| o.windows.w5_composite_min is Some
}

impl ActionOverrides {
    /// Is any of these overrides given?
    pub fn any_active(&self) -> (b: bool)
        ensures
            b == any_active_spec(*self),
    {
        self.sizing_fraction.is_some() || self.no_vol_sizing || self.profit_extension_ms.is_some()
            || self.loss_reduction_ms.is_some() || self.score_scaled_sizing || self.score_scaled_min.is_some()
            || self.score_scaled_max.is_some() || self.entry_threshold.is_some() || !self.disable_actions.is_empty()
            || !self.enable_actions.is_empty() || !self.set_action_params.is_empty() || self.mirror_short
            || !self.patches.is_empty() || self.max_hold_ms.is_some() || self.hold_score_gate.is_some()
            || !self.hold_tiers.is_empty() || self.add_profit_trail.is_some() || self.use_entry_windows
            || self.windows.w5_indicator_min.is_some() || self.windows.w5_1h_min.is_some()
            || self.windows.w5_composite_min.is_some()
    }
}

/// Apply the overrides to the actions (see `ActionOverrides`); the result tells,
/// for each parameter setting in order, what it came to.
pub fn apply_overrides(o: &ActionOverrides, actions: &mut Vec<ActionCfg>) -> (r: Vec<ParamOutcome>)
    ensures
        (r@, actions_v(final(actions)@)) == apply_spec(*o, actions_v(old(actions)@)),
{
    if let Some(f) = &o.sizing_fraction {
        size_actions(actions, f);
    }
    if o.no_vol_sizing {
        drop_type(actions, "volatility_scaled");
        enable_type(actions, "fixed_fractional");
    }
    if let Some(v) = &o.profit_extension_ms {
        set_param_on_type(actions, "max_hold_timeout", "profit_extension_ms", v);
    }
    if let Some(v) = &o.loss_reduction_ms {
        set_param_on_type(actions, "max_hold_timeout", "loss_reduction_ms", v);
    }
    if o.score_scaled_sizing {
        disable_phase(actions, ActionPhase::Sizing);
        let a = score_scaled_exec(&o.score_scaled_min, &o.score_scaled_max);
        push_av(actions, a);
    }
    if let Some(v) = &o.entry_threshold {
        set_param_on_type(actions, "score_threshold_entry", "entry_threshold", v);
    }
    switch_actions(actions, &o.disable_actions, &o.enable_actions);
    if o.mirror_short {
        add_short_twins(actions, o.short_only);
    }
    let ghost s2 = actions_v(actions@);
    let mut p: usize = 0;
    while p < o.patches.len()
        invariant
            p <= o.patches.len(),
            actions_v(actions@) == patched_all(s2, patches_v(o.patches@).take(p as int)),
        decreases o.patches.len() - p,
    {
        apply_patch(actions, &o.patches[p]);
        proof {
            assert(patches_v(o.patches@).take(p + 1).drop_last() =~= patches_v(o.patches@).take(p as int));
        }
        p = p + 1;
    }
    proof {
        assert(patches_v(o.patches@).take(o.patches.len() as int) =~= patches_v(o.patches@));
    }
    let ghost s3 = actions_v(actions@);
    let mut outs: Vec<ParamOutcome> = Vec::new();
    let mut q: usize = 0;
    while q < o.set_action_params.len()
        invariant
            q <= o.set_action_params.len(),
            (outs@, actions_v(actions@)) == set_params_all(s3, settings_v(o.set_action_params@).take(q as int)),
        decreases o.set_action_params.len() - q,
    {
        let v = copy_json(&o.set_action_params[q].2);
        let out = set_action_param(actions, &o.set_action_params[q].0, &o.set_action_params[q].1, v);
        proof {
            assert(settings_v(o.set_action_params@).take(q + 1).drop_last() =~= settings_v(o.set_action_params@).take(q as int));
        }
        outs.push(out);
        q = q + 1;
    }
    proof {
        assert(settings_v(o.set_action_params@).take(o.set_action_params.len() as int) =~= settings_v(o.set_action_params@));
    }
    hold_actions(actions, &o.max_hold_ms, &o.hold_score_gate, &o.hold_tiers);
    if let Some(g) = &o.add_profit_trail {
        let a = profit_trail_exec(g, &o.profit_trail_min);
        push_av(actions, a);
    }
    if o.use_entry_windows {
        add_entry_windows(actions, &o.windows);
    }
    outs
}

/// Overrides that are not active leave the actions as they are, and set no parameter.
pub proof fn lemma_inactive_is_identity(o: ActionOverrides, s: Seq<ActionV>)
    requires
        !any_active_spec(o),
    ensures
        apply_spec(o, s) == (Seq::<ParamOutcome>::empty(), s),
{
    assert(before_switch(o, s) == s);
    assert(names(o.disable_actions@) =~= Seq::<Seq<char>>::empty());
    assert(names(o.enable_actions@) =~= Seq::<Seq<char>>::empty());
    assert(switched_all(s, Seq::empty(), Seq::empty()) =~= s);
    assert(patches_v(o.patches@).len() == 0);
    assert(settings_v(o.set_action_params@).len() == 0);
    assert(tiers_v(o.hold_tiers@) =~= Seq::<(JsonV, JsonV)>::empty());
    assert forall|i: int| 0 <= i < s.len() implies held(s, None, None, Seq::empty())[i] == s[i] by {
        assert(hold_params(s[i].params, None, None, Seq::empty()) == s[i].params);
    }
    assert(held(s, None, None, Seq::empty()) =~= s);
}

/// After switching, an action named in the enable list is on; one named only in
/// the disable list is off; any other is unchanged.
pub proof fn lemma_switch_lists(s: Seq<ActionV>, disable: Seq<Seq<char>>, enable: Seq<Seq<char>>, i: int)
    requires
        0 <= i < s.len(),
    ensures
        switched_all(s, disable, enable).len() == s.len(),
        enable.contains(s[i].instance_id) ==> switched_all(s, disable, enable)[i].enabled,
        !enable.contains(s[i].instance_id) && disable.contains(s[i].instance_id) ==> !switched_all(
            s,
            disable,
            enable,
        )[i].enabled,
        !enable.contains(s[i].instance_id) && !disable.contains(s[i].instance_id) ==> switched_all(
            s,
            disable,
            enable,
        )[i] == s[i],
        switched_all(s, disable, enable)[i].instance_id == s[i].instance_id,
{
}

/// With `short_only`, no original entry window stays on, every original keeps
/// its place and id, and the twins follow the originals.
pub proof fn lemma_short_only_turns_long_windows_off(s: Seq<ActionV>, i: int)
    requires
        0 <= i < s.len(),
    ensures
        with_short_twins(s, true).len() == s.len() + short_twins(s).len(),
        with_short_twins(s, true)[i].instance_id == s[i].instance_id,
        s[i].action_type == "entry_window"@ ==> !with_short_twins(s, true)[i].enabled,
        s[i].action_type != "entry_window"@ ==> with_short_twins(s, true)[i] == s[i],
        forall|j: int| 0 <= j < short_twins(s).len() ==> with_short_twins(s, true)[s.len() + j] == short_twins(s)[j],
{
}

/// The parts of a `--set-action-param` value `ID:PATH=VALUE`: the id before the
/// first `:`, then the path before the first `=` after it, and the value text.
pub open spec fn param_setting_parts(s: Seq<char>) -> Option<(Seq<char>, Seq<char>, Seq<char>)> {
    match split_once(s, ':') {
        Some((id, kv)) => match split_once(kv, '=') {
            Some((path, raw)) => Some((id, path, raw)),
            None => None,
        },
        None => None,
    }
}

/// Split a `--set-action-param` value `ID:PATH=VALUE` into id, path and value text.
pub fn split_param_setting(spec: &str) -> (r: Option<(String, String, String)>)
    ensures
        match r {
            Some((id, path, raw)) => param_setting_parts(spec@) == Some((id@, path@, raw@)),
            None => param_setting_parts(spec@) is None,
        },
{
    let v = chars_of(spec);
    let n = v.len();
    proof {
        assert(v@.subrange(0, n as int) =~= spec@);
    }
    let colon = match find_char(&v, 0, n, ':') {
        Some(c) => c,
        None => return None,
    };
    let ghost kv = spec@.skip(colon + 1);
    proof {
        assert(v@.subrange(colon + 1, n as int) =~= kv);
    }
    let eq = match find_char(&v, colon + 1, n, '=') {
        Some(e) => e,
        None => return None,
    };
    proof {
        assert(kv.take(eq - colon - 1) =~= v@.subrange(colon + 1, eq as int));
        assert(kv.skip(eq - colon) =~= v@.subrange(eq + 1, n as int));
        assert(spec@.take(colon as int) =~= v@.subrange(0, colon as int));
    }
    Some((string_of(&v, 0, colon), string_of(&v, colon + 1, eq), string_of(&v, eq + 1, n)))
}

/// Append the decimal text of `n`.
pub fn push_decimal(s: &mut String, n: u64)
    ensures
        final(s)@ == old(s)@ + dec_text(n as nat),
    decreases n,
{
    if n >= 10 {
        push_decimal(s, n / 10);
    }
    let d: u8 = (n % 10) as u8;
    let c = (48u8 + d) as char;
    let ghost mid = s@;
    s.push(c);
    proof {
        assert(c == digit_char((n % 10) as int));
        if n >= 10 {
            assert(s@ =~= old(s)@ + dec_text(n as nat));
        } else {
            assert(s@ =~= old(s)@ + dec_text(n as nat));
        }
    }
}

/// A floating JSON number with these `f64` bits.
pub open spec fn float_json(bits: u64) -> JsonV {
    float_num(bits)
}

fn float_value(bits: u64) -> (r: Json)
    ensures
        jv(r) == float_json(bits),
{
    Json::Num(JsonNum { repr: NumRepr::Float(bits), f64_bits: bits })
}

/// `f64` bits of 0.03, 0.06 and 0.58: the default bounds and threshold of
/// score-scaled sizing; and of 0.0005, the default minimum profit of the profit
/// trailing stop.
pub const SCORE_SCALED_MIN_BITS: u64 = 0x3f9e_b851_eb85_1eb8;
pub const SCORE_SCALED_MAX_BITS: u64 = 0x3fae_b851_eb85_1eb8;
pub const SCORE_SCALED_THRESHOLD_BITS: u64 = 0x3fe2_8f5c_28f5_c28f;
pub const PROFIT_TRAIL_MIN_BITS: u64 = 0x3f40_624d_d2f1_a9fc;

/// The action with parameter `k` set to `v`.
pub open spec fn with_param(a: ActionV, k: Seq<char>, v: JsonV) -> ActionV {
    ActionV { params: with_member(a.params, k, v), ..a }
}

/// A sizing action with a `fraction` parameter gets the new fraction and is
/// turned on; one with a `base_fraction` parameter gets it there.
pub open spec fn sized(a: ActionV, f: JsonV) -> ActionV {
    if a.phase == ActionPhase::Sizing {
        let a1 = if member(a.params, "fraction"@) is Some {
            with_enabled(with_param(a, "fraction"@, f), true)
        } else {
            a
        };
        if member(a1.params, "base_fraction"@) is Some {
            with_param(a1, "base_fraction"@, f)
        } else {
            a1
        }
    } else {
        a
    }
}

/// Every action of type `t` with parameter `k` set to `v`.
pub open spec fn param_of_type(s: Seq<ActionV>, t: Seq<char>, k: Seq<char>, v: JsonV) -> Seq<ActionV> {
    Seq::new(s.len(), |i: int| if s[i].action_type == t { with_param(s[i], k, v) } else { s[i] })
}

/// The actions other than those of type `t`, in order.
pub open spec fn without_type(s: Seq<ActionV>, t: Seq<char>) -> Seq<ActionV>
    decreases s.len(),
{
    if s.len() == 0 {
        s
    } else if s.last().action_type == t {
        without_type(s.drop_last(), t)
    } else {
        without_type(s.drop_last(), t).push(s.last())
    }
}

/// Every action of type `t` turned on.
pub open spec fn type_enabled(s: Seq<ActionV>, t: Seq<char>) -> Seq<ActionV> {
    Seq::new(s.len(), |i: int| if s[i].action_type == t { with_enabled(s[i], true) } else { s[i] })
}

/// Every action of phase `ph` turned off.
pub open spec fn phase_disabled(s: Seq<ActionV>, ph: ActionPhase) -> Seq<ActionV> {
    Seq::new(s.len(), |i: int| if s[i].phase == ph { with_enabled(s[i], false) } else { s[i] })
}

/// An action the research run adds: typed, named, on, with its parameters, last
/// changed by `backtest_cli` for `reason`.
pub open spec fn cli_action(t: Seq<char>, id: Seq<char>, ph: ActionPhase, priority: i32, params: Seq<(Seq<char>, JsonV)>, reason: Seq<char>) -> ActionV {
    ActionV {
        action_type: t,
        instance_id: id,
        phase: ph,
        enabled: true,
        priority,
        params,
        last_modified_by: Some("backtest_cli"@),
        last_modified_at: None,
        modification_reason: Some(reason),
    }
}

/// The score-scaled sizing action, with its fraction bounds.
pub open spec fn score_scaled_action(min: JsonV, max: JsonV) -> ActionV {
    cli_action(
        "score_scaled"@,
        "sizing_score"@,
        ActionPhase::Sizing,
        0,
        seq![("min_fraction"@, min), ("max_fraction"@, max), ("entry_threshold"@, float_json(SCORE_SCALED_THRESHOLD_BITS))],
        "CLI override for testing"@,
    )
}

/// The profit trailing stop action.
pub open spec fn profit_trail_action(giveback: JsonV, min_profit: JsonV) -> ActionV {
    cli_action(
        "profit_trailing_stop"@,
        "profit_trail"@,
        ActionPhase::Exit,
        2,
        seq![("giveback_fraction"@, giveback), ("min_profit_pct"@, min_profit)],
        "CLI override: profit trailing stop"@,
    )
}

/// The parameters of a max-hold timeout after the profit tiers from the `k`-th
/// on are set: tier `i + 1` gets `tier{i+1}_pnl_pct` and `tier{i+1}_extension_ms`.
pub open spec fn with_tiers(p: Seq<(Seq<char>, JsonV)>, tiers: Seq<(JsonV, JsonV)>) -> Seq<(Seq<char>, JsonV)>
    decreases tiers.len(),
{
    if tiers.len() == 0 {
        p
    } else {
        let n = tiers.len() as nat;
        let q = with_tiers(p, tiers.drop_last());
        with_member(
            with_member(q, "tier"@ + dec_text(n) + "_pnl_pct"@, tiers.last().0),
            "tier"@ + dec_text(n) + "_extension_ms"@,
            tiers.last().1,
        )
    }
}

fn param_present(p: &Vec<(String, Json)>, k: &str) -> (b: bool)
    ensures
        b == member(members_v(p@), k@) is Some,
{
    find_member(p, &String::from_str(k)).is_some()
}

/// The sizing fraction applied to each action (see `sized`).
fn size_actions(actions: &mut Vec<ActionCfg>, f: &Json)
    ensures
        actions_v(final(actions)@) == Seq::new(old(actions)@.len(), |i: int| sized(actions_v(old(actions)@)[i], jv(*f))),
{
    let ghost before = actions_v(actions@);
    let mut i: usize = 0;
    while i < actions.len()
        invariant
            i <= actions.len(),
            actions.len() == before.len(),
            forall|j: int| 0 <= j < i ==> av(#[trigger] actions@[j]) == sized(before[j], jv(*f)),
            forall|j: int| i <= j < actions.len() ==> av(#[trigger] actions@[j]) == before[j],
        decreases actions.len() - i,
    {
        if actions[i].phase == ActionPhase::Sizing {
            let mut a = actions.remove(i);
            let ghost a0 = av(a);
            if param_present(&a.params, "fraction") {
                set_member(&mut a.params, String::from_str("fraction"), copy_json(f));
                a.enabled = true;
            }
            let ghost a1 = av(a);
            proof {
                assert(a1 == (if member(a0.params, "fraction"@) is Some {
                    with_enabled(with_param(a0, "fraction"@, jv(*f)), true)
                } else {
                    a0
                }));
            }
            if param_present(&a.params, "base_fraction") {
                set_member(&mut a.params, String::from_str("base_fraction"), copy_json(f));
            }
            actions.insert(i, a);
        }
        i = i + 1;
    }
    proof {
        assert(actions_v(actions@) =~= Seq::new(before.len(), |i: int| sized(before[i], jv(*f))));
    }
}

/// Every action of type `t` gets parameter `k` set to `v`.
fn set_param_on_type(actions: &mut Vec<ActionCfg>, t: &str, k: &str, v: &Json)
    ensures
        actions_v(final(actions)@) == param_of_type(actions_v(old(actions)@), t@, k@, jv(*v)),
{
    let ghost before = actions_v(actions@);
    let ts = String::from_str(t);
    let mut i: usize = 0;
    while i < actions.len()
        invariant
            i <= actions.len(),
            actions.len() == before.len(),
            ts@ == t@,
            forall|j: int| 0 <= j < i ==> av(#[trigger] actions@[j]) == param_of_type(before, t@, k@, jv(*v))[j],
            forall|j: int| i <= j < actions.len() ==> av(#[trigger] actions@[j]) == before[j],
        decreases actions.len() - i,
    {
        if actions[i].action_type == ts {
            let mut a = actions.remove(i);
            set_member(&mut a.params, String::from_str(k), copy_json(v));
            actions.insert(i, a);
        }
        i = i + 1;
    }
    proof {
        assert(actions_v(actions@) =~= param_of_type(before, t@, k@, jv(*v)));
    }
}

/// Remove the actions of type `t`.
fn drop_type(actions: &mut Vec<ActionCfg>, t: &str)
    ensures
        actions_v(final(actions)@) == without_type(actions_v(old(actions)@), t@),
{
    let ghost before = actions_v(actions@);
    let ts = String::from_str(t);
    let mut kept: Vec<ActionCfg> = Vec::new();
    let mut i: usize = 0;
    while i < actions.len()
        invariant
            i <= actions.len(),
            before == actions_v(actions@),
            ts@ == t@,
            actions_v(kept@) == without_type(before.take(i as int), t@),
        decreases actions.len() - i,
    {
        proof {
            assert(before.take(i + 1).drop_last() =~= before.take(i as int));
            assert(before.take(i + 1).last() == before[i as int]);
        }
        if actions[i].action_type != ts {
            let ghost k0 = kept@;
            let a = copy_action(&actions[i]);
            kept.push(a);
            proof {
                assert(actions_v(kept@) =~= actions_v(k0).push(before[i as int]));
            }
        }
        i = i + 1;
    }
    proof {
        assert(before.take(actions.len() as int) =~= before);
    }
    *actions = kept;
}

/// Turn on the actions of type `t`.
fn enable_type(actions: &mut Vec<ActionCfg>, t: &str)
    ensures
        actions_v(final(actions)@) == type_enabled(actions_v(old(actions)@), t@),
{
    let ghost before = actions_v(actions@);
    let ts = String::from_str(t);
    let mut i: usize = 0;
    while i < actions.len()
        invariant
            i <= actions.len(),
            actions.len() == before.len(),
            ts@ == t@,
            forall|j: int| 0 <= j < i ==> av(#[trigger] actions@[j]) == type_enabled(before, t@)[j],
            forall|j: int| i <= j < actions.len() ==> av(#[trigger] actions@[j]) == before[j],
        decreases actions.len() - i,
    {
        if actions[i].action_type == ts {
            let mut a = actions.remove(i);
            a.enabled = true;
            actions.insert(i, a);
        }
        i = i + 1;
    }
    proof {
        assert(actions_v(actions@) =~= type_enabled(before, t@));
    }
}

/// Turn off the actions of phase `ph`.
fn disable_phase(actions: &mut Vec<ActionCfg>, ph: ActionPhase)
    ensures
        actions_v(final(actions)@) == phase_disabled(actions_v(old(actions)@), ph),
{
    let ghost before = actions_v(actions@);
    let mut i: usize = 0;
    while i < actions.len()
        invariant
            i <= actions.len(),
            actions.len() == before.len(),
            forall|j: int| 0 <= j < i ==> av(#[trigger] actions@[j]) == phase_disabled(before, ph)[j],
            forall|j: int| i <= j < actions.len() ==> av(#[trigger] actions@[j]) == before[j],
        decreases actions.len() - i,
    {
        if actions[i].phase == ph {
            let mut a = actions.remove(i);
            a.enabled = false;
            actions.insert(i, a);
        }
        i = i + 1;
    }
    proof {
        assert(actions_v(actions@) =~= phase_disabled(before, ph));
    }
}

fn push_av(actions: &mut Vec<ActionCfg>, a: ActionCfg)
    ensures
        actions_v(final(actions)@) == actions_v(old(actions)@).push(av(a)),
{
    let ghost a_v = av(a);
    actions.push(a);
    proof {
        assert(actions_v(actions@) =~= actions_v(old(actions)@).push(a_v));
    }
}

fn cli_action_exec(t: &str, id: &str, ph: ActionPhase, priority: i32, params: Vec<(String, Json)>, reason: &str) -> (r: ActionCfg)
    ensures
        av(r) == cli_action(t@, id@, ph, priority, members_v(params@), reason@),
{
    ActionCfg {
        action_type: String::from_str(t),
        instance_id: String::from_str(id),
        phase: ph,
        enabled: true,
        priority,
        params,
        last_modified_by: Some(String::from_str("backtest_cli")),
        last_modified_at: None,
        modification_reason: Some(String::from_str(reason)),
    }
}

fn json_or(v: &Option<Json>, bits: u64) -> (r: Json)
    ensures
        jv(r) == match v {
            Some(j) => jv(*j),
            None => float_json(bits),
        },
{
    match v {
        Some(j) => copy_json(j),
        None => float_value(bits),
    }
}

fn score_scaled_exec(min: &Option<Json>, max: &Option<Json>) -> (r: ActionCfg)
    ensures
        av(r) == score_scaled_action(
            match min {
                Some(j) => jv(*j),
                None => float_json(SCORE_SCALED_MIN_BITS),
            },
            match max {
                Some(j) => jv(*j),
                None => float_json(SCORE_SCALED_MAX_BITS),
            },
        ),
{
    let mut params: Vec<(String, Json)> = Vec::new();
    params.push((String::from_str("min_fraction"), json_or(min, SCORE_SCALED_MIN_BITS)));
    params.push((String::from_str("max_fraction"), json_or(max, SCORE_SCALED_MAX_BITS)));
    params.push((String::from_str("entry_threshold"), float_value(SCORE_SCALED_THRESHOLD_BITS)));
    let ghost pv = members_v(params@);
    let r = cli_action_exec("score_scaled", "sizing_score", ActionPhase::Sizing, 0, params, "CLI override for testing");
    proof {
        assert(pv =~= seq![
            ("min_fraction"@, pv[0].1),
            ("max_fraction"@, pv[1].1),
            ("entry_threshold"@, float_json(SCORE_SCALED_THRESHOLD_BITS)),
        ]);
    }
    r
}

fn profit_trail_exec(giveback: &Json, min: &Option<Json>) -> (r: ActionCfg)
    ensures
        av(r) == profit_trail_action(
            jv(*giveback),
            match min {
                Some(j) => jv(*j),
                None => float_json(PROFIT_TRAIL_MIN_BITS),
            },
        ),
{
    let mut params: Vec<(String, Json)> = Vec::new();
    params.push((String::from_str("giveback_fraction"), copy_json(giveback)));
    params.push((String::from_str("min_profit_pct"), json_or(min, PROFIT_TRAIL_MIN_BITS)));
    let ghost pv = members_v(params@);
    let r = cli_action_exec("profit_trailing_stop", "profit_trail", ActionPhase::Exit, 2, params, "CLI override: profit trailing stop");
    proof {
        assert(pv =~= seq![("giveback_fraction"@, pv[0].1), ("min_profit_pct"@, pv[1].1)]);
    }
    r
}

/// The name of a tier parameter: `tier`, the tier's number, then `suffix`.
fn tier_key(n: u64, suffix: &str) -> (r: String)
    ensures
        r@ == "tier"@ + dec_text(n as nat) + suffix@,
{
    let mut k = String::from_str("tier");
    push_decimal(&mut k, n);
    k.append(suffix);
    k
}

/// The parameters of a max-hold timeout after the hold overrides: base hold,
/// score gate (each where given), then the profit tiers.
pub open spec fn hold_params(p: Seq<(Seq<char>, JsonV)>, ms: Option<JsonV>, gate: Option<JsonV>, tiers: Seq<(JsonV, JsonV)>) -> Seq<(Seq<char>, JsonV)> {
    let p1 = match ms {
        Some(v) => with_member(p, "max_hold_ms"@, v),
        None => p,
    };
    let p2 = match gate {
        Some(v) => with_member(p1, "score_gate"@, v),
        None => p1,
    };
    with_tiers(p2, tiers)
}

/// Every max-hold timeout after the hold overrides.
pub open spec fn held(s: Seq<ActionV>, ms: Option<JsonV>, gate: Option<JsonV>, tiers: Seq<(JsonV, JsonV)>) -> Seq<ActionV> {
    Seq::new(
        s.len(),
        |i: int|
            if s[i].action_type == "max_hold_timeout"@ {
                ActionV { params: hold_params(s[i].params, ms, gate, tiers), ..s[i] }
            } else {
                s[i]
            },
    )
}

pub open spec fn opt_jv(o: Option<Json>) -> Option<JsonV> {
    match o {
        Some(j) => Some(jv(j)),
        None => None,
    }
}

pub open spec fn tiers_v(t: Seq<(Json, Json)>) -> Seq<(JsonV, JsonV)> {
    Seq::new(t.len(), |i: int| (jv(t[i].0), jv(t[i].1)))
}

fn apply_tiers(p: &mut Vec<(String, Json)>, tiers: &Vec<(Json, Json)>)
    ensures
        members_v(final(p)@) == with_tiers(members_v(old(p)@), tiers_v(tiers@)),
{
    let ghost p0 = members_v(p@);
    let ghost tv = tiers_v(tiers@);
    let mut k: usize = 0;
    while k < tiers.len()
        invariant
            k <= tiers.len(),
            tv == tiers_v(tiers@),
            members_v(p@) == with_tiers(p0, tv.take(k as int)),
        decreases tiers.len() - k,
    {
        proof {
            assert(tv.take(k + 1).drop_last() =~= tv.take(k as int));
            assert(tv.take(k + 1).last() == tv[k as int]);
        }
        let n = (k + 1) as u64;
        set_member(p, tier_key(n, "_pnl_pct"), copy_json(&tiers[k].0));
        set_member(p, tier_key(n, "_extension_ms"), copy_json(&tiers[k].1));
        k = k + 1;
    }
    proof {
        assert(tv.take(tiers.len() as int) =~= tv);
    }
}

/// The hold overrides applied to every max-hold timeout (see `held`).
fn hold_actions(actions: &mut Vec<ActionCfg>, ms: &Option<Json>, gate: &Option<Json>, tiers: &Vec<(Json, Json)>)
    ensures
        actions_v(final(actions)@) == held(actions_v(old(actions)@), opt_jv(*ms), opt_jv(*gate), tiers_v(tiers@)),
{
    let ghost before = actions_v(actions@);
    let ts = String::from_str("max_hold_timeout");
    let mut i: usize = 0;
    while i < actions.len()
        invariant
            i <= actions.len(),
            actions.len() == before.len(),
            ts@ == "max_hold_timeout"@,
            forall|j: int| 0 <= j < i ==> av(#[trigger] actions@[j]) == held(before, opt_jv(*ms), opt_jv(*gate), tiers_v(tiers@))[j],
            forall|j: int| i <= j < actions.len() ==> av(#[trigger] actions@[j]) == before[j],
        decreases actions.len() - i,
    {
        if actions[i].action_type == ts {
            let mut a = actions.remove(i);
            if let Some(v) = ms {
                set_member(&mut a.params, String::from_str("max_hold_ms"), copy_json(v));
            }
            if let Some(v) = gate {
                set_member(&mut a.params, String::from_str("score_gate"), copy_json(v));
            }
            apply_tiers(&mut a.params, tiers);
            actions.insert(i, a);
        }
        i = i + 1;
    }
    proof {
        assert(actions_v(actions@) =~= held(before, opt_jv(*ms), opt_jv(*gate), tiers_v(tiers@)));
    }
}

/// The entry-window settings of a research run: which windows are on (only one
/// named, or all but one named, by id or name), and the thresholds of the reject
/// gate and of the windows, where given.
#[derive(Debug)]
pub struct EntryWindowOverrides {
    pub only_window: Option<String>,
    pub disable_window: Option<String>,
    pub reject_1m_lead: Option<Json>,
    pub reject_5m_max: Option<Json>,
    pub w1_composite_min: Option<Json>,
    pub w1_lead_by: Option<Json>,
    pub w1_5m_min: Option<Json>,
    pub w1_1h_min: Option<Json>,
    pub w4_composite_min: Option<Json>,
    pub w4_5m_min: Option<Json>,
    pub w4_1h_min: Option<Json>,
    pub w5_indicator_min: Option<Json>,
    pub w5_1h_min: Option<Json>,
    pub w5_composite_min: Option<Json>,
}

/// `f64` bits of the window defaults 0.15, 0.35, 0.5, 0.4, 0.3 and 0.2.
pub const F64_0_15: u64 = 0x3fc3_3333_3333_3333;
pub const F64_0_35: u64 = 0x3fd6_6666_6666_6666;
pub const F64_0_5: u64 = 0x3fe0_0000_0000_0000;
pub const F64_0_4: u64 = 0x3fd9_9999_9999_999a;
pub const F64_0_3: u64 = 0x3fd3_3333_3333_3333;
pub const F64_0_2: u64 = 0x3fc9_9999_9999_999a;

/// The value given, or the floating number with bits `bits`.
pub open spec fn num_or(o: Option<Json>, bits: u64) -> JsonV {
    match o {
        Some(j) => jv(j),
        None => float_json(bits),
    }
}

/// Is the window with this id and name on?
pub open spec fn window_on(w: EntryWindowOverrides, id: Seq<char>, name: Seq<char>) -> bool {
    match w.only_window {
        Some(only) => only@ == name || only@ == id,
        None => match w.disable_window {
            Some(d) => d@ != name && d@ != id,
            None => true,
        },
    }
}

/// A condition object: its type, then its other members.
pub open spec fn cond_obj(t: Seq<char>, rest: Seq<(Seq<char>, JsonV)>) -> JsonV {
    JsonV::Obj(seq![("type"@, JsonV::Str(t))] + rest)
}

/// The 1-minute noise reject gate.
pub open spec fn reject_gate(w: EntryWindowOverrides) -> ActionV {
    cli_action(
        "entry_reject_gate"@,
        "reject_1m_noise"@,
        ActionPhase::Entry,
        0,
        seq![
            ("name"@, JsonV::Str("1m noise filter"@)),
            ("conditions"@, JsonV::Arr(seq![
                cond_obj("timescale_lead"@, seq![("timescale"@, JsonV::Str("OneMinute"@)), ("lead_by"@, num_or(w.reject_1m_lead, F64_0_15))]),
                cond_obj("timescale_max"@, seq![("timescale"@, JsonV::Str("FiveMinute"@)), ("max_score"@, num_or(w.reject_5m_max, F64_0_35))]),
            ])),
        ],
        "entry windows CLI"@,
    )
}

/// A long entry window.
pub open spec fn window_action(w: EntryWindowOverrides, id: Seq<char>, name: Seq<char>, priority: i32, conds: Seq<JsonV>) -> ActionV {
    with_enabled(
        cli_action(
            "entry_window"@,
            id,
            ActionPhase::Entry,
            priority,
            seq![("name"@, JsonV::Str(name)), ("direction"@, JsonV::Str("long"@)), ("conditions"@, JsonV::Arr(conds))],
            "entry windows CLI"@,
        ),
        window_on(w, id, name),
    )
}

pub open spec fn composite_min_cond(v: JsonV) -> JsonV {
    cond_obj("composite_min"@, seq![("min_score"@, v)])
}

pub open spec fn timescale_min_cond(ts: Seq<char>, v: JsonV) -> JsonV {
    cond_obj("timescale_min"@, seq![("timescale"@, JsonV::Str(ts)), ("min_score"@, v)])
}

/// The three entry windows: 5m thrust, candle reversal and strong core.
pub open spec fn entry_windows(w: EntryWindowOverrides) -> Seq<ActionV> {
    seq![
        window_action(w, "window_5m_thrust"@, "5m thrust"@, 10, seq![
            composite_min_cond(num_or(w.w1_composite_min, F64_0_35)),
            cond_obj("timescale_lead"@, seq![("timescale"@, JsonV::Str("FiveMinute"@)), ("lead_by"@, num_or(w.w1_lead_by, F64_0_15))]),
            timescale_min_cond("FiveMinute"@, num_or(w.w1_5m_min, F64_0_5)),
            timescale_min_cond("OneHour"@, num_or(w.w1_1h_min, 0)),
        ]),
        window_action(w, "window_candle_reversal"@, "candle reversal"@, 15, seq![
            cond_obj("indicator_min"@, seq![("instance_id"@, JsonV::Str("candle_5min"@)), ("min_score"@, num_or(w.w5_indicator_min, F64_0_4))]),
            timescale_min_cond("OneHour"@, num_or(w.w5_1h_min, F64_0_2)),
            composite_min_cond(num_or(w.w5_composite_min, F64_0_2)),
        ]),
        window_action(w, "window_strong_core"@, "strong core"@, 20, seq![
            composite_min_cond(num_or(w.w4_composite_min, F64_0_35)),
            timescale_min_cond("FiveMinute"@, num_or(w.w4_5m_min, F64_0_4)),
            timescale_min_cond("OneHour"@, num_or(w.w4_1h_min, F64_0_3)),
        ]),
    ]
}

/// The actions with the score-threshold entries replaced by the reject gate and
/// the entry windows.
pub open spec fn with_entry_windows(s: Seq<ActionV>, w: EntryWindowOverrides) -> Seq<ActionV> {
    without_type(s, "score_threshold_entry"@).push(reject_gate(w)) + entry_windows(w)
}

fn str_json(t: &str) -> (r: Json)
    ensures
        jv(r) == JsonV::Str(t@),
{
    Json::Str(String::from_str(t))
}

fn num_or_exec(o: &Option<Json>, bits: u64) -> (r: Json)
    ensures
        jv(r) == num_or(*o, bits),
{
    json_or(o, bits)
}

fn cond_exec(t: &str, rest: Vec<(String, Json)>) -> (r: Json)
    ensures
        jv(r) == cond_obj(t@, members_v(rest@)),
{
    let mut m: Vec<(String, Json)> = Vec::new();
    m.push((String::from_str("type"), str_json(t)));
    let ghost m0 = m@;
    let mut rest = rest;
    let ghost r0 = members_v(rest@);
    let mut k: usize = 0;
    let n = rest.len();
    while k < n
        invariant
            k <= n,
            r0.len() == n,
            rest@.len() == n - k,
            members_v(m@) == seq![("type"@, JsonV::Str(t@))] + r0.take(k as int),
            members_v(rest@) == r0.skip(k as int),
        decreases n - k,
    {
        let ghost rv = rest@;
        let e = rest.remove(0);
        let ghost mv = m@;
        m.push(e);
        proof {
            assert(members_v(rv)[0] == r0.skip(k as int)[0]);
            assert(members_v(m@) =~= members_v(mv).push(r0[k as int]));
            assert(r0.take(k + 1) =~= r0.take(k as int).push(r0[k as int]));
            assert forall|j: int| 0 <= j < rest@.len() implies members_v(rest@)[j] == r0.skip(k + 1)[j] by {
                assert(rest@[j] == rv[j + 1]);
                assert(members_v(rv)[j + 1] == r0.skip(k as int)[j + 1]);
            }
            assert(members_v(rest@) =~= r0.skip(k + 1));
        }
        k = k + 1;
    }
    proof {
        assert(r0.take(n as int) =~= r0);
    }
    let r = Json::Obj(m);
    proof {
        lemma_jv_unfold(r);
    }
    r
}

fn pair(k: &str, v: Json) -> (r: (String, Json))
    ensures
        r.0@ == k@,
        r.1 == v,
{
    (String::from_str(k), v)
}

fn text_eq(a: &String, b: &str) -> (r: bool)
    ensures
        r == (a@ == b@),
{
    *a == String::from_str(b)
}

fn window_on_exec(w: &EntryWindowOverrides, id: &str, name: &str) -> (r: bool)
    ensures
        r == window_on(*w, id@, name@),
{
    match &w.only_window {
        Some(only) => text_eq(only, name) || text_eq(only, id),
        None => match &w.disable_window {
            Some(d) => !text_eq(d, name) && !text_eq(d, id),
            None => true,
        },
    }
}

fn arr_exec(v: Vec<Json>) -> (r: Json)
    ensures
        jv(r) == JsonV::Arr(arr_v(v@)),
{
    let r = Json::Arr(v);
    proof {
        lemma_jv_unfold(r);
    }
    r
}

fn window_exec(w: &EntryWindowOverrides, id: &str, name: &str, priority: i32, conds: Vec<Json>) -> (r: ActionCfg)
    ensures
        av(r) == window_action(*w, id@, name@, priority, arr_v(conds@)),
{
    let mut params: Vec<(String, Json)> = Vec::new();
    params.push(pair("name", str_json(name)));
    params.push(pair("direction", str_json("long")));
    params.push(pair("conditions", arr_exec(conds)));
    let ghost pv = members_v(params@);
    let mut a = cli_action_exec("entry_window", id, ActionPhase::Entry, priority, params, "entry windows CLI");
    a.enabled = window_on_exec(w, id, name);
    proof {
        assert(pv =~= seq![("name"@, JsonV::Str(name@)), ("direction"@, JsonV::Str("long"@)), ("conditions"@, pv[2].1)]);
    }
    a
}

fn reject_gate_exec(w: &EntryWindowOverrides) -> (r: ActionCfg)
    ensures
        av(r) == reject_gate(*w),
{
    let mut c1: Vec<(String, Json)> = Vec::new();
    c1.push(pair("timescale", str_json("OneMinute")));
    c1.push(pair("lead_by", num_or_exec(&w.reject_1m_lead, F64_0_15)));
    let ghost c1v = members_v(c1@);
    let lead = cond_exec("timescale_lead", c1);
    let mut c2: Vec<(String, Json)> = Vec::new();
    c2.push(pair("timescale", str_json("FiveMinute")));
    c2.push(pair("max_score", num_or_exec(&w.reject_5m_max, F64_0_35)));
    let ghost c2v = members_v(c2@);
    let max = cond_exec("timescale_max", c2);
    let mut conds: Vec<Json> = Vec::new();
    conds.push(lead);
    conds.push(max);
    let ghost cv = arr_v(conds@);
    let mut params: Vec<(String, Json)> = Vec::new();
    params.push(pair("name", str_json("1m noise filter")));
    params.push(pair("conditions", arr_exec(conds)));
    let ghost pv = members_v(params@);
    let r = cli_action_exec("entry_reject_gate", "reject_1m_noise", ActionPhase::Entry, 0, params, "entry windows CLI");
    proof {
        assert(c1v =~= seq![("timescale"@, JsonV::Str("OneMinute"@)), ("lead_by"@, num_or(w.reject_1m_lead, F64_0_15))]);
        assert(c2v =~= seq![("timescale"@, JsonV::Str("FiveMinute"@)), ("max_score"@, num_or(w.reject_5m_max, F64_0_35))]);
        assert(cv =~= seq![cond_obj("timescale_lead"@, c1v), cond_obj("timescale_max"@, c2v)]);
        assert(pv =~= seq![("name"@, JsonV::Str("1m noise filter"@)), ("conditions"@, JsonV::Arr(cv))]);
    }
    r
}

fn composite_min_exec(v: Json) -> (r: Json)
    ensures
        jv(r) == composite_min_cond(jv(v)),
{
    let mut c: Vec<(String, Json)> = Vec::new();
    c.push(pair("min_score", v));
    let ghost cv = members_v(c@);
    let r = cond_exec("composite_min", c);
    proof {
        assert(cv =~= seq![("min_score"@, cv[0].1)]);
    }
    r
}

fn timescale_min_exec(ts: &str, v: Json) -> (r: Json)
    ensures
        jv(r) == timescale_min_cond(ts@, jv(v)),
{
    let mut c: Vec<(String, Json)> = Vec::new();
    c.push(pair("timescale", str_json(ts)));
    c.push(pair("min_score", v));
    let ghost cv = members_v(c@);
    let r = cond_exec("timescale_min", c);
    proof {
        assert(cv =~= seq![("timescale"@, JsonV::Str(ts@)), ("min_score"@, cv[1].1)]);
    }
    r
}

fn entry_windows_exec(w: &EntryWindowOverrides) -> (r: Vec<ActionCfg>)
    ensures
        actions_v(r@) == entry_windows(*w),
{
    let mut lead: Vec<(String, Json)> = Vec::new();
    lead.push(pair("timescale", str_json("FiveMinute")));
    lead.push(pair("lead_by", num_or_exec(&w.w1_lead_by, F64_0_15)));
    let ghost leadv = members_v(lead@);
    let mut c1: Vec<Json> = Vec::new();
    c1.push(composite_min_exec(num_or_exec(&w.w1_composite_min, F64_0_35)));
    c1.push(cond_exec("timescale_lead", lead));
    c1.push(timescale_min_exec("FiveMinute", num_or_exec(&w.w1_5m_min, F64_0_5)));
    c1.push(timescale_min_exec("OneHour", num_or_exec(&w.w1_1h_min, 0)));
    let ghost c1v = arr_v(c1@);
    let w1 = window_exec(w, "window_5m_thrust", "5m thrust", 10, c1);

    let mut ind: Vec<(String, Json)> = Vec::new();
    ind.push(pair("instance_id", str_json("candle_5min")));
    ind.push(pair("min_score", num_or_exec(&w.w5_indicator_min, F64_0_4)));
    let ghost indv = members_v(ind@);
    let mut c5: Vec<Json> = Vec::new();
    c5.push(cond_exec("indicator_min", ind));
    c5.push(timescale_min_exec("OneHour", num_or_exec(&w.w5_1h_min, F64_0_2)));
    c5.push(composite_min_exec(num_or_exec(&w.w5_composite_min, F64_0_2)));
    let ghost c5v = arr_v(c5@);
    let w5 = window_exec(w, "window_candle_reversal", "candle reversal", 15, c5);

    let mut c4: Vec<Json> = Vec::new();
    c4.push(composite_min_exec(num_or_exec(&w.w4_composite_min, F64_0_35)));
    c4.push(timescale_min_exec("FiveMinute", num_or_exec(&w.w4_5m_min, F64_0_4)));
    c4.push(timescale_min_exec("OneHour", num_or_exec(&w.w4_1h_min, F64_0_3)));
    let ghost c4v = arr_v(c4@);
    let w4 = window_exec(w, "window_strong_core", "strong core", 20, c4);

    let mut r: Vec<ActionCfg> = Vec::new();
    r.push(w1);
    r.push(w5);
    r.push(w4);
    proof {
        assert(leadv =~= seq![("timescale"@, JsonV::Str("FiveMinute"@)), ("lead_by"@, num_or(w.w1_lead_by, F64_0_15))]);
        assert(c1v =~= seq![
            composite_min_cond(num_or(w.w1_composite_min, F64_0_35)),
            cond_obj("timescale_lead"@, leadv),
            timescale_min_cond("FiveMinute"@, num_or(w.w1_5m_min, F64_0_5)),
            timescale_min_cond("OneHour"@, num_or(w.w1_1h_min, 0)),
        ]);
        assert(indv =~= seq![("instance_id"@, JsonV::Str("candle_5min"@)), ("min_score"@, num_or(w.w5_indicator_min, F64_0_4))]);
        assert(c5v =~= seq![
            cond_obj("indicator_min"@, indv),
            timescale_min_cond("OneHour"@, num_or(w.w5_1h_min, F64_0_2)),
            composite_min_cond(num_or(w.w5_composite_min, F64_0_2)),
        ]);
        assert(c4v =~= seq![
            composite_min_cond(num_or(w.w4_composite_min, F64_0_35)),
            timescale_min_cond("FiveMinute"@, num_or(w.w4_5m_min, F64_0_4)),
            timescale_min_cond("OneHour"@, num_or(w.w4_1h_min, F64_0_3)),
        ]);
        assert(actions_v(r@) =~= entry_windows(*w));
    }
    r
}

/// Replace the score-threshold entries with the reject gate and the entry windows.
fn add_entry_windows(actions: &mut Vec<ActionCfg>, w: &EntryWindowOverrides)
    ensures
        actions_v(final(actions)@) == with_entry_windows(actions_v(old(actions)@), *w),
{
    drop_type(actions, "score_threshold_entry");
    push_av(actions, reject_gate_exec(w));
    let ghost kept = actions_v(actions@);
    let mut ws = entry_windows_exec(w);
    let ghost wv = actions_v(ws@);
    let n = ws.len();
    let mut k: usize = 0;
    while k < n
        invariant
            k <= n,
            wv.len() == n,
            ws@.len() == n - k,
            actions_v(actions@) == kept + wv.take(k as int),
            actions_v(ws@) == wv.skip(k as int),
        decreases n - k,
    {
        let ghost w0 = ws@;
        let a = ws.remove(0);
        proof {
            assert(actions_v(w0)[0] == wv.skip(k as int)[0]);
            assert forall|j: int| 0 <= j < ws@.len() implies actions_v(ws@)[j] == wv.skip(k + 1)[j] by {
                assert(ws@[j] == w0[j + 1]);
                assert(actions_v(w0)[j + 1] == wv.skip(k as int)[j + 1]);
            }
            assert(actions_v(ws@) =~= wv.skip(k + 1));
            assert(wv.take(k + 1) =~= wv.take(k as int).push(av(a)));
        }
        push_av(actions, a);
        k = k + 1;
    }
    proof {
        assert(wv.take(n as int) =~= wv);
    }
}

proof fn lemma_key_absent(m: Seq<(Seq<char>, JsonV)>, k: Seq<char>)
    requires
        key_index(m, k) is None,
    ensures
        forall|j: int| 0 <= j < m.len() ==> m[j].0 != k,
{
    assert forall|j: int| 0 <= j < m.len() implies m[j].0 != k by {
        if m[j].0 == k {
            lemma_key_first_exists(m, k, j);
        }
    }
}

proof fn lemma_key_first_exists(m: Seq<(Seq<char>, JsonV)>, k: Seq<char>, j: int)
    requires
        0 <= j < m.len(),
        m[j].0 == k,
    ensures
        exists|i: int| is_key_index(m, k, i),
    decreases j,
{
    if exists|x: int| 0 <= x < j && m[x].0 == k {
        let x = choose|x: int| 0 <= x < j && m[x].0 == k;
        lemma_key_first_exists(m, k, x);
    } else {
        assert(is_key_index(m, k, j));
    }
}

proof fn lemma_key_found(m: Seq<(Seq<char>, JsonV)>, k: Seq<char>)
    requires
        key_index(m, k) is Some,
    ensures
        is_key_index(m, k, key_index(m, k)->0),
{
}

/// Reading a member after an append.
proof fn lemma_member_push(m: Seq<(Seq<char>, JsonV)>, e: (Seq<char>, JsonV), k: Seq<char>)
    ensures
        member(m.push(e), k) == (match member(m, k) {
            Some(v) => Some(v),
            None => if e.0 == k {
                Some(e.1)
            } else {
                None
            },
        }),
{
    let mp = m.push(e);
    match key_index(m, k) {
        Some(i) => {
            lemma_key_found(m, k);
            assert(is_key_index(mp, k, i));
            lemma_key_index(mp, k, i);
        },
        None => {
            lemma_key_absent(m, k);
            if e.0 == k {
                assert(is_key_index(mp, k, m.len() as int));
                lemma_key_index(mp, k, m.len() as int);
            } else {
                lemma_no_key(mp, k);
            }
        },
    }
}

/// A member set is read back; other members read as before.
pub proof fn lemma_member_with(m: Seq<(Seq<char>, JsonV)>, k: Seq<char>, v: JsonV, k2: Seq<char>)
    ensures
        member(with_member(m, k, v), k) == Some(v),
        k2 != k ==> member(with_member(m, k, v), k2) == member(m, k2),
{
    match key_index(m, k) {
        Some(i) => {
            lemma_key_found(m, k);
            let mu = m.update(i, (k, v));
            assert(is_key_index(mu, k, i));
            lemma_key_index(mu, k, i);
            if k2 != k {
                match key_index(m, k2) {
                    Some(j) => {
                        lemma_key_found(m, k2);
                        assert(is_key_index(mu, k2, j));
                        lemma_key_index(mu, k2, j);
                    },
                    None => {
                        lemma_key_absent(m, k2);
                        lemma_no_key(mu, k2);
                    },
                }
            }
        },
        None => {
            lemma_member_push(m, (k, v), k);
            lemma_member_push(m, (k, v), k2);
        },
    }
}

/// Removing the members named `k` leaves none, and leaves the others readable as before.
pub proof fn lemma_member_without(m: Seq<(Seq<char>, JsonV)>, k: Seq<char>, k2: Seq<char>)
    ensures
        member(without_key(m, k), k) is None,
        k2 != k ==> member(without_key(m, k), k2) == member(m, k2),
    decreases m.len(),
{
    if m.len() > 0 {
        let dl = m.drop_last();
        lemma_member_without(dl, k, k2);
        assert(m == dl.push(m.last()));
        lemma_member_push(dl, m.last(), k2);
        if m.last().0 != k {
            lemma_member_push(without_key(dl, k), m.last(), k);
            lemma_member_push(without_key(dl, k), m.last(), k2);
        }
    } else {
        lemma_no_key(without_key(m, k), k);
    }
}

/// Two optional values agree, numbers by the `f64` they read as.
pub open spec fn same_value(a: Option<JsonV>, b: Option<JsonV>) -> bool {
    match (a, b) {
        (Some(JsonV::Num(x)), Some(JsonV::Num(y))) => x.f64_bits == y.f64_bits,
        _ => a == b,
    }
}

/// For a mirrored condition type: the threshold member it holds and the one the
/// mirror writes in its place.
pub open spec fn mirrored_threshold(t: Seq<char>) -> Option<(Seq<char>, Seq<char>)> {
    if t == "timescale_min"@ || t == "composite_min"@ || t == "timescale_all_min"@ {
        Some(("min_score"@, "max_score"@))
    } else if t == "timescale_max"@ || t == "composite_max"@ || t == "timescale_all_max"@ {
        Some(("max_score"@, "min_score"@))
    } else if t == "timescale_lead"@ {
        Some(("lead_by"@, "lag_by"@))
    } else if t == "timescale_lag"@ {
        Some(("lag_by"@, "lead_by"@))
    } else {
        None
    }
}

/// A condition of a mirrored type whose threshold fields are present and numeric
/// (a range has both bounds; any other type its own threshold and not the one the
/// mirror writes).
pub open spec fn mirror_ready(m: Seq<(Seq<char>, JsonV)>) -> bool {
    let t = condition_type(m);
    &&& member(m, "type"@) == Some(JsonV::Str(t))
    &&& match mirrored_threshold(t) {
        Some((k1, k2)) => num_bits(member(m, k1)) is Some && member(m, k2) is None,
        None => t == "timescale_range"@ && num_bits(member(m, "min_score"@)) is Some && num_bits(
            member(m, "max_score"@),
        ) is Some,
    }
}

proof fn lemma_condition_names_distinct()
    ensures
        "type"@ != "min_score"@,
        "type"@ != "max_score"@,
        "type"@ != "lead_by"@,
        "type"@ != "lag_by"@,
        "min_score"@ != "max_score"@,
        "lead_by"@ != "lag_by"@,
        "timescale_min"@ != "timescale_max"@,
        "timescale_min"@ != "composite_min"@,
        "timescale_min"@ != "composite_max"@,
        "timescale_min"@ != "timescale_lead"@,
        "timescale_min"@ != "timescale_lag"@,
        "timescale_min"@ != "timescale_all_min"@,
        "timescale_min"@ != "timescale_all_max"@,
        "timescale_min"@ != "timescale_range"@,
        "timescale_max"@ != "composite_min"@,
        "timescale_max"@ != "composite_max"@,
        "timescale_max"@ != "timescale_lead"@,
        "timescale_max"@ != "timescale_lag"@,
        "timescale_max"@ != "timescale_all_min"@,
        "timescale_max"@ != "timescale_all_max"@,
        "timescale_max"@ != "timescale_range"@,
        "composite_min"@ != "composite_max"@,
        "composite_min"@ != "timescale_lead"@,
        "composite_min"@ != "timescale_lag"@,
        "composite_min"@ != "timescale_all_min"@,
        "composite_min"@ != "timescale_all_max"@,
        "composite_min"@ != "timescale_range"@,
        "composite_max"@ != "timescale_lead"@,
        "composite_max"@ != "timescale_lag"@,
        "composite_max"@ != "timescale_all_min"@,
        "composite_max"@ != "timescale_all_max"@,
        "composite_max"@ != "timescale_range"@,
        "timescale_lead"@ != "timescale_lag"@,
        "timescale_lead"@ != "timescale_all_min"@,
        "timescale_lead"@ != "timescale_all_max"@,
        "timescale_lead"@ != "timescale_range"@,
        "timescale_lag"@ != "timescale_all_min"@,
        "timescale_lag"@ != "timescale_all_max"@,
        "timescale_lag"@ != "timescale_range"@,
        "timescale_all_min"@ != "timescale_all_max"@,
        "timescale_all_min"@ != "timescale_range"@,
        "timescale_all_max"@ != "timescale_range"@,
{
    reveal_strlit("type");
    reveal_strlit("min_score");
    reveal_strlit("max_score");
    reveal_strlit("lead_by");
    reveal_strlit("lag_by");
    reveal_strlit("timescale_min");
    reveal_strlit("timescale_max");
    reveal_strlit("composite_min");
    reveal_strlit("composite_max");
    reveal_strlit("timescale_lead");
    reveal_strlit("timescale_lag");
    reveal_strlit("timescale_all_min");
    reveal_strlit("timescale_all_max");
    reveal_strlit("timescale_range");
    assert("type"@.len() != "lead_by"@.len());
    assert("type"@.len() != "lag_by"@.len());
    assert("lead_by"@.len() != "lag_by"@.len());
    assert("timescale_min"@.len() != "timescale_lead"@.len());
    assert("timescale_min"@.len() != "timescale_all_min"@.len());
    assert("timescale_min"@.len() != "timescale_all_max"@.len());
    assert("timescale_min"@.len() != "timescale_range"@.len());
    assert("timescale_max"@.len() != "timescale_lead"@.len());
    assert("timescale_max"@.len() != "timescale_all_min"@.len());
    assert("timescale_max"@.len() != "timescale_all_max"@.len());
    assert("timescale_max"@.len() != "timescale_range"@.len());
    assert("composite_min"@.len() != "timescale_lead"@.len());
    assert("composite_min"@.len() != "timescale_all_min"@.len());
    assert("composite_min"@.len() != "timescale_all_max"@.len());
    assert("composite_min"@.len() != "timescale_range"@.len());
    assert("composite_max"@.len() != "timescale_lead"@.len());
    assert("composite_max"@.len() != "timescale_all_min"@.len());
    assert("composite_max"@.len() != "timescale_all_max"@.len());
    assert("composite_max"@.len() != "timescale_range"@.len());
    assert("timescale_lead"@.len() != "timescale_lag"@.len());
    assert("timescale_lead"@.len() != "timescale_all_min"@.len());
    assert("timescale_lead"@.len() != "timescale_all_max"@.len());
    assert("timescale_lead"@.len() != "timescale_range"@.len());
    assert("timescale_lag"@.len() != "timescale_all_min"@.len());
    assert("timescale_lag"@.len() != "timescale_all_max"@.len());
    assert("timescale_lag"@.len() != "timescale_range"@.len());
    assert("timescale_all_min"@.len() != "timescale_range"@.len());
    assert("timescale_all_max"@.len() != "timescale_range"@.len());
    assert("min_score"@[1] != "max_score"@[1]);
    assert("timescale_min"@[11] != "timescale_max"@[11]);
    assert("timescale_min"@[0] != "composite_min"@[0]);
    assert("timescale_min"@[0] != "composite_max"@[0]);
    assert("timescale_min"@[10] != "timescale_lag"@[10]);
    assert("timescale_max"@[0] != "composite_min"@[0]);
    assert("timescale_max"@[0] != "composite_max"@[0]);
    assert("timescale_max"@[10] != "timescale_lag"@[10]);
    assert("composite_min"@[11] != "composite_max"@[11]);
    assert("composite_min"@[0] != "timescale_lag"@[0]);
    assert("composite_max"@[0] != "timescale_lag"@[0]);
    assert("timescale_all_min"@[15] != "timescale_all_max"@[15]);
}

/// One negating mirror step on a condition whose `type` is a string, whose
/// member `from` is the number `n` and which has no member `to`.
proof fn lemma_negate_step(m: Seq<(Seq<char>, JsonV)>, t: Seq<char>, n: JsonNum, tn: Seq<char>, from: Seq<char>, to: Seq<char>)
    requires
        "type"@ != from,
        "type"@ != to,
        from != to,
        member(m, "type"@) == Some(JsonV::Str(t)),
        member(m, from) == Some(JsonV::Num(n)),
        member(m, to) is None,
    ensures
        member(negate_member(retype(m, tn), from, to), "type"@) == Some(JsonV::Str(tn)),
        member(negate_member(retype(m, tn), from, to), to) == Some(neg_num(n.f64_bits)),
        member(negate_member(retype(m, tn), from, to), from) is None,
        forall|k: Seq<char>|
            k != "type"@ && k != from && k != to ==> #[trigger] member(negate_member(retype(m, tn), from, to), k)
                == member(m, k),
{
    let ty = "type"@;
    let r = retype(m, tn);
    lemma_member_with(m, ty, JsonV::Str(tn), from);
    lemma_member_with(m, ty, JsonV::Str(tn), to);
    let w = without_key(r, from);
    lemma_member_without(r, from, ty);
    lemma_member_without(r, from, to);
    lemma_member_with(w, to, neg_num(n.f64_bits), ty);
    lemma_member_with(w, to, neg_num(n.f64_bits), from);
    assert forall|k: Seq<char>| k != ty && k != from && k != to implies #[trigger] member(
        negate_member(r, from, to),
        k,
    ) == member(m, k) by {
        lemma_member_with(m, ty, JsonV::Str(tn), k);
        lemma_member_without(r, from, k);
        lemma_member_with(w, to, neg_num(n.f64_bits), k);
    }
}

/// One renaming mirror step (a lead into a lag, or back).
proof fn lemma_rename_step(m: Seq<(Seq<char>, JsonV)>, t: Seq<char>, n: JsonNum, tn: Seq<char>, from: Seq<char>, to: Seq<char>)
    requires
        "type"@ != from,
        "type"@ != to,
        from != to,
        member(m, "type"@) == Some(JsonV::Str(t)),
        member(m, from) == Some(JsonV::Num(n)),
        member(m, to) is None,
    ensures
        member(rename_member(retype(m, tn), from, to), "type"@) == Some(JsonV::Str(tn)),
        member(rename_member(retype(m, tn), from, to), to) == Some(float_num(n.f64_bits)),
        member(rename_member(retype(m, tn), from, to), from) is None,
        forall|k: Seq<char>|
            k != "type"@ && k != from && k != to ==> #[trigger] member(rename_member(retype(m, tn), from, to), k)
                == member(m, k),
{
    let ty = "type"@;
    let r = retype(m, tn);
    lemma_member_with(m, ty, JsonV::Str(tn), from);
    lemma_member_with(m, ty, JsonV::Str(tn), to);
    let w = without_key(r, from);
    lemma_member_without(r, from, ty);
    lemma_member_without(r, from, to);
    lemma_member_with(w, to, float_num(n.f64_bits), ty);
    lemma_member_with(w, to, float_num(n.f64_bits), from);
    assert forall|k: Seq<char>| k != ty && k != from && k != to implies #[trigger] member(
        rename_member(r, from, to),
        k,
    ) == member(m, k) by {
        lemma_member_with(m, ty, JsonV::Str(tn), k);
        lemma_member_without(r, from, k);
        lemma_member_with(w, to, float_num(n.f64_bits), k);
    }
}

/// The mirror of a mirror-ready condition of type `ta`, written as its two steps.
proof fn lemma_negating_round_trip(m: Seq<(Seq<char>, JsonV)>, ta: Seq<char>, tb: Seq<char>, from: Seq<char>, to: Seq<char>)
    requires
        "type"@ != from,
        "type"@ != to,
        from != to,
        member(m, "type"@) == Some(JsonV::Str(ta)),
        num_bits(member(m, from)) is Some,
        member(m, to) is None,
        mirror_members(m) == negate_member(retype(m, tb), from, to),
        forall|m1: Seq<(Seq<char>, JsonV)>|
            member(m1, "type"@) == Some(JsonV::Str(tb)) ==> #[trigger] mirror_members(m1) == negate_member(
                retype(m1, ta),
                to,
                from,
            ),
    ensures
        forall|k: Seq<char>| same_value(#[trigger] member(mirror_members(mirror_members(m)), k), member(m, k)),
{
    let n = member(m, from)->Some_0->Num_0;
    lemma_negate_step(m, ta, n, tb, from, to);
    let m1 = mirror_members(m);
    let n1 = JsonNum { repr: NumRepr::Float(n.f64_bits ^ F64_SIGN_BIT), f64_bits: n.f64_bits ^ F64_SIGN_BIT };
    assert(member(m1, to) == Some(JsonV::Num(n1)));
    lemma_negate_step(m1, tb, n1, ta, to, from);
    let b: u64 = n.f64_bits;
    assert((b ^ F64_SIGN_BIT) ^ F64_SIGN_BIT == b) by (bit_vector);
    let m2 = mirror_members(m1);
    assert forall|k: Seq<char>| same_value(#[trigger] member(m2, k), member(m, k)) by {
        if k != "type"@ && k != from && k != to {
            assert(member(m2, k) == member(m1, k));
        }
    }
}

proof fn lemma_renaming_round_trip(m: Seq<(Seq<char>, JsonV)>, ta: Seq<char>, tb: Seq<char>, from: Seq<char>, to: Seq<char>)
    requires
        "type"@ != from,
        "type"@ != to,
        from != to,
        member(m, "type"@) == Some(JsonV::Str(ta)),
        num_bits(member(m, from)) is Some,
        member(m, to) is None,
        mirror_members(m) == rename_member(retype(m, tb), from, to),
        forall|m1: Seq<(Seq<char>, JsonV)>|
            member(m1, "type"@) == Some(JsonV::Str(tb)) ==> #[trigger] mirror_members(m1) == rename_member(
                retype(m1, ta),
                to,
                from,
            ),
    ensures
        forall|k: Seq<char>| same_value(#[trigger] member(mirror_members(mirror_members(m)), k), member(m, k)),
{
    let n = member(m, from)->Some_0->Num_0;
    lemma_rename_step(m, ta, n, tb, from, to);
    let m1 = mirror_members(m);
    let n1 = JsonNum { repr: NumRepr::Float(n.f64_bits), f64_bits: n.f64_bits };
    assert(member(m1, to) == Some(JsonV::Num(n1)));
    lemma_rename_step(m1, tb, n1, ta, to, from);
    let m2 = mirror_members(m1);
    assert forall|k: Seq<char>| same_value(#[trigger] member(m2, k), member(m, k)) by {
        if k != "type"@ && k != from && k != to {
            assert(member(m2, k) == member(m1, k));
        }
    }
}

/// The branch `mirror_members` takes for a condition of each mirrored type.
proof fn lemma_mirror_branches(m: Seq<(Seq<char>, JsonV)>)
    ensures
        condition_type(m) == "timescale_min"@ ==> mirror_members(m) == negate_member(retype(m, "timescale_max"@), "min_score"@, "max_score"@),
        condition_type(m) == "timescale_max"@ ==> mirror_members(m) == negate_member(retype(m, "timescale_min"@), "max_score"@, "min_score"@),
        condition_type(m) == "composite_min"@ ==> mirror_members(m) == negate_member(retype(m, "composite_max"@), "min_score"@, "max_score"@),
        condition_type(m) == "composite_max"@ ==> mirror_members(m) == negate_member(retype(m, "composite_min"@), "max_score"@, "min_score"@),
        condition_type(m) == "timescale_lead"@ ==> mirror_members(m) == rename_member(retype(m, "timescale_lag"@), "lead_by"@, "lag_by"@),
        condition_type(m) == "timescale_lag"@ ==> mirror_members(m) == rename_member(retype(m, "timescale_lead"@), "lag_by"@, "lead_by"@),
        condition_type(m) == "timescale_all_min"@ ==> mirror_members(m) == negate_member(retype(m, "timescale_all_max"@), "min_score"@, "max_score"@),
        condition_type(m) == "timescale_all_max"@ ==> mirror_members(m) == negate_member(retype(m, "timescale_all_min"@), "max_score"@, "min_score"@),
{
    lemma_condition_names_distinct();
}

/// Mirroring is its own inverse: the short twin of a short twin is the long
/// original. Mirroring a condition of any mirrored type twice, with its threshold
/// fields present and numeric, gives back every member, numbers by value.
pub proof fn lemma_mirror_round_trip(m: Seq<(Seq<char>, JsonV)>)
    requires
        mirror_ready(m),
    ensures
        forall|k: Seq<char>| same_value(#[trigger] member(mirror_members(mirror_members(m)), k), member(m, k)),
{
    lemma_condition_names_distinct();
    let t = condition_type(m);
    let mn = "min_score"@;
    let mx = "max_score"@;
    if t == "timescale_min"@ || t == "timescale_max"@ {
        let (a, b, f, g) = if t == "timescale_min"@ { ("timescale_min"@, "timescale_max"@, mn, mx) } else { ("timescale_max"@, "timescale_min"@, mx, mn) };
        lemma_mirror_branches(m);
        assert forall|m1: Seq<(Seq<char>, JsonV)>| member(m1, "type"@) == Some(JsonV::Str(b)) implies #[trigger] mirror_members(m1) == negate_member(retype(m1, a), g, f) by {
            assert(condition_type(m1) == b);
            lemma_mirror_branches(m1);
        }
        lemma_negating_round_trip(m, a, b, f, g);
    } else if t == "composite_min"@ || t == "composite_max"@ {
        let (a, b, f, g) = if t == "composite_min"@ { ("composite_min"@, "composite_max"@, mn, mx) } else { ("composite_max"@, "composite_min"@, mx, mn) };
        lemma_mirror_branches(m);
        assert forall|m1: Seq<(Seq<char>, JsonV)>| member(m1, "type"@) == Some(JsonV::Str(b)) implies #[trigger] mirror_members(m1) == negate_member(retype(m1, a), g, f) by {
            assert(condition_type(m1) == b);
            lemma_mirror_branches(m1);
        }
        lemma_negating_round_trip(m, a, b, f, g);
    } else if t == "timescale_all_min"@ || t == "timescale_all_max"@ {
        let (a, b, f, g) = if t == "timescale_all_min"@ { ("timescale_all_min"@, "timescale_all_max"@, mn, mx) } else { ("timescale_all_max"@, "timescale_all_min"@, mx, mn) };
        lemma_mirror_branches(m);
        assert forall|m1: Seq<(Seq<char>, JsonV)>| member(m1, "type"@) == Some(JsonV::Str(b)) implies #[trigger] mirror_members(m1) == negate_member(retype(m1, a), g, f) by {
            assert(condition_type(m1) == b);
            lemma_mirror_branches(m1);
        }
        lemma_negating_round_trip(m, a, b, f, g);
    } else if t == "timescale_lead"@ || t == "timescale_lag"@ {
        let (a, b, f, g) = if t == "timescale_lead"@ { ("timescale_lead"@, "timescale_lag"@, "lead_by"@, "lag_by"@) } else { ("timescale_lag"@, "timescale_lead"@, "lag_by"@, "lead_by"@) };
        lemma_mirror_branches(m);
        assert forall|m1: Seq<(Seq<char>, JsonV)>| member(m1, "type"@) == Some(JsonV::Str(b)) implies #[trigger] mirror_members(m1) == rename_member(retype(m1, a), g, f) by {
            assert(condition_type(m1) == b);
            lemma_mirror_branches(m1);
        }
        lemma_renaming_round_trip(m, a, b, f, g);
    } else {
        lemma_range_round_trip(m);
    }
}

/// The range case: both bounds are negated and swapped, twice.
proof fn lemma_range_round_trip(m: Seq<(Seq<char>, JsonV)>)
    requires
        mirror_ready(m),
        condition_type(m) == "timescale_range"@,
    ensures
        forall|k: Seq<char>| same_value(#[trigger] member(mirror_members(mirror_members(m)), k), member(m, k)),
{
    lemma_condition_names_distinct();
    let mn = "min_score"@;
    let mx = "max_score"@;
    let lo = bits_or_zero(m, mn);
    let hi = bits_or_zero(m, mx);
    let w = with_member(m, mn, neg_num(hi));
    let m1 = with_member(w, mx, neg_num(lo));
    assert(mirror_members(m) == m1);
    lemma_member_with(m, mn, neg_num(hi), mx);
    lemma_member_with(m, mn, neg_num(hi), "type"@);
    lemma_member_with(w, mx, neg_num(lo), mn);
    lemma_member_with(w, mx, neg_num(lo), "type"@);
    assert(condition_type(m1) == "timescale_range"@);
    let lo1 = bits_or_zero(m1, mn);
    let hi1 = bits_or_zero(m1, mx);
    assert(lo1 == hi ^ F64_SIGN_BIT);
    assert(hi1 == lo ^ F64_SIGN_BIT);
    let w1 = with_member(m1, mn, neg_num(hi1));
    let m2 = with_member(w1, mx, neg_num(lo1));
    assert(mirror_members(m1) == m2);
    assert((lo ^ F64_SIGN_BIT) ^ F64_SIGN_BIT == lo) by (bit_vector);
    assert((hi ^ F64_SIGN_BIT) ^ F64_SIGN_BIT == hi) by (bit_vector);
    lemma_member_with(m1, mn, neg_num(hi1), mx);
    lemma_member_with(w1, mx, neg_num(lo1), mn);
    assert forall|k: Seq<char>| same_value(#[trigger] member(m2, k), member(m, k)) by {
        lemma_member_with(m, mn, neg_num(hi), k);
        lemma_member_with(w, mx, neg_num(lo), k);
        lemma_member_with(m1, mn, neg_num(hi1), k);
        lemma_member_with(w1, mx, neg_num(lo1), k);
    }
}

/// The members of an object; nothing for another value.
pub open spec fn obj_members(j: JsonV) -> Seq<(Seq<char>, JsonV)> {
    match j {
        JsonV::Obj(m) => m,
        _ => Seq::empty(),
    }
}

/// `j` with `v` placed at the member path `path`, objects made along the way
/// where a member is missing (or is not an object).
pub open spec fn put_path(j: JsonV, path: Seq<Seq<char>>, v: JsonV) -> JsonV
    decreases path.len(),
{
    if path.len() == 0 {
        v
    } else {
        let m = obj_members(j);
        let inner = match member(m, path[0]) {
            Some(x) => x,
            None => JsonV::Null,
        };
        JsonV::Obj(with_member(m, path[0], put_path(inner, path.skip(1), v)))
    }
}

/// The edits applied in turn.
pub open spec fn put_all(j: JsonV, es: Seq<(Seq<Seq<char>>, JsonV)>) -> JsonV
    decreases es.len(),
{
    if es.len() == 0 {
        j
    } else {
        put_path(put_all(j, es.drop_last()), es.last().0, es.last().1)
    }
}

/// Session and scoring settings of a research run, as JSON values to write into
/// the strategy config document. `vpin_gate_score` is the score below which the
/// VPIN gate blocks entries. The entry threshold, and clearing the hourly hard
/// gate for mirrored short windows, come from the action overrides.
#[derive(Debug)]
pub struct SettingOverrides {
    pub entry_cooldown_ms: Option<Json>,
    pub max_daily_loss_pct: Option<Json>,
    pub max_capital_deployed_pct: Option<Json>,
    pub max_position_pct: Option<Json>,
    pub avoid_first_minutes: Option<Json>,
    pub max_concurrent_positions: Option<Json>,
    pub exit_threshold: Option<Json>,
    pub timescale_weight_1m: Option<Json>,
    pub timescale_weight_5m: Option<Json>,
    pub timescale_weight_1h: Option<Json>,
    pub enable_agreement: bool,
    pub agreement_exponent: Option<Json>,
    pub enable_dynamic_fusion: bool,
    pub fusion_vol_weight: Option<Json>,
    pub fusion_trend_weight: Option<Json>,
    pub fusion_adjustment: Option<Json>,
    pub fusion_bias: Option<Json>,
    pub vpin_gate_score: Option<Json>,
    pub hourly_exit_override: Option<Json>,
    /// the session's force-exit time (US/Eastern `HH:MM`), also given to the
    /// session-close actions.
    pub force_exit_by: Option<String>,
    pub no_new_entries_after: Option<String>,
    /// the traded tickers, comma-separated.
    pub tickers_override: Option<String>,
}

pub open spec fn opt_edit(es: Seq<(Seq<Seq<char>>, JsonV)>, o: Option<Json>, path: Seq<Seq<char>>) -> Seq<(Seq<Seq<char>>, JsonV)> {
    match o {
        Some(v) => es.push((path, jv(v))),
        None => es,
    }
}

/// The agreement setting: enabled, confidence-multiplier mode.
pub open spec fn agreement_v(exponent: JsonV) -> JsonV {
    JsonV::Obj(seq![
        ("enabled"@, JsonV::Bool(true)),
        ("mode"@, JsonV::Str("ConfidenceMultiplier"@)),
        ("exponent"@, exponent),
        ("gate_threshold"@, float_json(0)),
    ])
}

/// The dynamic-fusion setting, with its volatility and trend indicators.
pub open spec fn fusion_v(o: SettingOverrides) -> JsonV {
    JsonV::Obj(seq![
        ("volatility_weight"@, num_or(o.fusion_vol_weight, F64_0_3)),
        ("trend_weight"@, num_or(o.fusion_trend_weight, F64_0_2)),
        ("bias"@, num_or(o.fusion_bias, 0)),
        ("adjustment"@, num_or(o.fusion_adjustment, F64_0_15)),
        ("volatility_indicator_id"@, JsonV::Str("bb_bw_20_1hr"@)),
        ("trend_indicator_id"@, JsonV::Str("adx_14_1hr"@)),
    ])
}

/// The edits the settings make, in order: each given setting at its place; the
/// scoring entry threshold is the one the action overrides give the entry
/// actions, and mirrored short windows clear the hourly hard gate.
pub open spec fn setting_edits(o: SettingOverrides, a: ActionOverrides) -> Seq<(Seq<Seq<char>>, JsonV)> {
    let e1 = opt_edit(Seq::empty(), o.entry_cooldown_ms, seq!["session"@, "entry_cooldown_ms"@]);
    let e2 = opt_edit(e1, o.max_daily_loss_pct, seq!["session"@, "max_daily_loss_pct"@]);
    let e3 = opt_edit(e2, o.max_capital_deployed_pct, seq!["session"@, "max_capital_deployed_pct"@]);
    let e4 = opt_edit(e3, o.max_position_pct, seq!["session"@, "max_position_pct"@]);
    let e5 = opt_edit(e4, o.avoid_first_minutes, seq!["session"@, "avoid_first_minutes"@]);
    let e6 = opt_edit(e5, o.max_concurrent_positions, seq!["session"@, "max_concurrent_positions"@]);
    let e7 = opt_edit(e6, a.entry_threshold, seq!["scoring"@, "entry_threshold"@]);
    let e8 = opt_edit(e7, o.exit_threshold, seq!["scoring"@, "exit_threshold"@]);
    let e9 = opt_edit(e8, o.timescale_weight_1m, seq!["scoring"@, "timescale_weights"@, "OneMinute"@]);
    let e10 = opt_edit(e9, o.timescale_weight_5m, seq!["scoring"@, "timescale_weights"@, "FiveMinute"@]);
    let e11 = opt_edit(e10, o.timescale_weight_1h, seq!["scoring"@, "timescale_weights"@, "OneHour"@]);
    let e12 = if o.enable_agreement {
        e11.push((seq!["scoring"@, "agreement"@], agreement_v(num_or(o.agreement_exponent, F64_0_5))))
    } else {
        e11
    };
    let e13 = if o.enable_dynamic_fusion {
        e12.push((seq!["scoring"@, "aggregation"@], JsonV::Str("DynamicFusion"@))).push(
            (seq!["scoring"@, "dynamic_fusion"@], fusion_v(o)),
        )
    } else {
        e12
    };
    let e14 = opt_edit(e13, o.vpin_gate_score, seq!["scoring"@, "hard_gate_indicators"@, "vpin_gate_5min"@]);
    let e15 = opt_edit(e14, o.hourly_exit_override, seq!["scoring"@, "hourly_exit_override"@]);
    let e16 = if a.mirror_short {
        e15.push((seq!["scoring"@, "hard_gate_timescales"@], JsonV::Arr(Seq::empty())))
    } else {
        e15
    };
    let e17 = match o.tickers_override {
        Some(t) => e16.push((seq!["tickers"@], tickers_json(t@))),
        None => e16,
    };
    let e18 = match o.force_exit_by {
        Some(t) => e17.push((seq!["session"@, "force_exit_by"@], JsonV::Str(t@))),
        None => e17,
    };
    match o.no_new_entries_after {
        Some(t) => e18.push((seq!["session"@, "no_new_entries_after"@], JsonV::Str(t@))),
        None => e18,
    }
}

/// The traded tickers of a comma-separated list: every piece, trimmed.
pub open spec fn tickers_json(t: Seq<char>) -> JsonV {
    let ps = trimmed_pieces(split_pieces(t, ','));
    JsonV::Arr(Seq::new(ps.len(), |i: int| JsonV::Str(ps[i])))
}

pub open spec fn path_v(p: Seq<String>) -> Seq<Seq<char>> {
    Seq::new(p.len(), |i: int| p[i]@)
}

pub open spec fn edits_v(es: Seq<(Vec<String>, Json)>) -> Seq<(Seq<Seq<char>>, JsonV)> {
    Seq::new(es.len(), |i: int| (path_v(es[i].0@), jv(es[i].1)))
}

/// Place `v` at `path[k..]` inside `j` (see `put_path`).
fn put_path_exec(j: &Json, path: &Vec<String>, k: usize, v: Json) -> (r: Json)
    requires
        k <= path.len(),
    ensures
        jv(r) == put_path(jv(*j), path_v(path@).skip(k as int), jv(v)),
    decreases path.len() - k,
{
    let ghost pv = path_v(path@).skip(k as int);
    if k == path.len() {
        return v;
    }
    proof {
        lemma_jv_unfold(*j);
        assert(pv[0] == path@[k as int]@);
        assert(pv.skip(1) =~= path_v(path@).skip(k + 1));
    }
    let mut m: Vec<(String, Json)> = match j {
        Json::Obj(mm) => copy_members(mm),
        _ => Vec::new(),
    };
    proof {
        assert(members_v(m@) == obj_members(jv(*j)));
    }
    let inner = match find_member(&m, &path[k]) {
        Some(i) => put_path_exec(&m[i].1, path, k + 1, v),
        None => put_path_exec(&Json::Null, path, k + 1, v),
    };
    set_member(&mut m, path[k].clone(), inner);
    let r = Json::Obj(m);
    proof {
        lemma_jv_unfold(r);
    }
    r
}

fn push_edit(es: &mut Vec<(Vec<String>, Json)>, a: &str, b: &str, c: Option<&str>, v: Json)
    ensures
        edits_v(final(es)@) == edits_v(old(es)@).push(
            (
                match c {
                    Some(c) => seq![a@, b@, c@],
                    None => seq![a@, b@],
                },
                jv(v),
            ),
        ),
{
    let mut p: Vec<String> = Vec::new();
    p.push(String::from_str(a));
    p.push(String::from_str(b));
    if let Some(c) = c {
        p.push(String::from_str(c));
    }
    let ghost pv = path_v(p@);
    let ghost vv = jv(v);
    es.push((p, v));
    proof {
        match c {
            Some(c) => assert(pv =~= seq![a@, b@, c@]),
            None => assert(pv =~= seq![a@, b@]),
        }
        assert(edits_v(es@) =~= edits_v(old(es)@).push((pv, vv)));
    }
}

fn opt_edit_exec(es: &mut Vec<(Vec<String>, Json)>, o: &Option<Json>, a: &str, b: &str, c: Option<&str>)
    ensures
        edits_v(final(es)@) == opt_edit(
            edits_v(old(es)@),
            *o,
            match c {
                Some(c) => seq![a@, b@, c@],
                None => seq![a@, b@],
            },
        ),
{
    if let Some(v) = o {
        push_edit(es, a, b, c, copy_json(v));
    }
}

/// The edits the settings make (see `setting_edits`).
pub fn setting_edits_exec(o: &SettingOverrides, a: &ActionOverrides) -> (r: Vec<(Vec<String>, Json)>)
    ensures
        edits_v(r@) == setting_edits(*o, *a),
{
    let mut es: Vec<(Vec<String>, Json)> = Vec::new();
    proof {
        assert(edits_v(es@) =~= Seq::<(Seq<Seq<char>>, JsonV)>::empty());
    }
    opt_edit_exec(&mut es, &o.entry_cooldown_ms, "session", "entry_cooldown_ms", None);
    opt_edit_exec(&mut es, &o.max_daily_loss_pct, "session", "max_daily_loss_pct", None);
    opt_edit_exec(&mut es, &o.max_capital_deployed_pct, "session", "max_capital_deployed_pct", None);
    opt_edit_exec(&mut es, &o.max_position_pct, "session", "max_position_pct", None);
    opt_edit_exec(&mut es, &o.avoid_first_minutes, "session", "avoid_first_minutes", None);
    opt_edit_exec(&mut es, &o.max_concurrent_positions, "session", "max_concurrent_positions", None);
    opt_edit_exec(&mut es, &a.entry_threshold, "scoring", "entry_threshold", None);
    opt_edit_exec(&mut es, &o.exit_threshold, "scoring", "exit_threshold", None);
    opt_edit_exec(&mut es, &o.timescale_weight_1m, "scoring", "timescale_weights", Some("OneMinute"));
    opt_edit_exec(&mut es, &o.timescale_weight_5m, "scoring", "timescale_weights", Some("FiveMinute"));
    opt_edit_exec(&mut es, &o.timescale_weight_1h, "scoring", "timescale_weights", Some("OneHour"));
    if o.enable_agreement {
        let mut a: Vec<(String, Json)> = Vec::new();
        a.push(pair("enabled", Json::Bool(true)));
        a.push(pair("mode", str_json("ConfidenceMultiplier")));
        a.push(pair("exponent", num_or_exec(&o.agreement_exponent, F64_0_5)));
        a.push(pair("gate_threshold", float_value(0)));
        let ghost av_ = members_v(a@);
        let obj = Json::Obj(a);
        proof {
            lemma_jv_unfold(obj);
            assert(av_ =~= seq![
                ("enabled"@, JsonV::Bool(true)),
                ("mode"@, JsonV::Str("ConfidenceMultiplier"@)),
                ("exponent"@, num_or(o.agreement_exponent, F64_0_5)),
                ("gate_threshold"@, float_json(0)),
            ]);
        }
        push_edit(&mut es, "scoring", "agreement", None, obj);
    }
    if o.enable_dynamic_fusion {
        push_edit(&mut es, "scoring", "aggregation", None, str_json("DynamicFusion"));
        let mut f: Vec<(String, Json)> = Vec::new();
        f.push(pair("volatility_weight", num_or_exec(&o.fusion_vol_weight, F64_0_3)));
        f.push(pair("trend_weight", num_or_exec(&o.fusion_trend_weight, F64_0_2)));
        f.push(pair("bias", num_or_exec(&o.fusion_bias, 0)));
        f.push(pair("adjustment", num_or_exec(&o.fusion_adjustment, F64_0_15)));
        f.push(pair("volatility_indicator_id", str_json("bb_bw_20_1hr")));
        f.push(pair("trend_indicator_id", str_json("adx_14_1hr")));
        let ghost fv = members_v(f@);
        let obj = Json::Obj(f);
        proof {
            lemma_jv_unfold(obj);
            assert(JsonV::Obj(fv) == fusion_v(*o)) by {
                assert(fv =~= obj_members(fusion_v(*o)));
            }
        }
        push_edit(&mut es, "scoring", "dynamic_fusion", None, obj);
    }
    opt_edit_exec(&mut es, &o.vpin_gate_score, "scoring", "hard_gate_indicators", Some("vpin_gate_5min"));
    opt_edit_exec(&mut es, &o.hourly_exit_override, "scoring", "hourly_exit_override", None);
    if a.mirror_short {
        let empty: Vec<Json> = Vec::new();
        let arr = arr_exec(empty);
        proof {
            assert(arr_v(empty@) =~= Seq::<JsonV>::empty());
        }
        push_edit(&mut es, "scoring", "hard_gate_timescales", None, arr);
    }
    if let Some(t) = &o.tickers_override {
        let names = split_trimmed(t.as_str());
        let mut items: Vec<Json> = Vec::new();
        let mut i: usize = 0;
        while i < names.len()
            invariant
                i <= names.len(),
                items@.len() == i,
                forall|j: int| 0 <= j < i ==> jv(#[trigger] items@[j]) == JsonV::Str(names@[j]@),
            decreases names.len() - i,
        {
            items.push(Json::Str(names[i].clone()));
            i = i + 1;
        }
        let ghost ps = trimmed_pieces(split_pieces(t@, ','));
        let arr = arr_exec(items);
        proof {
            assert(names@.map_values(|x: String| x@) == ps);
            assert forall|j: int| 0 <= j < ps.len() implies arr_v(items@)[j] == JsonV::Str(ps[j]) by {
                assert(names@.map_values(|x: String| x@)[j] == names@[j]@);
            }
            assert(arr_v(items@) =~= Seq::new(ps.len(), |j: int| JsonV::Str(ps[j])));
        }
        let mut p: Vec<String> = Vec::new();
        p.push(String::from_str("tickers"));
        let ghost pv = path_v(p@);
        let ghost vv = jv(arr);
        let ghost e0 = edits_v(es@);
        es.push((p, arr));
        proof {
            assert(pv =~= seq!["tickers"@]);
            assert(edits_v(es@) =~= e0.push((pv, vv)));
        }
    }
    if let Some(t) = &o.force_exit_by {
        push_edit(&mut es, "session", "force_exit_by", None, Json::Str(t.clone()));
    }
    if let Some(t) = &o.no_new_entries_after {
        push_edit(&mut es, "session", "no_new_entries_after", None, Json::Str(t.clone()));
    }
    es
}

/// Write the session and scoring settings into a strategy config document.
pub fn apply_setting_overrides(o: &SettingOverrides, a: &ActionOverrides, cfg: &mut Json)
    ensures
        jv(*final(cfg)) == put_all(jv(*old(cfg)), setting_edits(*o, *a)),
{
    let es = setting_edits_exec(o, a);
    let ghost ev = edits_v(es@);
    let ghost c0 = jv(*cfg);
    let mut k: usize = 0;
    while k < es.len()
        invariant
            k <= es.len(),
            ev == edits_v(es@),
            jv(*cfg) == put_all(c0, ev.take(k as int)),
        decreases es.len() - k,
    {
        let v = copy_json(&es[k].1);
        let next = put_path_exec(cfg, &es[k].0, 0, v);
        proof {
            assert(path_v(es@[k as int].0@).skip(0) =~= path_v(es@[k as int].0@));
            assert(ev.take(k + 1).drop_last() =~= ev.take(k as int));
            assert(ev.take(k + 1).last() == ev[k as int]);
        }
        *cfg = next;
        k = k + 1;
    }
    proof {
        assert(ev.take(es.len() as int) =~= ev);
    }
}

/// Is any session or scoring setting given?
pub open spec fn settings_active(o: SettingOverrides) -> bool {
    ||| o.entry_cooldown_ms is Some
    ||| o.max_daily_loss_pct is Some
    ||| o.max_capital_deployed_pct is Some
    ||| o.max_position_pct is Some
    ||| o.avoid_first_minutes is Some
    ||| o.max_concurrent_positions is Some
    ||| o.exit_threshold is Some
    ||| o.timescale_weight_1m is Some
    ||| o.timescale_weight_5m is Some
    ||| o.timescale_weight_1h is Some
    ||| o.enable_agreement
    ||| o.enable_dynamic_fusion
    ||| o.vpin_gate_score is Some
    ||| o.hourly_exit_override is Some
    ||| o.force_exit_by is Some
    ||| o.no_new_entries_after is Some
    ||| o.tickers_override is Some
}

impl SettingOverrides {
    /// Is any session or scoring setting given? (An agreement exponent or a
    /// fusion weight alone sets nothing.)
    pub fn any_active(&self) -> (b: bool)
        ensures
            b == settings_active(*self),
    {
        self.entry_cooldown_ms.is_some() || self.max_daily_loss_pct.is_some()
            || self.max_capital_deployed_pct.is_some() || self.max_position_pct.is_some()
            || self.avoid_first_minutes.is_some() || self.max_concurrent_positions.is_some()
            || self.exit_threshold.is_some() || self.timescale_weight_1m.is_some()
            || self.timescale_weight_5m.is_some() || self.timescale_weight_1h.is_some() || self.enable_agreement
            || self.enable_dynamic_fusion || self.vpin_gate_score.is_some() || self.hourly_exit_override.is_some()
            || self.force_exit_by.is_some() || self.no_new_entries_after.is_some() || self.tickers_override.is_some()
    }
}

/// Settings that are not given, with no entry threshold and no mirrored short
/// windows, leave the config document as it is.
pub proof fn lemma_inactive_settings_unchanged(o: SettingOverrides, a: ActionOverrides, j: JsonV)
    requires
        !settings_active(o),
        a.entry_threshold is None,
        !a.mirror_short,
    ensures
        put_all(j, setting_edits(o, a)) == j,
{
    assert(setting_edits(o, a) =~= Seq::<(Seq<Seq<char>>, JsonV)>::empty());
}

/// A setting written at a path reads back there.
pub proof fn lemma_put_path_reads_back(j: JsonV, path: Seq<Seq<char>>, v: JsonV)
    ensures
        get_path(put_path(j, path, v), path) == Some(v),
    decreases path.len(),
{
    if path.len() > 0 {
        let m = obj_members(j);
        let inner = match member(m, path[0]) {
            Some(x) => x,
            None => JsonV::Null,
        };
        lemma_put_path_reads_back(inner, path.skip(1), v);
        lemma_member_with(m, path[0], put_path(inner, path.skip(1), v), path[0]);
    }
}

/// The value at a member path, if every step names a member of an object.
pub open spec fn get_path(j: JsonV, path: Seq<Seq<char>>) -> Option<JsonV>
    decreases path.len(),
{
    if path.len() == 0 {
        Some(j)
    } else {
        match j {
            JsonV::Obj(m) => match member(m, path[0]) {
                Some(x) => get_path(x, path.skip(1)),
                None => None,
            },
            _ => None,
        }
    }
}

/// The same round trip on whole conditions: `mirror_condition` applied twice to
/// a mirror-ready condition object reads back every member, numbers by value.
pub proof fn lemma_mirror_condition_round_trip(c: JsonV)
    requires
        c matches JsonV::Obj(m) && mirror_ready(m),
    ensures
        mirror_spec(mirror_spec(c)) matches JsonV::Obj(m2) && forall|k: Seq<char>|
            same_value(#[trigger] member(m2, k), member(c->Obj_0, k)),
{
    lemma_mirror_round_trip(c->Obj_0);
}

/// Every override of a research run: on the actions, the indicators (which also
/// take the patches' indicators) and the session and scoring settings (which
/// also take the entry threshold and the hard-gate clearing of mirrored windows).
#[derive(Debug)]
pub struct ResearchOverrides {
    pub actions: ActionOverrides,
    pub indicators: crate::indicator_cfg::IndicatorOverrides,
    pub settings: SettingOverrides,
}

/// Is any override of the research run given?
pub open spec fn research_active(o: ResearchOverrides) -> bool {
    any_active_spec(o.actions) || crate::indicator_cfg::indicators_active(o.indicators) || settings_active(o.settings)
}

impl ResearchOverrides {
    /// Is any override of the research run given?
    pub fn any_active(&self) -> (b: bool)
        ensures
            b == research_active(*self),
    {
        self.actions.any_active() || self.indicators.any_active() || self.settings.any_active()
    }
}

/// Apply every override of a research run to a strategy config: its document
/// (session and scoring), its actions and its indicators. The result tells what
/// each parameter setting came to.
pub fn apply_research_overrides(
    o: &ResearchOverrides,
    doc: &mut Json,
    actions: &mut Vec<ActionCfg>,
    indicators: &mut Vec<crate::indicator_cfg::IndicatorCfg>,
) -> (r: Vec<ParamOutcome>)
    ensures
        r@ == apply_spec(o.actions, actions_v(old(actions)@)).0,
        actions_v(final(actions)@) == with_force_exit(apply_spec(o.actions, actions_v(old(actions)@)).1, o.settings.force_exit_by),
        crate::indicator_cfg::indicators_v(final(indicators)@) == crate::indicator_cfg::indicators_after(
            o.indicators,
            o.actions.patches@,
            crate::indicator_cfg::indicators_v(old(indicators)@),
        ),
        jv(*final(doc)) == put_all(jv(*old(doc)), setting_edits(o.settings, o.actions)),
{
    let outs = apply_overrides(&o.actions, actions);
    if let Some(t) = &o.settings.force_exit_by {
        set_param_on_type(actions, "session_close", "force_exit_by", &Json::Str(t.clone()));
    }
    crate::indicator_cfg::apply_indicator_overrides(&o.indicators, &o.actions.patches, indicators);
    apply_setting_overrides(&o.settings, &o.actions, doc);
    outs
}

/// The actions with the session-close actions given the force-exit time, where
/// one is set.
pub open spec fn with_force_exit(s: Seq<ActionV>, t: Option<String>) -> Seq<ActionV> {
    match t {
        Some(t) => param_of_type(s, "session_close"@, "force_exit_by"@, JsonV::Str(t@)),
        None => s,
    }
}

/// A research run without overrides leaves the config as it is: document,
/// actions and indicators.
pub proof fn lemma_inactive_research_is_identity(
    o: ResearchOverrides,
    doc: JsonV,
    s: Seq<ActionV>,
    inds: Seq<crate::indicator_cfg::IndicatorV>,
)
    requires
        !research_active(o),
    ensures
        apply_spec(o.actions, s) == (Seq::<ParamOutcome>::empty(), s),
        with_force_exit(s, o.settings.force_exit_by) == s,
        crate::indicator_cfg::indicators_after(o.indicators, o.actions.patches@, inds) == inds,
        put_all(doc, setting_edits(o.settings, o.actions)) == doc,
{
    lemma_inactive_is_identity(o.actions, s);
    assert(o.actions.patches@ =~= Seq::<ActionPatch>::empty());
    crate::indicator_cfg::lemma_inactive_indicators_unchanged(o.indicators, inds);
    lemma_inactive_settings_unchanged(o.settings, o.actions, doc);
}

} // verus!
