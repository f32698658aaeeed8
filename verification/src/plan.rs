//! Turning a strategy's action configs into per-phase evaluation lists: disabled
//! actions are skipped, unknown action types are an error, and each phase is
//! ordered by priority (lower first), ties keeping config order.

use vstd::prelude::*;
use crate::model::ActionPhase;
use crate::order::{key_position_sorted, stable_sort_positions, strictly_increasing};

verus! {

/// The part of an action config that decides where and when it runs.
#[derive(Debug)]
pub struct ActionConfig {
    pub action_type: String,
    pub instance_id: String,
    pub phase: ActionPhase,
    pub enabled: bool,
    pub priority: i32,
}

/// The action types that can be built.
pub struct ActionRegistry {
    names: Vec<String>,
}

/// Positions (into the config list) of the actions of each phase, in evaluation order.
#[derive(Debug)]
pub struct ActionsByPhase {
    pub entry: Vec<usize>,
    pub monitor: Vec<usize>,
    pub exit: Vec<usize>,
    pub sizing: Vec<usize>,
}

impl ActionRegistry {
    /// The registered action type names.
    pub closed spec fn types(&self) -> Set<Seq<char>> {
        self.names@.map_values(|s: String| s@).to_set()
    }

    pub fn new() -> (r: Self)
        ensures
            r.types() == Set::<Seq<char>>::empty(),
    {
        let r = ActionRegistry { names: Vec::new() };
        proof {
            assert(r.types() =~= Set::<Seq<char>>::empty());
        }
        r
    }

    /// Register an action type under `name`.
    pub fn register(&mut self, name: &str)
        ensures
            final(self).types() == old(self).types().insert(name@),
    {
        let s = String::from_str(name);
        let ghost old_names = self.names@;
        self.names.push(s);
        proof {
            assert(self.names@.map_values(|s: String| s@) == old_names.map_values(|s: String| s@).push(name@));
            assert(self.types() =~= old(self).types().insert(name@)) by {
                let m = self.names@.map_values(|s: String| s@);
                let m0 = old_names.map_values(|s: String| s@);
                assert forall|x: Seq<char>| m.to_set().contains(x) <==> m0.to_set().insert(name@).contains(x) by {
                    if m.contains(x) {
                        let k = choose|k: int| 0 <= k < m.len() && m[k] == x;
                        if k < m0.len() {
                            assert(m0[k] == x);
                        }
                    }
                    if m0.contains(x) {
                        let k = choose|k: int| 0 <= k < m0.len() && m0[k] == x;
                        assert(m[k] == x);
                    }
                    if x == name@ {
                        assert(m[m.len() - 1] == x);
                    }
                }
            }
        }
    }

    /// `name` is a registered action type.
    pub fn contains(&self, name: &String) -> (b: bool)
        ensures
            b == self.types().contains(name@),
    {
        let ghost m = self.names@.map_values(|s: String| s@);
        let mut i: usize = 0;
        while i < self.names.len()
            invariant
                i <= self.names.len(),
                m == self.names@.map_values(|s: String| s@),
                forall|j: int| 0 <= j < i ==> m[j] != name@,
            decreases self.names.len() - i,
        {
            if self.names[i] == *name {
                proof {
                    assert(m[i as int] == name@);
                }
                return true;
            }
            i = i + 1;
        }
        false
    }
}

/// The action types registered by default: every action this system ships.
pub open spec fn default_action_types() -> Set<Seq<char>> {
    set![
        "score_threshold_entry"@,
        "entry_window"@,
        "entry_reject_gate"@,
        "atr_trailing_stop"@,
        "fixed_pct_stop"@,
        "profit_trailing_stop"@,
        "session_close"@,
        "max_hold_timeout"@,
        "breakeven_stop"@,
        "fixed_fractional"@,
        "score_scaled"@,
        "volatility_scaled"@,
        "indicator_tiered"@,
    ]
}

/// A registry holding every action type of this system.
pub fn default_action_registry() -> (r: ActionRegistry)
    ensures
        r.types() == default_action_types(),
{
    let mut reg = ActionRegistry::new();
    reg.register("score_threshold_entry");
    reg.register("entry_window");
    reg.register("entry_reject_gate");
    reg.register("atr_trailing_stop");
    reg.register("fixed_pct_stop");
    reg.register("profit_trailing_stop");
    reg.register("session_close");
    reg.register("max_hold_timeout");
    reg.register("breakeven_stop");
    reg.register("fixed_fractional");
    reg.register("score_scaled");
    reg.register("volatility_scaled");
    reg.register("indicator_tiered");
    proof {
        assert(reg.types() =~= default_action_types());
    }
    reg
}

/// Config `i` is enabled and names a type the registry does not know.
pub open spec fn is_unknown(configs: Seq<ActionConfig>, types: Set<Seq<char>>, i: int) -> bool {
    0 <= i < configs.len() && configs[i].enabled && !types.contains(configs[i].action_type@)
}

/// Config `i` is enabled and runs in phase `ph`.
pub open spec fn runs_in(configs: Seq<ActionConfig>, ph: ActionPhase, i: int) -> bool {
    0 <= i < configs.len() && configs[i].enabled && configs[i].phase == ph
}

/// The priorities of the configs, as sort keys.
pub open spec fn priority_keys(configs: Seq<ActionConfig>) -> Seq<i64> {
    configs.map_values(|c: ActionConfig| c.priority as i64)
}

/// `r` lists exactly the enabled actions of phase `ph`, by priority, ties in config order.
pub open spec fn phase_list_ok(configs: Seq<ActionConfig>, ph: ActionPhase, r: Seq<usize>) -> bool {
    &&& forall|x: usize| r.contains(x) <==> runs_in(configs, ph, x as int)
    &&& key_position_sorted(priority_keys(configs), r)
}

/// The message for an unknown action type.
pub open spec fn unknown_type_message(t: Seq<char>) -> Seq<char> {
    "unknown action type: '"@ + t + "'"@
}

fn phase_positions(configs: &Vec<ActionConfig>, ph: ActionPhase) -> (r: Vec<usize>)
    ensures
        strictly_increasing(r@),
        forall|x: usize| r@.contains(x) <==> runs_in(configs@, ph, x as int),
        forall|j: int| 0 <= j < r.len() ==> r@[j] < configs.len(),
{
    let mut r: Vec<usize> = Vec::new();
    let mut i: usize = 0;
    while i < configs.len()
        invariant
            i <= configs.len(),
            strictly_increasing(r@),
            forall|j: int| 0 <= j < r.len() ==> r@[j] < i,
            forall|x: usize| r@.contains(x) <==> (x < i && runs_in(configs@, ph, x as int)),
        decreases configs.len() - i,
    {
        if configs[i].enabled && configs[i].phase == ph {
            let ghost old_r = r@;
            r.push(i);
            proof {
                assert(runs_in(configs@, ph, i as int));
                assert forall|x: usize| r@.contains(x) <==> (x < i + 1 && runs_in(configs@, ph, x as int)) by {
                    if r@.contains(x) {
                        let k = choose|k: int| 0 <= k < r@.len() && r@[k] == x;
                        if k < old_r.len() {
                            assert(old_r[k] == x);
                            assert(old_r.contains(x));
                        }
                    }
                    if x < i + 1 && runs_in(configs@, ph, x as int) {
                        if x < i {
                            assert(old_r.contains(x));
                            let k = choose|k: int| 0 <= k < old_r.len() && old_r[k] == x;
                            assert(r@[k] == x);
                        } else {
                            assert(r@[r@.len() - 1] == x);
                        }
                    }
                }
            }
        } else {
            proof {
                assert(!runs_in(configs@, ph, i as int));
                assert forall|x: usize| r@.contains(x) <==> (x < i + 1 && runs_in(configs@, ph, x as int)) by {
                    if r@.contains(x) {
                        let k = choose|k: int| 0 <= k < r@.len() && r@[k] == x;
                        assert(r@[k] < i);
                    }
                }
            }
        }
        i = i + 1;
    }
    r
}

/// A promoted config is only taken when it has at least one indicator and at least
/// one action; the error names what is missing (indicators are checked first).
pub fn validate_promoted_config(indicators: usize, actions: usize) -> (r: Result<(), String>)
    ensures
        indicators == 0 ==> (r matches Err(e) && e@ == "config must have at least one indicator"@),
        indicators > 0 && actions == 0 ==> (r matches Err(e) && e@
            == "config must have at least one action"@),
        indicators > 0 && actions > 0 ==> r is Ok,
{
    if indicators == 0 {
        return Err(String::from_str("config must have at least one indicator"));
    }
    if actions == 0 {
        return Err(String::from_str("config must have at least one action"));
    }
    Ok(())
}

/// Build the per-phase evaluation lists from action configs: disabled actions are
/// skipped, an enabled action of an unregistered type is an error naming the first
/// such type, and each phase is sorted by priority (lower first, ties in config
/// order).
pub fn build_actions(configs: &Vec<ActionConfig>, registry: &ActionRegistry) -> (r: Result<ActionsByPhase, String>)
    ensures
        match r {
            Ok(p) => {
                &&& forall|i: int| !is_unknown(configs@, registry.types(), i)
                &&& phase_list_ok(configs@, ActionPhase::Entry, p.entry@)
                &&& phase_list_ok(configs@, ActionPhase::Monitor, p.monitor@)
                &&& phase_list_ok(configs@, ActionPhase::Exit, p.exit@)
                &&& phase_list_ok(configs@, ActionPhase::Sizing, p.sizing@)
            },
            Err(msg) => exists|i: int|
                {
                    &&& is_unknown(configs@, registry.types(), i)
                    &&& forall|j: int| 0 <= j < i ==> !is_unknown(configs@, registry.types(), j)
                    &&& msg@ == unknown_type_message(configs@[i].action_type@)
                },
        },
{
    let mut i: usize = 0;
    while i < configs.len()
        invariant
            i <= configs.len(),
            forall|j: int| 0 <= j < i ==> !is_unknown(configs@, registry.types(), j),
        decreases configs.len() - i,
    {
        let cfg = &configs[i];
        if cfg.enabled && !registry.contains(&cfg.action_type) {
            let mut msg = String::from_str("unknown action type: '");
            msg.append(cfg.action_type.as_str());
            msg.append("'");
            proof {
                assert(is_unknown(configs@, registry.types(), i as int));
            }
            return Err(msg);
        }
        i = i + 1;
    }
    let mut keys: Vec<i64> = Vec::new();
    let mut k: usize = 0;
    while k < configs.len()
        invariant
            k <= configs.len(),
            keys@ == priority_keys(configs@).take(k as int),
        decreases configs.len() - k,
    {
        keys.push(configs[k].priority as i64);
        proof {
            assert(priority_keys(configs@).take(k + 1) == priority_keys(configs@).take(k as int).push(
                configs@[k as int].priority as i64,
            ));
        }
        k = k + 1;
    }
    proof {
        assert(priority_keys(configs@).take(configs.len() as int) == priority_keys(configs@));
    }
    let entry = stable_sort_positions(&keys, &phase_positions(configs, ActionPhase::Entry));
    let monitor = stable_sort_positions(&keys, &phase_positions(configs, ActionPhase::Monitor));
    let exit = stable_sort_positions(&keys, &phase_positions(configs, ActionPhase::Exit));
    let sizing = stable_sort_positions(&keys, &phase_positions(configs, ActionPhase::Sizing));
    Ok(ActionsByPhase { entry, monitor, exit, sizing })
}

/// In a successful build every enabled action is evaluated in exactly one
/// phase, its own, and a disabled action in none.
pub proof fn lemma_action_in_its_phase_only(configs: Seq<ActionConfig>, p: ActionsByPhase, i: usize)
    requires
        phase_list_ok(configs, ActionPhase::Entry, p.entry@),
        phase_list_ok(configs, ActionPhase::Monitor, p.monitor@),
        phase_list_ok(configs, ActionPhase::Exit, p.exit@),
        phase_list_ok(configs, ActionPhase::Sizing, p.sizing@),
        i < configs.len(),
    ensures
        p.entry@.contains(i) == (configs[i as int].enabled && configs[i as int].phase == ActionPhase::Entry),
        p.monitor@.contains(i) == (configs[i as int].enabled && configs[i as int].phase
            == ActionPhase::Monitor),
        p.exit@.contains(i) == (configs[i as int].enabled && configs[i as int].phase == ActionPhase::Exit),
        p.sizing@.contains(i) == (configs[i as int].enabled && configs[i as int].phase
            == ActionPhase::Sizing),
{
}

} // verus!
