//! What a reaction reads when it decides to fire: its conditions over the
//! shared variables, and the volume crossings since the last tick.

use vstd::prelude::*;
use crate::logic::vars::{read_var, Variables};

verus! {

/// The identity of an authored asset.
#[derive(Clone, Copy, Debug, PartialEq, Eq, Structural)]
pub struct AssetId(pub u32);

/// How a condition compares a variable with its operand.
#[derive(Clone, Copy, Debug, PartialEq, Eq, Structural)]
pub enum CmpOp {
    Eq,
    Ne,
    Lt,
    Le,
    Gt,
    Ge,
}

/// `lhs op rhs`.
pub open spec fn holds(op: CmpOp, lhs: i32, rhs: i32) -> bool {
    match op {
        CmpOp::Eq => lhs == rhs,
        CmpOp::Ne => lhs != rhs,
        CmpOp::Lt => lhs < rhs,
        CmpOp::Le => lhs <= rhs,
        CmpOp::Gt => lhs > rhs,
        CmpOp::Ge => lhs >= rhs,
    }
}

impl CmpOp {
    /// Compare `lhs` with `rhs`.
    pub fn eval(self, lhs: i32, rhs: i32) -> (r: bool)
        ensures
            r == holds(self, lhs, rhs),
    {
        match self {
            CmpOp::Eq => lhs == rhs,
            CmpOp::Ne => lhs != rhs,
            CmpOp::Lt => lhs < rhs,
            CmpOp::Le => lhs <= rhs,
            CmpOp::Gt => lhs > rhs,
            CmpOp::Ge => lhs >= rhs,
        }
    }
}

/// A condition on one variable: `name op value`.
#[derive(Debug)]
pub struct Condition {
    pub name: String,
    pub op: CmpOp,
    pub value: i32,
}

/// A body entering (`entered`) or leaving a trigger volume.
#[derive(Clone, Copy, Debug, PartialEq, Eq, Structural)]
pub struct VolumeEvent {
    pub volume: AssetId,
    pub entered: bool,
}

/// Whether a condition holds against the variables.
pub open spec fn condition_holds(vars: Map<Seq<char>, i32>, c: Condition) -> bool {
    holds(c.op, read_var(vars, c.name@), c.value)
}

/// Whether every condition holds against the variables (true when there are
/// none).
pub fn conditions_pass(vars: &Variables, conditions: &[Condition]) -> (r: bool)
    ensures
        r == forall|i: int|
            0 <= i < conditions@.len() ==> #[trigger] condition_holds(vars@, conditions@[i]),
{
    let mut i: usize = 0;
    while i < conditions.len()
        invariant
            i <= conditions@.len(),
            forall|j: int| 0 <= j < i ==> #[trigger] condition_holds(vars@, conditions@[j]),
        decreases conditions@.len() - i,
    {
        let c = &conditions[i];
        if !c.op.eval(vars.get(c.name.as_str()), c.value) {
            assert(!condition_holds(vars@, conditions@[i as int]));
            return false;
        }
        i += 1;
    }
    true
}

/// Whether a crossing of `volume` in the given direction arrived.
pub open spec fn crossed(crossings: Seq<VolumeEvent>, volume: AssetId, entered: bool) -> bool {
    exists|i: int|
        0 <= i < crossings.len() && #[trigger] crossings[i] == (VolumeEvent { volume, entered })
}

/// Whether the crossings hold one of `volume` in the given direction; a
/// reaction with no volume never matches.
pub fn crossing_matches(crossings: &[VolumeEvent], volume: Option<AssetId>, entered: bool) -> (r:
    bool)
    ensures
        r == match volume {
            Some(v) => crossed(crossings@, v, entered),
            None => false,
        },
{
    let target = match volume {
        Some(v) => v,
        None => return false,
    };
    let mut i: usize = 0;
    while i < crossings.len()
        invariant
            volume == Some(target),
            i <= crossings@.len(),
            forall|j: int|
                0 <= j < i ==> #[trigger] crossings@[j] != (VolumeEvent { volume: target, entered }),
        decreases crossings@.len() - i,
    {
        let e = crossings[i];
        if e.entered == entered && e.volume == target {
            assert(crossings@[i as int] == (VolumeEvent { volume: target, entered }));
            return true;
        }
        i += 1;
    }
    false
}

/// What a reaction fires on. A timer's clock is the caller's, which reports
/// whether its interval elapsed this tick.
#[derive(Debug)]
pub enum RuleSource {
    /// The first tick.
    Start,
    /// A timer interval.
    Timer,
    /// A change of a variable's value.
    Variable(String),
    /// A body entering a trigger volume.
    Enter(Option<AssetId>),
    /// A body leaving a trigger volume.
    Exit(Option<AssetId>),
    /// An interact press on a target.
    Interact(Option<AssetId>),
}

/// A rule's firing flags between ticks.
#[derive(Clone, Copy, Debug, PartialEq, Eq, Structural)]
pub struct RuleGate {
    /// The start source has been seen.
    pub started: bool,
    /// The rule has fired at least once.
    pub fired_once: bool,
    /// The watched variable's value at the last tick.
    pub last_value: i32,
}

/// Whether a press on `target` arrived.
pub open spec fn pressed(presses: Seq<AssetId>, target: AssetId) -> bool {
    exists|i: int| 0 <= i < presses.len() && #[trigger] presses[i] == target
}

/// Whether the rule's source signals this tick.
pub open spec fn sourced(
    gate: RuleGate,
    source: RuleSource,
    vars: Map<Seq<char>, i32>,
    timer_due: bool,
    crossings: Seq<VolumeEvent>,
    presses: Seq<AssetId>,
) -> bool {
    match source {
        RuleSource::Start => !gate.started,
        RuleSource::Timer => timer_due,
        RuleSource::Variable(name) => read_var(vars, name@) != gate.last_value,
        RuleSource::Enter(v) => match v {
            Some(v) => crossed(crossings, v, true),
            None => false,
        },
        RuleSource::Exit(v) => match v {
            Some(v) => crossed(crossings, v, false),
            None => false,
        },
        RuleSource::Interact(t) => match t {
            Some(t) => pressed(presses, t),
            None => false,
        },
    }
}

/// Whether a rule fires: its source signalled, it is not a `once` rule that
/// already fired, its cooldown has run out, and every condition holds.
pub open spec fn fires(
    gate: RuleGate,
    source: RuleSource,
    once: bool,
    cooling: bool,
    conditions: Seq<Condition>,
    vars: Map<Seq<char>, i32>,
    timer_due: bool,
    crossings: Seq<VolumeEvent>,
    presses: Seq<AssetId>,
) -> bool {
    &&& sourced(gate, source, vars, timer_due, crossings, presses)
    &&& !(once && gate.fired_once)
    &&& !cooling
    &&& forall|i: int| 0 <= i < conditions.len() ==> #[trigger] condition_holds(vars, conditions[i])
}

fn any_press(presses: &[AssetId], target: AssetId) -> (r: bool)
    ensures
        r == pressed(presses@, target),
{
    let mut i: usize = 0;
    while i < presses.len()
        invariant
            i <= presses@.len(),
            forall|j: int| 0 <= j < i ==> #[trigger] presses@[j] != target,
        decreases presses@.len() - i,
    {
        if presses[i] == target {
            return true;
        }
        i += 1;
    }
    false
}

/// Decide whether a rule fires this tick. The source is read first (the start
/// source is consumed, a watched variable re-baselined) whether or not the
/// rule then fires: an event suppressed by `once`, the cooldown or the
/// conditions is dropped, not queued. `cooling` is whether the rule's
/// cooldown is still running; the caller restarts it when the rule fires.
pub fn rule_due(
    gate: &mut RuleGate,
    source: &RuleSource,
    once: bool,
    cooling: bool,
    conditions: &[Condition],
    vars: &Variables,
    timer_due: bool,
    crossings: &[VolumeEvent],
    presses: &[AssetId],
) -> (r: bool)
    ensures
        r == fires(*old(gate), *source, once, cooling, conditions@, vars@, timer_due, crossings@, presses@),
        final(gate).started == (old(gate).started || source is Start),
        final(gate).last_value == match source {
            RuleSource::Variable(name) => read_var(vars@, name@),
            _ => old(gate).last_value,
        },
        final(gate).fired_once == (old(gate).fired_once || r),
{
    let sourced = match source {
        RuleSource::Start => {
            let first = !gate.started;
            gate.started = true;
            first
        },
        RuleSource::Timer => timer_due,
        RuleSource::Variable(name) => {
            let current = vars.get(name.as_str());
            let changed = current != gate.last_value;
            gate.last_value = current;
            changed
        },
        RuleSource::Enter(v) => crossing_matches(crossings, *v, true),
        RuleSource::Exit(v) => crossing_matches(crossings, *v, false),
        RuleSource::Interact(t) => match t {
            Some(t) => any_press(presses, *t),
            None => false,
        },
    };
    if !sourced || (once && gate.fired_once) || cooling || !conditions_pass(vars, conditions) {
        return false;
    }
    gate.fired_once = true;
    true
}

/// A `once` rule that has fired never fires again, and a tick whose source
/// did not signal never fires: a suppressed event is not carried over.
pub proof fn lemma_fire_gates(
    gate: RuleGate,
    source: RuleSource,
    once: bool,
    cooling: bool,
    conditions: Seq<Condition>,
    vars: Map<Seq<char>, i32>,
    timer_due: bool,
    crossings: Seq<VolumeEvent>,
    presses: Seq<AssetId>,
)
    ensures
        once && gate.fired_once ==> !fires(gate, source, once, cooling, conditions, vars, timer_due, crossings, presses),
        !sourced(gate, source, vars, timer_due, crossings, presses) ==> !fires(
            gate,
            source,
            once,
            cooling,
            conditions,
            vars,
            timer_due,
            crossings,
            presses,
        ),
        cooling ==> !fires(gate, source, once, cooling, conditions, vars, timer_due, crossings, presses),
{
}

} // verus!
