//! Grounding of constellation-bound action surfaces: for a slot of a
//! constellation and the current states of its slots, the actions that are
//! valid now, the actions that are blocked and why, and the dependency
//! signals behind them.

use vstd::prelude::*;
use vstd::string::*;

use crate::assoc::{find_key, map_of};
use crate::context_resolution::{
    ActionView, BlockedActionOption, BlockedView, GroundedActionOption, GroundedConstraintSignal,
    SignalView,
};
use crate::text::{flat, join3, join_with, joined_with, lemma_flat_take, owned, text_eq, texts};

verus! {

broadcast use vstd::string::group_string_axioms;

/// A state machine: its ordered states and initial state.
#[derive(Debug, Clone, PartialEq, Eq)]
pub struct StateMachineDefBody {
    pub state_machine: String,
    pub states: Vec<String>,
    pub initial: String,
}

/// A verb offered by a slot, always or only in some states.
#[derive(Debug, Clone, PartialEq, Eq)]
pub enum VerbPaletteEntry {
    Simple(String),
    Gated { verb: String, when: Vec<String> },
}

impl VerbPaletteEntry {
    /// The verb of this entry.
    pub fn verb_fqn(&self) -> (r: &String)
        ensures
            r@ == entry_verb(*self),
    {
        match self {
            VerbPaletteEntry::Simple(v) => v,
            VerbPaletteEntry::Gated { verb, .. } => verb,
        }
    }
}

/// The verb of a palette entry.
pub open spec fn entry_verb(e: VerbPaletteEntry) -> Seq<char> {
    match e {
        VerbPaletteEntry::Simple(v) => v@,
        VerbPaletteEntry::Gated { verb, .. } => verb@,
    }
}

/// A slot this slot depends on, and the state it must have reached.
#[derive(Debug, Clone, PartialEq, Eq)]
pub struct DependencyEntry {
    pub slot: String,
    pub min_state: String,
}

/// What grounding reads of a slot definition.
#[derive(Debug, Clone, PartialEq, Eq)]
pub struct SlotDef {
    pub state_machine: Option<String>,
    pub depends_on: Vec<DependencyEntry>,
    pub verbs: Vec<(String, VerbPaletteEntry)>,
}

/// A slot with its full dotted path.
#[derive(Debug, Clone, PartialEq, Eq)]
pub struct ResolvedSlot {
    pub name: String,
    pub def: SlotDef,
}

/// A flattened constellation: slots by path and state machines by name.
#[derive(Debug, Clone, PartialEq, Eq)]
pub struct ConstellationModel {
    pub constellation: String,
    pub slots: Vec<(String, ResolvedSlot)>,
    pub state_machines: Vec<(String, StateMachineDefBody)>,
}

/// The action surface of one slot.
#[derive(Debug, Clone, PartialEq, Eq)]
pub struct SlotActionSurface {
    pub valid_actions: Vec<GroundedActionOption>,
    pub blocked_actions: Vec<BlockedActionOption>,
    pub constraint_signals: Vec<GroundedConstraintSignal>,
}

/// Rank of a well-known state name, for slots without a state machine.
pub open spec fn rank_of(state: Seq<char>) -> nat {
    if state == "empty"@ {
        0
    } else if state == "placeholder"@ {
        1
    } else if state == "filled"@ || state == "intake"@ {
        2
    } else if state == "workstream_open"@ || state == "discovery"@ || state == "alleged"@ {
        3
    } else if state == "screening_complete"@ || state == "evidence_collected"@ || state
        == "assessment"@ || state == "provable"@ {
        4
    } else if state == "review"@ || state == "verified"@ || state == "proved"@ {
        5
    } else if state == "approved"@ {
        6
    } else {
        0
    }
}

/// The rank of a state name when no state machine orders it.
pub fn state_rank_fallback(state: &str) -> (r: usize)
    ensures
        r == rank_of(state@),
{
    if text_eq(state, "empty") {
        0
    } else if text_eq(state, "placeholder") {
        1
    } else if text_eq(state, "filled") || text_eq(state, "intake") {
        2
    } else if text_eq(state, "workstream_open") || text_eq(state, "discovery") || text_eq(
        state,
        "alleged",
    ) {
        3
    } else if text_eq(state, "screening_complete") || text_eq(state, "evidence_collected")
        || text_eq(state, "assessment") || text_eq(state, "provable") {
        4
    } else if text_eq(state, "review") || text_eq(state, "verified") || text_eq(state, "proved") {
        5
    } else if text_eq(state, "approved") {
        6
    } else {
        0
    }
}

/// The ordered states of the machine of a slot, if the slot and its machine
/// are known.
pub open spec fn machine_states(m: ConstellationModel, slot: Seq<char>) -> Option<Seq<Seq<char>>> {
    if map_of(m.slots@).contains_key(slot) {
        match map_of(m.slots@)[slot].def.state_machine {
            Some(name) => if map_of(m.state_machines@).contains_key(name@) {
                Some(texts(map_of(m.state_machines@)[name@].states@))
            } else {
                None
            },
            None => None,
        }
    } else {
        None
    }
}

/// The first position of `x` in `s`.
pub open spec fn position(s: Seq<Seq<char>>, x: Seq<char>) -> Option<int> {
    if s.contains(x) {
        Some(choose|i: int| 0 <= i < s.len() && s[i] == x && forall|j: int| 0 <= j < i ==> s[j] != x)
    } else {
        None
    }
}

/// `current` has reached `min`: by the slot's machine order when both are
/// in it, by the fallback ranks otherwise.
#[verifier::opaque]
pub open spec fn reached(m: ConstellationModel, slot: Seq<char>, current: Seq<char>, min: Seq<char>) -> bool {
    match machine_states(m, slot) {
        Some(order) => match (position(order, current), position(order, min)) {
            (Some(a), Some(b)) => a >= b,
            _ => rank_of(current) >= rank_of(min),
        },
        None => rank_of(current) >= rank_of(min),
    }
}

fn position_of(s: &Vec<String>, x: &str) -> (r: Option<usize>)
    ensures
        match r {
            Some(i) => position(texts(s@), x@) == Some(i as int),
            None => position(texts(s@), x@) is None,
        },
{
    let ghost t = texts(s@);
    let mut i: usize = 0;
    while i < s.len()
        invariant
            i <= s.len(),
            t == texts(s@),
            forall|j: int| 0 <= j < i ==> t[j] != x@,
        decreases s.len() - i,
    {
        if text_eq(s[i].as_str(), x) {
            proof {
                assert(t[i as int] == x@);
                assert(t.contains(x@));
                let k = choose|k: int| 0 <= k < t.len() && t[k] == x@ && forall|j: int| 0 <= j < k ==> t[j] != x@;
                if k < i {
                } else if k > i {
                    assert(t[i as int] != x@);
                }
            }
            return Some(i);
        }
        i += 1;
    }
    proof {
        if t.contains(x@) {
            let k = choose|k: int| 0 <= k < t.len() && t[k] == x@;
        }
    }
    None
}

fn ordered_states<'a>(model: &'a ConstellationModel, slot_name: &str) -> (r: Option<&'a Vec<String>>)
    ensures
        match r {
            Some(v) => machine_states(*model, slot_name@) == Some(texts(v@)),
            None => machine_states(*model, slot_name@) is None,
        },
{
    match find_key(&model.slots, slot_name) {
        Some(i) => match &model.slots[i].1.def.state_machine {
            Some(name) => match find_key(&model.state_machines, name.as_str()) {
                Some(j) => Some(&model.state_machines[j].1.states),
                None => None,
            },
            None => None,
        },
        None => None,
    }
}

/// Whether the state `current` of a slot has reached `min_state`.
fn state_at_least(model: &ConstellationModel, slot_name: &str, current: &str, min_state: &str) -> (r: bool)
    ensures
        r == reached(*model, slot_name@, current@, min_state@),
{
    reveal(reached);
    match ordered_states(model, slot_name) {
        Some(order) => {
            let a = position_of(order, current);
            let b = position_of(order, min_state);
            match (a, b) {
                (Some(x), Some(y)) => {
                    return x >= y;
                },
                _ => {},
            }
        },
        None => {},
    }
    state_rank_fallback(current) >= state_rank_fallback(min_state)
}

/// The signal for a dependency that is missing or has not reached its
/// required state.
pub open spec fn dependency_signal(
    m: ConstellationModel,
    states: Seq<(String, String)>,
    slot_name: Seq<char>,
    dep: DependencyEntry,
) -> Option<SignalView> {
    if map_of(states).contains_key(dep.slot@) {
        let state = map_of(states)[dep.slot@]@;
        if reached(m, dep.slot@, state, dep.min_state@) {
            None
        } else {
            Some(
                SignalView {
                    kind: "dependency_block"@,
                    slot_path: slot_name,
                    related_slot: Some(dep.slot@),
                    required_state: Some(dep.min_state@),
                    actual_state: Some(state),
                    message: "dependency '"@ + dep.slot@ + "' is in state '"@ + state
                        + "' but requires '"@ + dep.min_state@ + "'"@,
                },
            )
        }
    } else {
        Some(
            SignalView {
                kind: "dependency_block"@,
                slot_path: slot_name,
                related_slot: Some(dep.slot@),
                required_state: Some(dep.min_state@),
                actual_state: None,
                message: "dependency '"@ + dep.slot@ + "' is missing; requires '"@ + dep.min_state@
                    + "'"@,
            },
        )
    }
}

/// The signals of all blocking dependencies of a slot, in order.
pub open spec fn dependency_signals(
    m: ConstellationModel,
    states: Seq<(String, String)>,
    slot: ResolvedSlot,
) -> Seq<SignalView> {
    flat(
        Seq::new(
            slot.def.depends_on@.len(),
            |i: int|
                match dependency_signal(m, states, slot.name@, slot.def.depends_on@[i]) {
                    Some(s) => seq![s],
                    None => Seq::empty(),
                },
        ),
    )
}

fn dependency_block_detail(
    model: &ConstellationModel,
    slot_states: &Vec<(String, String)>,
    slot_name: &str,
    dep: &DependencyEntry,
) -> (r: Option<GroundedConstraintSignal>)
    ensures
        match r {
            Some(s) => dependency_signal(*model, slot_states@, slot_name@, *dep) == Some(s@),
            None => dependency_signal(*model, slot_states@, slot_name@, *dep) is None,
        },
{
    match find_key(slot_states, dep.slot.as_str()) {
        Some(i) => {
            let state = slot_states[i].1.as_str();
            if state_at_least(model, dep.slot.as_str(), state, dep.min_state.as_str()) {
                None
            } else {
                let mut msg = join3("dependency '", dep.slot.as_str(), "' is in state '");
                msg.append(state);
                msg.append("' but requires '");
                msg.append(dep.min_state.as_str());
                msg.append("'");
                Some(
                    GroundedConstraintSignal {
                        kind: "dependency_block".to_owned(),
                        slot_path: slot_name.to_owned(),
                        related_slot: Some(dep.slot.clone()),
                        required_state: Some(dep.min_state.clone()),
                        actual_state: Some(state.to_owned()),
                        message: msg,
                    },
                )
            }
        },
        None => {
            let mut msg = join3("dependency '", dep.slot.as_str(), "' is missing; requires '");
            msg.append(dep.min_state.as_str());
            msg.append("'");
            Some(
                GroundedConstraintSignal {
                    kind: "dependency_block".to_owned(),
                    slot_path: slot_name.to_owned(),
                    related_slot: Some(dep.slot.clone()),
                    required_state: Some(dep.min_state.clone()),
                    actual_state: None,
                    message: msg,
                },
            )
        },
    }
}

/// The number of `.` in a text.
pub open spec fn dot_count(s: Seq<char>) -> nat
    decreases s.len(),
{
    if s.len() == 0 {
        0
    } else {
        dot_count(s.drop_last()) + if s.last() == '.' {
            1nat
        } else {
            0nat
        }
    }
}

/// `macro` for a verb of three or more dotted parts, `primitive` otherwise.
pub open spec fn action_kind(verb: Seq<char>) -> Seq<char> {
    if dot_count(verb) >= 2 {
        "macro"@
    } else {
        "primitive"@
    }
}

fn action_kind_for(entry: &VerbPaletteEntry) -> (r: &'static str)
    ensures
        r@ == action_kind(entry_verb(*entry)),
{
    let cs = crate::text::chars_of(entry.verb_fqn().as_str());
    let mut n: usize = 0;
    let mut i: usize = 0;
    while i < cs.len()
        invariant
            i <= cs.len(),
            n == dot_count(cs@.take(i as int)),
            n <= i,
        decreases cs.len() - i,
    {
        assert(cs@.take(i + 1).drop_last() =~= cs@.take(i as int));
        if cs[i] == '.' {
            n += 1;
        }
        i += 1;
    }
    assert(cs@.take(cs.len() as int) =~= cs@);
    if n >= 2 {
        "macro"
    } else {
        "primitive"
    }
}

} // verus!

verus! {

/// The current state of a slot: its recorded state, else the initial state
/// of its machine, else `empty`.
pub open spec fn current_state_of(
    m: ConstellationModel,
    states: Seq<(String, String)>,
    slot_name: Seq<char>,
    slot: ResolvedSlot,
) -> Seq<char> {
    if map_of(states).contains_key(slot_name) {
        map_of(states)[slot_name]@
    } else {
        match slot.def.state_machine {
            Some(n) => if map_of(m.state_machines@).contains_key(n@) {
                map_of(m.state_machines@)[n@].initial@
            } else {
                "empty"@
            },
            None => "empty"@,
        }
    }
}

/// A palette entry is allowed in the current state: always when simple,
/// when some gating state has been reached otherwise.
pub open spec fn entry_allowed(
    m: ConstellationModel,
    slot_name: Seq<char>,
    current: Seq<char>,
    e: VerbPaletteEntry,
) -> bool {
    match e {
        VerbPaletteEntry::Simple(_) => true,
        VerbPaletteEntry::Gated { when: gates, .. } => exists|k: int|
            0 <= k < gates@.len() && reached(m, slot_name, current, #[trigger] gates@[k]@),
    }
}

/// Everything that decides the surface of a slot.
pub struct SurfaceInputs {
    pub model: ConstellationModel,
    pub states: Seq<(String, String)>,
    pub slot_name: Seq<char>,
    pub slot: ResolvedSlot,
}

pub open spec fn entries(x: SurfaceInputs) -> Seq<VerbPaletteEntry> {
    x.slot.def.verbs@.map_values(|p: (String, VerbPaletteEntry)| p.1)
}

pub open spec fn current(x: SurfaceInputs) -> Seq<char> {
    current_state_of(x.model, x.states, x.slot_name, x.slot)
}

pub open spec fn allowed_at(x: SurfaceInputs, i: int) -> bool {
    entry_allowed(x.model, x.slot_name, current(x), entries(x)[i])
}

pub open spec fn deps(x: SurfaceInputs) -> Seq<SignalView> {
    dependency_signals(x.model, x.states, x.slot)
}

/// Entry `i` is valid: allowed, and no dependency blocks the slot.
pub open spec fn valid_at(x: SurfaceInputs, i: int) -> bool {
    allowed_at(x, i) && deps(x).len() == 0
}

/// Entry `i` is the first valid entry with its verb.
pub open spec fn first_valid_at(x: SurfaceInputs, i: int) -> bool {
    valid_at(x, i) && !exists|j: int|
        0 <= j < i && #[trigger] valid_at(x, j) && entry_verb(entries(x)[j]) == entry_verb(entries(x)[i])
}

pub open spec fn valid_view(x: SurfaceInputs, i: int) -> ActionView {
    ActionView {
        action_id: entry_verb(entries(x)[i]),
        action_kind: action_kind(entry_verb(entries(x)[i])),
        description: "Valid action for slot '"@ + x.slot.name@ + "'"@,
        requires_subject: true,
        rationale: Some("slot '"@ + x.slot.name@ + "' is in state '"@ + current(x) + "'"@),
    }
}

pub open spec fn blocked_view(x: SurfaceInputs, i: int) -> BlockedView {
    BlockedView {
        action_id: entry_verb(entries(x)[i]),
        action_kind: action_kind(entry_verb(entries(x)[i])),
        description: "Blocked action for slot '"@ + x.slot.name@ + "'"@,
        reasons: deps(x).map_values(|s: SignalView| s.message) + if allowed_at(x, i) {
            Seq::empty()
        } else {
            seq![
                "slot '"@ + x.slot.name@ + "' is in state '"@ + current(x)
                    + "' which does not satisfy action gating"@,
            ]
        },
    }
}

/// The valid actions: each first valid entry per verb, in palette order.
pub open spec fn valid_actions_of(x: SurfaceInputs) -> Seq<ActionView> {
    flat(
        Seq::new(
            entries(x).len(),
            |i: int|
                if first_valid_at(x, i) {
                    seq![valid_view(x, i)]
                } else {
                    Seq::empty()
                },
        ),
    )
}

/// The blocked actions: every entry that is not valid, in palette order.
pub open spec fn blocked_actions_of(x: SurfaceInputs) -> Seq<BlockedView> {
    flat(
        Seq::new(
            entries(x).len(),
            |i: int|
                if !valid_at(x, i) {
                    seq![blocked_view(x, i)]
                } else {
                    Seq::empty()
                },
        ),
    )
}

/// The constraint signals: the dependency signals, once per palette entry.
pub open spec fn signals_of(x: SurfaceInputs) -> Seq<SignalView> {
    flat(Seq::new(entries(x).len(), |i: int| deps(x)))
}

fn dependency_blocks(
    model: &ConstellationModel,
    slot_states: &Vec<(String, String)>,
    slot: &ResolvedSlot,
) -> (r: Vec<GroundedConstraintSignal>)
    ensures
        r@.map_values(|s: GroundedConstraintSignal| s@) == dependency_signals(*model, slot_states@, *slot),
{
    let ghost parts = Seq::new(
        slot.def.depends_on@.len(),
        |i: int|
            match dependency_signal(*model, slot_states@, slot.name@, slot.def.depends_on@[i]) {
                Some(s) => seq![s],
                None => Seq::<SignalView>::empty(),
            },
    );
    let mut r: Vec<GroundedConstraintSignal> = Vec::new();
    let mut i: usize = 0;
    while i < slot.def.depends_on.len()
        invariant
            i <= slot.def.depends_on.len(),
            parts == Seq::new(
                slot.def.depends_on@.len(),
                |i: int|
                    match dependency_signal(*model, slot_states@, slot.name@, slot.def.depends_on@[i]) {
                        Some(s) => seq![s],
                        None => Seq::<SignalView>::empty(),
                    },
            ),
            r@.map_values(|s: GroundedConstraintSignal| s@) == flat(parts.take(i as int)),
        decreases slot.def.depends_on.len() - i,
    {
        let ghost before = r@.map_values(|s: GroundedConstraintSignal| s@);
        match dependency_block_detail(model, slot_states, slot.name.as_str(), &slot.def.depends_on[i]) {
            Some(s) => r.push(s),
            None => {},
        }
        proof {
            lemma_flat_take(parts, i as int);
            assert(r@.map_values(|s: GroundedConstraintSignal| s@) =~= before + parts[i as int]);
        }
        i += 1;
    }
    assert(parts.take(parts.len() as int) =~= parts);
    r
}

fn gated_allowed(model: &ConstellationModel, slot_name: &str, current: &str, gates: &Vec<String>) -> (r: bool)
    ensures
        r == exists|k: int| 0 <= k < gates@.len() && reached(*model, slot_name@, current@, #[trigger] gates@[k]@),
{
    let mut k: usize = 0;
    while k < gates.len()
        invariant
            k <= gates.len(),
            forall|j: int| 0 <= j < k ==> !reached(*model, slot_name@, current@, #[trigger] gates@[j]@),
        decreases gates.len() - k,
    {
        if state_at_least(model, slot_name, current, gates[k].as_str()) {
            return true;
        }
        k += 1;
    }
    false
}

fn copy_signals(v: &Vec<GroundedConstraintSignal>) -> (r: Vec<GroundedConstraintSignal>)
    ensures
        r@.map_values(|s: GroundedConstraintSignal| s@) == v@.map_values(|s: GroundedConstraintSignal| s@),
{
    let mut r: Vec<GroundedConstraintSignal> = Vec::new();
    let mut i: usize = 0;
    while i < v.len()
        invariant
            i <= v.len(),
            r@.len() == i,
            forall|k: int| 0 <= k < i ==> (#[trigger] r@[k])@ == v@[k]@,
        decreases v.len() - i,
    {
        let s = &v[i];
        r.push(
            GroundedConstraintSignal {
                kind: s.kind.clone(),
                slot_path: s.slot_path.clone(),
                related_slot: crate::text::copy_opt(&s.related_slot),
                required_state: crate::text::copy_opt(&s.required_state),
                actual_state: crate::text::copy_opt(&s.actual_state),
                message: s.message.clone(),
            },
        );
        i += 1;
    }
    assert(r@.map_values(|s: GroundedConstraintSignal| s@) =~= v@.map_values(|s: GroundedConstraintSignal| s@));
    r
}

fn messages_of(v: &Vec<GroundedConstraintSignal>) -> (r: Vec<String>)
    ensures
        texts(r@) == v@.map_values(|s: GroundedConstraintSignal| s@).map_values(|s: SignalView| s.message),
{
    let mut r: Vec<String> = Vec::new();
    let mut i: usize = 0;
    while i < v.len()
        invariant
            i <= v.len(),
            r@.len() == i,
            forall|k: int| 0 <= k < i ==> (#[trigger] r@[k])@ == v@[k].message@,
        decreases v.len() - i,
    {
        r.push(v[i].message.clone());
        i += 1;
    }
    assert(texts(r@) =~= v@.map_values(|s: GroundedConstraintSignal| s@).map_values(|s: SignalView| s.message));
    r
}

/// Compute the valid and blocked actions of a slot from the current slot
/// states; an unknown slot is refused with `unknown slot '<name>'`.
pub fn compute_slot_action_surface(
    model: &ConstellationModel,
    slot_states: &Vec<(String, String)>,
    slot_name: &str,
) -> (r: Result<SlotActionSurface, String>)
    ensures
        !map_of(model.slots@).contains_key(slot_name@) ==> r is Err && r->Err_0@ == "unknown slot '"@
            + slot_name@ + "'"@,
        map_of(model.slots@).contains_key(slot_name@) ==> r is Ok && ({
            let x = SurfaceInputs {
                model: *model,
                states: slot_states@,
                slot_name: slot_name@,
                slot: map_of(model.slots@)[slot_name@],
            };
            let s = r->Ok_0;
            &&& s.valid_actions@.map_values(|a: GroundedActionOption| a@) == valid_actions_of(x)
            &&& s.blocked_actions@.map_values(|b: BlockedActionOption| b@) == blocked_actions_of(x)
            &&& s.constraint_signals@.map_values(|c: GroundedConstraintSignal| c@) == signals_of(x)
        }),
{
    let idx = match find_key(&model.slots, slot_name) {
        Some(i) => i,
        None => {
            return Err(join3("unknown slot '", slot_name, "'"));
        },
    };
    let resolved = &model.slots[idx].1;
    let ghost x = SurfaceInputs {
        model: *model,
        states: slot_states@,
        slot_name: slot_name@,
        slot: *resolved,
    };
    let current_state: String = match find_key(slot_states, slot_name) {
        Some(i) => slot_states[i].1.clone(),
        None => match &resolved.def.state_machine {
            Some(n) => match find_key(&model.state_machines, n.as_str()) {
                Some(j) => model.state_machines[j].1.initial.clone(),
                None => "empty".to_owned(),
            },
            None => "empty".to_owned(),
        },
    };
    assert(current_state@ == current(x));
    let blocks = dependency_blocks(model, slot_states, resolved);
    let reasons0 = messages_of(&blocks);
    let mut valid_actions: Vec<GroundedActionOption> = Vec::new();
    let mut blocked_actions: Vec<BlockedActionOption> = Vec::new();
    let mut constraint_signals: Vec<GroundedConstraintSignal> = Vec::new();
    let mut seen: Vec<String> = Vec::new();
    let ghost vparts = Seq::new(entries(x).len(), |i: int| if first_valid_at(x, i) { seq![valid_view(x, i)] } else { Seq::<ActionView>::empty() });
    let ghost bparts = Seq::new(entries(x).len(), |i: int| if !valid_at(x, i) { seq![blocked_view(x, i)] } else { Seq::<BlockedView>::empty() });
    let ghost sparts = Seq::new(entries(x).len(), |i: int| deps(x));
    let verbs = &resolved.def.verbs;
    let mut i: usize = 0;
    while i < verbs.len()
        invariant
            i <= verbs.len(),
            verbs == &resolved.def.verbs,
            x.slot == *resolved,
            x.model == *model,
            x.states == slot_states@,
            x.slot_name == slot_name@,
            current_state@ == current(x),
            blocks@.map_values(|s: GroundedConstraintSignal| s@) == deps(x),
            texts(reasons0@) == deps(x).map_values(|s: SignalView| s.message),
            entries(x).len() == verbs@.len(),
            vparts == Seq::new(entries(x).len(), |i: int| if first_valid_at(x, i) { seq![valid_view(x, i)] } else { Seq::<ActionView>::empty() }),
            bparts == Seq::new(entries(x).len(), |i: int| if !valid_at(x, i) { seq![blocked_view(x, i)] } else { Seq::<BlockedView>::empty() }),
            sparts == Seq::new(entries(x).len(), |i: int| deps(x)),
            valid_actions@.map_values(|a: GroundedActionOption| a@) == flat(vparts.take(i as int)),
            blocked_actions@.map_values(|b: BlockedActionOption| b@) == flat(bparts.take(i as int)),
            constraint_signals@.map_values(|c: GroundedConstraintSignal| c@) == flat(sparts.take(i as int)),
            forall|v: Seq<char>| texts(seen@).contains(v) <==> exists|j: int| 0 <= j < i && #[trigger] valid_at(x, j) && entry_verb(entries(x)[j]) == v,
        decreases verbs.len() - i,
    {
        let entry = &verbs[i].1;
        let ghost seen0 = texts(seen@);
        assert(entries(x)[i as int] == *entry);
        let action_id = entry.verb_fqn();
        let state_allowed = match entry {
            VerbPaletteEntry::Simple(_) => true,
            VerbPaletteEntry::Gated { when: gates, .. } => gated_allowed(
                model,
                slot_name,
                current_state.as_str(),
                gates,
            ),
        };
        assert(state_allowed == allowed_at(x, i as int));
        let ghost vb = valid_actions@.map_values(|a: GroundedActionOption| a@);
        let ghost bb = blocked_actions@.map_values(|b: BlockedActionOption| b@);
        let ghost sb = constraint_signals@.map_values(|c: GroundedConstraintSignal| c@);
        let more = copy_signals(&blocks);
        let mut k: usize = 0;
        while k < more.len()
            invariant
                k <= more.len(),
                more@.map_values(|s: GroundedConstraintSignal| s@) == deps(x),
                constraint_signals@.map_values(|c: GroundedConstraintSignal| c@) == sb + deps(x).take(k as int),
            decreases more.len() - k,
        {
            let s = &more[k];
            let ghost cb = constraint_signals@;
            constraint_signals.push(
                GroundedConstraintSignal {
                    kind: s.kind.clone(),
                    slot_path: s.slot_path.clone(),
                    related_slot: crate::text::copy_opt(&s.related_slot),
                    required_state: crate::text::copy_opt(&s.required_state),
                    actual_state: crate::text::copy_opt(&s.actual_state),
                    message: s.message.clone(),
                },
            );
            proof {
                assert(deps(x)[k as int] == more@[k as int]@);
                let n = constraint_signals@.len() - 1;
                assert(constraint_signals@[n]@ == more@[k as int]@);
                assert(constraint_signals@ == cb.push(constraint_signals@[n]));
                assert(constraint_signals@.map_values(|c: GroundedConstraintSignal| c@) =~= cb.map_values(|c: GroundedConstraintSignal| c@).push(more@[k as int]@));
                assert(deps(x).take(k + 1) =~= deps(x).take(k as int).push(deps(x)[k as int]));
                assert(constraint_signals@.map_values(|c: GroundedConstraintSignal| c@) =~= sb + deps(x).take(k + 1));
            }
            k += 1;
        }
        assert(deps(x).take(deps(x).len() as int) =~= deps(x));
        let kind = action_kind_for(entry);
        if state_allowed && blocks.len() == 0 {
            let dup = crate::text::contains_text(&seen, action_id.as_str());
            if !dup {
                let mut rationale = join3("slot '", resolved.name.as_str(), "' is in state '");
                rationale.append(current_state.as_str());
                rationale.append("'");
                valid_actions.push(
                    GroundedActionOption {
                        action_id: action_id.clone(),
                        action_kind: kind.to_owned(),
                        description: join3("Valid action for slot '", resolved.name.as_str(), "'"),
                        requires_subject: true,
                        rationale: Some(rationale),
                    },
                );
                seen.push(action_id.clone());
            }
            proof {
                assert(valid_at(x, i as int));
                if dup {
                    let q = choose|q: int| 0 <= q < texts(seen@).len() && texts(seen@)[q] == action_id@;
                    assert(texts(seen@).contains(action_id@));
                    assert(!first_valid_at(x, i as int));
                } else {
                    assert(first_valid_at(x, i as int));
                }
            }
        } else {
            let mut reasons = crate::text::copy_strings(&reasons0);
            let ghost gate_msg = "slot '"@ + resolved.name@ + "' is in state '"@ + current(x)
                + "' which does not satisfy action gating"@;
            if !state_allowed {
                let mut msg = join3("slot '", resolved.name.as_str(), "' is in state '");
                msg.append(current_state.as_str());
                msg.append("' which does not satisfy action gating");
                assert(msg@ == gate_msg);
                reasons.push(msg);
            }
            assert(texts(reasons@) =~= deps(x).map_values(|s: SignalView| s.message) + if state_allowed {
                Seq::empty()
            } else {
                seq![gate_msg]
            });
            blocked_actions.push(
                BlockedActionOption {
                    action_id: action_id.clone(),
                    action_kind: kind.to_owned(),
                    description: join3("Blocked action for slot '", resolved.name.as_str(), "'"),
                    reasons,
                },
            );
            proof {
                assert(!valid_at(x, i as int));
                let n = blocked_actions@.len() - 1;
                assert(blocked_actions@[n]@ == blocked_view(x, i as int));
            }
        }
        proof {
            lemma_flat_take(vparts, i as int);
            lemma_flat_take(bparts, i as int);
            lemma_flat_take(sparts, i as int);
            assert(valid_actions@.map_values(|a: GroundedActionOption| a@) =~= flat(vparts.take(i + 1)));
            assert(blocked_actions@.map_values(|b: BlockedActionOption| b@) =~= flat(bparts.take(i + 1)));
            assert(constraint_signals@.map_values(|c: GroundedConstraintSignal| c@) =~= flat(sparts.take(i + 1)));
            let xi = i as int;
            let seen1 = texts(seen@);
            assert(seen1 =~= seen0 || (seen1 =~= seen0.push(action_id@) && valid_at(x, xi)));
            assert(valid_at(x, xi) ==> seen1.contains(action_id@)) by {
                if valid_at(x, xi) {
                    if seen1 =~= seen0.push(action_id@) {
                        assert(seen1[seen1.len() - 1] == action_id@);
                    } else {
                        assert(seen0.contains(action_id@));
                    }
                }
            }
            assert forall|v: Seq<char>| seen1.contains(v) <==> exists|j: int| 0 <= j < xi + 1 && #[trigger] valid_at(x, j) && entry_verb(entries(x)[j]) == v by {
                if seen1.contains(v) {
                    if seen0.contains(v) {
                        let j = choose|j: int| 0 <= j < xi && #[trigger] valid_at(x, j) && entry_verb(entries(x)[j]) == v;
                    } else {
                        let q = choose|q: int| 0 <= q < seen1.len() && seen1[q] == v;
                        assert(q == seen1.len() - 1);
                        assert(valid_at(x, xi) && entry_verb(entries(x)[xi]) == v);
                    }
                }
                if exists|j: int| 0 <= j < xi + 1 && #[trigger] valid_at(x, j) && entry_verb(entries(x)[j]) == v {
                    let j = choose|j: int| 0 <= j < xi + 1 && #[trigger] valid_at(x, j) && entry_verb(entries(x)[j]) == v;
                    if j < xi {
                        assert(seen0.contains(v));
                        let q = choose|q: int| 0 <= q < seen0.len() && seen0[q] == v;
                        assert(seen1[q] == v);
                    }
                }
            }
        }
        i += 1;
    }
    assert(vparts.take(vparts.len() as int) =~= vparts);
    assert(bparts.take(bparts.len() as int) =~= bparts);
    assert(sparts.take(sparts.len() as int) =~= sparts);
    Ok(SlotActionSurface { valid_actions, blocked_actions, constraint_signals })
}

} // verus!

verus! {

// ── What every slot surface holds ──────────────────────────────

/// The valid actions, entry by entry: the first valid entry of each verb
/// gives its action, every other entry nothing.
pub open spec fn valid_parts(x: SurfaceInputs) -> Seq<Seq<ActionView>> {
    Seq::new(
        entries(x).len(),
        |i: int|
            if first_valid_at(x, i) {
                seq![valid_view(x, i)]
            } else {
                Seq::empty()
            },
    )
}

/// The blocked actions, entry by entry.
pub open spec fn blocked_parts(x: SurfaceInputs) -> Seq<Seq<BlockedView>> {
    Seq::new(
        entries(x).len(),
        |i: int|
            if !valid_at(x, i) {
                seq![blocked_view(x, i)]
            } else {
                Seq::empty()
            },
    )
}

proof fn lemma_valid_prefix(x: SurfaceInputs, k: int)
    requires
        0 <= k <= entries(x).len(),
    ensures
        forall|a: int|
            #![trigger flat(valid_parts(x).take(k))[a]]
            0 <= a < flat(valid_parts(x).take(k)).len() ==> exists|j: int|
                0 <= j < k && #[trigger] first_valid_at(x, j) && flat(valid_parts(x).take(k))[a] == valid_view(x, j),
        forall|a: int, b: int|
            0 <= a < b < flat(valid_parts(x).take(k)).len() ==> (#[trigger] flat(valid_parts(x).take(k))[a]).action_id
                != (#[trigger] flat(valid_parts(x).take(k))[b]).action_id,
    decreases k,
{
    let ps = valid_parts(x);
    if k == 0 {
        assert(ps.take(0) =~= Seq::<Seq<ActionView>>::empty());
    } else {
        lemma_valid_prefix(x, k - 1);
        lemma_flat_take(ps, k - 1);
        let prev = flat(ps.take(k - 1));
        let cur = flat(ps.take(k));
        if first_valid_at(x, k - 1) {
            assert(cur == prev + seq![valid_view(x, k - 1)]);
            assert forall|a: int| #![trigger cur[a]] 0 <= a < cur.len() implies exists|j: int|
                0 <= j < k && #[trigger] first_valid_at(x, j) && cur[a] == valid_view(x, j) by {
                if a < prev.len() {
                    assert(cur[a] == prev[a]);
                } else {
                    assert(cur[a] == valid_view(x, k - 1));
                }
            }
            assert forall|a: int, b: int| 0 <= a < b < cur.len() implies (#[trigger] cur[a]).action_id
                != (#[trigger] cur[b]).action_id by {
                if b < prev.len() {
                    assert(cur[a] == prev[a]);
                    assert(cur[b] == prev[b]);
                } else {
                    assert(cur[a] == prev[a]);
                    let j = choose|j: int| 0 <= j < k - 1 && #[trigger] first_valid_at(x, j) && prev[a] == valid_view(x, j);
                    assert(valid_at(x, j));
                    assert(cur[b] == valid_view(x, k - 1));
                }
            }
        } else {
            assert(cur =~= prev);
        }
    }
}

proof fn lemma_flat_uniform<A>(parts: Seq<Seq<A>>, c: int)
    requires
        c == 0 || c == 1,
        forall|i: int| 0 <= i < parts.len() ==> (#[trigger] parts[i]).len() == c,
    ensures
        c == 0 ==> flat(parts).len() == 0,
        c == 1 ==> flat(parts).len() == parts.len(),
    decreases parts.len(),
{
    if parts.len() > 0 {
        assert forall|i: int| 0 <= i < parts.drop_last().len() implies (#[trigger] parts.drop_last()[i]).len() == c by {
            assert(parts.drop_last()[i] == parts[i]);
        }
        lemma_flat_uniform(parts.drop_last(), c);
        assert(parts.last() == parts[parts.len() - 1]);
    }
}

/// Of every slot surface: no action is offered twice; and when a
/// dependency holds the slot back, nothing is offered and every palette
/// entry is blocked.
pub proof fn lemma_slot_surface(x: SurfaceInputs)
    ensures
        forall|a: int, b: int|
            0 <= a < b < valid_actions_of(x).len() ==> (#[trigger] valid_actions_of(x)[a]).action_id
                != (#[trigger] valid_actions_of(x)[b]).action_id,
        deps(x).len() > 0 ==> valid_actions_of(x).len() == 0,
        deps(x).len() > 0 ==> blocked_actions_of(x).len() == entries(x).len(),
{
    let n = entries(x).len() as int;
    assert(valid_actions_of(x) == flat(valid_parts(x))) by {
        assert(valid_parts(x) =~= Seq::new(
            entries(x).len(),
            |i: int|
                if first_valid_at(x, i) {
                    seq![valid_view(x, i)]
                } else {
                    Seq::empty()
                },
        ));
    }
    assert(blocked_actions_of(x) == flat(blocked_parts(x))) by {
        assert(blocked_parts(x) =~= Seq::new(
            entries(x).len(),
            |i: int|
                if !valid_at(x, i) {
                    seq![blocked_view(x, i)]
                } else {
                    Seq::empty()
                },
        ));
    }
    lemma_valid_prefix(x, n);
    assert(valid_parts(x).take(n) =~= valid_parts(x));
    if deps(x).len() > 0 {
        assert forall|i: int| 0 <= i < valid_parts(x).len() implies (#[trigger] valid_parts(x)[i]).len() == 0 by {
            assert(!valid_at(x, i));
        }
        lemma_flat_uniform(valid_parts(x), 0);
        assert forall|i: int| 0 <= i < blocked_parts(x).len() implies (#[trigger] blocked_parts(x)[i]).len() == 1 by {
            assert(!valid_at(x, i));
        }
        lemma_flat_uniform(blocked_parts(x), 1);
    }
}

} // verus!

verus! {

// ── Flattening a constellation map ─────────────────────────────

/// A slot of a constellation map, with the slots nested under it by name.
#[derive(Debug)]
pub struct SlotTree {
    pub def: SlotDef,
    pub children: Vec<(String, SlotTree)>,
}

/// What grounding reads of a constellation map: its name and its slots by
/// name, each with its nested slots.
#[derive(Debug)]
pub struct ConstellationMapDefBody {
    pub constellation: String,
    pub slots: Vec<(String, SlotTree)>,
}

/// The slots under `path`, each as its dotted path and definition, every
/// slot followed by the slots nested under it.
pub open spec fn flattened(path: Seq<Seq<char>>, slots: Seq<(String, SlotTree)>) -> Seq<(Seq<char>, SlotDef)>
    decreases slots,
{
    if slots.len() == 0 {
        Seq::empty()
    } else {
        let last = slots.last();
        proof {
            assert(decreases_to!(slots => slots.drop_last()));
            assert(decreases_to!(slots => last));
        }
        flattened(path, slots.drop_last()) + seq![(joined_with(path.push(last.0@), "."@), last.1.def)]
            + flattened(path.push(last.0@), last.1.children@)
    }
}

/// A flattened slot list as paths and definitions.
pub open spec fn resolved_views(v: Seq<(String, ResolvedSlot)>) -> Seq<(Seq<char>, SlotDef)> {
    v.map_values(|p: (String, ResolvedSlot)| (p.0@, p.1.def))
}

proof fn lemma_flattened_step(path: Seq<Seq<char>>, slots: Seq<(String, SlotTree)>, k: int)
    requires
        0 <= k < slots.len(),
    ensures
        flattened(path, slots.take(k + 1)) == flattened(path, slots.take(k)) + seq![
            (joined_with(path.push(slots[k].0@), "."@), slots[k].1.def),
        ] + flattened(path.push(slots[k].0@), slots[k].1.children@),
{
    let a = slots.take(k + 1);
    assert(a.drop_last() =~= slots.take(k));
    assert(a.last() == slots[k]);
}

/// Moves every slot under `path` into `out`, as its dotted path and
/// definition, each slot before the slots nested under it.
fn flatten_into(out: &mut Vec<(String, ResolvedSlot)>, slots: Vec<(String, SlotTree)>, path: &Vec<String>)
    requires
        forall|i: int| 0 <= i < old(out)@.len() ==> (#[trigger] old(out)@[i]).1.name@ == old(out)@[i].0@,
    ensures
        resolved_views(final(out)@) == resolved_views(old(out)@) + flattened(texts(path@), slots@),
        forall|i: int| 0 <= i < final(out)@.len() ==> (#[trigger] final(out)@[i]).1.name@ == final(out)@[i].0@,
    decreases slots@,
{
    let ghost all = slots@;
    let ghost start = resolved_views(out@);
    let count: usize = slots.len();
    let mut rest = slots;
    let mut k: usize = 0;
    assert(all.take(0) =~= Seq::<(String, SlotTree)>::empty());
    assert(flattened(texts(path@), all.take(0)) =~= Seq::<(Seq<char>, SlotDef)>::empty());
    while rest.len() > 0
        invariant
            k <= all.len(),
            all.len() == count,
            all == slots@,
            rest@ == all.skip(k as int),
            resolved_views(out@) == start + flattened(texts(path@), all.take(k as int)),
            forall|i: int| 0 <= i < out@.len() ==> (#[trigger] out@[i]).1.name@ == out@[i].0@,
        decreases rest.len(),
    {
        let (name, tree) = rest.remove(0);
        assert(all[k as int] == (name, tree));
        assert(rest@ =~= all.skip(k + 1));
        let mut sub = copy_path(path);
        sub.push(owned(name.as_str()));
        assert(texts(sub@) =~= texts(path@).push(name@));
        let full = join_with(&sub, ".");
        let ghost before = resolved_views(out@);
        let SlotTree { def, children } = tree;
        out.push((owned(full.as_str()), ResolvedSlot { name: full, def }));
        assert(resolved_views(out@) =~= before.push((joined_with(texts(path@).push(name@), "."@), all[k as int].1.def)));
        proof {
            assert(children == all[k as int].1.children);
            assert(decreases_to!(all => all[k as int]));
            assert(decreases_to!(all[k as int] => all[k as int].1));
            assert(decreases_to!(all[k as int].1 => all[k as int].1.children));
            assert(decreases_to!(all[k as int].1.children => all[k as int].1.children@));
        }
        flatten_into(out, children, &sub);
        proof {
            lemma_flattened_step(texts(path@), all, k as int);
        }
        k += 1;
    }
    assert(all.take(k as int) =~= all);
}

fn copy_path(v: &Vec<String>) -> (r: Vec<String>)
    ensures
        texts(r@) == texts(v@),
{
    let mut r: Vec<String> = Vec::new();
    let mut i: usize = 0;
    while i < v.len()
        invariant
            i <= v.len(),
            texts(r@) == texts(v@).take(i as int),
        decreases v.len() - i,
    {
        r.push(owned(v[i].as_str()));
        assert(texts(v@).take(i + 1) =~= texts(v@).take(i as int).push(v@[i as int]@));
        assert(texts(r@) =~= texts(v@).take(i as int).push(v@[i as int]@));
        i += 1;
    }
    assert(texts(v@).take(v.len() as int) =~= texts(v@));
    r
}

impl ConstellationModel {
    /// The grounding model of a constellation map and its state machines:
    /// every slot, nested ones too, under its dotted path.
    pub fn from_parts(map: ConstellationMapDefBody, state_machines: Vec<(String, StateMachineDefBody)>) -> (r: Self)
        ensures
            r.constellation == map.constellation,
            resolved_views(r.slots@) == flattened(Seq::empty(), map.slots@),
            forall|i: int| 0 <= i < r.slots@.len() ==> (#[trigger] r.slots@[i]).1.name@ == r.slots@[i].0@,
            r.state_machines == state_machines,
    {
        let mut slots: Vec<(String, ResolvedSlot)> = Vec::new();
        let root: Vec<String> = Vec::new();
        assert(texts(root@) =~= Seq::<Seq<char>>::empty());
        flatten_into(&mut slots, map.slots, &root);
        ConstellationModel { constellation: map.constellation, slots, state_machines }
    }
}

} // verus!
