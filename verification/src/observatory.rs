//! Observatory orientation: which scope a view level looks at, and what
//! changed between two orientations.

use vstd::prelude::*;
use vstd::string::*;

use crate::text::{contains_text, join2, join3, join_with, owned, text_eq, texts};

verus! {

/// How far out the observatory is zoomed.
#[derive(Debug, Clone, Copy, PartialEq, Eq, Structural)]
pub enum ViewLevel {
    Universe,
    Cluster,
    System,
    Planet,
    Surface,
    Core,
}

/// What the observatory looks at.
#[derive(Debug, Clone, Copy, PartialEq, Eq, Structural)]
pub enum ObservatoryScope {
    Universe,
    Cluster,
    Constellation,
    SingleObject,
    GraphNeighbourhood,
}

/// The scope of each view level: a system shows a constellation, a planet
/// and its surface a single object, the core a graph neighbourhood.
pub open spec fn level_scope(level: ViewLevel) -> ObservatoryScope {
    match level {
        ViewLevel::Universe => ObservatoryScope::Universe,
        ViewLevel::Cluster => ObservatoryScope::Cluster,
        ViewLevel::System => ObservatoryScope::Constellation,
        ViewLevel::Planet => ObservatoryScope::SingleObject,
        ViewLevel::Surface => ObservatoryScope::SingleObject,
        ViewLevel::Core => ObservatoryScope::GraphNeighbourhood,
    }
}

/// The scope a view level looks at.
pub fn scope_from_level(level: ViewLevel) -> (r: ObservatoryScope)
    ensures
        r == level_scope(level),
{
    match level {
        ViewLevel::Universe => ObservatoryScope::Universe,
        ViewLevel::Cluster => ObservatoryScope::Cluster,
        ViewLevel::System => ObservatoryScope::Constellation,
        ViewLevel::Planet => ObservatoryScope::SingleObject,
        ViewLevel::Surface => ObservatoryScope::SingleObject,
        ViewLevel::Core => ObservatoryScope::GraphNeighbourhood,
    }
}

} // verus!

verus! {

broadcast use vstd::string::group_string_axioms;

// ── Orientation deltas ──────────────────────────────────────────

/// What kind of object the session is focused on.
#[derive(Debug, Clone)]
pub enum FocusKind {
    TaxonomyNode,
    Entity,
    Cbu,
    Document,
    ChangeSet,
    Guardrail,
    Constellation,
    View,
    Other(String),
}

/// A focus kind as a plain value: its variant's position and, for
/// `Other`, its name.
pub open spec fn kind_view(k: FocusKind) -> (int, Seq<char>) {
    match k {
        FocusKind::TaxonomyNode => (0, Seq::empty()),
        FocusKind::Entity => (1, Seq::empty()),
        FocusKind::Cbu => (2, Seq::empty()),
        FocusKind::Document => (3, Seq::empty()),
        FocusKind::ChangeSet => (4, Seq::empty()),
        FocusKind::Guardrail => (5, Seq::empty()),
        FocusKind::Constellation => (6, Seq::empty()),
        FocusKind::View => (7, Seq::empty()),
        FocusKind::Other(name) => (8, name@),
    }
}

fn kind_code(k: &FocusKind) -> (r: u8)
    ensures
        r as int == kind_view(*k).0,
{
    match k {
        FocusKind::TaxonomyNode => 0,
        FocusKind::Entity => 1,
        FocusKind::Cbu => 2,
        FocusKind::Document => 3,
        FocusKind::ChangeSet => 4,
        FocusKind::Guardrail => 5,
        FocusKind::Constellation => 6,
        FocusKind::View => 7,
        FocusKind::Other(_) => 8,
    }
}

/// Whether two focus kinds are the same kind.
fn same_kind(a: &FocusKind, b: &FocusKind) -> (r: bool)
    ensures
        r == (kind_view(*a) == kind_view(*b)),
{
    match (a, b) {
        (FocusKind::Other(x), FocusKind::Other(y)) => text_eq(x.as_str(), y.as_str()),
        _ => kind_code(a) == kind_code(b),
    }
}

fn copy_kind(k: &FocusKind) -> (r: FocusKind)
    ensures
        kind_view(r) == kind_view(*k),
{
    match k {
        FocusKind::TaxonomyNode => FocusKind::TaxonomyNode,
        FocusKind::Entity => FocusKind::Entity,
        FocusKind::Cbu => FocusKind::Cbu,
        FocusKind::Document => FocusKind::Document,
        FocusKind::ChangeSet => FocusKind::ChangeSet,
        FocusKind::Guardrail => FocusKind::Guardrail,
        FocusKind::Constellation => FocusKind::Constellation,
        FocusKind::View => FocusKind::View,
        FocusKind::Other(name) => FocusKind::Other(owned(name.as_str())),
    }
}

/// Who the focus is on: its canonical id and the label shown for it.
#[derive(Debug, Clone)]
pub struct FocusIdentity {
    pub canonical_id: String,
    pub business_label: String,
    pub object_type: Option<String>,
}

/// Which overlay the lens shows.
#[derive(Debug, Clone, Copy, PartialEq, Eq, Structural)]
pub enum OverlayState {
    ActiveOnly,
    DraftOverlay { changeset_id: u128 },
}

/// The lens through which the focus is seen, as far as a delta compares
/// it: its overlay, its depth probe, its cluster mode's name and its
/// active filters.
#[derive(Debug, Clone)]
pub struct LensState {
    pub overlay: OverlayState,
    pub depth_probe: Option<String>,
    pub cluster_mode: String,
    pub active_filters: Vec<String>,
}

/// An orientation, as far as a delta compares it: the session mode's name,
/// the view level, the focus, the scope, the lens and the ids of the
/// available actions.
#[derive(Debug, Clone)]
pub struct OrientationContract {
    pub session_mode: String,
    pub view_level: ViewLevel,
    pub focus_kind: FocusKind,
    pub focus_identity: FocusIdentity,
    pub scope: ObservatoryScope,
    pub lens: LensState,
    pub available_actions: Vec<String>,
}

#[derive(Debug, Clone)]
pub struct ModeChange {
    pub from: String,
    pub to: String,
}

#[derive(Debug, Clone, Copy, PartialEq, Eq, Structural)]
pub struct LevelChange {
    pub from: ViewLevel,
    pub to: ViewLevel,
}

#[derive(Debug, Clone)]
pub struct FocusChange {
    pub from_kind: FocusKind,
    pub to_kind: FocusKind,
    pub from_label: String,
    pub to_label: String,
}

/// Which parts of the lens changed.
#[derive(Debug, Clone, Copy, PartialEq, Eq, Structural)]
pub struct LensChange {
    pub overlay_changed: bool,
    pub depth_changed: bool,
    pub cluster_changed: bool,
    pub filters_changed: bool,
}

/// What changed from one orientation to the next.
#[derive(Debug, Clone)]
pub struct OrientationDelta {
    pub mode_changed: Option<ModeChange>,
    pub level_changed: Option<LevelChange>,
    pub focus_changed: Option<FocusChange>,
    pub lens_changed: Option<LensChange>,
    pub scope_changed: bool,
    pub actions_added: usize,
    pub actions_removed: usize,
    pub summary: String,
}

pub open spec fn opt_text(o: Option<String>) -> Option<Seq<char>> {
    match o {
        Some(s) => Some(s@),
        None => None,
    }
}

/// The lens change between two lenses: `None` when nothing of it changed.
/// Filters count as changed when their number changes.
pub open spec fn lens_change(prev: LensState, curr: LensState) -> Option<LensChange> {
    let c = LensChange {
        overlay_changed: prev.overlay != curr.overlay,
        depth_changed: opt_text(prev.depth_probe) != opt_text(curr.depth_probe),
        cluster_changed: prev.cluster_mode@ != curr.cluster_mode@,
        filters_changed: prev.active_filters@.len() != curr.active_filters@.len(),
    };
    if c.overlay_changed || c.depth_changed || c.cluster_changed || c.filters_changed {
        Some(c)
    } else {
        None
    }
}

/// The number of distinct ids of `a` that `b` lacks.
pub open spec fn new_count(a: Seq<Seq<char>>, b: Seq<Seq<char>>) -> nat {
    a.to_set().difference(b.to_set()).len()
}

/// The name `Debug` gives a view level.
pub open spec fn level_name(l: ViewLevel) -> Seq<char> {
    match l {
        ViewLevel::Universe => "Universe"@,
        ViewLevel::Cluster => "Cluster"@,
        ViewLevel::System => "System"@,
        ViewLevel::Planet => "Planet"@,
        ViewLevel::Surface => "Surface"@,
        ViewLevel::Core => "Core"@,
    }
}

fn level_text(l: ViewLevel) -> (r: String)
    ensures
        r@ == level_name(l),
{
    match l {
        ViewLevel::Universe => owned("Universe"),
        ViewLevel::Cluster => owned("Cluster"),
        ViewLevel::System => owned("System"),
        ViewLevel::Planet => owned("Planet"),
        ViewLevel::Surface => owned("Surface"),
        ViewLevel::Core => owned("Core"),
    }
}

pub open spec fn mode_differs(prev: OrientationContract, curr: OrientationContract) -> bool {
    prev.session_mode@ != curr.session_mode@
}

pub open spec fn focus_differs(prev: OrientationContract, curr: OrientationContract) -> bool {
    kind_view(prev.focus_kind) != kind_view(curr.focus_kind) || prev.focus_identity.canonical_id@
        != curr.focus_identity.canonical_id@
}

/// The parts of a delta's summary: mode, level and focus changes, each
/// from → to; a fixed sentence when none changed.
pub open spec fn summary_parts(prev: OrientationContract, curr: OrientationContract) -> Seq<Seq<char>> {
    let m: Seq<Seq<char>> = if mode_differs(prev, curr) {
        seq!["Mode: "@ + prev.session_mode@ + " → "@ + curr.session_mode@]
    } else {
        Seq::empty()
    };
    let l: Seq<Seq<char>> = if prev.view_level != curr.view_level {
        seq!["Level: "@ + level_name(prev.view_level) + " → "@ + level_name(curr.view_level)]
    } else {
        Seq::empty()
    };
    let f: Seq<Seq<char>> = if focus_differs(prev, curr) {
        seq!["Focus: "@ + prev.focus_identity.business_label@ + " → "@ + curr.focus_identity.business_label@]
    } else {
        Seq::empty()
    };
    let all = m + l + f;
    if all.len() == 0 {
        seq!["No significant changes"@]
    } else {
        all
    }
}

/// Whether `x` occurs among the first `n` ids.
fn occurs_before(a: &Vec<String>, n: usize, x: &str) -> (r: bool)
    requires
        n <= a.len(),
    ensures
        r == texts(a@).take(n as int).contains(x@),
{
    let mut j: usize = 0;
    while j < n
        invariant
            j <= n,
            n <= a.len(),
            forall|t: int| 0 <= t < j ==> a@[t]@ != x@,
        decreases n - j,
    {
        if text_eq(a[j].as_str(), x) {
            assert(texts(a@).take(n as int)[j as int] == x@);
            return true;
        }
        j += 1;
    }
    assert forall|t: int| 0 <= t < n implies texts(a@).take(n as int)[t] != x@ by {
        assert(texts(a@).take(n as int)[t] == a@[t]@);
    }
    false
}

/// The number of distinct ids of `a` that `b` lacks.
fn count_new(a: &Vec<String>, b: &Vec<String>) -> (r: usize)
    ensures
        r == new_count(texts(a@), texts(b@)),
{
    let ghost ta = texts(a@);
    let ghost bs = texts(b@).to_set();
    let mut n: usize = 0;
    let mut i: usize = 0;
    assert(ta.take(0).to_set().difference(bs) =~= Set::<Seq<char>>::empty());
    while i < a.len()
        invariant
            i <= a.len(),
            ta == texts(a@),
            bs == texts(b@).to_set(),
            n as int == ta.take(i as int).to_set().difference(bs).len(),
            n <= i,
        decreases a.len() - i,
    {
        let x = a[i].as_str();
        let ghost before = ta.take(i as int).to_set();
        proof {
            assert(ta.take(i + 1) =~= ta.take(i as int).push(x@));
            ta.take(i as int).lemma_push_to_set_commute(x@);
            vstd::seq_lib::seq_to_set_is_finite(ta.take(i as int));
            vstd::set::axiom_set_difference_finite(before, bs);
        }
        let seen = occurs_before(a, i, x);
        let in_b = contains_text(b, x);
        if !seen && !in_b {
            proof {
                assert(before.insert(x@).difference(bs) =~= before.difference(bs).insert(x@));
                vstd::set::axiom_set_insert_len(before.difference(bs), x@);
            }
            n += 1;
        } else {
            assert(before.insert(x@).difference(bs) =~= before.difference(bs));
        }
        i += 1;
    }
    assert(ta.take(a.len() as int) =~= ta);
    n
}

/// The delta between two orientations: which of mode, level, focus, lens
/// and scope changed, how many action ids came and went, and a summary of
/// the changes.
pub fn compute_delta(prev: &OrientationContract, curr: &OrientationContract) -> (r: OrientationDelta)
    ensures
        r.mode_changed is Some == mode_differs(*prev, *curr),
        r.mode_changed matches Some(m) ==> m.from@ == prev.session_mode@ && m.to@ == curr.session_mode@,
        r.level_changed == if prev.view_level != curr.view_level {
            Some(LevelChange { from: prev.view_level, to: curr.view_level })
        } else {
            None
        },
        r.focus_changed is Some == focus_differs(*prev, *curr),
        r.focus_changed matches Some(f) ==> {
            &&& kind_view(f.from_kind) == kind_view(prev.focus_kind)
            &&& kind_view(f.to_kind) == kind_view(curr.focus_kind)
            &&& f.from_label@ == prev.focus_identity.business_label@
            &&& f.to_label@ == curr.focus_identity.business_label@
        },
        r.lens_changed == lens_change(prev.lens, curr.lens),
        r.scope_changed == (prev.scope != curr.scope),
        r.actions_added == new_count(texts(curr.available_actions@), texts(prev.available_actions@)),
        r.actions_removed == new_count(texts(prev.available_actions@), texts(curr.available_actions@)),
        r.summary@ == crate::text::joined_with(summary_parts(*prev, *curr), "; "@),
{
    let mode_differ = !text_eq(prev.session_mode.as_str(), curr.session_mode.as_str());
    let mode_changed = if mode_differ {
        Some(ModeChange { from: owned(prev.session_mode.as_str()), to: owned(curr.session_mode.as_str()) })
    } else {
        None
    };
    let level_changed = if prev.view_level != curr.view_level {
        Some(LevelChange { from: prev.view_level, to: curr.view_level })
    } else {
        None
    };
    let focus_differ = !same_kind(&prev.focus_kind, &curr.focus_kind) || !text_eq(
        prev.focus_identity.canonical_id.as_str(),
        curr.focus_identity.canonical_id.as_str(),
    );
    let focus_changed = if focus_differ {
        Some(
            FocusChange {
                from_kind: copy_kind(&prev.focus_kind),
                to_kind: copy_kind(&curr.focus_kind),
                from_label: owned(prev.focus_identity.business_label.as_str()),
                to_label: owned(curr.focus_identity.business_label.as_str()),
            },
        )
    } else {
        None
    };
    let overlay_changed = prev.lens.overlay != curr.lens.overlay;
    let depth_changed = match (&prev.lens.depth_probe, &curr.lens.depth_probe) {
        (Some(a), Some(b)) => !text_eq(a.as_str(), b.as_str()),
        (None, None) => false,
        _ => true,
    };
    let cluster_changed = !text_eq(prev.lens.cluster_mode.as_str(), curr.lens.cluster_mode.as_str());
    let filters_changed = prev.lens.active_filters.len() != curr.lens.active_filters.len();
    let lens_changed = if overlay_changed || depth_changed || cluster_changed || filters_changed {
        Some(LensChange { overlay_changed, depth_changed, cluster_changed, filters_changed })
    } else {
        None
    };
    let actions_added = count_new(&curr.available_actions, &prev.available_actions);
    let actions_removed = count_new(&prev.available_actions, &curr.available_actions);
    let mut parts: Vec<String> = Vec::new();
    if mode_differ {
        let head = join2("Mode: ", prev.session_mode.as_str());
        parts.push(join3(head.as_str(), " → ", curr.session_mode.as_str()));
    }
    if prev.view_level != curr.view_level {
        let from = level_text(prev.view_level);
        let to = level_text(curr.view_level);
        let head = join2("Level: ", from.as_str());
        parts.push(join3(head.as_str(), " → ", to.as_str()));
    }
    if focus_differ {
        let head = join2("Focus: ", prev.focus_identity.business_label.as_str());
        parts.push(join3(head.as_str(), " → ", curr.focus_identity.business_label.as_str()));
    }
    if parts.len() == 0 {
        parts.push(owned("No significant changes"));
    }
    assert(texts(parts@) =~= summary_parts(*prev, *curr));
    let summary = join_with(&parts, "; ");
    OrientationDelta {
        mode_changed,
        level_changed,
        focus_changed,
        lens_changed,
        scope_changed: prev.scope != curr.scope,
        actions_added,
        actions_removed,
        summary,
    }
}

/// An orientation compared with itself shows no change: no mode, level,
/// focus or lens change, the same scope, no action come or gone, and the
/// summary says so.
pub proof fn lemma_delta_of_same_orientation(c: OrientationContract)
    ensures
        !mode_differs(c, c),
        !focus_differs(c, c),
        lens_change(c.lens, c.lens) is None,
        new_count(texts(c.available_actions@), texts(c.available_actions@)) == 0,
        summary_parts(c, c) == seq!["No significant changes"@],
{
    let s = texts(c.available_actions@).to_set();
    assert(s.difference(s) =~= Set::<Seq<char>>::empty());
    assert(summary_parts(c, c) =~= seq!["No significant changes"@]);
}

} // verus!
