//! Scoring and filtering of the candidates of a context resolution: views by
//! their overlap with the subject; verbs and attributes by governance tier,
//! access, taxonomy and relationships. Scores are whole hundredths (0.8 is
//! 80).

use vstd::prelude::*;
use vstd::string::*;

use crate::abac::{
    abac_decision, default_label, evaluate_abac, lemma_default_labels_decide_alike, AccessDecision,
    AccessPurpose, ActorContext, DecisionView, SecurityLabel,
};
use crate::context_resolution::subject::{domain_set, edge_class_set, all_relationships, SubjectRelationships};
use crate::context_resolution::{
    canonical_kind, canonicalize_entity_kind, target_taxonomies, EntityKindPrunedVerb, EvidenceMode,
    ResolvedSubject, SubjectMemberships,
};
use crate::gates::{GovernanceTier, LabelParse, SnapshotRow, TrustClass};
use crate::ontology::{ViewDefBody, ViewDefView};
use crate::text::{
    ascii_lower, contains_infix, contains_text, first_segment, first_segment_text, has_infix, owned,
    text_eq, texts, trim,
};

verus! {

broadcast use vstd::string::group_string_axioms;

pub open spec fn min_nat(a: nat, b: nat) -> nat {
    if a <= b {
        a
    } else {
        b
    }
}

/// How many of the subject's taxonomies the target also belongs to.
pub open spec fn overlap_count(ms: SubjectMemberships, target: Seq<char>) -> nat {
    texts(ms.subject_taxonomy_fqns@).to_set().intersect(target_taxonomies(ms.all_memberships@, target)).len()
}

/// The domain of a dotted name: the text before its first `.`.
pub open spec fn dotted_domain(fqn: Seq<char>) -> Seq<char> {
    first_segment(fqn, '.')
}

// ── Views ───────────────────────────────────────────────────────

/// 80 when the view is over the subject's entity type, 40 when the view's
/// domain is the entity type's domain.
pub open spec fn entity_match_score(view: ViewDefView, subject: ResolvedSubject) -> nat {
    match subject.entity_type_fqn {
        Some(et) => if view.base_entity_type == et@ {
            80
        } else if view.domain == dotted_domain(et@) {
            40
        } else {
            0
        },
        None => 0,
    }
}

/// 10 per taxonomy shared with the subject, at most 20.
pub open spec fn taxonomy_view_bonus(view: ViewDefView, ms: SubjectMemberships) -> nat {
    if ms.subject_taxonomy_fqns@.len() > 0 && overlap_count(ms, view.fqn) > 0 {
        min_nat(overlap_count(ms, view.fqn) * 10, 20)
    } else {
        0
    }
}

/// 10 when the subject has a jurisdiction and the view filters on one.
pub open spec fn jurisdiction_bonus(view: ViewDefView, subject: ResolvedSubject) -> nat {
    if subject.jurisdiction is Some && exists|i: int|
        0 <= i < view.filters.len() && has_infix(#[trigger] view.filters[i], "jurisdiction"@) {
        10
    } else {
        0
    }
}

/// One per column, at most 10.
pub open spec fn column_bonus(view: ViewDefView) -> nat {
    min_nat(view.columns.len(), 10)
}

/// The overlap of a view with the subject, in hundredths, at most 100.
pub open spec fn view_overlap(view: ViewDefView, subject: ResolvedSubject, ms: SubjectMemberships) -> nat {
    min_nat(
        entity_match_score(view, subject) + taxonomy_view_bonus(view, ms) + jurisdiction_bonus(view, subject)
            + column_bonus(view),
        100,
    )
}

fn filters_on_jurisdiction(view: &ViewDefBody) -> (r: bool)
    ensures
        r == exists|i: int|
            0 <= i < view@.filters.len() && has_infix(#[trigger] view@.filters[i], "jurisdiction"@),
{
    let mut i: usize = 0;
    while i < view.filters.len()
        invariant
            i <= view.filters.len(),
            forall|j: int| 0 <= j < i ==> !has_infix(#[trigger] view@.filters[j], "jurisdiction"@),
        decreases view.filters.len() - i,
    {
        if contains_infix(view.filters[i].attribute_fqn.as_str(), "jurisdiction") {
            assert(view@.filters[i as int] == view.filters@[i as int].attribute_fqn@);
            return true;
        }
        assert(view@.filters[i as int] == view.filters@[i as int].attribute_fqn@);
        i += 1;
    }
    false
}

/// Score the overlap between a view and the subject, in hundredths: its
/// entity type or domain, taxonomies shared with the subject, a
/// jurisdiction filter when the subject has a jurisdiction, and its
/// columns; at most 100.
pub fn compute_view_overlap(
    view: &ViewDefBody,
    subject: &ResolvedSubject,
    memberships: &SubjectMemberships,
) -> (r: u32)
    ensures
        r == view_overlap(view@, *subject, *memberships),
{
    let mut score: u32 = 0;
    match &subject.entity_type_fqn {
        Some(et) => {
            if text_eq(view.base_entity_type.as_str(), et.as_str()) {
                score = 80;
            } else {
                let d = first_segment_text(et.as_str(), '.');
                if text_eq(view.domain.as_str(), d.as_str()) {
                    score = 40;
                }
            }
        },
        None => {},
    }
    if memberships.has_memberships() {
        let n = memberships.taxonomy_overlap_count(view.fqn.as_str());
        if n > 0 {
            score = score + if n >= 2 {
                20
            } else {
                10
            };
        }
    }
    if subject.jurisdiction.is_some() && filters_on_jurisdiction(view) {
        score = score + 10;
    }
    let cols = view.columns.len();
    score = score + if cols >= 10 {
        10
    } else {
        cols as u32
    };
    if score > 100 {
        100
    } else {
        score
    }
}

/// A view ranked by its overlap with the subject.
#[derive(Debug, Clone, PartialEq, Eq)]
pub struct RankedView {
    pub view_snapshot_id: u128,
    pub view_id: u128,
    pub fqn: String,
    pub name: String,
    /// Overlap with the subject, in hundredths.
    pub overlap_score: u32,
    pub body: ViewDefBody,
}

/// A ranked view as plain values.
pub struct RankedViewView {
    pub view_snapshot_id: u128,
    pub view_id: u128,
    pub fqn: Seq<char>,
    pub name: Seq<char>,
    pub overlap_score: nat,
    pub body: ViewDefView,
}

impl View for RankedView {
    type V = RankedViewView;

    open spec fn view(&self) -> RankedViewView {
        RankedViewView {
            view_snapshot_id: self.view_snapshot_id,
            view_id: self.view_id,
            fqn: self.fqn@,
            name: self.name@,
            overlap_score: self.overlap_score as nat,
            body: self.body@,
        }
    }
}

/// The views that overlap the subject at all, in their given order.
pub open spec fn ranked_views(
    views: Seq<(SnapshotRow, ViewDefBody)>,
    subject: ResolvedSubject,
    ms: SubjectMemberships,
) -> Seq<RankedViewView>
    decreases views.len(),
{
    if views.len() == 0 {
        Seq::empty()
    } else {
        let rest = ranked_views(views.drop_last(), subject, ms);
        let (row, body) = views.last();
        let score = view_overlap(body@, subject, ms);
        if score > 0 {
            rest.push(
                RankedViewView {
                    view_snapshot_id: row.snapshot_id,
                    view_id: row.object_id,
                    fqn: body.fqn@,
                    name: body.name@,
                    overlap_score: score,
                    body: body@,
                },
            )
        } else {
            rest
        }
    }
}

pub open spec fn ranked_views_of(v: Seq<RankedView>) -> Seq<RankedViewView> {
    v.map_values(|x: RankedView| x@)
}

/// Rank views by their overlap with the subject, keeping those that overlap
/// at all, in their given order.
pub fn rank_views_by_overlap(
    views: &Vec<(SnapshotRow, ViewDefBody)>,
    subject: &ResolvedSubject,
    memberships: &SubjectMemberships,
) -> (r: Vec<RankedView>)
    ensures
        ranked_views_of(r@) == ranked_views(views@, *subject, *memberships),
{
    let mut out: Vec<RankedView> = Vec::new();
    let mut i: usize = 0;
    while i < views.len()
        invariant
            i <= views.len(),
            ranked_views_of(out@) == ranked_views(views@.take(i as int), *subject, *memberships),
        decreases views.len() - i,
    {
        assert(views@.take(i + 1).drop_last() =~= views@.take(i as int));
        let row = &views[i].0;
        let body = &views[i].1;
        let score = compute_view_overlap(body, subject, memberships);
        if score > 0 {
            let rv = RankedView {
                view_snapshot_id: row.snapshot_id,
                view_id: row.object_id,
                fqn: body.fqn.clone(),
                name: body.name.clone(),
                overlap_score: score,
                body: body.copy(),
            };
            let ghost before = out@;
            out.push(rv);
            assert(ranked_views_of(out@) =~= ranked_views_of(before).push(rv@));
        }
        i += 1;
    }
    assert(views@.take(views.len() as int) =~= views@);
    out
}

// ── Tier and trust ──────────────────────────────────────────────

/// An object of the given tier and trust may be shown in the mode: strict
/// mode takes governed proof or decision support; normal mode takes
/// governed objects, and operational ones when the view opts in; the other
/// modes take everything.
pub open spec fn tier_ok(
    tier: GovernanceTier,
    trust: TrustClass,
    mode: EvidenceMode,
    view: Option<&ViewDefBody>,
) -> bool {
    match mode {
        EvidenceMode::Strict => tier == GovernanceTier::Governed && (trust == TrustClass::Proof || trust
            == TrustClass::DecisionSupport),
        EvidenceMode::Normal => tier == GovernanceTier::Governed || (view matches Some(v)
            && v.includes_operational),
        EvidenceMode::Exploratory => true,
        EvidenceMode::Governance => true,
    }
}

/// Whether an object with the given tier and trust is allowed in the mode.
pub fn tier_allowed(
    tier: GovernanceTier,
    trust: TrustClass,
    mode: EvidenceMode,
    view: Option<&ViewDefBody>,
) -> (r: bool)
    ensures
        r == tier_ok(tier, trust, mode, view),
{
    match mode {
        EvidenceMode::Strict => tier == GovernanceTier::Governed && (trust == TrustClass::Proof || trust
            == TrustClass::DecisionSupport),
        EvidenceMode::Normal => {
            if tier == GovernanceTier::Governed {
                return true;
            }
            match view {
                Some(v) => v.includes_operational,
                None => false,
            }
        },
        EvidenceMode::Exploratory => true,
        EvidenceMode::Governance => true,
    }
}

// ── Access ──────────────────────────────────────────────────────

/// The label a row is judged by: its own, or the default label when its
/// label does not parse.
pub open spec fn effective_label(row: SnapshotRow) -> SecurityLabel {
    match row.security_label {
        LabelParse::Valid(l) => l,
        LabelParse::Invalid { .. } => choose|l: SecurityLabel| default_label(l),
    }
}

/// The access decision for reading a row for operations.
pub open spec fn row_access(actor: ActorContext, row: SnapshotRow) -> DecisionView {
    abac_decision(actor, effective_label(row), AccessPurpose::Operations)
}

fn decide_row_access(actor: &ActorContext, row: &SnapshotRow) -> (r: AccessDecision)
    ensures
        r@ == row_access(*actor, *row),
{
    match &row.security_label {
        LabelParse::Valid(l) => evaluate_abac(actor, l, AccessPurpose::Operations),
        LabelParse::Invalid { .. } => {
            let l = SecurityLabel::default();
            proof {
                let c = choose|c: SecurityLabel| default_label(c);
                lemma_default_labels_decide_alike(*actor, l, c, AccessPurpose::Operations);
            }
            evaluate_abac(actor, &l, AccessPurpose::Operations)
        },
    }
}

/// A decision that hides the object: denied outside exploratory mode.
pub open spec fn access_hides(d: DecisionView, mode: EvidenceMode) -> bool {
    d is Deny && mode != EvidenceMode::Exploratory
}

// ── Taxonomy filtering ──────────────────────────────────────────

/// The target belongs to taxonomies, none of them the subject's.
pub open spec fn taxonomy_excludes(ms: SubjectMemberships, target: Seq<char>) -> bool {
    ms.subject_taxonomy_fqns@.len() > 0 && target_taxonomies(ms.all_memberships@, target)
        != Set::<Seq<char>>::empty() && overlap_count(ms, target) == 0
}

/// 5 per taxonomy the target shares with the subject, at most 10.
pub open spec fn taxonomy_rank_bonus(ms: SubjectMemberships, target: Seq<char>) -> nat {
    if ms.subject_taxonomy_fqns@.len() > 0 && target_taxonomies(ms.all_memberships@, target)
        != Set::<Seq<char>>::empty() {
        min_nat(overlap_count(ms, target) * 5, 10)
    } else {
        0
    }
}

/// Whether the target is excluded by taxonomy, and its taxonomy bonus.
fn taxonomy_standing(ms: &SubjectMemberships, target: &str) -> (r: (bool, u32))
    ensures
        r.0 == taxonomy_excludes(*ms, target@),
        r.1 == taxonomy_rank_bonus(*ms, target@),
{
    if !ms.has_memberships() {
        return (false, 0);
    }
    let tt = ms.taxonomy_fqns_for_target(target);
    if tt.len() == 0 {
        proof {
            assert(texts(tt@).to_set() =~= Set::<Seq<char>>::empty());
        }
        return (false, 0);
    }
    proof {
        assert(texts(tt@).to_set().contains(texts(tt@)[0]));
    }
    let n = ms.taxonomy_overlap_count(target);
    if n == 0 {
        (true, 0)
    } else if n >= 2 {
        (false, 10)
    } else {
        (false, 5)
    }
}

// ── Verbs ───────────────────────────────────────────────────────

/// The prominence of a verb in the top view, in hundredths: 50 without a
/// view, 80 when the verb's domain is the view's, 30 otherwise.
pub open spec fn verb_prominence(fqn: Seq<char>, top: Option<&ViewDefBody>) -> nat {
    match top {
        Some(v) => if dotted_domain(fqn) == v.domain@ {
            80
        } else {
            30
        },
        None => 50,
    }
}

/// The prominence of a verb in the top view, in hundredths.
pub fn compute_verb_prominence(verb_fqn: &str, top_view: Option<&ViewDefBody>) -> (r: u32)
    ensures
        r == verb_prominence(verb_fqn@, top_view),
{
    match top_view {
        Some(v) => {
            let d = first_segment_text(verb_fqn, '.');
            if text_eq(d.as_str(), v.domain.as_str()) {
                80
            } else {
                30
            }
        },
        None => 50,
    }
}

/// What filtering and ranking verbs reads of the resolution.
pub struct VerbFilterContext<'a> {
    pub actor: &'a ActorContext,
    pub mode: EvidenceMode,
    pub top_view: Option<&'a ViewDefBody>,
    /// The subject's dominant entity kind.
    pub entity_kind: Option<&'a str>,
    /// Confidence in the dominant entity kind, in hundredths.
    pub entity_confidence: Option<u32>,
    pub memberships: &'a SubjectMemberships,
    pub relationships: &'a SubjectRelationships,
}

/// The entity kind filters verbs unless its confidence is below one half.
pub open spec fn kind_enforced(confidence: Option<u32>) -> bool {
    match confidence {
        Some(c) => c >= 50,
        None => true,
    }
}

pub open spec fn canon(k: Seq<char>) -> Seq<char> {
    canonical_kind(ascii_lower(trim(k)))
}

/// The canonical kinds a verb applies to.
pub open spec fn canonical_kinds(ks: Seq<String>) -> Seq<Seq<char>> {
    ks.map_values(|k: String| canon(k@))
}

/// The name of a definition, or the empty text.
pub open spec fn text_or_empty(o: Option<String>) -> Seq<char> {
    match o {
        Some(t) => t@,
        None => ""@,
    }
}

/// A verb candidate as plain values.
pub struct CandidateView {
    pub verb_snapshot_id: u128,
    pub verb_id: u128,
    pub fqn: Seq<char>,
    pub description: Seq<char>,
    pub governance_tier: GovernanceTier,
    pub trust_class: TrustClass,
    pub rank_score: nat,
    pub preconditions_met: bool,
    pub access_decision: DecisionView,
    pub usable_for_proof: bool,
}

/// A pruned verb as plain values.
pub struct PrunedView {
    pub fqn: Seq<char>,
    pub verb_kinds: Seq<Seq<char>>,
    pub subject_kind: Seq<char>,
}

/// What becomes of one verb row.
pub enum VerbOutcome {
    /// Its entity kinds leave the subject's kind out.
    Pruned(PrunedView),
    /// Filtered by tier, access or taxonomy.
    Dropped,
    Kept(CandidateView),
}

/// Governed proof or decision support can back proof.
pub open spec fn proof_grade(tier: GovernanceTier, trust: TrustClass) -> bool {
    tier == GovernanceTier::Governed && (trust == TrustClass::Proof || trust == TrustClass::DecisionSupport)
}

/// The relationship bonus of a verb: 8 when its domain is a domain of the
/// subject's relationships, 7 when it is one of their edge classes.
pub open spec fn relationship_bonus(rels: SubjectRelationships, fqn: Seq<char>) -> nat {
    if all_relationships(rels).len() > 0 {
        (if domain_set(rels).contains(dotted_domain(fqn)) {
            8nat
        } else {
            0nat
        }) + (if edge_class_set(rels).contains(dotted_domain(fqn)) {
            7nat
        } else {
            0nat
        })
    } else {
        0
    }
}

/// The kind bonus of a verb: 15 when the entity kind is enforced and the
/// verb names it.
pub open spec fn kind_bonus(ctx: VerbFilterContext, kinds: Seq<Seq<char>>) -> nat {
    if kind_enforced(ctx.entity_confidence) && ctx.entity_kind is Some && kinds.contains(
        canon(ctx.entity_kind->0@),
    ) {
        15
    } else {
        0
    }
}

/// The rank of a kept verb, in hundredths.
pub open spec fn verb_rank(row: SnapshotRow, ctx: VerbFilterContext) -> nat {
    let fqn = text_or_empty(row.definition.fqn);
    verb_prominence(fqn, ctx.top_view) + kind_bonus(ctx, canonical_kinds(row.definition.subject_kinds@))
        + taxonomy_rank_bonus(*ctx.memberships, fqn) + relationship_bonus(*ctx.relationships, fqn)
}

/// What becomes of one verb row.
pub open spec fn verb_outcome(row: SnapshotRow, ctx: VerbFilterContext) -> VerbOutcome {
    let fqn = text_or_empty(row.definition.fqn);
    let kinds = canonical_kinds(row.definition.subject_kinds@);
    if kind_enforced(ctx.entity_confidence) && ctx.entity_kind is Some && kinds.len() > 0
        && !kinds.contains(canon(ctx.entity_kind->0@)) {
        VerbOutcome::Pruned(
            PrunedView { fqn, verb_kinds: kinds, subject_kind: canon(ctx.entity_kind->0@) },
        )
    } else if !tier_ok(row.governance_tier, row.trust_class, ctx.mode, ctx.top_view) {
        VerbOutcome::Dropped
    } else if access_hides(row_access(*ctx.actor, row), ctx.mode) {
        VerbOutcome::Dropped
    } else if taxonomy_excludes(*ctx.memberships, fqn) {
        VerbOutcome::Dropped
    } else {
        VerbOutcome::Kept(
            CandidateView {
                verb_snapshot_id: row.snapshot_id,
                verb_id: row.object_id,
                fqn,
                description: text_or_empty(row.definition.description),
                governance_tier: row.governance_tier,
                trust_class: row.trust_class,
                rank_score: verb_rank(row, ctx),
                preconditions_met: true,
                access_decision: row_access(*ctx.actor, row),
                usable_for_proof: proof_grade(row.governance_tier, row.trust_class),
            },
        )
    }
}

/// The candidates kept from the rows, in order.
pub open spec fn kept_verbs(rows: Seq<SnapshotRow>, ctx: VerbFilterContext) -> Seq<CandidateView>
    decreases rows.len(),
{
    if rows.len() == 0 {
        Seq::empty()
    } else {
        let rest = kept_verbs(rows.drop_last(), ctx);
        match verb_outcome(rows.last(), ctx) {
            VerbOutcome::Kept(c) => rest.push(c),
            _ => rest,
        }
    }
}

/// The verbs pruned by entity kind, in order.
pub open spec fn pruned_verbs(rows: Seq<SnapshotRow>, ctx: VerbFilterContext) -> Seq<PrunedView>
    decreases rows.len(),
{
    if rows.len() == 0 {
        Seq::empty()
    } else {
        let rest = pruned_verbs(rows.drop_last(), ctx);
        match verb_outcome(rows.last(), ctx) {
            VerbOutcome::Pruned(p) => rest.push(p),
            _ => rest,
        }
    }
}

/// A candidate verb with its rank, access decision and tier.
#[derive(Debug, Clone, PartialEq, Eq)]
pub struct VerbCandidate {
    pub verb_snapshot_id: u128,
    pub verb_id: u128,
    pub fqn: String,
    pub description: String,
    pub governance_tier: GovernanceTier,
    pub trust_class: TrustClass,
    /// Rank from view prominence, in hundredths.
    pub rank_score: u32,
    pub preconditions_met: bool,
    pub access_decision: AccessDecision,
    pub usable_for_proof: bool,
}

impl View for VerbCandidate {
    type V = CandidateView;

    open spec fn view(&self) -> CandidateView {
        CandidateView {
            verb_snapshot_id: self.verb_snapshot_id,
            verb_id: self.verb_id,
            fqn: self.fqn@,
            description: self.description@,
            governance_tier: self.governance_tier,
            trust_class: self.trust_class,
            rank_score: self.rank_score as nat,
            preconditions_met: self.preconditions_met,
            access_decision: self.access_decision@,
            usable_for_proof: self.usable_for_proof,
        }
    }
}

impl View for EntityKindPrunedVerb {
    type V = PrunedView;

    open spec fn view(&self) -> PrunedView {
        PrunedView { fqn: self.fqn@, verb_kinds: texts(self.verb_kinds@), subject_kind: self.subject_kind@ }
    }
}

fn text_or_empty_of(o: &Option<String>) -> (r: String)
    ensures
        r@ == text_or_empty(*o),
{
    match o {
        Some(t) => t.clone(),
        None => owned(""),
    }
}

fn canonical_kinds_of(ks: &Vec<String>) -> (r: Vec<String>)
    ensures
        texts(r@) == canonical_kinds(ks@),
{
    let mut out: Vec<String> = Vec::new();
    let mut i: usize = 0;
    while i < ks.len()
        invariant
            i <= ks.len(),
            out@.len() == i,
            forall|k: int| 0 <= k < i ==> (#[trigger] out@[k])@ == canon(ks@[k]@),
        decreases ks.len() - i,
    {
        out.push(canonicalize_entity_kind(ks[i].as_str()));
        i += 1;
    }
    assert(texts(out@) =~= canonical_kinds(ks@));
    out
}

fn relationship_bonus_of(rels: &SubjectRelationships, fqn: &str) -> (r: u32)
    ensures
        r == relationship_bonus(*rels, fqn@),
{
    if !rels.has_relationships() {
        return 0;
    }
    let d = first_segment_text(fqn, '.');
    let domains = rels.relationship_domains();
    let classes = rels.edge_classes();
    let mut bonus: u32 = 0;
    if contains_text(&domains, d.as_str()) {
        bonus = 8;
    }
    proof {
        assert(texts(domains@).contains(d@) <==> domain_set(*rels).contains(d@));
        assert(texts(classes@).contains(d@) <==> edge_class_set(*rels).contains(d@));
    }
    if contains_text(&classes, d.as_str()) {
        bonus = bonus + 7;
    }
    bonus
}

/// Decide one verb row.
fn decide_verb(row: &SnapshotRow, ctx: &VerbFilterContext) -> (r: (Option<VerbCandidate>, Option<EntityKindPrunedVerb>))
    ensures
        match verb_outcome(*row, *ctx) {
            VerbOutcome::Pruned(p) => r.0 is None && r.1 is Some && r.1->0@ == p,
            VerbOutcome::Dropped => r.0 is None && r.1 is None,
            VerbOutcome::Kept(c) => r.1 is None && r.0 is Some && r.0->0@ == c,
        },
{
    let fqn = text_or_empty_of(&row.definition.fqn);
    let kinds = canonical_kinds_of(&row.definition.subject_kinds);
    let enforce = match ctx.entity_confidence {
        Some(c) => c >= 50,
        None => true,
    };
    let mut boost: u32 = 0;
    if enforce {
        match ctx.entity_kind {
            Some(kind) => {
                let canonical = canonicalize_entity_kind(kind);
                let names_kind = contains_text(&kinds, canonical.as_str());
                if kinds.len() > 0 && !names_kind {
                    return (None, Some(EntityKindPrunedVerb { fqn, verb_kinds: kinds, subject_kind: canonical }));
                }
                if names_kind {
                    boost = 15;
                }
            },
            None => {},
        }
    }
    if !tier_allowed(row.governance_tier, row.trust_class, ctx.mode, ctx.top_view) {
        return (None, None);
    }
    let access = decide_row_access(ctx.actor, row);
    if !access.is_allowed() && ctx.mode != EvidenceMode::Exploratory {
        return (None, None);
    }
    let (excluded, tax_bonus) = taxonomy_standing(ctx.memberships, fqn.as_str());
    if excluded {
        return (None, None);
    }
    let prominence = compute_verb_prominence(fqn.as_str(), ctx.top_view);
    let rel_bonus = relationship_bonus_of(ctx.relationships, fqn.as_str());
    let usable_for_proof = row.governance_tier == GovernanceTier::Governed && (row.trust_class
        == TrustClass::Proof || row.trust_class == TrustClass::DecisionSupport);
    let c = VerbCandidate {
        verb_snapshot_id: row.snapshot_id,
        verb_id: row.object_id,
        fqn,
        description: text_or_empty_of(&row.definition.description),
        governance_tier: row.governance_tier,
        trust_class: row.trust_class,
        rank_score: prominence + boost + tax_bonus + rel_bonus,
        preconditions_met: true,
        access_decision: access,
        usable_for_proof,
    };
    (Some(c), None)
}

/// Filter and rank verb rows: prune those whose entity kinds leave out the
/// subject's (when its kind is confident enough), drop those outside the
/// evidence mode's tiers, those the actor may not operate on (outside
/// exploratory mode) and those in none of the subject's taxonomies; rank
/// the rest by view prominence, kind, taxonomy and relationships.
pub fn filter_and_rank_verbs(verb_rows: &Vec<SnapshotRow>, ctx: VerbFilterContext) -> (r: (
    Vec<VerbCandidate>,
    Vec<EntityKindPrunedVerb>,
))
    ensures
        r.0@.map_values(|c: VerbCandidate| c@) == kept_verbs(verb_rows@, ctx),
        r.1@.map_values(|p: EntityKindPrunedVerb| p@) == pruned_verbs(verb_rows@, ctx),
{
    let mut candidates: Vec<VerbCandidate> = Vec::new();
    let mut pruned: Vec<EntityKindPrunedVerb> = Vec::new();
    let mut i: usize = 0;
    while i < verb_rows.len()
        invariant
            i <= verb_rows.len(),
            candidates@.map_values(|c: VerbCandidate| c@) == kept_verbs(verb_rows@.take(i as int), ctx),
            pruned@.map_values(|p: EntityKindPrunedVerb| p@) == pruned_verbs(verb_rows@.take(i as int), ctx),
        decreases verb_rows.len() - i,
    {
        assert(verb_rows@.take(i + 1).drop_last() =~= verb_rows@.take(i as int));
        assert(verb_rows@.take(i + 1).last() == verb_rows@[i as int]);
        let ghost c0 = candidates@;
        let ghost p0 = pruned@;
        let (kept, cut) = decide_verb(&verb_rows[i], &ctx);
        match kept {
            Some(c) => {
                candidates.push(c);
                assert(candidates@.map_values(|c: VerbCandidate| c@) =~= c0.map_values(
                    |c: VerbCandidate| c@,
                ).push(c@));
            },
            None => {},
        }
        match cut {
            Some(p) => {
                pruned.push(p);
                assert(pruned@.map_values(|p: EntityKindPrunedVerb| p@) =~= p0.map_values(
                    |p: EntityKindPrunedVerb| p@,
                ).push(p@));
            },
            None => {},
        }
        i += 1;
    }
    assert(verb_rows@.take(verb_rows.len() as int) =~= verb_rows@);
    (candidates, pruned)
}

// ── Attributes ──────────────────────────────────────────────────

/// The score and visibility of the first column showing the attribute,
/// from position `i` on: 100 less 5 per position, at least 50.
pub open spec fn column_prominence(cols: Seq<(Seq<char>, bool)>, fqn: Seq<char>, i: nat) -> Option<(nat, bool)>
    decreases cols.len() - i,
{
    if i >= cols.len() {
        None
    } else if cols[i as int].0 == fqn {
        Some(((100 - min_nat(i * 5, 50)) as nat, cols[i as int].1))
    } else {
        column_prominence(cols, fqn, i + 1)
    }
}

/// The prominence of an attribute in the top view, in hundredths, and
/// whether the view requires it.
pub open spec fn attribute_prominence(fqn: Seq<char>, top: Option<&ViewDefBody>) -> (nat, bool) {
    match top {
        None => (50, false),
        Some(v) => match column_prominence(v@.columns, fqn, 0) {
            Some(p) => p,
            None => if v@.filters.contains(fqn) {
                (60, true)
            } else if dotted_domain(fqn) == v.domain@ {
                (40, false)
            } else {
                (20, false)
            },
        },
    }
}

/// The prominence of an attribute in the top view, in hundredths: by its
/// column position, 60 when the view filters on it, 40 when it is in the
/// view's domain, 20 otherwise, 50 without a view; and whether it is
/// required (a visible column or a filter).
pub fn compute_attribute_prominence(attr_fqn: &str, top_view: Option<&ViewDefBody>) -> (r: (u32, bool))
    ensures
        (r.0 as nat, r.1) == attribute_prominence(attr_fqn@, top_view),
        r.0 <= 100,
{
    match top_view {
        Some(v) => prominence_in_view(attr_fqn, v),
        None => (50, false),
    }
}

fn prominence_in_view(attr_fqn: &str, view: &ViewDefBody) -> (r: (u32, bool))
    ensures
        (r.0 as nat, r.1) == attribute_prominence(attr_fqn@, Some(view)),
        r.0 <= 100,
{
    let ghost cols = view@.columns;
    let mut i: usize = 0;
    while i < view.columns.len()
        invariant
            i <= view.columns.len(),
            cols == view@.columns,
            column_prominence(cols, attr_fqn@, 0) == column_prominence(cols, attr_fqn@, i as nat),
        decreases view.columns.len() - i,
    {
        assert(cols[i as int] == (view.columns@[i as int].attribute_fqn@, view.columns@[i as int].visible));
        if text_eq(view.columns[i].attribute_fqn.as_str(), attr_fqn) {
            let penalty: u32 = if i >= 10 {
                50
            } else {
                (i as u32) * 5
            };
            assert(penalty == min_nat(i as nat * 5, 50));
            assert(column_prominence(cols, attr_fqn@, i as nat) == Some(
                ((100 - min_nat(i as nat * 5, 50)) as nat, cols[i as int].1),
            ));
            return (100 - penalty, view.columns[i].visible);
        }
        i += 1;
    }
    assert(column_prominence(cols, attr_fqn@, i as nat) is None);
    let mut j: usize = 0;
    while j < view.filters.len()
        invariant
            j <= view.filters.len(),
            column_prominence(view@.columns, attr_fqn@, 0) is None,
            forall|k: int| 0 <= k < j ==> view@.filters[k] != attr_fqn@,
        decreases view.filters.len() - j,
    {
        assert(view@.filters[j as int] == view.filters@[j as int].attribute_fqn@);
        if text_eq(view.filters[j].attribute_fqn.as_str(), attr_fqn) {
            assert(view@.filters.contains(attr_fqn@));
            return (60, true);
        }
        j += 1;
    }
    let d = first_segment_text(attr_fqn, '.');
    if text_eq(d.as_str(), view.domain.as_str()) {
        (40, false)
    } else {
        (20, false)
    }
}

/// An attribute candidate as plain values.
pub struct AttributeView {
    pub attribute_snapshot_id: u128,
    pub attribute_id: u128,
    pub fqn: Seq<char>,
    pub name: Seq<char>,
    pub governance_tier: GovernanceTier,
    pub trust_class: TrustClass,
    pub rank_score: nat,
    pub access_decision: DecisionView,
    pub required: bool,
    pub present: bool,
}

/// A candidate attribute with its rank, access decision and tier.
#[derive(Debug, Clone, PartialEq, Eq)]
pub struct AttributeCandidate {
    pub attribute_snapshot_id: u128,
    pub attribute_id: u128,
    pub fqn: String,
    pub name: String,
    pub governance_tier: GovernanceTier,
    pub trust_class: TrustClass,
    /// Rank from view prominence, in hundredths.
    pub rank_score: u32,
    pub access_decision: AccessDecision,
    /// Required by the view.
    pub required: bool,
    /// Populated for the subject.
    pub present: bool,
}

impl View for AttributeCandidate {
    type V = AttributeView;

    open spec fn view(&self) -> AttributeView {
        AttributeView {
            attribute_snapshot_id: self.attribute_snapshot_id,
            attribute_id: self.attribute_id,
            fqn: self.fqn@,
            name: self.name@,
            governance_tier: self.governance_tier,
            trust_class: self.trust_class,
            rank_score: self.rank_score as nat,
            access_decision: self.access_decision@,
            required: self.required,
            present: self.present,
        }
    }
}

/// The candidate an attribute row becomes, if any.
pub open spec fn attribute_outcome(
    row: SnapshotRow,
    actor: ActorContext,
    mode: EvidenceMode,
    top: Option<&ViewDefBody>,
    ms: SubjectMemberships,
) -> Option<AttributeView> {
    let fqn = text_or_empty(row.definition.fqn);
    if !tier_ok(row.governance_tier, row.trust_class, mode, top) {
        None
    } else if access_hides(row_access(actor, row), mode) {
        None
    } else if taxonomy_excludes(ms, fqn) {
        None
    } else {
        let (score, required) = attribute_prominence(fqn, top);
        Some(
            AttributeView {
                attribute_snapshot_id: row.snapshot_id,
                attribute_id: row.object_id,
                fqn,
                name: text_or_empty(row.definition.name),
                governance_tier: row.governance_tier,
                trust_class: row.trust_class,
                rank_score: score + taxonomy_rank_bonus(ms, fqn),
                access_decision: row_access(actor, row),
                required,
                present: false,
            },
        )
    }
}

/// The candidates kept from the attribute rows, in order.
pub open spec fn kept_attributes(
    rows: Seq<SnapshotRow>,
    actor: ActorContext,
    mode: EvidenceMode,
    top: Option<&ViewDefBody>,
    ms: SubjectMemberships,
) -> Seq<AttributeView>
    decreases rows.len(),
{
    if rows.len() == 0 {
        Seq::empty()
    } else {
        let rest = kept_attributes(rows.drop_last(), actor, mode, top, ms);
        match attribute_outcome(rows.last(), actor, mode, top, ms) {
            Some(a) => rest.push(a),
            None => rest,
        }
    }
}

/// Filter and rank attribute rows: drop those outside the evidence mode's
/// tiers, those the actor may not operate on (outside exploratory mode) and
/// those in none of the subject's taxonomies; rank the rest by their place
/// in the top view and their taxonomies.
pub fn filter_and_rank_attributes(
    attr_rows: &Vec<SnapshotRow>,
    actor: &ActorContext,
    mode: EvidenceMode,
    top_view: Option<&ViewDefBody>,
    memberships: &SubjectMemberships,
) -> (r: Vec<AttributeCandidate>)
    ensures
        r@.map_values(|a: AttributeCandidate| a@) == kept_attributes(
            attr_rows@,
            *actor,
            mode,
            top_view,
            *memberships,
        ),
{
    let mut candidates: Vec<AttributeCandidate> = Vec::new();
    let mut i: usize = 0;
    while i < attr_rows.len()
        invariant
            i <= attr_rows.len(),
            candidates@.map_values(|a: AttributeCandidate| a@) == kept_attributes(
                attr_rows@.take(i as int),
                *actor,
                mode,
                top_view,
                *memberships,
            ),
        decreases attr_rows.len() - i,
    {
        assert(attr_rows@.take(i + 1).drop_last() =~= attr_rows@.take(i as int));
        assert(attr_rows@.take(i + 1).last() == attr_rows@[i as int]);
        let row = &attr_rows[i];
        if tier_allowed(row.governance_tier, row.trust_class, mode, top_view) {
            let access = decide_row_access(actor, row);
            if access.is_allowed() || mode == EvidenceMode::Exploratory {
                let fqn = text_or_empty_of(&row.definition.fqn);
                let (excluded, tax_bonus) = taxonomy_standing(memberships, fqn.as_str());
                if !excluded {
                    let (score, required) = compute_attribute_prominence(fqn.as_str(), top_view);
                    let a = AttributeCandidate {
                        attribute_snapshot_id: row.snapshot_id,
                        attribute_id: row.object_id,
                        fqn,
                        name: text_or_empty_of(&row.definition.name),
                        governance_tier: row.governance_tier,
                        trust_class: row.trust_class,
                        rank_score: score + tax_bonus,
                        access_decision: access,
                        required,
                        present: false,
                    };
                    let ghost before = candidates@;
                    candidates.push(a);
                    assert(candidates@.map_values(|a: AttributeCandidate| a@) =~= before.map_values(
                        |a: AttributeCandidate| a@,
                    ).push(a@));
                }
            }
        }
        i += 1;
    }
    assert(attr_rows@.take(attr_rows.len() as int) =~= attr_rows@);
    candidates
}

} // verus!
