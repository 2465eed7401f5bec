//! The extended gate suite (technical and governance gates run together),
//! the unified evaluator that adds the simple pipeline, and the
//! operational-derivation evidence-grade gate.

use vstd::prelude::*;
use vstd::string::*;

use crate::abac::{grade_name, EvidenceGrade};
use crate::gates::cycle::cycle_failures;
use crate::gates::governance::{
    check_continuation_completeness, check_macro_expansion_integrity, check_regulatory_linkage,
    check_review_cycle_compliance, check_stewardship, check_taxonomy_membership,
    check_version_consistency, continuation_failures, macro_failures, regulatory_failures,
    review_cycle_failures, stewardship_failures, taxonomy_failures, version_consistency_failures,
};
use crate::gates::technical::{
    check_security_label_presence, check_snapshot_integrity, integrity_failures,
    label_presence_failures,
};
use crate::gates::{
    bare_failure, check_derivation_cycle, check_derivation_type_compatibility,
    derivation_reference_failures, evaluate_publish_gates, failure_views, DerivationSpecBody,
    ExtendedPublishGateResult, FailureView, GateFailure, GateMode, GateSeverity, GovernanceTier,
    SnapshotMeta, SnapshotRow, Timestamp, UnifiedPublishGateResult,
};
use crate::text::{flat, join4, lemma_flat_take, text_eq, texts};

verus! {

broadcast use vstd::string::group_string_axioms;

// ── Derivation gates over a set of specs ────────────────────────

/// An operational derivation with an evidence-bearing grade is an error.
pub open spec fn derivation_grade_failures(spec: DerivationSpecBody, tier: GovernanceTier) -> Seq<FailureView> {
    let g = spec.evidence_grade;
    if tier == GovernanceTier::Operational && (g == EvidenceGrade::AllowedWithConstraints || g
        == EvidenceGrade::RegulatoryEvidence) {
        seq![
            FailureView {
                object_fqn: Some(spec.fqn@),
                ..bare_failure(
                    "derivation_evidence_grade"@,
                    GateSeverity::Error,
                    "derivation_spec"@,
                    "Derivation '"@ + spec.fqn@ + "' is operational-tier but has evidence_grade '"@
                        + grade_name(g)
                        + "' — promote to Governed tier or set evidence_grade to prohibited/none"@,
                )
            },
        ]
    } else {
        Seq::empty()
    }
}

/// Operational derivations may not declare evidence-bearing grades.
pub fn check_derivation_evidence_grade(spec: &DerivationSpecBody, tier: GovernanceTier) -> (r: Vec<
    GateFailure,
>)
    ensures
        failure_views(r@) == derivation_grade_failures(*spec, tier),
{
    let mut r: Vec<GateFailure> = Vec::new();
    let bearing = match spec.evidence_grade {
        EvidenceGrade::AllowedWithConstraints => true,
        EvidenceGrade::RegulatoryEvidence => true,
        _ => false,
    };
    if tier == GovernanceTier::Operational && bearing {
        let mut msg = join4(
            "Derivation '",
            spec.fqn.as_str(),
            "' is operational-tier but has evidence_grade '",
            spec.evidence_grade.as_str(),
        );
        msg.append("' — promote to Governed tier or set evidence_grade to prohibited/none");
        r.push(GateFailure::error("derivation_evidence_grade", "derivation_spec", msg).with_fqn(spec.fqn.as_str()));
    }
    assert(failure_views(r@) =~= derivation_grade_failures(*spec, tier));
    r
}

/// The cycle check, then the reference check of each spec.
pub open spec fn dependency_failures(specs: Seq<DerivationSpecBody>, known: Seq<Seq<char>>) -> Seq<FailureView> {
    cycle_failures(specs) + flat(Seq::new(specs.len(), |i: int| derivation_reference_failures(specs[i], known)))
}

/// Dependency correctness of a set of derivations: no cycles, and every
/// input and output a known attribute.
pub fn check_dependency_correctness(derivation_specs: &Vec<DerivationSpecBody>, known_attribute_fqns: &Vec<
    String,
>) -> (r: Vec<GateFailure>)
    ensures
        failure_views(r@) == dependency_failures(derivation_specs@, texts(known_attribute_fqns@)),
{
    let ghost known = texts(known_attribute_fqns@);
    let ghost parts = Seq::new(
        derivation_specs@.len(),
        |i: int| derivation_reference_failures(derivation_specs@[i], known),
    );
    let mut r = check_derivation_cycle(derivation_specs);
    let ghost head = failure_views(r@);
    let mut i: usize = 0;
    while i < derivation_specs.len()
        invariant
            i <= derivation_specs.len(),
            known == texts(known_attribute_fqns@),
            parts == Seq::new(
                derivation_specs@.len(),
                |i: int| derivation_reference_failures(derivation_specs@[i], known),
            ),
            failure_views(r@) == head + flat(parts.take(i as int)),
        decreases derivation_specs.len() - i,
    {
        let ghost before = failure_views(r@);
        let mut more = check_derivation_type_compatibility(&derivation_specs[i], known_attribute_fqns);
        let ghost added = failure_views(more@);
        r.append(&mut more);
        proof {
            lemma_flat_take(parts, i as int);
            assert(failure_views(r@) =~= before + added);
            assert(head + flat(parts.take(i + 1)) =~= head + flat(parts.take(i as int)) + parts[i as int]);
        }
        i += 1;
    }
    assert(parts.take(parts.len() as int) =~= parts);
    r
}

// ── Extended suite ──────────────────────────────────────────────

/// What the extended suite needs beyond the snapshot.
#[derive(Debug, Clone)]
pub struct ExtendedGateContext {
    /// Predecessor snapshot for version and integrity checks.
    pub predecessor: Option<SnapshotRow>,
    /// Taxonomy memberships of the object.
    pub memberships: Vec<String>,
    /// Known verb FQNs (for macro expansion checks).
    pub known_verb_fqns: Vec<String>,
    /// The instant review cycles are judged at; the current time when absent.
    pub now: Option<Timestamp>,
}

impl Default for ExtendedGateContext {
    fn default() -> (r: Self)
        ensures
            r.predecessor is None,
            r.memberships@.len() == 0,
            r.known_verb_fqns@.len() == 0,
            r.now is None,
    {
        ExtendedGateContext {
            predecessor: None,
            memberships: Vec::new(),
            known_verb_fqns: Vec::new(),
            now: None,
        }
    }
}

/// The definition's FQN, or `unknown`.
pub open spec fn definition_fqn(s: SnapshotRow) -> Seq<char> {
    match s.definition.fqn {
        Some(f) => f@,
        None => "unknown"@,
    }
}

/// The extended failures of a snapshot judged at `now`, gate by gate: label
/// presence, integrity, taxonomy membership, stewardship, regulatory
/// linkage, review cycle, version consistency, continuation and, for verb
/// contracts, macro expansion.
pub open spec fn extended_failures(s: SnapshotRow, ctx: ExtendedGateContext, now: Timestamp) -> Seq<FailureView> {
    let tier = s.governance_tier;
    label_presence_failures(s) + integrity_failures(s, ctx.predecessor) + taxonomy_failures(
        definition_fqn(s),
        tier,
        ctx.memberships@.len() == 0,
    ) + stewardship_failures(s, tier) + regulatory_failures(s, tier) + review_cycle_failures(s, tier, now)
        + version_consistency_failures(s, ctx.predecessor) + continuation_failures(s) + if s.object_type@
        == "verb_contract"@ {
        macro_failures(s.definition, definition_fqn(s), texts(ctx.known_verb_fqns@))
    } else {
        Seq::empty()
    }
}

/// `chrono::Utc::now()`: the current instant and its text. Nothing is
/// promised of the value; it is the machine's clock.
#[verifier::external_body]
pub(crate) fn current_timestamp() -> (r: Timestamp) {
    let now = chrono::Utc::now();
    Timestamp { secs: now.timestamp(), nanos: now.timestamp_subsec_nanos(), text: now.to_string() }
}

fn push_all(out: &mut Vec<GateFailure>, more: Vec<GateFailure>)
    ensures
        failure_views(final(out)@) == failure_views(old(out)@) + failure_views(more@),
{
    let ghost added = more@;
    let mut more = more;
    out.append(&mut more);
    assert(failure_views(out@) =~= failure_views(old(out)@) + failure_views(added));
}

/// Run the extended gates against a snapshot at the instant `now`.
pub fn extended_gate_failures(snapshot: &SnapshotRow, ctx: &ExtendedGateContext, now: &Timestamp) -> (r: Vec<
    GateFailure,
>)
    ensures
        failure_views(r@) == extended_failures(*snapshot, *ctx, *now),
{
    let tier = snapshot.governance_tier;
    let mut failures: Vec<GateFailure> = Vec::new();
    push_all(&mut failures, check_security_label_presence(snapshot));
    push_all(&mut failures, check_snapshot_integrity(snapshot, ctx.predecessor.as_ref()));
    let fqn = match &snapshot.definition.fqn {
        Some(f) => f.as_str(),
        None => "unknown",
    };
    push_all(&mut failures, check_taxonomy_membership(fqn, tier, &ctx.memberships));
    push_all(&mut failures, check_stewardship(snapshot, tier));
    push_all(&mut failures, check_regulatory_linkage(snapshot, tier));
    push_all(&mut failures, check_review_cycle_compliance(snapshot, tier, now));
    push_all(&mut failures, check_version_consistency(snapshot, ctx.predecessor.as_ref()));
    push_all(&mut failures, check_continuation_completeness(snapshot));
    if text_eq(snapshot.object_type.as_str(), "verb_contract") {
        push_all(
            &mut failures,
            check_macro_expansion_integrity(&snapshot.definition, fqn, &ctx.known_verb_fqns),
        );
    }
    assert(failure_views(failures@) =~= extended_failures(*snapshot, *ctx, *now));
    failures
}

/// Run all extended gates against a snapshot; review cycles are judged at
/// `ctx.now`, or at the current time when it is absent.
pub fn evaluate_extended_gates(snapshot: &SnapshotRow, ctx: &ExtendedGateContext) -> (r: Vec<GateFailure>)
    ensures
        exists|now: Timestamp|
            failure_views(r@) == extended_failures(*snapshot, *ctx, now) && (ctx.now is Some ==> now
                == ctx.now->0),
{
    match &ctx.now {
        Some(t) => extended_gate_failures(snapshot, ctx, t),
        None => {
            let now = current_timestamp();
            extended_gate_failures(snapshot, ctx, &now)
        },
    }
}

/// Evaluate both gate frameworks: the simple pipeline against the
/// predecessor of the context, and the extended suite under `mode`.
pub fn evaluate_all_publish_gates(
    meta: &SnapshotMeta,
    snapshot: &SnapshotRow,
    ctx: &ExtendedGateContext,
    mode: GateMode,
) -> (r: UnifiedPublishGateResult)
    ensures
        r.extended.mode == mode,
        exists|now: Timestamp|
            failure_views(r.extended.failures@) == extended_failures(*snapshot, *ctx, now) && (ctx.now is Some
                ==> now == ctx.now->0),
        r.simple.results@.len() == 4,
        forall|i: int| 0 <= i < 4 ==> ((#[trigger] r.simple.results@[i]).passed <==> r.simple.results@[i].reason is None),
        r.simple.results@[3].passed == match ctx.predecessor {
            Some(p) => !crate::gates::version_below(
                meta.version_major,
                meta.version_minor,
                p.version_major,
                p.version_minor,
            ),
            None => true,
        },
{
    let simple = evaluate_publish_gates(meta, ctx.predecessor.as_ref());
    let failures = evaluate_extended_gates(snapshot, ctx);
    UnifiedPublishGateResult { simple, extended: ExtendedPublishGateResult { failures, mode } }
}

} // verus!
