//! Governance gates: taxonomy membership, stewardship, evidence-grade
//! policy, regulatory linkage, review cycle, version consistency,
//! continuation completeness and macro expansion integrity.

use vstd::prelude::*;
use vstd::string::*;

use crate::abac::{grade_name, EvidenceGrade};
use crate::gates::{
    earlier, failure_views, uuid_string, uuid_text, DefinitionFacts, DerivationSpecBody,
    FailureView, FieldShape, GateFailure, GateSeverity, GovernanceTier, SnapshotRow, Timestamp,
    ChangeType,
};
use crate::text::{
    contains_text, decimal, decimal_text, flat, join2, join3, join4, lemma_flat_take, texts,
    trim, trim_text,
};

verus! {

broadcast use vstd::string::group_string_axioms;

/// A failure with every field given.
pub open spec fn failure(
    gate: Seq<char>,
    severity: GateSeverity,
    object_type: Seq<char>,
    fqn: Option<Seq<char>>,
    snapshot_id: Option<u128>,
    message: Seq<char>,
    hint: Option<Seq<char>>,
) -> FailureView {
    FailureView {
        gate_name: gate,
        severity,
        object_type,
        object_fqn: fqn,
        snapshot_id,
        message,
        remediation_hint: hint,
    }
}

// ── Gate 1: taxonomy membership ─────────────────────────────────

/// An object without taxonomy membership: an error when governed, a
/// warning when operational.
pub open spec fn taxonomy_failures(fqn: Seq<char>, tier: GovernanceTier, none: bool) -> Seq<FailureView> {
    if !none {
        Seq::empty()
    } else {
        let governed = tier == GovernanceTier::Governed;
        seq![
            failure(
                "taxonomy_membership"@,
                if governed { GateSeverity::Error } else { GateSeverity::Warning },
                "snapshot"@,
                Some(fqn),
                None,
                if governed {
                    "Governed object '"@ + fqn
                        + "' has no taxonomy membership — assign it to at least one taxonomy node"@
                } else {
                    "Operational object '"@ + fqn
                        + "' has no taxonomy membership — consider classifying it"@
                },
                Some("Add a MembershipRule linking this object to a taxonomy node"@),
            ),
        ]
    }
}

/// Governed objects must belong to at least one taxonomy node; operational
/// ones are only warned.
pub fn check_taxonomy_membership(object_fqn: &str, tier: GovernanceTier, memberships: &Vec<String>) -> (r:
    Vec<GateFailure>)
    ensures
        failure_views(r@) == taxonomy_failures(object_fqn@, tier, memberships@.len() == 0),
{
    let mut r: Vec<GateFailure> = Vec::new();
    if memberships.len() == 0 {
        let (severity, message) = match tier {
            GovernanceTier::Governed => (
                GateSeverity::Error,
                join3(
                    "Governed object '",
                    object_fqn,
                    "' has no taxonomy membership — assign it to at least one taxonomy node",
                ),
            ),
            GovernanceTier::Operational => (
                GateSeverity::Warning,
                join3("Operational object '", object_fqn, "' has no taxonomy membership — consider classifying it"),
            ),
        };
        r.push(
            GateFailure {
                gate_name: "taxonomy_membership".to_owned(),
                severity,
                object_type: "snapshot".to_owned(),
                object_fqn: Some(object_fqn.to_owned()),
                snapshot_id: None,
                message,
                remediation_hint: Some(
                    "Add a MembershipRule linking this object to a taxonomy node".to_owned(),
                ),
            },
        );
        assert(failure_views(r@) =~= taxonomy_failures(object_fqn@, tier, true));
    } else {
        assert(failure_views(r@) =~= Seq::<FailureView>::empty());
    }
    r
}

// ── Gate 2: stewardship ─────────────────────────────────────────

/// A steward text that names no one: empty, `system` or `unknown` once trimmed.
pub open spec fn anonymous_steward(created_by: Seq<char>) -> bool {
    let s = trim(created_by);
    s.len() == 0 || s == "system"@ || s == "unknown"@
}

pub open spec fn stewardship_failures(s: SnapshotRow, tier: GovernanceTier) -> Seq<FailureView> {
    if tier == GovernanceTier::Governed && anonymous_steward(s.created_by@) {
        seq![
            failure(
                "stewardship"@,
                GateSeverity::Error,
                s.object_type@,
                None,
                Some(s.snapshot_id),
                "Governed snapshot "@ + uuid_text(s.snapshot_id)
                    + " has no identifiable steward (created_by = '"@ + s.created_by@ + "')"@,
                Some("Set created_by to the steward's identity (e.g., email or service account)"@),
            ),
        ]
    } else {
        Seq::empty()
    }
}

/// Governed snapshots must name a steward in `created_by`.
pub fn check_stewardship(snapshot: &SnapshotRow, tier: GovernanceTier) -> (r: Vec<GateFailure>)
    ensures
        failure_views(r@) == stewardship_failures(*snapshot, tier),
{
    let mut r: Vec<GateFailure> = Vec::new();
    match tier {
        GovernanceTier::Operational => {},
        GovernanceTier::Governed => {
            let steward = trim_text(snapshot.created_by.as_str());
            if steward.as_str().unicode_len() == 0 || crate::text::text_eq(steward.as_str(), "system")
                || crate::text::text_eq(steward.as_str(), "unknown") {
                let id = uuid_string(snapshot.snapshot_id);
                let mut msg = join3("Governed snapshot ", id.as_str(), " has no identifiable steward (created_by = '");
                msg.append(snapshot.created_by.as_str());
                msg.append("')");
                r.push(
                    GateFailure::error("stewardship", snapshot.object_type.as_str(), msg).with_snapshot_id(
                        snapshot.snapshot_id,
                    ).with_hint("Set created_by to the steward's identity (e.g., email or service account)"),
                );
            }
        },
    }
    assert(failure_views(r@) =~= stewardship_failures(*snapshot, tier));
    r
}

// ── Gate 3: evidence-grade policy ───────────────────────────────

/// A governed derivation whose grade bears evidence needs passing tests and
/// a policy link; each missing one is an error.
pub open spec fn evidence_policy_failures(
    d: DerivationSpecBody,
    tier: GovernanceTier,
    has_passing_tests: bool,
    has_policy_link: bool,
) -> Seq<FailureView> {
    let g = d.evidence_grade;
    if tier == GovernanceTier::Governed && (g == EvidenceGrade::AllowedWithConstraints || g
        == EvidenceGrade::RegulatoryEvidence) {
        (if !has_passing_tests {
            seq![
                failure(
                    "evidence_grade_policy"@,
                    GateSeverity::Error,
                    "derivation_spec"@,
                    Some(d.fqn@),
                    None,
                    "Governed derivation '"@ + d.fqn@ + "' with "@ + grade_name(g)
                        + " evidence grade must have passing test cases"@,
                    Some("Add test cases to the derivation spec's `tests` field and ensure they pass"@),
                ),
            ]
        } else {
            Seq::empty()
        }) + (if !has_policy_link {
            seq![
                failure(
                    "evidence_grade_policy"@,
                    GateSeverity::Error,
                    "derivation_spec"@,
                    Some(d.fqn@),
                    None,
                    "Governed derivation '"@ + d.fqn@ + "' with "@ + grade_name(g)
                        + " evidence grade must reference a policy rule"@,
                    Some("Link this derivation to a PolicyRule that authorizes evidence-grade use"@),
                ),
            ]
        } else {
            Seq::empty()
        })
    } else {
        Seq::empty()
    }
}

/// Governed derivations with a constrained or regulatory evidence grade need
/// passing tests and a policy link.
pub fn check_evidence_grade_policy(
    derivation: &DerivationSpecBody,
    tier: GovernanceTier,
    has_passing_tests: bool,
    has_policy_link: bool,
) -> (r: Vec<GateFailure>)
    ensures
        failure_views(r@) == evidence_policy_failures(*derivation, tier, has_passing_tests, has_policy_link),
{
    let mut r: Vec<GateFailure> = Vec::new();
    let g = derivation.evidence_grade;
    let bearing = match g {
        EvidenceGrade::AllowedWithConstraints => true,
        EvidenceGrade::RegulatoryEvidence => true,
        _ => false,
    };
    if tier == GovernanceTier::Governed && bearing {
        let fqn = derivation.fqn.as_str();
        if !has_passing_tests {
            let mut msg = join4("Governed derivation '", fqn, "' with ", g.as_str());
            msg.append(" evidence grade must have passing test cases");
            r.push(
                GateFailure::error("evidence_grade_policy", "derivation_spec", msg).with_fqn(fqn).with_hint(
                    "Add test cases to the derivation spec's `tests` field and ensure they pass",
                ),
            );
        }
        if !has_policy_link {
            let mut msg = join4("Governed derivation '", fqn, "' with ", g.as_str());
            msg.append(" evidence grade must reference a policy rule");
            r.push(
                GateFailure::error("evidence_grade_policy", "derivation_spec", msg).with_fqn(fqn).with_hint(
                    "Link this derivation to a PolicyRule that authorizes evidence-grade use",
                ),
            );
        }
    }
    assert(failure_views(r@) =~= evidence_policy_failures(*derivation, tier, has_passing_tests, has_policy_link));
    r
}

// ── Gate 4: regulatory linkage ──────────────────────────────────

/// A field that is absent, not an array, or an empty array.
pub open spec fn empty_field(f: FieldShape) -> bool {
    match f {
        FieldShape::Array { len } => len == 0,
        _ => true,
    }
}

pub open spec fn regulatory_failures(s: SnapshotRow, tier: GovernanceTier) -> Seq<FailureView> {
    let d = s.definition;
    let declares = !(d.regulatory_references is Absent) || !(d.regulation_ids is Absent);
    if tier == GovernanceTier::Governed && declares && empty_field(d.regulatory_references)
        && empty_field(d.regulation_ids) {
        seq![
            failure(
                "regulatory_linkage"@,
                GateSeverity::Error,
                s.object_type@,
                None,
                Some(s.snapshot_id),
                "Governed snapshot "@ + uuid_text(s.snapshot_id)
                    + " declares regulatory fields but all are empty"@,
                Some("Populate regulatory_references or regulation_ids, or remove the empty fields"@),
            ),
        ]
    } else {
        Seq::empty()
    }
}

fn is_empty_field(f: FieldShape) -> (r: bool)
    ensures
        r == empty_field(f),
{
    match f {
        FieldShape::Array { len } => len == 0,
        _ => true,
    }
}

/// A governed snapshot that declares regulatory fields must fill one of them.
pub fn check_regulatory_linkage(snapshot: &SnapshotRow, tier: GovernanceTier) -> (r: Vec<GateFailure>)
    ensures
        failure_views(r@) == regulatory_failures(*snapshot, tier),
{
    let mut r: Vec<GateFailure> = Vec::new();
    let d = &snapshot.definition;
    let declares = match d.regulatory_references {
        FieldShape::Absent => false,
        _ => true,
    } || match d.regulation_ids {
        FieldShape::Absent => false,
        _ => true,
    };
    if tier == GovernanceTier::Governed && declares && is_empty_field(d.regulatory_references)
        && is_empty_field(d.regulation_ids) {
        let id = uuid_string(snapshot.snapshot_id);
        let msg = join3("Governed snapshot ", id.as_str(), " declares regulatory fields but all are empty");
        r.push(
            GateFailure::error("regulatory_linkage", snapshot.object_type.as_str(), msg).with_snapshot_id(
                snapshot.snapshot_id,
            ).with_hint("Populate regulatory_references or regulation_ids, or remove the empty fields"),
        );
    }
    assert(failure_views(r@) =~= regulatory_failures(*snapshot, tier));
    r
}

// ── Gate 5: review cycle ────────────────────────────────────────

pub open spec fn review_cycle_failures(s: SnapshotRow, tier: GovernanceTier, now: Timestamp) -> Seq<FailureView> {
    if tier == GovernanceTier::Operational {
        Seq::empty()
    } else {
        match s.effective_until {
            Some(until) => if earlier(until, now) {
                seq![
                    failure(
                        "review_cycle_compliance"@,
                        GateSeverity::Error,
                        s.object_type@,
                        None,
                        Some(s.snapshot_id),
                        "Governed snapshot "@ + uuid_text(s.snapshot_id) + " has expired (effective_until = "@
                            + until.text@ + ")"@,
                        Some("Publish a successor snapshot or extend the effective_until date"@),
                    ),
                ]
            } else {
                Seq::empty()
            },
            None => seq![
                failure(
                    "review_cycle_compliance"@,
                    GateSeverity::Warning,
                    s.object_type@,
                    None,
                    Some(s.snapshot_id),
                    "Governed snapshot "@ + uuid_text(s.snapshot_id)
                        + " has no effective_until — consider setting a review cycle deadline"@,
                    Some("Set effective_until to enforce periodic review"@),
                ),
            ],
        }
    }
}

/// A governed snapshot must not be past its `effective_until`; one without
/// it is warned.
pub fn check_review_cycle_compliance(snapshot: &SnapshotRow, tier: GovernanceTier, now: &Timestamp) -> (r:
    Vec<GateFailure>)
    ensures
        failure_views(r@) == review_cycle_failures(*snapshot, tier, *now),
{
    let mut r: Vec<GateFailure> = Vec::new();
    match tier {
        GovernanceTier::Operational => {},
        GovernanceTier::Governed => {
            let id = uuid_string(snapshot.snapshot_id);
            match &snapshot.effective_until {
                Some(until) => {
                    if until.is_before(now) {
                        let mut msg = join3("Governed snapshot ", id.as_str(), " has expired (effective_until = ");
                        msg.append(until.text.as_str());
                        msg.append(")");
                        r.push(
                            GateFailure::error(
                                "review_cycle_compliance",
                                snapshot.object_type.as_str(),
                                msg,
                            ).with_snapshot_id(snapshot.snapshot_id).with_hint(
                                "Publish a successor snapshot or extend the effective_until date",
                            ),
                        );
                    }
                },
                None => {
                    let msg = join3(
                        "Governed snapshot ",
                        id.as_str(),
                        " has no effective_until — consider setting a review cycle deadline",
                    );
                    r.push(
                        GateFailure::warning(
                            "review_cycle_compliance",
                            snapshot.object_type.as_str(),
                            msg,
                        ).with_snapshot_id(snapshot.snapshot_id).with_hint(
                            "Set effective_until to enforce periodic review",
                        ),
                    );
                },
            }
        },
    }
    assert(failure_views(r@) =~= review_cycle_failures(*snapshot, tier, *now));
    r
}

// ── Gate 6: version consistency ─────────────────────────────────

/// `(a_major, a_minor)` is at most `(b_major, b_minor)` in tuple order.
pub open spec fn version_at_most(a_major: u32, a_minor: u32, b_major: u32, b_minor: u32) -> bool {
    a_major < b_major || (a_major == b_major && a_minor <= b_minor)
}

pub open spec fn version_consistency_failures(s: SnapshotRow, p: Option<SnapshotRow>) -> Seq<FailureView> {
    match p {
        Some(pred) => if version_at_most(s.version_major, s.version_minor, pred.version_major, pred.version_minor) {
            seq![
                failure(
                    "version_consistency"@,
                    GateSeverity::Error,
                    s.object_type@,
                    None,
                    Some(s.snapshot_id),
                    "Version "@ + decimal(s.version_major as nat) + "."@ + decimal(s.version_minor as nat)
                        + " must be strictly greater than predecessor "@ + decimal(pred.version_major as nat)
                        + "."@ + decimal(pred.version_minor as nat),
                    Some("Bump the version_major or version_minor before publishing"@),
                ),
            ]
        } else {
            Seq::empty()
        },
        None => Seq::empty(),
    }
}

/// With a predecessor, the new version must be strictly greater.
pub fn check_version_consistency(snapshot: &SnapshotRow, predecessor: Option<&SnapshotRow>) -> (r: Vec<
    GateFailure,
>)
    ensures
        failure_views(r@) == version_consistency_failures(
            *snapshot,
            match predecessor {
                Some(p) => Some(*p),
                None => None,
            },
        ),
{
    let mut r: Vec<GateFailure> = Vec::new();
    match predecessor {
        Some(pred) => {
            if snapshot.version_major < pred.version_major || (snapshot.version_major
                == pred.version_major && snapshot.version_minor <= pred.version_minor) {
                let a = decimal_text(snapshot.version_major as usize);
                let b = decimal_text(snapshot.version_minor as usize);
                let c = decimal_text(pred.version_major as usize);
                let d = decimal_text(pred.version_minor as usize);
                let mut msg = join4("Version ", a.as_str(), ".", b.as_str());
                msg.append(" must be strictly greater than predecessor ");
                msg.append(c.as_str());
                msg.append(".");
                msg.append(d.as_str());
                r.push(
                    GateFailure::error("version_consistency", snapshot.object_type.as_str(), msg).with_snapshot_id(
                        snapshot.snapshot_id,
                    ).with_hint("Bump the version_major or version_minor before publishing"),
                );
            }
        },
        None => {},
    }
    assert(failure_views(r@) =~= version_consistency_failures(
        *snapshot,
        match predecessor {
            Some(p) => Some(*p),
            None => None,
        },
    ));
    r
}

// ── Gate 7: continuation completeness ───────────────────────────

pub open spec fn continuation_failures(s: SnapshotRow) -> Seq<FailureView> {
    let rationale = match s.change_rationale {
        Some(t) => t@,
        None => Seq::empty(),
    };
    if s.change_type == ChangeType::Breaking && trim(rationale).len() == 0 {
        seq![
            failure(
                "continuation_completeness"@,
                GateSeverity::Error,
                s.object_type@,
                None,
                Some(s.snapshot_id),
                "Snapshot "@ + uuid_text(s.snapshot_id) + " is a breaking change but has no change_rationale"@,
                Some(
                    "Provide a change_rationale describing the migration path for consumers of the previous version"@,
                ),
            ),
        ]
    } else {
        Seq::empty()
    }
}

/// A breaking change must explain the migration path in `change_rationale`.
pub fn check_continuation_completeness(snapshot: &SnapshotRow) -> (r: Vec<GateFailure>)
    ensures
        failure_views(r@) == continuation_failures(*snapshot),
{
    let mut r: Vec<GateFailure> = Vec::new();
    if snapshot.change_type == ChangeType::Breaking {
        let rationale = match &snapshot.change_rationale {
            Some(t) => trim_text(t.as_str()),
            None => trim_text(""),
        };
        proof {
            reveal_strlit("");
        }
        if rationale.as_str().unicode_len() == 0 {
            let id = uuid_string(snapshot.snapshot_id);
            let msg = join3("Snapshot ", id.as_str(), " is a breaking change but has no change_rationale");
            r.push(
                GateFailure::error("continuation_completeness", snapshot.object_type.as_str(), msg).with_snapshot_id(
                    snapshot.snapshot_id,
                ).with_hint(
                    "Provide a change_rationale describing the migration path for consumers of the previous version",
                ),
            );
        }
    }
    assert(failure_views(r@) =~= continuation_failures(*snapshot));
    r
}

// ── Gate 8: macro expansion integrity ───────────────────────────

/// A template (or macro) verb whose definition declares expansion steps.
pub open spec fn is_template(d: DefinitionFacts) -> bool {
    match d.behavior {
        Some(b) => b@ == "template"@ || b@ == "macro"@,
        None => false,
    }
}

/// The warning for one expansion target that is not a known verb.
pub open spec fn expansion_failure(verb: Seq<char>, target: Seq<char>, known: Seq<Seq<char>>) -> Seq<FailureView> {
    if known.contains(target) {
        Seq::empty()
    } else {
        seq![
            failure(
                "macro_expansion_integrity"@,
                GateSeverity::Warning,
                "verb_contract"@,
                Some(verb),
                None,
                "Template verb '"@ + verb + "' references '"@ + target
                    + "' in its expansion, but that verb is not registered"@,
                Some("Register the referenced verb or fix the expansion target"@),
            ),
        ]
    }
}

pub open spec fn macro_failures(d: DefinitionFacts, verb: Seq<char>, known: Seq<Seq<char>>) -> Seq<FailureView> {
    if is_template(d) {
        flat(Seq::new(d.expansion_verbs@.len(), |i: int| expansion_failure(verb, d.expansion_verbs@[i]@, known)))
    } else {
        Seq::empty()
    }
}

/// Each expansion target of a template verb must be a registered verb.
pub fn check_macro_expansion_integrity(
    definition: &DefinitionFacts,
    verb_fqn: &str,
    known_verb_fqns: &Vec<String>,
) -> (r: Vec<GateFailure>)
    ensures
        failure_views(r@) == macro_failures(*definition, verb_fqn@, texts(known_verb_fqns@)),
{
    let mut r: Vec<GateFailure> = Vec::new();
    let template = match &definition.behavior {
        Some(b) => crate::text::text_eq(b.as_str(), "template") || crate::text::text_eq(b.as_str(), "macro"),
        None => false,
    };
    if !template {
        assert(failure_views(r@) =~= Seq::<FailureView>::empty());
        return r;
    }
    let ghost known = texts(known_verb_fqns@);
    let targets = &definition.expansion_verbs;
    let ghost parts = Seq::new(targets@.len(), |i: int| expansion_failure(verb_fqn@, targets@[i]@, known));
    let mut i: usize = 0;
    while i < targets.len()
        invariant
            i <= targets.len(),
            known == texts(known_verb_fqns@),
            parts == Seq::new(targets@.len(), |i: int| expansion_failure(verb_fqn@, targets@[i]@, known)),
            failure_views(r@) == flat(parts.take(i as int)),
        decreases targets.len() - i,
    {
        let ghost before = failure_views(r@);
        let t = targets[i].as_str();
        if !contains_text(known_verb_fqns, t) {
            let mut msg = join4("Template verb '", verb_fqn, "' references '", t);
            msg.append("' in its expansion, but that verb is not registered");
            r.push(
                GateFailure::warning("macro_expansion_integrity", "verb_contract", msg).with_fqn(verb_fqn).with_hint(
                    "Register the referenced verb or fix the expansion target",
                ),
            );
        }
        proof {
            lemma_flat_take(parts, i as int);
            assert(failure_views(r@) =~= before + parts[i as int]);
        }
        i += 1;
    }
    assert(parts.take(parts.len() as int) =~= parts);
    r
}

} // verus!
