//! Attribute-based access control: a decision from the actor's clearance and
//! jurisdictions, the object's security label and the purpose of access,
//! optionally narrowed by the evidence grade of the attribute.

use vstd::prelude::*;
use vstd::string::*;

use crate::text::{
    contains_infix, contains_text, debug_list, debug_texts, has_infix, join2, join4, lowercase,
    text_eq, texts, to_lowercase_text,
};

verus! {

broadcast use vstd::string::group_string_axioms;

/// Security classification, from least to most sensitive.
#[derive(Debug, Clone, Copy, PartialEq, Eq, Hash, Structural)]
pub enum Classification {
    Public,
    Internal,
    Confidential,
    Restricted,
}

/// Evidence grade of an attribute.
#[derive(Debug, Clone, Copy, PartialEq, Eq, Hash, Structural)]
pub enum EvidenceGrade {
    Ungraded,
    AllowedWithConstraints,
    RegulatoryEvidence,
    Prohibited,
}

/// The snake_case name of an evidence grade; the ungraded level is `none`.
pub open spec fn grade_name(g: EvidenceGrade) -> Seq<char> {
    match g {
        EvidenceGrade::Ungraded => "none"@,
        EvidenceGrade::AllowedWithConstraints => "allowed_with_constraints"@,
        EvidenceGrade::RegulatoryEvidence => "regulatory_evidence"@,
        EvidenceGrade::Prohibited => "prohibited"@,
    }
}

impl EvidenceGrade {
    /// The snake_case name of this grade.
    pub fn as_str(self) -> (r: &'static str)
        ensures
            r@ == grade_name(self),
    {
        match self {
            EvidenceGrade::Ungraded => "none",
            EvidenceGrade::AllowedWithConstraints => "allowed_with_constraints",
            EvidenceGrade::RegulatoryEvidence => "regulatory_evidence",
            EvidenceGrade::Prohibited => "prohibited",
        }
    }
}

/// The security label of an object.
#[derive(Debug, Clone, PartialEq, Eq)]
pub struct SecurityLabel {
    pub classification: Classification,
    pub pii: bool,
    pub jurisdictions: Vec<String>,
    pub purpose_limitation: Vec<String>,
    pub handling_controls: Vec<String>,
}

/// The label of an object whose label is missing: internal, no PII, no
/// restrictions.
pub open spec fn default_label(l: SecurityLabel) -> bool {
    &&& l.classification == Classification::Internal
    &&& !l.pii
    &&& l.jurisdictions@.len() == 0
    &&& l.purpose_limitation@.len() == 0
    &&& l.handling_controls@.len() == 0
}

impl Default for SecurityLabel {
    fn default() -> (r: Self)
        ensures
            default_label(r),
    {
        SecurityLabel {
            classification: Classification::Internal,
            pii: false,
            jurisdictions: Vec::new(),
            purpose_limitation: Vec::new(),
            handling_controls: Vec::new(),
        }
    }
}

/// Context about the actor requesting access.
#[derive(Debug, Clone, PartialEq, Eq)]
pub struct ActorContext {
    pub actor_id: String,
    pub roles: Vec<String>,
    pub department: Option<String>,
    pub clearance: Option<Classification>,
    pub jurisdictions: Vec<String>,
}

/// The purpose for which access is requested.
#[derive(Debug, Clone, Copy, PartialEq, Eq, Hash, Structural)]
pub enum AccessPurpose {
    Operations,
    Audit,
    Analytics,
    Administration,
    Inspection,
}

/// The result of an access decision.
#[derive(Debug, Clone, PartialEq, Eq)]
pub enum AccessDecision {
    Allow,
    Deny { reason: String },
    AllowWithMasking { masked_fields: Vec<String> },
}

/// An access decision as texts.
pub enum DecisionView {
    Allow,
    Deny(Seq<char>),
    AllowWithMasking(Seq<Seq<char>>),
}

impl View for AccessDecision {
    type V = DecisionView;

    open spec fn view(&self) -> DecisionView {
        match self {
            AccessDecision::Allow => DecisionView::Allow,
            AccessDecision::Deny { reason } => DecisionView::Deny(reason@),
            AccessDecision::AllowWithMasking { masked_fields } => DecisionView::AllowWithMasking(
                texts(masked_fields@),
            ),
        }
    }
}

impl AccessDecision {
    /// Access is granted, with or without masking.
    pub fn is_allowed(&self) -> (r: bool)
        ensures
            r == !(self@ is Deny),
    {
        match self {
            AccessDecision::Allow => true,
            AccessDecision::Deny { .. } => false,
            AccessDecision::AllowWithMasking { .. } => true,
        }
    }
}

/// Numeric level of a classification.
pub open spec fn level(c: Classification) -> int {
    match c {
        Classification::Public => 0,
        Classification::Internal => 1,
        Classification::Confidential => 2,
        Classification::Restricted => 3,
    }
}

/// Map classification to a numeric level for comparison.
fn classification_level(c: Classification) -> (r: u8)
    ensures
        r == level(c),
{
    match c {
        Classification::Public => 0,
        Classification::Internal => 1,
        Classification::Confidential => 2,
        Classification::Restricted => 3,
    }
}

/// An actor cleared at `actor` may see objects classified `object`.
fn clearance_sufficient(actor: Classification, object: Classification) -> (r: bool)
    ensures
        r == (level(actor) >= level(object)),
{
    classification_level(actor) >= classification_level(object)
}

/// The `Debug` name of a classification.
pub open spec fn classification_name(c: Classification) -> Seq<char> {
    match c {
        Classification::Public => "Public"@,
        Classification::Internal => "Internal"@,
        Classification::Confidential => "Confidential"@,
        Classification::Restricted => "Restricted"@,
    }
}

fn classification_debug(c: Classification) -> (r: &'static str)
    ensures
        r@ == classification_name(c),
{
    match c {
        Classification::Public => "Public",
        Classification::Internal => "Internal",
        Classification::Confidential => "Confidential",
        Classification::Restricted => "Restricted",
    }
}

/// The `Debug` name of a purpose.
pub open spec fn purpose_name(p: AccessPurpose) -> Seq<char> {
    match p {
        AccessPurpose::Operations => "Operations"@,
        AccessPurpose::Audit => "Audit"@,
        AccessPurpose::Analytics => "Analytics"@,
        AccessPurpose::Administration => "Administration"@,
        AccessPurpose::Inspection => "Inspection"@,
    }
}

/// The lower-case name of a purpose, as purpose limitations list it.
pub open spec fn purpose_key(p: AccessPurpose) -> Seq<char> {
    match p {
        AccessPurpose::Operations => "operations"@,
        AccessPurpose::Audit => "audit"@,
        AccessPurpose::Analytics => "analytics"@,
        AccessPurpose::Administration => "administration"@,
        AccessPurpose::Inspection => "inspection"@,
    }
}

fn purpose_debug(p: AccessPurpose) -> (r: &'static str)
    ensures
        r@ == purpose_name(p),
{
    match p {
        AccessPurpose::Operations => "Operations",
        AccessPurpose::Audit => "Audit",
        AccessPurpose::Analytics => "Analytics",
        AccessPurpose::Administration => "Administration",
        AccessPurpose::Inspection => "Inspection",
    }
}

fn purpose_lower(p: AccessPurpose) -> (r: &'static str)
    ensures
        r@ == purpose_key(p),
{
    match p {
        AccessPurpose::Operations => "operations",
        AccessPurpose::Audit => "audit",
        AccessPurpose::Analytics => "analytics",
        AccessPurpose::Administration => "administration",
        AccessPurpose::Inspection => "inspection",
    }
}

/// The actor shares at least one of the label's jurisdictions.
pub open spec fn shares_jurisdiction(a: ActorContext, l: SecurityLabel) -> bool {
    exists|i: int|
        0 <= i < l.jurisdictions@.len() && texts(a.jurisdictions@).contains(
            #[trigger] l.jurisdictions@[i]@,
        )
}

/// The decision after the clearance check has passed: jurisdictions, then
/// purpose limitation, then PII masking for analytics.
pub open spec fn decision_after_clearance(
    a: ActorContext,
    l: SecurityLabel,
    p: AccessPurpose,
) -> DecisionView {
    if l.jurisdictions@.len() > 0 && !shares_jurisdiction(a, l) {
        DecisionView::Deny(
            "Actor not cleared for object jurisdictions: "@ + debug_list(texts(l.jurisdictions@)),
        )
    } else if l.purpose_limitation@.len() > 0 && !texts(l.purpose_limitation@).contains(
        purpose_key(p),
    ) && !texts(l.purpose_limitation@).contains("*"@) {
        DecisionView::Deny(
            "Access purpose "@ + purpose_name(p) + " not in allowed purposes: "@ + debug_list(
                texts(l.purpose_limitation@),
            ),
        )
    } else if l.pii && p == AccessPurpose::Analytics {
        DecisionView::AllowWithMasking(seq!["*pii*"@])
    } else {
        DecisionView::Allow
    }
}

/// The ABAC decision for an actor, an object label and a purpose.
pub open spec fn abac_decision(a: ActorContext, l: SecurityLabel, p: AccessPurpose) -> DecisionView {
    match a.clearance {
        Some(c) => if level(c) < level(l.classification) {
            DecisionView::Deny(
                "Actor clearance "@ + classification_name(c)
                    + " insufficient for object classification "@ + classification_name(
                    l.classification,
                ),
            )
        } else {
            decision_after_clearance(a, l, p)
        },
        None => if l.classification != Classification::Public {
            DecisionView::Deny(
                "Actor has no clearance; object requires "@ + classification_name(l.classification),
            )
        } else {
            decision_after_clearance(a, l, p)
        },
    }
}

/// Two labels of an unlabelled object decide every request alike.
pub proof fn lemma_default_labels_decide_alike(
    a: ActorContext,
    l1: SecurityLabel,
    l2: SecurityLabel,
    p: AccessPurpose,
)
    requires
        default_label(l1),
        default_label(l2),
    ensures
        abac_decision(a, l1, p) == abac_decision(a, l2, p),
{
    assert(l1.jurisdictions@ =~= l2.jurisdictions@);
    assert(l1.purpose_limitation@ =~= l2.purpose_limitation@);
    assert(l1.handling_controls@ =~= l2.handling_controls@);
}

fn shares_any_jurisdiction(actor: &ActorContext, label: &SecurityLabel) -> (r: bool)
    ensures
        r == shares_jurisdiction(*actor, *label),
{
    let mut i: usize = 0;
    while i < label.jurisdictions.len()
        invariant
            i <= label.jurisdictions.len(),
            forall|j: int|
                0 <= j < i ==> !texts(actor.jurisdictions@).contains(
                    #[trigger] label.jurisdictions@[j]@,
                ),
        decreases label.jurisdictions.len() - i,
    {
        if contains_text(&actor.jurisdictions, label.jurisdictions[i].as_str()) {
            return true;
        }
        i += 1;
    }
    false
}

/// Evaluate an ABAC access decision (a pure function): the actor's
/// clearance must reach the object's classification (without clearance,
/// only public objects), the actor must share one of the object's
/// jurisdictions, the purpose must be allowed, and PII is masked for
/// analytics.
pub fn evaluate_abac(actor: &ActorContext, label: &SecurityLabel, purpose: AccessPurpose) -> (r:
    AccessDecision)
    ensures
        r@ == abac_decision(*actor, *label, purpose),
{
    match actor.clearance {
        Some(c) => {
            if !clearance_sufficient(c, label.classification) {
                return AccessDecision::Deny {
                    reason: join4(
                        "Actor clearance ",
                        classification_debug(c),
                        " insufficient for object classification ",
                        classification_debug(label.classification),
                    ),
                };
            }
        },
        None => {
            if label.classification != Classification::Public {
                return AccessDecision::Deny {
                    reason: join2(
                        "Actor has no clearance; object requires ",
                        classification_debug(label.classification),
                    ),
                };
            }
        },
    }
    if label.jurisdictions.len() > 0 && !shares_any_jurisdiction(actor, label) {
        let listed = debug_texts(&label.jurisdictions);
        return AccessDecision::Deny {
            reason: join2("Actor not cleared for object jurisdictions: ", listed.as_str()),
        };
    }
    if label.purpose_limitation.len() > 0 && !contains_text(
        &label.purpose_limitation,
        purpose_lower(purpose),
    ) && !contains_text(&label.purpose_limitation, "*") {
        let listed = debug_texts(&label.purpose_limitation);
        return AccessDecision::Deny {
            reason: join4(
                "Access purpose ",
                purpose_debug(purpose),
                " not in allowed purposes: ",
                listed.as_str(),
            ),
        };
    }
    if label.pii && purpose == AccessPurpose::Analytics {
        let mut masked: Vec<String> = Vec::new();
        masked.push("*pii*".to_owned());
        assert(texts(masked@) =~= seq!["*pii*"@]);
        return AccessDecision::AllowWithMasking { masked_fields: masked };
    }
    AccessDecision::Allow
}

/// A role that grants evidence stewardship: it contains `steward`, or is a
/// compliance or regulatory officer role (compared in lower case).
pub open spec fn steward_role(role: Seq<char>) -> bool {
    let r = lowercase(role);
    has_infix(r, "steward"@) || r == "compliance_officer"@ || r == "compliance-manager"@ || r
        == "regulatory_officer"@
}

/// Some role of the actor grants evidence stewardship.
pub open spec fn steward_privilege(a: ActorContext) -> bool {
    exists|i: int| 0 <= i < a.roles@.len() && steward_role(#[trigger] a.roles@[i]@)
}

fn has_evidence_steward_privilege(actor: &ActorContext) -> (r: bool)
    ensures
        r == steward_privilege(*actor),
{
    let mut i: usize = 0;
    while i < actor.roles.len()
        invariant
            i <= actor.roles.len(),
            forall|j: int| 0 <= j < i ==> !steward_role(#[trigger] actor.roles@[j]@),
        decreases actor.roles.len() - i,
    {
        let role = to_lowercase_text(actor.roles[i].as_str());
        let r = role.as_str();
        if contains_infix(r, "steward") || text_eq(r, "compliance_officer") || text_eq(
            r,
            "compliance-manager",
        ) || text_eq(r, "regulatory_officer") {
            assert(steward_role(actor.roles@[i as int]@));
            return true;
        }
        i += 1;
    }
    false
}

/// The ABAC decision narrowed by an evidence grade: a granted decision is
/// refused for analytics on constrained evidence, and for analytics or
/// administration on regulatory evidence, unless the actor is a steward.
pub open spec fn graded_decision(
    a: ActorContext,
    l: SecurityLabel,
    p: AccessPurpose,
    g: EvidenceGrade,
) -> DecisionView {
    let base = abac_decision(a, l, p);
    if base is Deny {
        base
    } else {
        match g {
            EvidenceGrade::AllowedWithConstraints => if p == AccessPurpose::Analytics
                && !steward_privilege(a) {
                DecisionView::Deny(
                    "Evidence grade requires steward/compliance privilege for analytics"@,
                )
            } else {
                base
            },
            EvidenceGrade::RegulatoryEvidence => if (p == AccessPurpose::Analytics || p
                == AccessPurpose::Administration) && !steward_privilege(a) {
                DecisionView::Deny(
                    "Regulatory evidence requires steward/compliance privilege for this purpose"@,
                )
            } else {
                base
            },
            _ => base,
        }
    }
}

/// Evaluate ABAC with an additional evidence-grade constraint: the base
/// decision of `evaluate_abac`, narrowed for evidence-bearing attributes.
pub fn evaluate_abac_with_evidence_grade(
    actor: &ActorContext,
    label: &SecurityLabel,
    purpose: AccessPurpose,
    evidence_grade: EvidenceGrade,
) -> (r: AccessDecision)
    ensures
        r@ == graded_decision(*actor, *label, purpose, evidence_grade),
{
    let base = evaluate_abac(actor, label, purpose);
    if !base.is_allowed() {
        return base;
    }
    match evidence_grade {
        EvidenceGrade::AllowedWithConstraints => {
            if purpose == AccessPurpose::Analytics && !has_evidence_steward_privilege(actor) {
                AccessDecision::Deny {
                    reason: "Evidence grade requires steward/compliance privilege for analytics".to_owned(),
                }
            } else {
                base
            }
        },
        EvidenceGrade::RegulatoryEvidence => {
            if (purpose == AccessPurpose::Analytics || purpose == AccessPurpose::Administration)
                && !has_evidence_steward_privilege(actor) {
                AccessDecision::Deny {
                    reason: "Regulatory evidence requires steward/compliance privilege for this purpose".to_owned(),
                }
            } else {
                base
            }
        },
        _ => base,
    }
}

/// A label whose purpose limitation holds `*` admits every purpose: once
/// the actor's clearance and jurisdictions pass, the request is allowed
/// (masking PII for analytics), never refused for its purpose.
pub proof fn lemma_wildcard_purpose_admits_all(a: ActorContext, l: SecurityLabel, p: AccessPurpose)
    requires
        texts(l.purpose_limitation@).contains("*"@),
        match a.clearance {
            Some(c) => level(l.classification) <= level(c),
            None => l.classification == Classification::Public,
        },
        l.jurisdictions@.len() == 0 || shares_jurisdiction(a, l),
    ensures
        abac_decision(a, l, p) == if l.pii && p == AccessPurpose::Analytics {
            DecisionView::AllowWithMasking(seq!["*pii*"@])
        } else {
            DecisionView::Allow
        },
{
}

/// A purpose that a non-empty purpose limitation neither names (by its
/// lower-case name) nor admits by `*` is refused, once clearance and
/// jurisdictions pass; a purpose it names is allowed.
pub proof fn lemma_purpose_limitation_decides(a: ActorContext, l: SecurityLabel, p: AccessPurpose)
    requires
        !texts(l.purpose_limitation@).contains("*"@),
        match a.clearance {
            Some(c) => level(l.classification) <= level(c),
            None => l.classification == Classification::Public,
        },
        l.jurisdictions@.len() == 0 || shares_jurisdiction(a, l),
    ensures
        l.purpose_limitation@.len() > 0 && !texts(l.purpose_limitation@).contains(purpose_key(p)) ==> abac_decision(
            a,
            l,
            p,
        ) is Deny,
        texts(l.purpose_limitation@).contains(purpose_key(p)) ==> !(abac_decision(a, l, p) is Deny),
{
}

/// An evidence grade only narrows: whatever the grade, a request the base
/// decision refuses stays refused with the same reason, and a narrowed
/// decision is either the base decision or a refusal.
pub proof fn lemma_grade_only_narrows(
    a: ActorContext,
    l: SecurityLabel,
    p: AccessPurpose,
    g: EvidenceGrade,
)
    ensures
        abac_decision(a, l, p) is Deny ==> graded_decision(a, l, p, g) == abac_decision(a, l, p),
        graded_decision(a, l, p, g) == abac_decision(a, l, p) || graded_decision(a, l, p, g) is Deny,
{
}

/// Without clearance an actor can reach public objects only.
pub proof fn lemma_no_clearance_public_only(a: ActorContext, l: SecurityLabel, p: AccessPurpose)
    requires
        a.clearance is None,
        l.classification != Classification::Public,
    ensures
        abac_decision(a, l, p) is Deny,
{
}

/// A higher clearance never loses access that a lower clearance had.
pub proof fn lemma_clearance_monotone(
    a: ActorContext,
    b: ActorContext,
    l: SecurityLabel,
    p: AccessPurpose,
)
    requires
        a.clearance is Some,
        b.clearance is Some,
        level(a.clearance->0) <= level(b.clearance->0),
        a.jurisdictions == b.jurisdictions,
        !(abac_decision(a, l, p) is Deny),
    ensures
        abac_decision(b, l, p) == abac_decision(a, l, p),
{
}

} // verus!
