//! The verdict steps of a context resolution: precondition status, policy
//! verdicts, the composite access decision, governance signals, the counts
//! behind the confidence score and the prompts for close views.

use vstd::prelude::*;
use vstd::string::*;

use crate::abac::{AccessDecision, ActorContext, DecisionView};
use crate::context_resolution::scoring::{
    AttributeCandidate, AttributeView, CandidateView, RankedView, RankedViewView, VerbCandidate,
};
use crate::context_resolution::{
    EvidenceMode, GovernanceSignalKind, GovernanceSignalSeverity, PreconditionCheck,
};
use crate::gates::{GovernanceTier, SnapshotRow, TrustClass};
use crate::ontology::{PolicyAction, PolicyPredicate, PolicyRuleBody};
use crate::outside::random_uuid;
use crate::text::{decimal, decimal_text, flat, join3, join5, owned, text_eq, texts};

verus! {

broadcast use vstd::string::group_string_axioms;

// ── Preconditions ───────────────────────────────────────────────

/// The precondition status of a verb.
#[derive(Debug, Clone, PartialEq, Eq)]
pub struct PreconditionStatus {
    pub verb_fqn: String,
    pub verb_snapshot_id: u128,
    pub checks: Vec<PreconditionCheck>,
    pub all_satisfied: bool,
    pub remediation_hint: Option<String>,
}

/// The precondition status of the first ten candidate verbs: each
/// satisfied as its candidate says, with no individual checks.
pub fn evaluate_verb_preconditions(verbs: &Vec<VerbCandidate>) -> (r: Vec<PreconditionStatus>)
    ensures
        r@.len() == if verbs@.len() < 10 {
            verbs@.len()
        } else {
            10
        },
        forall|k: int|
            0 <= k < r@.len() ==> {
                &&& (#[trigger] r@[k]).verb_fqn@ == verbs@[k].fqn@
                &&& r@[k].verb_snapshot_id == verbs@[k].verb_snapshot_id
                &&& r@[k].checks@.len() == 0
                &&& r@[k].all_satisfied == verbs@[k].preconditions_met
                &&& r@[k].remediation_hint is None
            },
{
    let n = if verbs.len() < 10 {
        verbs.len()
    } else {
        10
    };
    let mut out: Vec<PreconditionStatus> = Vec::new();
    let mut i: usize = 0;
    while i < n
        invariant
            n <= verbs.len(),
            i <= n,
            out@.len() == i,
            forall|k: int|
                0 <= k < i ==> {
                    &&& (#[trigger] out@[k]).verb_fqn@ == verbs@[k].fqn@
                    &&& out@[k].verb_snapshot_id == verbs@[k].verb_snapshot_id
                    &&& out@[k].checks@.len() == 0
                    &&& out@[k].all_satisfied == verbs@[k].preconditions_met
                    &&& out@[k].remediation_hint is None
                },
        decreases n - i,
    {
        out.push(
            PreconditionStatus {
                verb_fqn: verbs[i].fqn.clone(),
                verb_snapshot_id: verbs[i].verb_snapshot_id,
                checks: Vec::new(),
                all_satisfied: verbs[i].preconditions_met,
                remediation_hint: None,
            },
        );
        i += 1;
    }
    out
}

// ── Policies ────────────────────────────────────────────────────

/// A policy verdict with the snapshot of its rule.
#[derive(Debug, Clone, PartialEq, Eq)]
pub struct PolicyVerdict {
    pub policy_snapshot_id: u128,
    pub policy_fqn: String,
    pub policy_name: String,
    pub allowed: bool,
    pub reason: String,
    pub required_actions: Vec<String>,
    pub regulatory_reference: Option<String>,
}

/// A policy verdict as plain values.
pub struct VerdictView {
    pub policy_snapshot_id: u128,
    pub policy_fqn: Seq<char>,
    pub policy_name: Seq<char>,
    pub allowed: bool,
    pub reason: Seq<char>,
    pub required_actions: Seq<Seq<char>>,
    pub regulatory_reference: Option<Seq<char>>,
}

impl View for PolicyVerdict {
    type V = VerdictView;

    open spec fn view(&self) -> VerdictView {
        VerdictView {
            policy_snapshot_id: self.policy_snapshot_id,
            policy_fqn: self.policy_fqn@,
            policy_name: self.policy_name@,
            allowed: self.allowed,
            reason: self.reason@,
            required_actions: texts(self.required_actions@),
            regulatory_reference: match self.regulatory_reference {
                Some(t) => Some(t@),
                None => None,
            },
        }
    }
}

/// The lower-case name of a tier, as its debug text lower-cased.
pub open spec fn tier_name(t: GovernanceTier) -> Seq<char> {
    match t {
        GovernanceTier::Governed => "governed"@,
        GovernanceTier::Operational => "operational"@,
    }
}

/// The lower-case name of a trust class, as its debug text lower-cased.
pub open spec fn trust_name(t: TrustClass) -> Seq<char> {
    match t {
        TrustClass::Proof => "proof"@,
        TrustClass::DecisionSupport => "decisionsupport"@,
        TrustClass::Convenience => "convenience"@,
    }
}

fn tier_text(t: GovernanceTier) -> (r: &'static str)
    ensures
        r@ == tier_name(t),
{
    match t {
        GovernanceTier::Governed => "governed",
        GovernanceTier::Operational => "operational",
    }
}

fn trust_text(t: TrustClass) -> (r: &'static str)
    ensures
        r@ == trust_name(t),
{
    match t {
        TrustClass::Proof => "proof",
        TrustClass::DecisionSupport => "decisionsupport",
        TrustClass::Convenience => "convenience",
    }
}

pub open spec fn opt_view(o: Option<String>) -> Option<Seq<char>> {
    match o {
        Some(t) => Some(t@),
        None => None,
    }
}

/// A predicate matches one candidate verb: a tier predicate by `eq` or
/// `ne`, a trust predicate by equality.
pub open spec fn predicate_matches(p: PolicyPredicate, v: CandidateView) -> bool {
    if p.kind@ == "governance_tier"@ {
        if p.operator@ == "eq"@ {
            opt_view(p.value) == Some(tier_name(v.governance_tier))
        } else if p.operator@ == "ne"@ {
            opt_view(p.value) != Some(tier_name(v.governance_tier))
        } else {
            false
        }
    } else if p.kind@ == "trust_class"@ {
        opt_view(p.value) == Some(trust_name(v.trust_class))
    } else {
        false
    }
}

/// A rule applies when it has no predicates, or one of them matches one of
/// the verbs.
pub open spec fn rule_applies(rule: PolicyRuleBody, verbs: Seq<CandidateView>) -> bool {
    rule.predicates@.len() == 0 || exists|i: int, j: int|
        0 <= i < rule.predicates@.len() && 0 <= j < verbs.len() && predicate_matches(
            #[trigger] rule.predicates@[i],
            #[trigger] verbs[j],
        )
}

/// An action that blocks.
pub open spec fn blocking(a: PolicyAction) -> bool {
    a.kind@ == "block_publish"@ || a.kind@ == "restrict_access"@
}

/// An action that requires something.
pub open spec fn requiring(a: PolicyAction) -> bool {
    a.kind@ == "require_evidence"@ || a.kind@ == "require_approval"@
}

/// What a requiring action asks: its description, or its kind.
pub open spec fn action_text(a: PolicyAction) -> Seq<char> {
    match a.description {
        Some(d) => d@,
        None => a.kind@,
    }
}

/// The texts of the requiring actions, in order.
pub open spec fn required_texts(actions: Seq<PolicyAction>) -> Seq<Seq<char>>
    decreases actions.len(),
{
    if actions.len() == 0 {
        Seq::empty()
    } else {
        let rest = required_texts(actions.drop_last());
        if requiring(actions.last()) {
            rest.push(action_text(actions.last()))
        } else {
            rest
        }
    }
}

/// The verdict of an applying rule.
pub open spec fn verdict_of(row: SnapshotRow, rule: PolicyRuleBody) -> VerdictView {
    let allowed = !exists|k: int| 0 <= k < rule.actions@.len() && blocking(#[trigger] rule.actions@[k]);
    VerdictView {
        policy_snapshot_id: row.snapshot_id,
        policy_fqn: rule.fqn@,
        policy_name: rule.name@,
        allowed,
        reason: if allowed {
            "Policy permits action"@
        } else {
            "Policy restricts action"@
        },
        required_actions: required_texts(rule.actions@),
        regulatory_reference: None,
    }
}

/// The verdicts of the enabled rules that apply, in order of the rows.
pub open spec fn policy_verdicts(rows: Seq<SnapshotRow>, verbs: Seq<CandidateView>) -> Seq<VerdictView>
    decreases rows.len(),
{
    if rows.len() == 0 {
        Seq::empty()
    } else {
        let rest = policy_verdicts(rows.drop_last(), verbs);
        match rows.last().definition.policy_rule {
            Some(rule) => if rule.enabled && rule_applies(rule, verbs) {
                rest.push(verdict_of(rows.last(), rule))
            } else {
                rest
            },
            None => rest,
        }
    }
}

pub open spec fn candidate_views(v: Seq<VerbCandidate>) -> Seq<CandidateView> {
    v.map_values(|c: VerbCandidate| c@)
}

fn predicate_matches_any(p: &PolicyPredicate, verbs: &Vec<VerbCandidate>) -> (r: bool)
    ensures
        r == exists|j: int| 0 <= j < verbs@.len() && predicate_matches(*p, #[trigger] candidate_views(verbs@)[j]),
{
    let mut j: usize = 0;
    while j < verbs.len()
        invariant
            j <= verbs.len(),
            forall|t: int| 0 <= t < j ==> !predicate_matches(*p, #[trigger] candidate_views(verbs@)[t]),
        decreases verbs.len() - j,
    {
        let v = &verbs[j];
        assert(candidate_views(verbs@)[j as int] == v@);
        let value: Option<&str> = match &p.value {
            Some(t) => Some(t.as_str()),
            None => None,
        };
        let matches = if text_eq(p.kind.as_str(), "governance_tier") {
            let name = tier_text(v.governance_tier);
            let same = match value {
                Some(t) => text_eq(t, name),
                None => false,
            };
            if text_eq(p.operator.as_str(), "eq") {
                same
            } else if text_eq(p.operator.as_str(), "ne") {
                !same
            } else {
                false
            }
        } else if text_eq(p.kind.as_str(), "trust_class") {
            match value {
                Some(t) => text_eq(t, trust_text(v.trust_class)),
                None => false,
            }
        } else {
            false
        };
        if matches {
            return true;
        }
        j += 1;
    }
    false
}

fn applies(rule: &PolicyRuleBody, verbs: &Vec<VerbCandidate>) -> (r: bool)
    ensures
        r == rule_applies(*rule, candidate_views(verbs@)),
{
    if rule.predicates.len() == 0 {
        return true;
    }
    let mut i: usize = 0;
    while i < rule.predicates.len()
        invariant
            i <= rule.predicates.len(),
            forall|t: int, j: int|
                0 <= t < i && 0 <= j < verbs@.len() ==> !predicate_matches(
                    #[trigger] rule.predicates@[t],
                    #[trigger] candidate_views(verbs@)[j],
                ),
        decreases rule.predicates.len() - i,
    {
        if predicate_matches_any(&rule.predicates[i], verbs) {
            return true;
        }
        i += 1;
    }
    false
}

fn verdict_for(row: &SnapshotRow, rule: &PolicyRuleBody) -> (r: PolicyVerdict)
    ensures
        r@ == verdict_of(*row, *rule),
{
    let mut allowed = true;
    let mut required: Vec<String> = Vec::new();
    let mut k: usize = 0;
    while k < rule.actions.len()
        invariant
            k <= rule.actions.len(),
            allowed == !exists|t: int| 0 <= t < k && blocking(#[trigger] rule.actions@[t]),
            texts(required@) == required_texts(rule.actions@.take(k as int)),
        decreases rule.actions.len() - k,
    {
        assert(rule.actions@.take(k + 1).drop_last() =~= rule.actions@.take(k as int));
        let a = &rule.actions[k];
        if text_eq(a.kind.as_str(), "block_publish") || text_eq(a.kind.as_str(), "restrict_access") {
            allowed = false;
        }
        if text_eq(a.kind.as_str(), "require_evidence") || text_eq(a.kind.as_str(), "require_approval") {
            let t = match &a.description {
                Some(d) => d.clone(),
                None => a.kind.clone(),
            };
            let ghost before = texts(required@);
            required.push(t);
            assert(texts(required@) =~= before.push(action_text(*a)));
        }
        k += 1;
    }
    assert(rule.actions@.take(rule.actions.len() as int) =~= rule.actions@);
    let reason = if allowed {
        owned("Policy permits action")
    } else {
        owned("Policy restricts action")
    };
    PolicyVerdict {
        policy_snapshot_id: row.snapshot_id,
        policy_fqn: rule.fqn.clone(),
        policy_name: rule.name.clone(),
        allowed,
        reason,
        required_actions: required,
        regulatory_reference: None,
    }
}

/// Judge the policy rules against the candidate verbs: each enabled rule
/// that applies (no predicates, or a predicate on a verb's tier or trust
/// matches) gives a verdict, denying when one of its actions blocks and
/// listing what its actions require. Rows that are no policy rule are
/// passed over.
pub fn evaluate_policies(
    policy_rows: &Vec<SnapshotRow>,
    verbs: &Vec<VerbCandidate>,
    _actor: &ActorContext,
) -> (r: Vec<PolicyVerdict>)
    ensures
        r@.map_values(|v: PolicyVerdict| v@) == policy_verdicts(policy_rows@, candidate_views(verbs@)),
{
    let mut out: Vec<PolicyVerdict> = Vec::new();
    let mut i: usize = 0;
    while i < policy_rows.len()
        invariant
            i <= policy_rows.len(),
            out@.map_values(|v: PolicyVerdict| v@) == policy_verdicts(
                policy_rows@.take(i as int),
                candidate_views(verbs@),
            ),
        decreases policy_rows.len() - i,
    {
        assert(policy_rows@.take(i + 1).drop_last() =~= policy_rows@.take(i as int));
        assert(policy_rows@.take(i + 1).last() == policy_rows@[i as int]);
        let row = &policy_rows[i];
        match &row.definition.policy_rule {
            Some(rule) => {
                if rule.enabled && applies(rule, verbs) {
                    let v = verdict_for(row, rule);
                    let ghost before = out@;
                    out.push(v);
                    assert(out@.map_values(|v: PolicyVerdict| v@) =~= before.map_values(
                        |v: PolicyVerdict| v@,
                    ).push(v@));
                }
            },
            None => {},
        }
        i += 1;
    }
    assert(policy_rows@.take(policy_rows.len() as int) =~= policy_rows@);
    out
}

// ── Composite access ────────────────────────────────────────────

/// The verbs the actor is denied, by name, in order.
pub open spec fn denied_names(verbs: Seq<CandidateView>) -> Seq<Seq<char>>
    decreases verbs.len(),
{
    if verbs.len() == 0 {
        Seq::empty()
    } else {
        let rest = denied_names(verbs.drop_last());
        if verbs.last().access_decision is Deny {
            rest.push(verbs.last().fqn)
        } else {
            rest
        }
    }
}

/// The masked fields of the verbs allowed with masking, in order.
pub open spec fn masked_lists(verbs: Seq<CandidateView>) -> Seq<Seq<Seq<char>>>
    decreases verbs.len(),
{
    if verbs.len() == 0 {
        Seq::empty()
    } else {
        let rest = masked_lists(verbs.drop_last());
        match verbs.last().access_decision {
            DecisionView::AllowWithMasking(fields) => rest.push(fields),
            _ => rest,
        }
    }
}

/// The composite decision: denied when a policy blocks; masking the denied
/// verbs when some are denied; masking every masked field when some verbs
/// are masked; allowed otherwise.
pub open spec fn composite(verbs: Seq<CandidateView>, verdicts: Seq<VerdictView>) -> DecisionView {
    if exists|i: int| 0 <= i < verdicts.len() && !(#[trigger] verdicts[i]).allowed {
        DecisionView::Deny("One or more policies restrict access"@)
    } else if denied_names(verbs).len() > 0 {
        DecisionView::AllowWithMasking(denied_names(verbs))
    } else if masked_lists(verbs).len() > 0 {
        DecisionView::AllowWithMasking(flat(masked_lists(verbs)))
    } else {
        DecisionView::Allow
    }
}

/// Combine the verbs' access decisions with the policy verdicts.
pub fn compute_composite_access(verbs: &Vec<VerbCandidate>, policy_verdicts: &Vec<PolicyVerdict>) -> (r:
    AccessDecision)
    ensures
        r@ == composite(candidate_views(verbs@), policy_verdicts@.map_values(|v: PolicyVerdict| v@)),
{
    let ghost vv = policy_verdicts@.map_values(|v: PolicyVerdict| v@);
    let mut i: usize = 0;
    while i < policy_verdicts.len()
        invariant
            i <= policy_verdicts.len(),
            vv == policy_verdicts@.map_values(|v: PolicyVerdict| v@),
            forall|t: int| 0 <= t < i ==> (#[trigger] vv[t]).allowed,
        decreases policy_verdicts.len() - i,
    {
        if !policy_verdicts[i].allowed {
            assert(!vv[i as int].allowed);
            return AccessDecision::Deny { reason: owned("One or more policies restrict access") };
        }
        i += 1;
    }
    let ghost cv = candidate_views(verbs@);
    let mut denied: Vec<String> = Vec::new();
    let mut masked: Vec<String> = Vec::new();
    let mut any_masking = false;
    let mut j: usize = 0;
    while j < verbs.len()
        invariant
            j <= verbs.len(),
            cv == candidate_views(verbs@),
            texts(denied@) == denied_names(cv.take(j as int)),
            texts(masked@) == flat(masked_lists(cv.take(j as int))),
            any_masking == (masked_lists(cv.take(j as int)).len() > 0),
        decreases verbs.len() - j,
    {
        assert(cv.take(j + 1).drop_last() =~= cv.take(j as int));
        assert(cv.take(j + 1).last() == verbs@[j as int]@);
        let v = &verbs[j];
        match &v.access_decision {
            AccessDecision::Deny { .. } => {
                let ghost before = texts(denied@);
                denied.push(v.fqn.clone());
                assert(texts(denied@) =~= before.push(v.fqn@));
            },
            AccessDecision::AllowWithMasking { masked_fields } => {
                let ghost before = texts(masked@);
                let mut k: usize = 0;
                while k < masked_fields.len()
                    invariant
                        k <= masked_fields.len(),
                        texts(masked@) == before + texts(masked_fields@).take(k as int),
                    decreases masked_fields.len() - k,
                {
                    let ghost prev = texts(masked@);
                    masked.push(masked_fields[k].clone());
                    assert(texts(masked@) =~= prev.push(masked_fields@[k as int]@));
                    assert(texts(masked_fields@).take(k + 1) =~= texts(masked_fields@).take(k as int).push(
                        masked_fields@[k as int]@,
                    ));
                    assert((before + texts(masked_fields@).take(k as int)).push(masked_fields@[k as int]@)
                        =~= before + texts(masked_fields@).take(k + 1));
                    k += 1;
                }
                assert(texts(masked_fields@).take(masked_fields.len() as int) =~= texts(masked_fields@));
                proof {
                    let prior = masked_lists(cv.take(j as int));
                    assert(masked_lists(cv.take(j + 1)) == prior.push(texts(masked_fields@)));
                    assert(prior.push(texts(masked_fields@)).drop_last() =~= prior);
                    assert(flat(prior.push(texts(masked_fields@))) == flat(prior) + texts(masked_fields@));
                }
                any_masking = true;
            },
            AccessDecision::Allow => {},
        }
        j += 1;
    }
    assert(cv.take(verbs.len() as int) =~= cv);
    if denied.len() > 0 {
        AccessDecision::AllowWithMasking { masked_fields: denied }
    } else if any_masking {
        AccessDecision::AllowWithMasking { masked_fields: masked }
    } else {
        AccessDecision::Allow
    }
}

// ── Governance signals ──────────────────────────────────────────

/// A governance signal: a gap or issue the resolution found.
#[derive(Debug, Clone, PartialEq, Eq)]
pub struct GovernanceSignal {
    pub kind: GovernanceSignalKind,
    pub message: String,
    pub severity: GovernanceSignalSeverity,
    pub related_fqn: Option<String>,
    pub related_snapshot_id: Option<u128>,
}

/// A governance signal as plain values.
pub struct GovernanceSignalView {
    pub kind: GovernanceSignalKind,
    pub message: Seq<char>,
    pub severity: GovernanceSignalSeverity,
    pub related_fqn: Option<Seq<char>>,
    pub related_snapshot_id: Option<u128>,
}

impl View for GovernanceSignal {
    type V = GovernanceSignalView;

    open spec fn view(&self) -> GovernanceSignalView {
        GovernanceSignalView {
            kind: self.kind,
            message: self.message@,
            severity: self.severity,
            related_fqn: opt_view(self.related_fqn),
            related_snapshot_id: self.related_snapshot_id,
        }
    }
}

/// Coverage gaps of required attributes that are not populated.
pub open spec fn attribute_gaps(attrs: Seq<AttributeView>) -> Seq<GovernanceSignalView>
    decreases attrs.len(),
{
    if attrs.len() == 0 {
        Seq::empty()
    } else {
        let rest = attribute_gaps(attrs.drop_last());
        let a = attrs.last();
        if a.required && !a.present {
            rest.push(
                GovernanceSignalView {
                    kind: GovernanceSignalKind::CoverageGap,
                    message: "Required attribute '"@ + a.fqn + "' is not populated"@,
                    severity: GovernanceSignalSeverity::Warning,
                    related_fqn: Some(a.fqn),
                    related_snapshot_id: Some(a.attribute_snapshot_id),
                },
            )
        } else {
            rest
        }
    }
}

/// Coverage gaps of verbs with unsatisfied preconditions.
pub open spec fn precondition_gaps(verbs: Seq<CandidateView>) -> Seq<GovernanceSignalView>
    decreases verbs.len(),
{
    if verbs.len() == 0 {
        Seq::empty()
    } else {
        let rest = precondition_gaps(verbs.drop_last());
        let v = verbs.last();
        if !v.preconditions_met {
            rest.push(
                GovernanceSignalView {
                    kind: GovernanceSignalKind::CoverageGap,
                    message: "Verb '"@ + v.fqn + "' has unsatisfied preconditions"@,
                    severity: GovernanceSignalSeverity::Info,
                    related_fqn: Some(v.fqn),
                    related_snapshot_id: Some(v.verb_snapshot_id),
                },
            )
        } else {
            rest
        }
    }
}

/// Coverage gaps of operational verbs whose outputs cannot back proof.
pub open spec fn operational_gaps(verbs: Seq<CandidateView>) -> Seq<GovernanceSignalView>
    decreases verbs.len(),
{
    if verbs.len() == 0 {
        Seq::empty()
    } else {
        let rest = operational_gaps(verbs.drop_last());
        let v = verbs.last();
        if v.governance_tier == GovernanceTier::Operational && !v.usable_for_proof {
            rest.push(
                GovernanceSignalView {
                    kind: GovernanceSignalKind::CoverageGap,
                    message: "Verb '"@ + v.fqn + "' is operational-tier — outputs not usable for proof"@,
                    severity: GovernanceSignalSeverity::Info,
                    related_fqn: Some(v.fqn),
                    related_snapshot_id: Some(v.verb_snapshot_id),
                },
            )
        } else {
            rest
        }
    }
}

/// The signals of a resolution: none outside governance and exploratory
/// modes; else the attribute gaps, then the precondition gaps, then the
/// operational gaps.
pub open spec fn governance_signals(
    verbs: Seq<CandidateView>,
    attrs: Seq<AttributeView>,
    mode: EvidenceMode,
) -> Seq<GovernanceSignalView> {
    if mode != EvidenceMode::Governance && mode != EvidenceMode::Exploratory {
        Seq::empty()
    } else {
        attribute_gaps(attrs) + precondition_gaps(verbs) + operational_gaps(verbs)
    }
}

pub open spec fn signal_views(v: Seq<GovernanceSignal>) -> Seq<GovernanceSignalView> {
    v.map_values(|s: GovernanceSignal| s@)
}

fn push_signal(out: &mut Vec<GovernanceSignal>, s: GovernanceSignal)
    ensures
        signal_views(final(out)@) == signal_views(old(out)@).push(s@),
{
    out.push(s);
    assert(signal_views(out@) =~= signal_views(old(out)@).push(s@));
}

/// Signal the gaps of a resolution in governance and exploratory modes:
/// required attributes that are not populated, verbs with unsatisfied
/// preconditions, and operational verbs whose outputs cannot back proof.
pub fn generate_governance_signals(
    verbs: &Vec<VerbCandidate>,
    attributes: &Vec<AttributeCandidate>,
    mode: EvidenceMode,
) -> (r: Vec<GovernanceSignal>)
    ensures
        signal_views(r@) == governance_signals(
            candidate_views(verbs@),
            attributes@.map_values(|a: AttributeCandidate| a@),
            mode,
        ),
{
    let mut out: Vec<GovernanceSignal> = Vec::new();
    if mode != EvidenceMode::Governance && mode != EvidenceMode::Exploratory {
        assert(signal_views(out@) =~= Seq::<GovernanceSignalView>::empty());
        return out;
    }
    let ghost av = attributes@.map_values(|a: AttributeCandidate| a@);
    let ghost cv = candidate_views(verbs@);
    let mut i: usize = 0;
    while i < attributes.len()
        invariant
            i <= attributes.len(),
            av == attributes@.map_values(|a: AttributeCandidate| a@),
            signal_views(out@) == attribute_gaps(av.take(i as int)),
        decreases attributes.len() - i,
    {
        assert(av.take(i + 1).drop_last() =~= av.take(i as int));
        assert(av.take(i + 1).last() == attributes@[i as int]@);
        let a = &attributes[i];
        if a.required && !a.present {
            push_signal(
                &mut out,
                GovernanceSignal {
                    kind: GovernanceSignalKind::CoverageGap,
                    message: join3("Required attribute '", a.fqn.as_str(), "' is not populated"),
                    severity: GovernanceSignalSeverity::Warning,
                    related_fqn: Some(a.fqn.clone()),
                    related_snapshot_id: Some(a.attribute_snapshot_id),
                },
            );
        }
        i += 1;
    }
    assert(av.take(attributes.len() as int) =~= av);
    let ghost after_attrs = signal_views(out@);
    let mut j: usize = 0;
    while j < verbs.len()
        invariant
            j <= verbs.len(),
            cv == candidate_views(verbs@),
            after_attrs == attribute_gaps(av),
            signal_views(out@) == after_attrs + precondition_gaps(cv.take(j as int)),
        decreases verbs.len() - j,
    {
        assert(cv.take(j + 1).drop_last() =~= cv.take(j as int));
        assert(cv.take(j + 1).last() == verbs@[j as int]@);
        let v = &verbs[j];
        if !v.preconditions_met {
            push_signal(
                &mut out,
                GovernanceSignal {
                    kind: GovernanceSignalKind::CoverageGap,
                    message: join3("Verb '", v.fqn.as_str(), "' has unsatisfied preconditions"),
                    severity: GovernanceSignalSeverity::Info,
                    related_fqn: Some(v.fqn.clone()),
                    related_snapshot_id: Some(v.verb_snapshot_id),
                },
            );
            assert(signal_views(out@) =~= after_attrs + precondition_gaps(cv.take(j + 1)));
        }
        j += 1;
    }
    assert(cv.take(verbs.len() as int) =~= cv);
    let ghost after_pre = signal_views(out@);
    let mut k: usize = 0;
    while k < verbs.len()
        invariant
            k <= verbs.len(),
            cv == candidate_views(verbs@),
            after_pre == attribute_gaps(av) + precondition_gaps(cv),
            signal_views(out@) == after_pre + operational_gaps(cv.take(k as int)),
        decreases verbs.len() - k,
    {
        assert(cv.take(k + 1).drop_last() =~= cv.take(k as int));
        assert(cv.take(k + 1).last() == verbs@[k as int]@);
        let v = &verbs[k];
        if v.governance_tier == GovernanceTier::Operational && !v.usable_for_proof {
            push_signal(
                &mut out,
                GovernanceSignal {
                    kind: GovernanceSignalKind::CoverageGap,
                    message: join3(
                        "Verb '",
                        v.fqn.as_str(),
                        "' is operational-tier — outputs not usable for proof",
                    ),
                    severity: GovernanceSignalSeverity::Info,
                    related_fqn: Some(v.fqn.clone()),
                    related_snapshot_id: Some(v.verb_snapshot_id),
                },
            );
            assert(signal_views(out@) =~= after_pre + operational_gaps(cv.take(k + 1)));
        }
        k += 1;
    }
    assert(cv.take(verbs.len() as int) =~= cv);
    out
}

// ── Confidence ──────────────────────────────────────────────────

/// The counts the confidence score is weighed from: the top view's
/// overlap (hundredths, 0 without views), satisfied of all precondition
/// statuses, present of required attributes, and permitted of all verbs.
#[derive(Debug, Clone, Copy, PartialEq, Eq, Structural)]
pub struct ConfidenceInputs {
    pub view_score: u32,
    pub preconditions_satisfied: usize,
    pub preconditions_total: usize,
    pub required_present: usize,
    pub required_total: usize,
    pub verbs_permitted: usize,
    pub verbs_total: usize,
}

/// How many statuses are satisfied.
pub open spec fn satisfied_count(ps: Seq<PreconditionStatus>) -> nat
    decreases ps.len(),
{
    if ps.len() == 0 {
        0
    } else {
        satisfied_count(ps.drop_last()) + if ps.last().all_satisfied {
            1nat
        } else {
            0nat
        }
    }
}

/// How many attributes are required, and present if `need_present`.
pub open spec fn required_count(attrs: Seq<AttributeView>, need_present: bool) -> nat
    decreases attrs.len(),
{
    if attrs.len() == 0 {
        0
    } else {
        required_count(attrs.drop_last(), need_present) + if attrs.last().required && (!need_present
            || attrs.last().present) {
            1nat
        } else {
            0nat
        }
    }
}

/// How many verbs the actor is not denied.
pub open spec fn permitted_count(verbs: Seq<CandidateView>) -> nat
    decreases verbs.len(),
{
    if verbs.len() == 0 {
        0
    } else {
        permitted_count(verbs.drop_last()) + if verbs.last().access_decision is Deny {
            0nat
        } else {
            1nat
        }
    }
}

/// Count what the confidence of a resolution is weighed from.
pub fn confidence_inputs(
    views: &Vec<RankedView>,
    verbs: &Vec<VerbCandidate>,
    preconditions: &Vec<PreconditionStatus>,
    attributes: &Vec<AttributeCandidate>,
) -> (r: ConfidenceInputs)
    ensures
        r.view_score == if views@.len() > 0 {
            views@[0].overlap_score
        } else {
            0
        },
        r.preconditions_satisfied == satisfied_count(preconditions@),
        r.preconditions_total == preconditions@.len(),
        r.required_present == required_count(attributes@.map_values(|a: AttributeCandidate| a@), true),
        r.required_total == required_count(attributes@.map_values(|a: AttributeCandidate| a@), false),
        r.verbs_permitted == permitted_count(candidate_views(verbs@)),
        r.verbs_total == verbs@.len(),
{
    let view_score = if views.len() > 0 {
        views[0].overlap_score
    } else {
        0
    };
    let mut satisfied: usize = 0;
    let mut i: usize = 0;
    while i < preconditions.len()
        invariant
            i <= preconditions.len(),
            satisfied <= i,
            satisfied == satisfied_count(preconditions@.take(i as int)),
        decreases preconditions.len() - i,
    {
        assert(preconditions@.take(i + 1).drop_last() =~= preconditions@.take(i as int));
        if preconditions[i].all_satisfied {
            satisfied += 1;
        }
        i += 1;
    }
    assert(preconditions@.take(preconditions.len() as int) =~= preconditions@);
    let ghost av = attributes@.map_values(|a: AttributeCandidate| a@);
    let mut present: usize = 0;
    let mut required: usize = 0;
    let mut j: usize = 0;
    while j < attributes.len()
        invariant
            j <= attributes.len(),
            av == attributes@.map_values(|a: AttributeCandidate| a@),
            present <= required <= j,
            present == required_count(av.take(j as int), true),
            required == required_count(av.take(j as int), false),
        decreases attributes.len() - j,
    {
        assert(av.take(j + 1).drop_last() =~= av.take(j as int));
        assert(av.take(j + 1).last() == attributes@[j as int]@);
        if attributes[j].required {
            required += 1;
            if attributes[j].present {
                present += 1;
            }
        }
        j += 1;
    }
    assert(av.take(attributes.len() as int) =~= av);
    let ghost cv = candidate_views(verbs@);
    let mut permitted: usize = 0;
    let mut k: usize = 0;
    while k < verbs.len()
        invariant
            k <= verbs.len(),
            cv == candidate_views(verbs@),
            permitted <= k,
            permitted == permitted_count(cv.take(k as int)),
        decreases verbs.len() - k,
    {
        assert(cv.take(k + 1).drop_last() =~= cv.take(k as int));
        assert(cv.take(k + 1).last() == verbs@[k as int]@);
        if verbs[k].access_decision.is_allowed() {
            permitted += 1;
        }
        k += 1;
    }
    assert(cv.take(verbs.len() as int) =~= cv);
    ConfidenceInputs {
        view_score,
        preconditions_satisfied: satisfied,
        preconditions_total: preconditions.len(),
        required_present: present,
        required_total: required,
        verbs_permitted: permitted,
        verbs_total: verbs.len(),
    }
}

// ── Disambiguation ──────────────────────────────────────────────

/// A choice offered by a prompt.
#[derive(Debug, Clone, PartialEq, Eq)]
pub struct DisambiguationOption {
    pub id: String,
    pub label: String,
    pub description: Option<String>,
    /// The view the choice narrows the context to.
    pub narrows_to_view: Option<u128>,
}

/// A question for the user when the context is ambiguous.
#[derive(Debug, Clone, PartialEq, Eq)]
pub struct DisambiguationPrompt {
    pub prompt_id: u128,
    pub question: String,
    pub options: Vec<DisambiguationOption>,
    pub required_to_proceed: bool,
    pub rationale: Option<String>,
}

/// A choice as plain values.
pub struct OptionView {
    pub id: Seq<char>,
    pub label: Seq<char>,
    pub description: Option<Seq<char>>,
    pub narrows_to_view: Option<u128>,
}

impl View for DisambiguationOption {
    type V = OptionView;

    open spec fn view(&self) -> OptionView {
        OptionView {
            id: self.id@,
            label: self.label@,
            description: opt_view(self.description),
            narrows_to_view: self.narrows_to_view,
        }
    }
}

/// A view is within a tenth of the top view's overlap.
pub open spec fn close_to(top: nat, v: RankedViewView) -> bool {
    (if top >= v.overlap_score {
        top - v.overlap_score
    } else {
        v.overlap_score - top
    }) < 10
}

/// The choice offered for a view.
pub open spec fn view_option(v: RankedViewView) -> OptionView {
    OptionView {
        id: v.fqn,
        label: v.name,
        description: Some(
            "View over "@ + v.body.base_entity_type + " (overlap: "@ + decimal(v.overlap_score) + "%)"@,
        ),
        narrows_to_view: Some(v.view_id),
    }
}

/// The choices for the views close to the top one, in order.
pub open spec fn close_options(views: Seq<RankedViewView>, top: nat) -> Seq<OptionView>
    decreases views.len(),
{
    if views.len() == 0 {
        Seq::empty()
    } else {
        let rest = close_options(views.drop_last(), top);
        if close_to(top, views.last()) {
            rest.push(view_option(views.last()))
        } else {
            rest
        }
    }
}

fn option_for(v: &RankedView) -> (r: DisambiguationOption)
    ensures
        r@ == view_option(v@),
{
    let pct = decimal_text(v.overlap_score as usize);
    let d = join5("View over ", v.body.base_entity_type.as_str(), " (overlap: ", pct.as_str(), "%)");
    DisambiguationOption {
        id: v.fqn.clone(),
        label: v.name.clone(),
        description: Some(d),
        narrows_to_view: Some(v.view_id),
    }
}

/// When two or more views are within a tenth of the top view's overlap, ask
/// which perspective to take, offering each of them; otherwise ask nothing.
/// Each prompt gets a fresh random id.
pub fn generate_disambiguation(views: &Vec<RankedView>, _verbs: &Vec<VerbCandidate>) -> (r: Vec<
    DisambiguationPrompt,
>)
    ensures
        ({
            let vs = views@.map_values(|v: RankedView| v@);
            if vs.len() >= 2 && close_options(vs, vs[0].overlap_score).len() >= 2 {
                &&& r@.len() == 1
                &&& r@[0].question@
                    == "Multiple views match this context. Which perspective would you like?"@
                &&& r@[0].options@.map_values(|o: DisambiguationOption| o@) == close_options(
                    vs,
                    vs[0].overlap_score,
                )
                &&& !r@[0].required_to_proceed
                &&& opt_view(r@[0].rationale) == Some("Views have similar taxonomy overlap scores"@)
            } else {
                r@.len() == 0
            }
        }),
{
    let mut prompts: Vec<DisambiguationPrompt> = Vec::new();
    if views.len() < 2 {
        return prompts;
    }
    let ghost vs = views@.map_values(|v: RankedView| v@);
    let top = views[0].overlap_score;
    assert(vs[0].overlap_score == top);
    let mut options: Vec<DisambiguationOption> = Vec::new();
    let mut i: usize = 0;
    while i < views.len()
        invariant
            i <= views.len(),
            vs == views@.map_values(|v: RankedView| v@),
            top == vs[0].overlap_score,
            options@.map_values(|o: DisambiguationOption| o@) == close_options(vs.take(i as int), top as nat),
        decreases views.len() - i,
    {
        assert(vs.take(i + 1).drop_last() =~= vs.take(i as int));
        assert(vs.take(i + 1).last() == views@[i as int]@);
        let s = views[i].overlap_score;
        let gap = if top >= s {
            top - s
        } else {
            s - top
        };
        if gap < 10 {
            let o = option_for(&views[i]);
            let ghost before = options@;
            options.push(o);
            assert(options@.map_values(|o: DisambiguationOption| o@) =~= before.map_values(
                |o: DisambiguationOption| o@,
            ).push(o@));
        }
        i += 1;
    }
    assert(vs.take(views.len() as int) =~= vs);
    if options.len() >= 2 {
        prompts.push(
            DisambiguationPrompt {
                prompt_id: random_uuid(),
                question: owned("Multiple views match this context. Which perspective would you like?"),
                options,
                required_to_proceed: false,
                rationale: Some(owned("Views have similar taxonomy overlap scores")),
            },
        );
    }
    prompts
}

// ── What policy verdicts promise ────────────────────────────────

/// A rule with an action that blocks publishing or restricts access
/// never permits: its verdict is a restriction.
pub proof fn lemma_restricting_action_denies(row: SnapshotRow, rule: PolicyRuleBody, k: int)
    requires
        0 <= k < rule.actions@.len(),
        rule.actions@[k].kind@ == "block_publish"@ || rule.actions@[k].kind@ == "restrict_access"@,
    ensures
        !verdict_of(row, rule).allowed,
        verdict_of(row, rule).reason == "Policy restricts action"@,
{
    assert(blocking(rule.actions@[k]));
}

/// A rule none of whose actions blocks publishing or restricts access
/// permits.
pub proof fn lemma_unrestricted_rule_permits(row: SnapshotRow, rule: PolicyRuleBody)
    requires
        forall|k: int|
            0 <= k < rule.actions@.len() ==> (#[trigger] rule.actions@[k]).kind@ != "block_publish"@
                && rule.actions@[k].kind@ != "restrict_access"@,
    ensures
        verdict_of(row, rule).allowed,
        verdict_of(row, rule).reason == "Policy permits action"@,
{
}

/// When an enabled rule that applies holds an action that blocks
/// publishing or restricts access, the verdicts include a restriction and
/// the composite access decision is a denial.
pub proof fn lemma_restricting_policy_denies(rows: Seq<SnapshotRow>, verbs: Seq<CandidateView>, i: int, k: int)
    requires
        0 <= i < rows.len(),
        rows[i].definition.policy_rule is Some,
        rows[i].definition.policy_rule->Some_0.enabled,
        rule_applies(rows[i].definition.policy_rule->Some_0, verbs),
        0 <= k < rows[i].definition.policy_rule->Some_0.actions@.len(),
        rows[i].definition.policy_rule->Some_0.actions@[k].kind@ == "block_publish"@
            || rows[i].definition.policy_rule->Some_0.actions@[k].kind@ == "restrict_access"@,
    ensures
        exists|j: int|
            0 <= j < policy_verdicts(rows, verbs).len() && !(#[trigger] policy_verdicts(rows, verbs)[j]).allowed,
        composite(verbs, policy_verdicts(rows, verbs)) == DecisionView::Deny("One or more policies restrict access"@),
    decreases rows.len(),
{
    let vs = policy_verdicts(rows, verbs);
    let rest = policy_verdicts(rows.drop_last(), verbs);
    if i == rows.len() - 1 {
        let rule = rows.last().definition.policy_rule->Some_0;
        lemma_restricting_action_denies(rows.last(), rule, k);
        assert(vs == rest.push(verdict_of(rows.last(), rule)));
        assert(!vs[rest.len() as int].allowed);
    } else {
        assert(rows.drop_last()[i] == rows[i]);
        lemma_restricting_policy_denies(rows.drop_last(), verbs, i, k);
        let j = choose|j: int| 0 <= j < rest.len() && !(#[trigger] rest[j]).allowed;
        assert(vs.len() >= rest.len());
        assert(vs[j] == rest[j]);
        assert(!vs[j].allowed);
    }
}

} // verus!
