use sem_os_policy::abac::{Classification, EvidenceGrade, SecurityLabel};
use sem_os_policy::gates::governance::{
    check_continuation_completeness, check_evidence_grade_policy, check_macro_expansion_integrity,
    check_regulatory_linkage, check_review_cycle_compliance, check_stewardship,
    check_taxonomy_membership, check_version_consistency,
};
use sem_os_policy::gates::technical::{
    check_dependency_correctness, check_orphan_attributes, check_security_label_presence,
    check_snapshot_integrity, check_type_correctness, check_verb_surface_disclosure,
};
use sem_os_policy::ontology::{VerbArgDef, VerbArgLookup, VerbContractBody, VerbProducesSpec};
use sem_os_policy::gates::{
    check_derivation_cycle, check_derivation_evidence_grade, check_derivation_type_compatibility,
    check_evidence_proof_rule, check_governed_approval, check_proof_rule, check_security_label,
    check_version_monotonicity, evaluate_all_publish_gates, evaluate_extended_gates,
    evaluate_publish_gates, ChangeType, DefinitionFacts, DerivationInput, DerivationSpecBody,
    ExtendedGateContext, ExtendedPublishGateResult, FieldShape, GateFailure, GateMode,
    GateSeverity, GovernanceTier, LabelParse, SnapshotMeta, SnapshotRow, Timestamp, TrustClass,
};

fn label(classification: Classification, pii: bool) -> SecurityLabel {
    SecurityLabel {
        classification,
        pii,
        jurisdictions: vec![],
        purpose_limitation: vec![],
        handling_controls: vec![],
    }
}

fn meta(tier: GovernanceTier, trust: TrustClass, approved_by: Option<&str>) -> SnapshotMeta {
    SnapshotMeta {
        governance_tier: tier,
        trust_class: trust,
        security_label: label(Classification::Internal, false),
        approved_by: approved_by.map(|s| s.to_string()),
        version_major: 1,
        version_minor: 0,
    }
}

fn operational_meta() -> SnapshotMeta {
    meta(GovernanceTier::Operational, TrustClass::Convenience, None)
}

fn empty_definition() -> DefinitionFacts {
    DefinitionFacts {
        fqn: None,
        regulatory_references: FieldShape::Absent,
        regulation_ids: FieldShape::Absent,
        behavior: None,
        expansion_verbs: vec![],
        name: None,
        description: None,
        subject_kinds: vec![],
        policy_rule: None,
        attribute_evidence_grade: None,
    }
}

fn snapshot(tier: GovernanceTier, created_by: &str) -> SnapshotRow {
    SnapshotRow {
        snapshot_id: 0x0123_4567_89ab_cdef_0123_4567_89ab_cdef,
        object_type: "attribute_def".into(),
        object_id: 7,
        version_major: 1,
        version_minor: 0,
        governance_tier: tier,
        trust_class: TrustClass::Convenience,
        security_label: LabelParse::Valid(label(Classification::Internal, false)),
        effective_until: None,
        predecessor_id: None,
        change_type: ChangeType::Created,
        change_rationale: None,
        created_by: created_by.into(),
        approved_by: None,
        definition: empty_definition(),
    }
}

fn versioned(major: u32, minor: u32, object_id: u128) -> SnapshotRow {
    let mut s = snapshot(GovernanceTier::Operational, "test");
    s.version_major = major;
    s.version_minor = minor;
    s.object_id = object_id;
    s
}

fn at(secs: i64) -> Timestamp {
    Timestamp {
        secs,
        nanos: 0,
        text: format!("t{secs}"),
    }
}

fn spec(fqn: &str, output: &str, inputs: &[&str]) -> DerivationSpecBody {
    DerivationSpecBody {
        fqn: fqn.into(),
        output_attribute_fqn: output.into(),
        inputs: inputs
            .iter()
            .map(|&i| DerivationInput {
                attribute_fqn: i.into(),
            })
            .collect(),
        evidence_grade: EvidenceGrade::Prohibited,
    }
}

fn strings(v: &[&str]) -> Vec<String> {
    v.iter().map(|s| s.to_string()).collect()
}

// ── Simple gates ────────────────────────────────────────────────

#[test]
fn test_proof_rule_operational_proof_fails() {
    let result = check_proof_rule(GovernanceTier::Operational, TrustClass::Proof);
    assert!(!result.passed);
    assert!(result.reason.unwrap().contains("Operational"));
}

#[test]
fn test_proof_rule_governed_proof_passes() {
    assert!(check_proof_rule(GovernanceTier::Governed, TrustClass::Proof).passed);
}

#[test]
fn test_proof_rule_operational_convenience_passes() {
    assert!(check_proof_rule(GovernanceTier::Operational, TrustClass::Convenience).passed);
}

#[test]
fn test_proof_rule_operational_decision_support_passes() {
    assert!(check_proof_rule(GovernanceTier::Operational, TrustClass::DecisionSupport).passed);
}

#[test]
fn test_security_label_pii_requires_confidential() {
    let result = check_security_label(&label(Classification::Internal, true));
    assert!(!result.passed);
    assert!(result.reason.unwrap().contains("Confidential"));
}

#[test]
fn test_security_label_pii_confidential_passes() {
    assert!(check_security_label(&label(Classification::Confidential, true)).passed);
}

#[test]
fn test_security_label_no_pii_public_passes() {
    assert!(check_security_label(&label(Classification::Public, false)).passed);
}

#[test]
fn test_governed_approval_required() {
    let m = meta(GovernanceTier::Governed, TrustClass::Proof, None);
    assert!(!check_governed_approval(&m).passed);
}

#[test]
fn test_governed_approval_present_passes() {
    let m = meta(GovernanceTier::Governed, TrustClass::Proof, Some("supervisor"));
    assert!(check_governed_approval(&m).passed);
}

#[test]
fn test_operational_no_approval_needed() {
    assert!(check_governed_approval(&operational_meta()).passed);
}

#[test]
fn test_version_monotonicity_pass() {
    let m = SnapshotMeta {
        version_major: 2,
        version_minor: 0,
        ..operational_meta()
    };
    let pred = versioned(1, 3, 1);
    assert!(check_version_monotonicity(&m, Some(&pred)).passed);
}

#[test]
fn test_version_monotonicity_fail() {
    let m = SnapshotMeta {
        version_major: 1,
        version_minor: 0,
        ..operational_meta()
    };
    let pred = versioned(2, 0, 1);
    let result = check_version_monotonicity(&m, Some(&pred));
    assert!(!result.passed);
    assert_eq!(
        result.reason.as_deref(),
        Some("New version 1.0 is less than predecessor 2.0")
    );
}

#[test]
fn test_version_monotonicity_no_predecessor() {
    assert!(check_version_monotonicity(&operational_meta(), None).passed);
}

#[test]
fn test_evaluate_all_gates_pass() {
    let m = meta(GovernanceTier::Governed, TrustClass::Proof, Some("supervisor"));
    let gate = evaluate_publish_gates(&m, None);
    assert!(gate.all_passed(), "Failures: {:?}", gate.failure_messages());
}

#[test]
fn test_evaluate_gates_multiple_failures() {
    let mut m = meta(GovernanceTier::Operational, TrustClass::Proof, None);
    m.security_label = label(Classification::Public, true);
    let gate = evaluate_publish_gates(&m, None);
    assert!(!gate.all_passed());
    assert_eq!(gate.failures().len(), 2);
}

#[test]
fn test_evidence_proof_rule_governed_proof_passes() {
    assert!(check_evidence_proof_rule(GovernanceTier::Governed, TrustClass::Proof).passed);
}

#[test]
fn test_evidence_proof_rule_operational_proof_fails() {
    let result = check_evidence_proof_rule(GovernanceTier::Operational, TrustClass::Proof);
    assert!(!result.passed);
    assert!(result.reason.unwrap().contains("Governed tier"));
}

#[test]
fn test_evidence_proof_rule_operational_convenience_passes() {
    assert!(check_evidence_proof_rule(GovernanceTier::Operational, TrustClass::Convenience).passed);
}

// ── Extended result ─────────────────────────────────────────────

#[test]
fn test_gate_mode_enforce_blocks_on_errors() {
    let result = ExtendedPublishGateResult {
        failures: vec![GateFailure::error("test_gate", "test", "something broke".into())],
        mode: GateMode::Enforce,
    };
    assert!(result.should_block());
    assert!(result.has_errors());
}

#[test]
fn test_gate_mode_report_only_does_not_block() {
    let result = ExtendedPublishGateResult {
        failures: vec![GateFailure::error("test_gate", "test", "something broke".into())],
        mode: GateMode::ReportOnly,
    };
    assert!(!result.should_block());
    assert!(result.has_errors());
}

#[test]
fn test_gate_warnings_do_not_block() {
    let result = ExtendedPublishGateResult {
        failures: vec![GateFailure::warning("test_gate", "test", "minor issue".into())],
        mode: GateMode::Enforce,
    };
    assert!(!result.should_block());
    assert!(result.has_warnings());
    assert!(!result.has_errors());
}

#[test]
fn test_gate_failure_builder() {
    let id: u128 = 42;
    let failure = GateFailure::error("test", "attr", "bad".into())
        .with_fqn("risk.score")
        .with_snapshot_id(id)
        .with_hint("fix it");
    assert_eq!(failure.object_fqn.as_deref(), Some("risk.score"));
    assert_eq!(failure.snapshot_id, Some(id));
    assert_eq!(failure.remediation_hint.as_deref(), Some("fix it"));
}

#[test]
fn test_failure_report_format() {
    let result = ExtendedPublishGateResult {
        failures: vec![
            GateFailure::error("gate_a", "attr", "broken".into()).with_fqn("x.y"),
            GateFailure::warning("gate_b", "verb", "questionable".into()).with_fqn("a.b"),
        ],
        mode: GateMode::Enforce,
    };
    let report = result.failure_report();
    assert!(report.contains("[ERROR] gate_a (x.y)"));
    assert!(report.contains("[WARN] gate_b (a.b)"));
}

#[test]
fn test_empty_failures_report() {
    let result = ExtendedPublishGateResult {
        failures: vec![],
        mode: GateMode::Enforce,
    };
    assert_eq!(result.failure_report(), "All gates passed.");
    assert!(!result.should_block());
}

// ── Derivation gates ────────────────────────────────────────────

#[test]
fn test_derivation_no_cycle() {
    let specs = vec![
        spec("d1", "out.a", &["in.x", "in.y"]),
        spec("d2", "out.b", &["out.a", "in.z"]),
    ];
    assert!(check_derivation_cycle(&specs).is_empty());
}

#[test]
fn test_derivation_cycle_detected() {
    let specs = vec![
        spec("d1", "out.a", &["out.b"]),
        spec("d2", "out.b", &["out.a"]),
    ];
    let failures = check_derivation_cycle(&specs);
    assert!(!failures.is_empty());
    assert!(failures[0].message.contains("Cycle"));
}

#[test]
fn derivation_cycle_names_specs_on_and_after_the_cycle() {
    let specs = vec![
        spec("d0", "out.z", &["in.x"]),
        spec("d1", "out.a", &["out.b"]),
        spec("d2", "out.b", &["out.a"]),
        spec("d3", "out.c", &["out.a", "in.y"]),
    ];
    let failures = check_derivation_cycle(&specs);
    assert_eq!(failures.len(), 1);
    assert_eq!(
        failures[0].message,
        "Cycle detected in derivation graph involving: d1, d2, d3"
    );
    assert_eq!(failures[0].gate_name, "derivation_cycle");
}

#[test]
fn derivation_self_loop_is_a_cycle() {
    let failures = check_derivation_cycle(&vec![spec("d1", "out.a", &["out.a"])]);
    assert_eq!(failures.len(), 1);
    assert!(check_derivation_cycle(&vec![]).is_empty());
}

#[test]
fn test_derivation_evidence_grade_operational_prohibited_passes() {
    let s = spec("d1", "out.a", &["in.x"]);
    assert!(check_derivation_evidence_grade(&s, GovernanceTier::Operational).is_empty());
}

#[test]
fn test_derivation_evidence_grade_operational_allowed_fails() {
    let mut s = spec("d1", "out.a", &["in.x"]);
    s.evidence_grade = EvidenceGrade::AllowedWithConstraints;
    let failures = check_derivation_evidence_grade(&s, GovernanceTier::Operational);
    assert_eq!(failures.len(), 1);
    assert!(failures[0].message.contains("allowed_with_constraints"));
}

#[test]
fn test_derivation_evidence_grade_governed_allowed_passes() {
    let mut s = spec("d1", "out.a", &["in.x"]);
    s.evidence_grade = EvidenceGrade::AllowedWithConstraints;
    assert!(check_derivation_evidence_grade(&s, GovernanceTier::Governed).is_empty());
}

#[test]
fn test_derivation_type_compat_all_known() {
    let s = spec("d1", "out.a", &["in.x", "in.y"]);
    let known = strings(&["out.a", "in.x", "in.y"]);
    assert!(check_derivation_type_compatibility(&s, &known).is_empty());
}

#[test]
fn test_derivation_type_compat_unknown_output() {
    let s = spec("d1", "out.unknown", &["in.x"]);
    let failures = check_derivation_type_compatibility(&s, &strings(&["in.x"]));
    assert_eq!(failures.len(), 1);
    assert!(failures[0].message.contains("output attribute"));
}

#[test]
fn test_derivation_type_compat_unknown_input() {
    let s = spec("d1", "out.a", &["in.x", "in.missing"]);
    let failures = check_derivation_type_compatibility(&s, &strings(&["out.a", "in.x"]));
    assert_eq!(failures.len(), 1);
    assert!(failures[0].message.contains("input attribute"));
}

// ── Unified evaluator ───────────────────────────────────────────

fn fqn_snapshot(tier: GovernanceTier, created_by: &str) -> SnapshotRow {
    let mut s = snapshot(tier, created_by);
    s.definition.fqn = Some("cbu.test_attr".into());
    s
}

#[test]
fn test_evaluate_extended_gates_operational_minimal() {
    let s = fqn_snapshot(GovernanceTier::Operational, "scanner");
    let failures = evaluate_extended_gates(&s, &ExtendedGateContext::default());
    let errors: Vec<_> = failures
        .iter()
        .filter(|f| f.severity == GateSeverity::Error)
        .collect();
    assert!(errors.is_empty(), "Unexpected errors: {:?}", errors);
}

#[test]
fn test_evaluate_extended_gates_governed_missing_steward() {
    let s = fqn_snapshot(GovernanceTier::Governed, "system");
    let failures = evaluate_extended_gates(&s, &ExtendedGateContext::default());
    let stewardship: Vec<_> = failures.iter().filter(|f| f.gate_name == "stewardship").collect();
    assert_eq!(stewardship.len(), 1);
}

#[test]
fn test_evaluate_extended_gates_breaking_no_rationale() {
    let mut s = fqn_snapshot(GovernanceTier::Operational, "scanner");
    s.change_type = ChangeType::Breaking;
    let failures = evaluate_extended_gates(&s, &ExtendedGateContext::default());
    let continuation: Vec<_> = failures
        .iter()
        .filter(|f| f.gate_name == "continuation_completeness")
        .collect();
    assert_eq!(continuation.len(), 1);
}

#[test]
fn extended_gates_check_macros_of_verb_contracts_only() {
    let mut s = fqn_snapshot(GovernanceTier::Operational, "scanner");
    s.definition.behavior = Some("template".into());
    s.definition.expansion_verbs = vec!["missing.verb".into()];
    let ctx = ExtendedGateContext {
        now: Some(at(0)),
        ..ExtendedGateContext::default()
    };
    let macro_warnings = |s: &SnapshotRow| {
        evaluate_extended_gates(s, &ctx)
            .iter()
            .filter(|f| f.gate_name == "macro_expansion_integrity")
            .count()
    };
    assert_eq!(macro_warnings(&s), 0);
    s.object_type = "verb_contract".into();
    assert_eq!(macro_warnings(&s), 1);
}

#[test]
fn test_evaluate_all_publish_gates_blocks_on_simple_failure() {
    let m = meta(GovernanceTier::Operational, TrustClass::Proof, None);
    let s = fqn_snapshot(GovernanceTier::Operational, "test");
    let result = evaluate_all_publish_gates(&m, &s, &ExtendedGateContext::default(), GateMode::Enforce);
    assert!(result.should_block());
    assert!(result.error_count() >= 1);
}

#[test]
fn test_evaluate_all_publish_gates_blocks_on_extended_error() {
    let mut s = fqn_snapshot(GovernanceTier::Operational, "scanner");
    s.change_type = ChangeType::Breaking;
    let result = evaluate_all_publish_gates(
        &operational_meta(),
        &s,
        &ExtendedGateContext::default(),
        GateMode::Enforce,
    );
    assert!(result.should_block());
    let continuation: Vec<_> = result
        .all_failure_messages()
        .into_iter()
        .filter(|m| m.contains("continuation_completeness"))
        .collect();
    assert!(!continuation.is_empty());
}

#[test]
fn test_evaluate_all_publish_gates_report_only_does_not_block() {
    let mut s = fqn_snapshot(GovernanceTier::Operational, "scanner");
    s.change_type = ChangeType::Breaking;
    let result = evaluate_all_publish_gates(
        &operational_meta(),
        &s,
        &ExtendedGateContext::default(),
        GateMode::ReportOnly,
    );
    assert!(!result.should_block());
    assert!(result.error_count() >= 1);
}

#[test]
fn test_unified_result_warning_count() {
    let s = fqn_snapshot(GovernanceTier::Operational, "scanner");
    let result = evaluate_all_publish_gates(
        &operational_meta(),
        &s,
        &ExtendedGateContext::default(),
        GateMode::Enforce,
    );
    assert!(result.warning_count() >= 1);
}

// ── Governance gates ────────────────────────────────────────────

#[test]
fn test_taxonomy_governed_no_membership_error() {
    let failures = check_taxonomy_membership("kyc.risk_score", GovernanceTier::Governed, &vec![]);
    assert_eq!(failures.len(), 1);
    assert_eq!(failures[0].severity, GateSeverity::Error);
    assert!(failures[0].message.contains("no taxonomy membership"));
}

#[test]
fn test_taxonomy_operational_no_membership_warning() {
    let failures = check_taxonomy_membership("cbu.temp_field", GovernanceTier::Operational, &vec![]);
    assert_eq!(failures.len(), 1);
    assert_eq!(failures[0].severity, GateSeverity::Warning);
}

#[test]
fn test_taxonomy_with_membership_passes() {
    let failures = check_taxonomy_membership(
        "kyc.risk_score",
        GovernanceTier::Governed,
        &vec!["kyc.risk_taxonomy.scores".into()],
    );
    assert!(failures.is_empty());
}

#[test]
fn test_stewardship_governed_with_steward_passes() {
    let s = snapshot(GovernanceTier::Governed, "alice@example.com");
    assert!(check_stewardship(&s, GovernanceTier::Governed).is_empty());
}

#[test]
fn test_stewardship_governed_empty_fails() {
    let s = snapshot(GovernanceTier::Governed, "");
    let failures = check_stewardship(&s, GovernanceTier::Governed);
    assert_eq!(failures.len(), 1);
    assert!(failures[0].message.contains("no identifiable steward"));
}

#[test]
fn stewardship_message_names_the_snapshot_uuid() {
    let s = snapshot(GovernanceTier::Governed, "unknown");
    let failures = check_stewardship(&s, GovernanceTier::Governed);
    assert_eq!(
        failures[0].message,
        "Governed snapshot 01234567-89ab-cdef-0123-456789abcdef has no identifiable steward (created_by = 'unknown')"
    );
    assert_eq!(failures[0].snapshot_id, Some(s.snapshot_id));
}

#[test]
fn test_stewardship_governed_system_fails() {
    let s = snapshot(GovernanceTier::Governed, "system");
    assert_eq!(check_stewardship(&s, GovernanceTier::Governed).len(), 1);
}

#[test]
fn test_stewardship_operational_skips() {
    let s = snapshot(GovernanceTier::Operational, "");
    assert!(check_stewardship(&s, GovernanceTier::Operational).is_empty());
}

#[test]
fn test_evidence_prohibited_always_passes() {
    let s = spec("kyc.risk_score_derived", "kyc.risk_score", &["kyc.raw_score"]);
    assert!(check_evidence_grade_policy(&s, GovernanceTier::Governed, false, false).is_empty());
}

#[test]
fn test_evidence_allowed_governed_missing_both() {
    let mut s = spec("kyc.risk_score_derived", "kyc.risk_score", &["kyc.raw_score"]);
    s.evidence_grade = EvidenceGrade::AllowedWithConstraints;
    let failures = check_evidence_grade_policy(&s, GovernanceTier::Governed, false, false);
    assert_eq!(failures.len(), 2);
    assert!(failures.iter().any(|f| f.message.contains("passing test")));
    assert!(failures.iter().any(|f| f.message.contains("policy rule")));
}

#[test]
fn test_evidence_allowed_governed_with_both() {
    let mut s = spec("kyc.risk_score_derived", "kyc.risk_score", &["kyc.raw_score"]);
    s.evidence_grade = EvidenceGrade::AllowedWithConstraints;
    assert!(check_evidence_grade_policy(&s, GovernanceTier::Governed, true, true).is_empty());
}

#[test]
fn test_evidence_allowed_operational_skips() {
    let mut s = spec("kyc.risk_score_derived", "kyc.risk_score", &["kyc.raw_score"]);
    s.evidence_grade = EvidenceGrade::AllowedWithConstraints;
    assert!(check_evidence_grade_policy(&s, GovernanceTier::Operational, false, false).is_empty());
}

#[test]
fn test_regulatory_linkage_operational_skips() {
    let mut s = snapshot(GovernanceTier::Operational, "test");
    s.definition.regulatory_references = FieldShape::Array { len: 0 };
    s.definition.regulation_ids = FieldShape::Array { len: 0 };
    assert!(check_regulatory_linkage(&s, GovernanceTier::Operational).is_empty());
}

#[test]
fn test_regulatory_linkage_governed_empty_refs_fails() {
    let mut s = snapshot(GovernanceTier::Governed, "test");
    s.definition.regulatory_references = FieldShape::Array { len: 0 };
    s.definition.regulation_ids = FieldShape::Array { len: 0 };
    let failures = check_regulatory_linkage(&s, GovernanceTier::Governed);
    assert_eq!(failures.len(), 1);
    assert_eq!(failures[0].gate_name, "regulatory_linkage");
    assert!(failures[0].message.contains("empty"));
}

#[test]
fn test_regulatory_linkage_governed_with_refs_passes() {
    let mut s = snapshot(GovernanceTier::Governed, "test");
    s.definition.regulatory_references = FieldShape::Array { len: 1 };
    assert!(check_regulatory_linkage(&s, GovernanceTier::Governed).is_empty());
}

#[test]
fn test_regulatory_linkage_no_regulatory_fields_passes() {
    let s = snapshot(GovernanceTier::Governed, "test");
    assert!(check_regulatory_linkage(&s, GovernanceTier::Governed).is_empty());
}

#[test]
fn test_review_cycle_operational_skips() {
    let s = snapshot(GovernanceTier::Operational, "test");
    assert!(check_review_cycle_compliance(&s, GovernanceTier::Operational, &at(100)).is_empty());
}

#[test]
fn test_review_cycle_governed_expired_fails() {
    let mut s = snapshot(GovernanceTier::Governed, "test");
    s.effective_until = Some(at(100 - 86_400));
    let failures = check_review_cycle_compliance(&s, GovernanceTier::Governed, &at(100));
    assert_eq!(failures.len(), 1);
    assert_eq!(failures[0].severity, GateSeverity::Error);
    assert!(failures[0].message.contains("expired"));
}

#[test]
fn test_review_cycle_governed_future_passes() {
    let mut s = snapshot(GovernanceTier::Governed, "test");
    s.effective_until = Some(at(100 + 30 * 86_400));
    assert!(check_review_cycle_compliance(&s, GovernanceTier::Governed, &at(100)).is_empty());
}

#[test]
fn test_review_cycle_governed_no_deadline_warns() {
    let s = snapshot(GovernanceTier::Governed, "test");
    let failures = check_review_cycle_compliance(&s, GovernanceTier::Governed, &at(100));
    assert_eq!(failures.len(), 1);
    assert_eq!(failures[0].severity, GateSeverity::Warning);
    assert!(failures[0].message.contains("no effective_until"));
}

#[test]
fn test_version_consistency_no_predecessor_passes() {
    let s = snapshot(GovernanceTier::Governed, "test");
    assert!(check_version_consistency(&s, None).is_empty());
}

#[test]
fn test_version_consistency_strictly_greater_passes() {
    let s = versioned(2, 0, 1);
    let pred = versioned(1, 5, 1);
    assert!(check_version_consistency(&s, Some(&pred)).is_empty());
}

#[test]
fn test_version_consistency_equal_fails() {
    let s = versioned(1, 0, 1);
    let pred = versioned(1, 0, 1);
    let failures = check_version_consistency(&s, Some(&pred));
    assert_eq!(failures.len(), 1);
    assert!(failures[0].message.contains("strictly greater"));
}

#[test]
fn test_version_consistency_less_fails() {
    let s = versioned(1, 0, 1);
    let pred = versioned(2, 0, 1);
    assert_eq!(check_version_consistency(&s, Some(&pred)).len(), 1);
}

#[test]
fn test_continuation_non_breaking_passes() {
    let s = snapshot(GovernanceTier::Governed, "test");
    assert!(check_continuation_completeness(&s).is_empty());
}

#[test]
fn test_continuation_breaking_no_rationale_fails() {
    let mut s = snapshot(GovernanceTier::Governed, "test");
    s.change_type = ChangeType::Breaking;
    s.change_rationale = None;
    let failures = check_continuation_completeness(&s);
    assert_eq!(failures.len(), 1);
    assert!(failures[0].message.contains("breaking change"));
    assert!(failures[0].message.contains("no change_rationale"));
}

#[test]
fn test_continuation_breaking_empty_rationale_fails() {
    let mut s = snapshot(GovernanceTier::Governed, "test");
    s.change_type = ChangeType::Breaking;
    s.change_rationale = Some("   ".into());
    assert_eq!(check_continuation_completeness(&s).len(), 1);
}

#[test]
fn test_continuation_breaking_with_rationale_passes() {
    let mut s = snapshot(GovernanceTier::Governed, "test");
    s.change_type = ChangeType::Breaking;
    s.change_rationale = Some("Removed field X; consumers should use field Y instead".into());
    assert!(check_continuation_completeness(&s).is_empty());
}

#[test]
fn test_macro_expansion_non_template_skips() {
    let mut def = empty_definition();
    def.behavior = Some("plugin".into());
    assert!(check_macro_expansion_integrity(&def, "cbu.create", &vec![]).is_empty());
}

#[test]
fn test_macro_expansion_known_targets_passes() {
    let mut def = empty_definition();
    def.behavior = Some("template".into());
    def.expansion_verbs = strings(&["cbu.create", "entity.create"]);
    let known = strings(&["cbu.create", "entity.create"]);
    assert!(check_macro_expansion_integrity(&def, "onboarding.setup", &known).is_empty());
}

#[test]
fn test_macro_expansion_unknown_target_warns() {
    let mut def = empty_definition();
    def.behavior = Some("template".into());
    def.expansion_verbs = strings(&["cbu.create", "nonexistent.verb"]);
    let known = strings(&["cbu.create"]);
    let failures = check_macro_expansion_integrity(&def, "onboarding.setup", &known);
    assert_eq!(failures.len(), 1);
    assert!(failures[0].message.contains("nonexistent.verb"));
    assert_eq!(failures[0].severity, GateSeverity::Warning);
}

#[test]
fn test_macro_expansion_no_expands_to_passes() {
    let mut def = empty_definition();
    def.behavior = Some("template".into());
    assert!(check_macro_expansion_integrity(&def, "onboarding.setup", &vec![]).is_empty());
}

// ── Technical gates ─────────────────────────────────────────────

fn sample_verb() -> VerbContractBody {
    VerbContractBody {
        fqn: "cbu.create".into(),
        domain: "cbu".into(),
        action: "create".into(),
        description: "Create a CBU".into(),
        args: vec![VerbArgDef {
            name: "name".into(),
            required: true,
            lookup: None,
            valid_values: None,
            default: None,
        }],
        produces: None,
        consumes: vec![],
        invocation_phrases: vec![],
        subject_kinds: vec![],
        requires_subject: true,
        crud_mapping: None,
        reads_from: vec![],
        writes_to: vec![],
    }
}

#[test]
fn test_type_correctness_no_consumes_passes() {
    assert!(check_type_correctness(&sample_verb(), &vec![], &vec![]).is_empty());
}

#[test]
fn test_type_correctness_unknown_consumed_warns() {
    let mut verb = sample_verb();
    verb.consumes = vec!["unknown_type".into()];
    let failures = check_type_correctness(&verb, &vec![], &vec![]);
    assert_eq!(failures.len(), 1);
    assert!(failures[0].message.contains("consumes"));
}

#[test]
fn test_type_correctness_known_consumed_passes() {
    let mut verb = sample_verb();
    verb.consumes = vec!["entity".into()];
    assert!(check_type_correctness(&verb, &strings(&["cbu.entity"]), &vec![]).is_empty());
}

#[test]
fn test_type_correctness_unknown_produces_warns() {
    let mut verb = sample_verb();
    verb.produces = Some(VerbProducesSpec {
        entity_type: "nonexistent".into(),
    });
    let failures = check_type_correctness(&verb, &vec![], &vec![]);
    assert_eq!(failures.len(), 1);
    assert!(failures[0].message.contains("produces entity type"));
}

#[test]
fn test_type_correctness_known_produces_passes() {
    let mut verb = sample_verb();
    verb.produces = Some(VerbProducesSpec {
        entity_type: "cbu".into(),
    });
    assert!(check_type_correctness(&verb, &vec![], &strings(&["entity.cbu"])).is_empty());
}

#[test]
fn test_type_correctness_unknown_lookup_entity_type_warns() {
    let mut verb = sample_verb();
    verb.args[0].lookup = Some(VerbArgLookup {
        table: "entities".into(),
        entity_type: "missing_type".into(),
        schema: None,
    });
    let failures = check_type_correctness(&verb, &vec![], &vec![]);
    assert_eq!(failures.len(), 1);
    assert!(failures[0]
        .message
        .contains("lookup referencing entity type"));
}

#[test]
fn test_dependency_correctness_no_specs_passes() {
    assert!(check_dependency_correctness(&vec![], &vec![]).is_empty());
}

#[test]
fn test_dependency_correctness_catches_cycle() {
    let mut d1 = spec("d1", "a", &["b"]);
    d1.evidence_grade = EvidenceGrade::Ungraded;
    let mut d2 = spec("d2", "b", &["a"]);
    d2.evidence_grade = EvidenceGrade::Ungraded;
    let failures = check_dependency_correctness(&vec![d1, d2], &vec![]);
    assert!(!failures.is_empty());
    assert!(failures.iter().any(|f| f.gate_name == "derivation_cycle"));
    // the cycle error, then one output and one input error per spec
    assert_eq!(failures.len(), 5);
}

#[test]
fn test_security_label_presence_valid() {
    assert!(check_security_label_presence(&versioned(1, 0, 1)).is_empty());
}

#[test]
fn test_security_label_presence_invalid() {
    let mut s = versioned(1, 0, 1);
    s.security_label = LabelParse::Invalid {
        error: "invalid type: string \"not_a_valid_label\", expected struct SecurityLabel".into(),
    };
    let failures = check_security_label_presence(&s);
    assert_eq!(failures.len(), 1);
    assert!(failures[0].message.contains("invalid"));
}

#[test]
fn test_verb_surface_disclosure_no_sinks_passes() {
    assert!(check_verb_surface_disclosure(&sample_verb(), &vec![], &vec![], &vec![]).is_empty());
}

#[test]
fn test_verb_surface_disclosure_undeclared_sink_is_error() {
    let sinks = strings(&["cbu.hidden_field"]);
    let failures = check_verb_surface_disclosure(&sample_verb(), &vec![], &sinks, &vec![]);
    assert_eq!(failures.len(), 1);
    assert!(failures[0].message.contains("consumer (sink)"));
    assert_eq!(failures[0].gate_name, "verb_surface_disclosure");
    assert_eq!(failures[0].severity, GateSeverity::Error);
}

#[test]
fn test_verb_surface_disclosure_declared_sink_passes() {
    let sinks = strings(&["cbu.name"]);
    assert!(check_verb_surface_disclosure(&sample_verb(), &vec![], &sinks, &vec![]).is_empty());
}

#[test]
fn test_verb_surface_disclosure_undeclared_source_warns() {
    let sources = strings(&["cbu.secret_output"]);
    let failures = check_verb_surface_disclosure(&sample_verb(), &vec![], &vec![], &sources);
    assert_eq!(failures.len(), 1);
    assert!(failures[0].message.contains("producing verb"));
}

#[test]
fn test_snapshot_integrity_no_predecessor_passes() {
    assert!(check_snapshot_integrity(&versioned(1, 0, 1), None).is_empty());
}

#[test]
fn test_snapshot_integrity_version_monotonicity() {
    let failures = check_snapshot_integrity(&versioned(1, 0, 1), Some(&versioned(2, 0, 1)));
    assert!(!failures.is_empty());
    assert!(failures[0].message.contains("Version"));
}

#[test]
fn test_snapshot_integrity_type_mismatch() {
    let s = versioned(2, 0, 1);
    let mut pred = versioned(1, 0, 1);
    pred.object_type = "verb_contract".into();
    let failures = check_snapshot_integrity(&s, Some(&pred));
    assert!(!failures.is_empty());
    assert!(failures[0].message.contains("object_type"));
}

#[test]
fn test_snapshot_integrity_id_mismatch() {
    let failures = check_snapshot_integrity(&versioned(2, 0, 1), Some(&versioned(1, 0, 2)));
    assert!(!failures.is_empty());
    assert!(failures[0].message.contains("object_id"));
    assert_eq!(
        failures[0].message,
        "Snapshot object_id 00000000-0000-0000-0000-000000000001 does not match predecessor 00000000-0000-0000-0000-000000000002"
    );
}

#[test]
fn test_snapshot_integrity_valid_successor() {
    assert!(check_snapshot_integrity(&versioned(2, 0, 9), Some(&versioned(1, 0, 9))).is_empty());
}

#[test]
fn test_orphan_governed_is_error() {
    let failures = check_orphan_attributes("kyc.risk_score", GovernanceTier::Governed, &vec![]);
    assert_eq!(failures.len(), 1);
    assert_eq!(failures[0].severity, GateSeverity::Error);
}

#[test]
fn test_orphan_operational_is_warning() {
    let failures = check_orphan_attributes("cbu.temp_field", GovernanceTier::Operational, &vec![]);
    assert_eq!(failures.len(), 1);
    assert_eq!(failures[0].severity, GateSeverity::Warning);
}

#[test]
fn test_non_orphan_passes() {
    let failures = check_orphan_attributes("cbu.name", GovernanceTier::Governed, &vec!["cbu.create".into()]);
    assert!(failures.is_empty());
}
