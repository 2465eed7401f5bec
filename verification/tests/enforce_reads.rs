use sem_os_policy::abac::{ActorContext, Classification, EvidenceGrade, SecurityLabel};
use sem_os_policy::enforce::{
    enforce_attribute_read, enforce_read, enforce_read_label, filter_by_abac, redacted_stub,
    EnforceResult,
};
use sem_os_policy::gates::{
    ChangeType, DefinitionFacts, FieldShape, GovernanceTier, LabelParse, SnapshotRow, TrustClass,
};

fn attribute_definition() -> DefinitionFacts {
    DefinitionFacts {
        fqn: Some("test.attr".into()),
        regulatory_references: FieldShape::Absent,
        regulation_ids: FieldShape::Absent,
        behavior: None,
        expansion_verbs: vec![],
        name: Some("Test Attribute".into()),
        description: Some("Test attribute used by enforcement unit tests".into()),
        subject_kinds: vec![],
        policy_rule: None,
        attribute_evidence_grade: Some(EvidenceGrade::Ungraded),
    }
}

fn make_row(classification: Classification, pii: bool, handling: Vec<String>) -> SnapshotRow {
    SnapshotRow {
        snapshot_id: uuid::Uuid::new_v4().as_u128(),
        object_type: "attribute_def".into(),
        object_id: uuid::Uuid::new_v4().as_u128(),
        version_major: 1,
        version_minor: 0,
        governance_tier: GovernanceTier::Operational,
        trust_class: TrustClass::Convenience,
        security_label: LabelParse::Valid(SecurityLabel {
            classification,
            pii,
            jurisdictions: vec![],
            purpose_limitation: vec![],
            handling_controls: handling,
        }),
        effective_until: None,
        predecessor_id: None,
        change_type: ChangeType::Created,
        change_rationale: None,
        created_by: "test".into(),
        approved_by: None,
        definition: attribute_definition(),
    }
}

fn unprivileged_actor() -> ActorContext {
    ActorContext {
        actor_id: "test_user".into(),
        roles: vec![],
        department: None,
        clearance: Some(Classification::Internal),
        jurisdictions: vec![],
    }
}

fn privileged_actor() -> ActorContext {
    ActorContext {
        actor_id: "admin".into(),
        roles: vec!["compliance_officer".into()],
        department: None,
        clearance: Some(Classification::Restricted),
        jurisdictions: vec!["US".into(), "EU".into()],
    }
}

#[test]
fn test_allow_internal_for_internal_clearance() {
    let actor = unprivileged_actor();
    let row = make_row(Classification::Internal, false, vec![]);
    assert!(matches!(enforce_read(&actor, &row), EnforceResult::Allow));
}

#[test]
fn test_deny_restricted_for_internal_clearance() {
    let actor = unprivileged_actor();
    let row = make_row(Classification::Restricted, false, vec!["no_llm_external".into()]);
    assert!(matches!(enforce_read(&actor, &row), EnforceResult::Deny { .. }));
}

#[test]
fn test_allow_restricted_for_restricted_clearance() {
    let actor = privileged_actor();
    let row = make_row(Classification::Restricted, false, vec![]);
    assert!(matches!(enforce_read(&actor, &row), EnforceResult::Allow));
}

#[test]
fn test_redacted_stub_contains_fqn() {
    let row = make_row(Classification::Internal, false, vec![]);
    let stub = redacted_stub(&row, "test reason");
    assert!(stub.redacted);
    assert_eq!(stub.fqn, "test.attr");
    assert_eq!(stub.reason, "test reason");
    assert_eq!(stub.object_type, "attribute_def");
    assert_eq!(stub.snapshot_id, row.snapshot_id);
}

#[test]
fn redacted_stub_without_fqn_says_unknown() {
    let mut row = make_row(Classification::Internal, false, vec![]);
    row.definition.fqn = None;
    assert_eq!(redacted_stub(&row, "r").fqn, "unknown");
}

#[test]
fn test_filter_by_abac_splits_correctly() {
    let actor = unprivileged_actor();
    let allowed_row = make_row(Classification::Internal, false, vec![]);
    let denied_row = make_row(Classification::Restricted, false, vec!["no_llm_external".into()]);
    let rows = vec![allowed_row, denied_row];
    let (allowed, redacted) = filter_by_abac(&actor, &rows);
    assert_eq!(allowed.len(), 1);
    assert_eq!(redacted.len(), 1);
    assert!(redacted[0].redacted);
    assert_eq!(allowed[0].snapshot_id, rows[0].snapshot_id);
    assert_eq!(redacted[0].snapshot_id, rows[1].snapshot_id);
}

#[test]
fn test_unparseable_label_denied() {
    let mut row = make_row(Classification::Internal, false, vec![]);
    row.security_label = LabelParse::Invalid { error: "invalid type: string \"not_a_valid_label\"".into() };
    let actor = privileged_actor();
    match enforce_read(&actor, &row) {
        EnforceResult::Deny { reason } => assert!(reason.contains("unparseable")),
        _ => panic!("Expected Deny for bad label"),
    }
}

#[test]
fn test_enforce_read_label_allow_public() {
    let actor = unprivileged_actor();
    let label = LabelParse::Valid(SecurityLabel {
        classification: Classification::Public,
        pii: false,
        jurisdictions: vec![],
        purpose_limitation: vec![],
        handling_controls: vec![],
    });
    assert!(matches!(enforce_read_label(&actor, &label), EnforceResult::Allow));
}

#[test]
fn test_enforce_read_label_deny_unparseable() {
    let actor = unprivileged_actor();
    let label = LabelParse::Invalid { error: "invalid type: string \"not_a_valid_label\"".into() };
    assert!(matches!(enforce_read_label(&actor, &label), EnforceResult::Deny { .. }));
}

#[test]
fn attribute_read_denied_when_definition_does_not_parse() {
    let mut row = make_row(Classification::Internal, false, vec![]);
    row.definition.attribute_evidence_grade = None;
    match enforce_attribute_read(&unprivileged_actor(), &row) {
        EnforceResult::Deny { reason } => {
            assert_eq!(reason, "Attribute definition unparseable — access denied by default")
        }
        _ => panic!("Expected Deny for a bad definition"),
    }
}

#[test]
fn non_attribute_rows_are_judged_by_label_alone() {
    let mut row = make_row(Classification::Internal, false, vec![]);
    row.object_type = "verb_contract".into();
    row.definition.attribute_evidence_grade = None;
    assert!(matches!(enforce_read(&unprivileged_actor(), &row), EnforceResult::Allow));
}
