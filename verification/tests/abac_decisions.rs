use sem_os_policy::abac::{
    evaluate_abac, evaluate_abac_with_evidence_grade, AccessDecision, AccessPurpose, ActorContext,
    Classification, EvidenceGrade, SecurityLabel,
};

fn public_label() -> SecurityLabel {
    SecurityLabel {
        classification: Classification::Public,
        pii: false,
        jurisdictions: vec![],
        purpose_limitation: vec![],
        handling_controls: vec![],
    }
}

fn confidential_pii_label() -> SecurityLabel {
    SecurityLabel {
        classification: Classification::Confidential,
        pii: true,
        jurisdictions: vec!["LU".into(), "DE".into()],
        purpose_limitation: vec!["operations".into(), "audit".into()],
        handling_controls: vec![],
    }
}

fn analyst() -> ActorContext {
    ActorContext {
        actor_id: "user-1".into(),
        roles: vec!["analyst".into()],
        department: Some("compliance".into()),
        clearance: Some(Classification::Confidential),
        jurisdictions: vec!["LU".into(), "DE".into(), "IE".into()],
    }
}

fn steward() -> ActorContext {
    ActorContext {
        actor_id: "user-3".into(),
        roles: vec!["data_steward".into()],
        department: Some("governance".into()),
        clearance: Some(Classification::Restricted),
        jurisdictions: vec!["LU".into(), "DE".into(), "IE".into()],
    }
}

fn uncleared_actor() -> ActorContext {
    ActorContext {
        actor_id: "user-2".into(),
        roles: vec!["viewer".into()],
        department: None,
        clearance: None,
        jurisdictions: vec![],
    }
}

#[test]
fn test_public_access_allowed() {
    let result = evaluate_abac(
        &uncleared_actor(),
        &public_label(),
        AccessPurpose::Operations,
    );
    assert_eq!(result, AccessDecision::Allow);
}

#[test]
fn test_confidential_denied_without_clearance() {
    let result = evaluate_abac(
        &uncleared_actor(),
        &confidential_pii_label(),
        AccessPurpose::Operations,
    );
    assert!(matches!(result, AccessDecision::Deny { .. }));
}

#[test]
fn test_confidential_allowed_with_clearance() {
    let result = evaluate_abac(
        &analyst(),
        &confidential_pii_label(),
        AccessPurpose::Operations,
    );
    assert_eq!(result, AccessDecision::Allow);
}

#[test]
fn test_pii_masked_for_analytics() {
    let mut label = confidential_pii_label();
    label.purpose_limitation = vec!["operations".into(), "analytics".into()];
    let result = evaluate_abac(&analyst(), &label, AccessPurpose::Analytics);
    assert!(matches!(result, AccessDecision::AllowWithMasking { .. }));
}

#[test]
fn test_purpose_limitation_denied() {
    let result = evaluate_abac(
        &analyst(),
        &confidential_pii_label(),
        AccessPurpose::Analytics,
    );
    assert!(matches!(result, AccessDecision::Deny { reason } if reason.contains("purpose")));
}

#[test]
fn test_jurisdiction_denied() {
    let mut actor = analyst();
    actor.jurisdictions = vec!["US".into()];
    let result = evaluate_abac(&actor, &confidential_pii_label(), AccessPurpose::Operations);
    assert!(
        matches!(result, AccessDecision::Deny { reason } if reason.contains("jurisdiction"))
    );
}

#[test]
fn test_insufficient_clearance() {
    let mut actor = analyst();
    actor.clearance = Some(Classification::Internal);
    let result = evaluate_abac(&actor, &confidential_pii_label(), AccessPurpose::Operations);
    assert!(matches!(result, AccessDecision::Deny { reason } if reason.contains("clearance")));
}

#[test]
fn test_access_decision_is_allowed() {
    assert!(AccessDecision::Allow.is_allowed());
    assert!(AccessDecision::AllowWithMasking {
        masked_fields: vec![]
    }
    .is_allowed());
    assert!(!AccessDecision::Deny {
        reason: "test".into()
    }
    .is_allowed());
}

#[test]
fn none_grade_no_escalation() {
    let mut label = confidential_pii_label();
    label.purpose_limitation = vec!["analytics".into()];
    let result = evaluate_abac_with_evidence_grade(
        &analyst(),
        &label,
        AccessPurpose::Analytics,
        EvidenceGrade::Ungraded,
    );
    assert!(matches!(result, AccessDecision::AllowWithMasking { .. }));
}

#[test]
fn prohibited_grade_no_escalation() {
    let result = evaluate_abac_with_evidence_grade(
        &analyst(),
        &confidential_pii_label(),
        AccessPurpose::Operations,
        EvidenceGrade::Prohibited,
    );
    assert_eq!(result, AccessDecision::Allow);
}

#[test]
fn allowed_with_constraints_blocks_analytics_for_analyst() {
    let mut label = confidential_pii_label();
    label.purpose_limitation = vec!["analytics".into()];
    let result = evaluate_abac_with_evidence_grade(
        &analyst(),
        &label,
        AccessPurpose::Analytics,
        EvidenceGrade::AllowedWithConstraints,
    );
    assert!(matches!(result, AccessDecision::Deny { .. }));
}

#[test]
fn allowed_with_constraints_permits_steward_analytics() {
    let mut label = confidential_pii_label();
    label.purpose_limitation = vec!["analytics".into()];
    let result = evaluate_abac_with_evidence_grade(
        &steward(),
        &label,
        AccessPurpose::Analytics,
        EvidenceGrade::AllowedWithConstraints,
    );
    assert!(matches!(result, AccessDecision::AllowWithMasking { .. }));
}

#[test]
fn regulatory_evidence_blocks_admin_for_analyst() {
    let mut label = confidential_pii_label();
    label.purpose_limitation = vec!["administration".into()];
    let result = evaluate_abac_with_evidence_grade(
        &analyst(),
        &label,
        AccessPurpose::Administration,
        EvidenceGrade::RegulatoryEvidence,
    );
    assert!(matches!(result, AccessDecision::Deny { .. }));
}

#[test]
fn regulatory_evidence_permits_steward_admin() {
    let mut label = confidential_pii_label();
    label.purpose_limitation = vec!["administration".into()];
    let result = evaluate_abac_with_evidence_grade(
        &steward(),
        &label,
        AccessPurpose::Administration,
        EvidenceGrade::RegulatoryEvidence,
    );
    assert_eq!(result, AccessDecision::Allow);
}

#[test]
fn masked_fields_name_the_label_for_pii_analytics() {
    let mut label = confidential_pii_label();
    label.purpose_limitation = vec!["analytics".into()];
    match evaluate_abac(&analyst(), &label, AccessPurpose::Analytics) {
        AccessDecision::AllowWithMasking { masked_fields } => assert!(!masked_fields.is_empty()),
        other => panic!("expected masking, got {other:?}"),
    }
}

#[test]
fn restricted_needs_restricted_clearance() {
    let mut label = public_label();
    label.classification = Classification::Restricted;
    assert!(!evaluate_abac(&analyst(), &label, AccessPurpose::Operations).is_allowed());
    assert!(evaluate_abac(&steward(), &label, AccessPurpose::Operations).is_allowed());
}
