use sem_os_policy::abac::{AccessDecision, AccessPurpose, ActorContext, Classification, SecurityLabel};
use sem_os_policy::context_resolution::scoring::{
    compute_attribute_prominence, compute_verb_prominence, compute_view_overlap,
    filter_and_rank_attributes, filter_and_rank_verbs, rank_views_by_overlap, tier_allowed,
    RankedView, VerbCandidate, VerbFilterContext,
};
use sem_os_policy::context_resolution::subject::{
    build_subject_memberships, evaluate_condition, evaluate_conditional_memberships, SubjectRef,
    SubjectRelationships,
};
use sem_os_policy::context_resolution::verdicts::{
    compute_composite_access, confidence_inputs, evaluate_policies, evaluate_verb_preconditions,
    generate_disambiguation, generate_governance_signals, PolicyVerdict,
};
use sem_os_policy::context_resolution::{
    EvidenceMode, GovernanceSignalKind, GovernanceSignalSeverity, ResolvedSubject,
    SubjectMemberships, TaxonomyMembership,
};
use sem_os_policy::gates::{
    ChangeType, DefinitionFacts, FieldShape, GovernanceTier, LabelParse, SnapshotRow, TrustClass,
};
use sem_os_policy::ontology::{
    Directionality, MembershipCondition, MembershipKind, MembershipRuleBody, PolicyAction,
    PolicyPredicate, PolicyRuleBody, RelationshipCardinality, RelationshipTypeDefBody, ViewColumn,
    ViewDefBody, ViewFilter,
};

fn new_id() -> u128 {
    uuid::Uuid::new_v4().as_u128()
}

fn test_actor() -> ActorContext {
    ActorContext {
        actor_id: "agent-1".into(),
        roles: vec!["analyst".into()],
        department: Some("compliance".into()),
        clearance: Some(Classification::Confidential),
        jurisdictions: vec!["LU".into(), "DE".into()],
    }
}

fn view_with_operational(includes: bool) -> ViewDefBody {
    ViewDefBody {
        fqn: "test.view".into(),
        name: "Test View".into(),
        description: "Test".into(),
        domain: "test".into(),
        base_entity_type: "test".into(),
        columns: vec![],
        filters: vec![],
        sort_order: vec![],
        includes_operational: includes,
    }
}

fn verb(fqn: &str, decision: AccessDecision) -> VerbCandidate {
    VerbCandidate {
        verb_snapshot_id: new_id(),
        verb_id: new_id(),
        fqn: fqn.into(),
        description: "Test".into(),
        governance_tier: GovernanceTier::Governed,
        trust_class: TrustClass::Proof,
        rank_score: 80,
        preconditions_met: true,
        access_decision: decision,
        usable_for_proof: true,
    }
}

fn definition(fqn: &str) -> DefinitionFacts {
    DefinitionFacts {
        fqn: Some(fqn.into()),
        regulatory_references: FieldShape::Absent,
        regulation_ids: FieldShape::Absent,
        behavior: None,
        expansion_verbs: vec![],
        name: None,
        description: None,
        subject_kinds: vec![],
        policy_rule: None,
        attribute_evidence_grade: None,
    }
}

fn label(classification: Classification) -> LabelParse {
    LabelParse::Valid(SecurityLabel {
        classification,
        pii: false,
        jurisdictions: vec![],
        purpose_limitation: vec![],
        handling_controls: vec![],
    })
}

fn row(definition: DefinitionFacts, tier: GovernanceTier, trust: TrustClass, label: LabelParse) -> SnapshotRow {
    SnapshotRow {
        snapshot_id: new_id(),
        object_type: "verb_contract".into(),
        object_id: new_id(),
        version_major: 1,
        version_minor: 0,
        governance_tier: tier,
        trust_class: trust,
        security_label: label,
        effective_until: None,
        predecessor_id: None,
        change_type: ChangeType::Created,
        change_rationale: None,
        created_by: "test".into(),
        approved_by: None,
        definition,
    }
}

fn relationship(fqn: &str, name: &str, description: &str, domain: &str, source: &str, target: &str, edge_class: Option<&str>, directionality: Option<Directionality>) -> RelationshipTypeDefBody {
    RelationshipTypeDefBody {
        fqn: fqn.into(),
        name: name.into(),
        domain: domain.into(),
        source_entity_type_fqn: source.into(),
        target_entity_type_fqn: target.into(),
        cardinality: RelationshipCardinality::OneToMany,
        edge_class: edge_class.map(|s| s.to_string()),
        directionality,
        description: description.into(),
        inverse_fqn: None,
    }
}

fn condition(kind: &str, field: &str, value: serde_json::Value) -> MembershipCondition {
    MembershipCondition {
        kind: kind.into(),
        field: field.into(),
        operator: "eq".into(),
        value,
    }
}

fn rule(fqn: &str, name: &str, taxonomy: &str, node: &str, target: &str, conditions: Vec<MembershipCondition>) -> MembershipRuleBody {
    MembershipRuleBody {
        fqn: fqn.into(),
        name: name.into(),
        description: None,
        taxonomy_fqn: taxonomy.into(),
        node_fqn: node.into(),
        membership_kind: MembershipKind::Conditional,
        target_type: "entity_type_def".into(),
        target_fqn: target.into(),
        conditions,
    }
}

#[test]
fn test_subject_ref_id() {
    let id = new_id();
    assert_eq!(SubjectRef::CaseId(id).id(), id);
    assert_eq!(SubjectRef::EntityId(id).id(), id);
    assert_eq!(SubjectRef::DocumentId(id).id(), id);
    assert_eq!(SubjectRef::TaskId(id).id(), id);
    assert_eq!(SubjectRef::ViewId(id).id(), id);
}

#[test]
fn test_tier_allowed_strict() {
    assert!(tier_allowed(GovernanceTier::Governed, TrustClass::Proof, EvidenceMode::Strict, None));
    assert!(tier_allowed(GovernanceTier::Governed, TrustClass::DecisionSupport, EvidenceMode::Strict, None));
    assert!(!tier_allowed(GovernanceTier::Governed, TrustClass::Convenience, EvidenceMode::Strict, None));
    assert!(!tier_allowed(GovernanceTier::Operational, TrustClass::DecisionSupport, EvidenceMode::Strict, None));
}

#[test]
fn test_tier_allowed_normal_governed_always_allowed() {
    assert!(tier_allowed(GovernanceTier::Governed, TrustClass::Proof, EvidenceMode::Normal, None));
    assert!(tier_allowed(GovernanceTier::Governed, TrustClass::Convenience, EvidenceMode::Normal, None));
}

#[test]
fn test_tier_allowed_normal_operational_filtered_by_view() {
    assert!(!tier_allowed(GovernanceTier::Operational, TrustClass::Convenience, EvidenceMode::Normal, None));
    let view_no_op = view_with_operational(false);
    assert!(!tier_allowed(
        GovernanceTier::Operational,
        TrustClass::Convenience,
        EvidenceMode::Normal,
        Some(&view_no_op),
    ));
    let view_with_op = view_with_operational(true);
    assert!(tier_allowed(
        GovernanceTier::Operational,
        TrustClass::Convenience,
        EvidenceMode::Normal,
        Some(&view_with_op),
    ));
}

#[test]
fn test_tier_allowed_exploratory() {
    assert!(tier_allowed(GovernanceTier::Operational, TrustClass::Convenience, EvidenceMode::Exploratory, None));
}

#[test]
fn test_composite_access_deny_on_policy_block() {
    let verbs = vec![verb("test.create", AccessDecision::Allow)];
    let verdicts = vec![PolicyVerdict {
        policy_snapshot_id: new_id(),
        policy_fqn: "test.block".into(),
        policy_name: "Block".into(),
        allowed: false,
        reason: "Blocked".into(),
        required_actions: vec![],
        regulatory_reference: None,
    }];
    let access = compute_composite_access(&verbs, &verdicts);
    assert!(matches!(access, AccessDecision::Deny { .. }));
}

#[test]
fn composite_access_masks_denied_verbs_then_masked_fields() {
    let verbs = vec![
        verb("a.read", AccessDecision::AllowWithMasking { masked_fields: vec!["ssn".into()] }),
        verb("b.read", AccessDecision::Deny { reason: "no".into() }),
    ];
    assert_eq!(
        compute_composite_access(&verbs, &vec![]),
        AccessDecision::AllowWithMasking { masked_fields: vec!["b.read".into()] }
    );
    let masked = vec![
        verb("a.read", AccessDecision::AllowWithMasking { masked_fields: vec!["ssn".into()] }),
        verb("c.read", AccessDecision::AllowWithMasking { masked_fields: vec!["dob".into(), "name".into()] }),
    ];
    assert_eq!(
        compute_composite_access(&masked, &vec![]),
        AccessDecision::AllowWithMasking {
            masked_fields: vec!["ssn".into(), "dob".into(), "name".into()]
        }
    );
    assert_eq!(
        compute_composite_access(&vec![verb("a.read", AccessDecision::Allow)], &vec![]),
        AccessDecision::Allow
    );
}

fn ranked(fqn: &str, name: &str, score: u32, body: ViewDefBody) -> RankedView {
    RankedView {
        view_snapshot_id: new_id(),
        view_id: new_id(),
        fqn: fqn.into(),
        name: name.into(),
        overlap_score: score,
        body,
    }
}

#[test]
fn test_disambiguation_generated_for_close_views() {
    let view_body = view_with_operational(false);
    let views = vec![
        ranked("test.view1", "View 1", 80, view_body.clone()),
        ranked("test.view2", "View 2", 75, view_body),
    ];
    let prompts = generate_disambiguation(&views, &vec![]);
    assert_eq!(prompts.len(), 1);
    assert_eq!(prompts[0].options.len(), 2);
    assert_eq!(prompts[0].options[0].description.as_deref(), Some("View over test (overlap: 80%)"));
    assert_eq!(prompts[0].options[1].narrows_to_view, Some(views[1].view_id));
}

#[test]
fn disambiguation_skipped_when_views_are_far_apart() {
    let views = vec![
        ranked("test.view1", "View 1", 80, view_with_operational(false)),
        ranked("test.view2", "View 2", 60, view_with_operational(false)),
    ];
    assert!(generate_disambiguation(&views, &vec![]).is_empty());
}

fn kyc_view(fqn: &str, name: &str, description: &str, base: &str) -> ViewDefBody {
    ViewDefBody {
        fqn: fqn.into(),
        name: name.into(),
        description: description.into(),
        domain: "kyc".into(),
        base_entity_type: base.into(),
        columns: vec![],
        filters: vec![],
        sort_order: vec![],
        includes_operational: false,
    }
}

#[test]
fn test_view_overlap_exact_entity_type_match() {
    let view = kyc_view("kyc.ubo-view", "UBO View", "UBO discovery view", "entity.proper-person");
    let subject = ResolvedSubject {
        entity_type_fqn: Some("entity.proper-person".into()),
        jurisdiction: None,
        state: None,
    };
    let no_memberships = SubjectMemberships::default();
    let score = compute_view_overlap(&view, &subject, &no_memberships);
    assert!(score >= 80);
}

#[test]
fn test_view_overlap_domain_match() {
    let view = kyc_view("kyc.case-view", "Case View", "KYC case view", "kyc.case");
    let subject = ResolvedSubject {
        entity_type_fqn: Some("kyc.enhanced-case".into()),
        jurisdiction: None,
        state: None,
    };
    let no_memberships = SubjectMemberships::default();
    let score = compute_view_overlap(&view, &subject, &no_memberships);
    assert!(score >= 40);
    assert!(score < 80);
}

#[test]
fn test_view_overlap_with_taxonomy_memberships() {
    let view = kyc_view("kyc.ubo-view", "UBO View", "UBO discovery view", "entity.proper-person");
    let subject = ResolvedSubject {
        entity_type_fqn: Some("entity.proper-person".into()),
        jurisdiction: None,
        state: None,
    };
    let memberships = SubjectMemberships {
        subject_taxonomy_fqns: vec!["domain.kyc".into()],
        all_memberships: vec![TaxonomyMembership {
            taxonomy_fqn: "domain.kyc".into(),
            node_fqn: "domain.kyc.ubo".into(),
            target_type: "view_def".into(),
            target_fqn: "kyc.ubo-view".into(),
            membership_kind: "direct".into(),
        }],
    };
    let score_with = compute_view_overlap(&view, &subject, &memberships);
    let no_memberships = SubjectMemberships::default();
    let score_without = compute_view_overlap(&view, &subject, &no_memberships);
    assert!(score_with > score_without);
}

#[test]
fn view_overlap_adds_jurisdiction_and_columns_and_caps_at_one() {
    let mut view = kyc_view("kyc.ubo-view", "UBO View", "UBO discovery view", "entity.proper-person");
    view.filters = vec![ViewFilter { attribute_fqn: "entity.jurisdiction".into() }];
    view.columns = (0..3)
        .map(|i| ViewColumn { attribute_fqn: format!("entity.c{}", i), visible: true })
        .collect();
    let subject = ResolvedSubject {
        entity_type_fqn: Some("entity.proper-person".into()),
        jurisdiction: Some("LU".into()),
        state: None,
    };
    // 80 for the entity type, 10 for the jurisdiction filter, 3 for columns.
    assert_eq!(compute_view_overlap(&view, &subject, &SubjectMemberships::default()), 93);
    view.columns = (0..20)
        .map(|i| ViewColumn { attribute_fqn: format!("entity.c{}", i), visible: true })
        .collect();
    let memberships = SubjectMemberships {
        subject_taxonomy_fqns: vec!["domain.kyc".into(), "risk.high".into()],
        all_memberships: vec![
            TaxonomyMembership {
                taxonomy_fqn: "domain.kyc".into(),
                node_fqn: "n".into(),
                target_type: "view_def".into(),
                target_fqn: "kyc.ubo-view".into(),
                membership_kind: "direct".into(),
            },
            TaxonomyMembership {
                taxonomy_fqn: "risk.high".into(),
                node_fqn: "n".into(),
                target_type: "view_def".into(),
                target_fqn: "kyc.ubo-view".into(),
                membership_kind: "direct".into(),
            },
        ],
    };
    assert_eq!(compute_view_overlap(&view, &subject, &memberships), 100);
}

#[test]
fn rank_views_drops_views_without_overlap() {
    let subject = ResolvedSubject {
        entity_type_fqn: Some("entity.proper-person".into()),
        jurisdiction: None,
        state: None,
    };
    let matching = kyc_view("kyc.ubo-view", "UBO View", "UBO", "entity.proper-person");
    let unrelated = ViewDefBody {
        domain: "trading".into(),
        ..kyc_view("trading.view", "Trading", "Trading", "trading.profile")
    };
    let views = vec![
        (row(definition("kyc.ubo-view"), GovernanceTier::Governed, TrustClass::Proof, label(Classification::Public)), matching),
        (row(definition("trading.view"), GovernanceTier::Governed, TrustClass::Proof, label(Classification::Public)), unrelated),
    ];
    let ranked = rank_views_by_overlap(&views, &subject, &SubjectMemberships::default());
    assert_eq!(ranked.len(), 1);
    assert_eq!(ranked[0].fqn, "kyc.ubo-view");
    assert_eq!(ranked[0].overlap_score, 80);
    assert_eq!(ranked[0].view_id, views[0].0.object_id);
}

#[test]
fn verb_and_attribute_prominence_follow_the_top_view() {
    let mut view = kyc_view("kyc.v", "V", "V", "kyc.case");
    view.columns = vec![
        ViewColumn { attribute_fqn: "kyc.a".into(), visible: true },
        ViewColumn { attribute_fqn: "kyc.b".into(), visible: false },
    ];
    view.filters = vec![ViewFilter { attribute_fqn: "kyc.f".into() }];
    assert_eq!(compute_verb_prominence("kyc.open", None), 50);
    assert_eq!(compute_verb_prominence("kyc.open", Some(&view)), 80);
    assert_eq!(compute_verb_prominence("trading.open", Some(&view)), 30);
    assert_eq!(compute_attribute_prominence("kyc.a", None), (50, false));
    assert_eq!(compute_attribute_prominence("kyc.a", Some(&view)), (100, true));
    assert_eq!(compute_attribute_prominence("kyc.b", Some(&view)), (95, false));
    assert_eq!(compute_attribute_prominence("kyc.f", Some(&view)), (60, true));
    assert_eq!(compute_attribute_prominence("kyc.z", Some(&view)), (40, false));
    assert_eq!(compute_attribute_prominence("other.z", Some(&view)), (20, false));
}

#[test]
fn filter_and_rank_verbs_prunes_filters_and_ranks() {
    let actor = test_actor();
    let memberships = SubjectMemberships::default();
    let relationships = SubjectRelationships {
        outgoing: vec![relationship("rel.own", "Own", "Own", "kyc", "a", "b", Some("kyc"), None)],
        incoming: vec![],
    };
    let mut fund_only = definition("kyc.fund-open");
    fund_only.subject_kinds = vec!["investment-fund".into()];
    let mut person = definition("kyc.person-open");
    person.subject_kinds = vec!["Individual".into()];
    let rows = vec![
        row(fund_only, GovernanceTier::Governed, TrustClass::Proof, label(Classification::Public)),
        row(person, GovernanceTier::Governed, TrustClass::Proof, label(Classification::Public)),
        row(definition("kyc.secret"), GovernanceTier::Governed, TrustClass::Proof, label(Classification::Restricted)),
        row(definition("kyc.ops"), GovernanceTier::Operational, TrustClass::Convenience, label(Classification::Public)),
        row(definition("kyc.plain"), GovernanceTier::Governed, TrustClass::Convenience, LabelParse::Invalid { error: "bad".into() }),
    ];
    let ctx = VerbFilterContext {
        actor: &actor,
        mode: EvidenceMode::Normal,
        top_view: None,
        entity_kind: Some("natural_person"),
        entity_confidence: None,
        memberships: &memberships,
        relationships: &relationships,
    };
    let (kept, pruned) = filter_and_rank_verbs(&rows, ctx);
    assert_eq!(pruned.len(), 1);
    assert_eq!(pruned[0].fqn, "kyc.fund-open");
    assert_eq!(pruned[0].verb_kinds, vec!["fund".to_string()]);
    assert_eq!(pruned[0].subject_kind, "person");
    let names: Vec<&str> = kept.iter().map(|c| c.fqn.as_str()).collect();
    assert_eq!(names, vec!["kyc.person-open", "kyc.plain"]);
    // 50 without a view, 15 for the entity kind, 8 + 7 for the relationship.
    assert_eq!(kept[0].rank_score, 80);
    assert!(kept[0].usable_for_proof);
    assert_eq!(kept[1].rank_score, 65);
    assert!(!kept[1].usable_for_proof);
    assert_eq!(kept[1].access_decision, AccessDecision::Allow);
}

#[test]
fn filter_and_rank_verbs_widens_when_kind_confidence_is_low() {
    let actor = test_actor();
    let memberships = SubjectMemberships::default();
    let relationships = SubjectRelationships::default();
    let mut fund_only = definition("kyc.fund-open");
    fund_only.subject_kinds = vec!["fund".into()];
    let rows = vec![row(fund_only, GovernanceTier::Governed, TrustClass::Proof, label(Classification::Public))];
    let ctx = VerbFilterContext {
        actor: &actor,
        mode: EvidenceMode::Exploratory,
        top_view: None,
        entity_kind: Some("person"),
        entity_confidence: Some(40),
        memberships: &memberships,
        relationships: &relationships,
    };
    let (kept, pruned) = filter_and_rank_verbs(&rows, ctx);
    assert!(pruned.is_empty());
    assert_eq!(kept.len(), 1);
    assert_eq!(kept[0].rank_score, 50);
}

#[test]
fn filter_and_rank_attributes_uses_view_columns_and_taxonomy() {
    let actor = test_actor();
    let mut view = kyc_view("kyc.v", "V", "V", "kyc.case");
    view.columns = vec![ViewColumn { attribute_fqn: "kyc.name".into(), visible: true }];
    let memberships = SubjectMemberships {
        subject_taxonomy_fqns: vec!["domain.kyc".into()],
        all_memberships: vec![
            TaxonomyMembership {
                taxonomy_fqn: "domain.kyc".into(),
                node_fqn: "n".into(),
                target_type: "attribute_def".into(),
                target_fqn: "kyc.name".into(),
                membership_kind: "direct".into(),
            },
            TaxonomyMembership {
                taxonomy_fqn: "domain.trading".into(),
                node_fqn: "n".into(),
                target_type: "attribute_def".into(),
                target_fqn: "kyc.desk".into(),
                membership_kind: "direct".into(),
            },
        ],
    };
    let mut name = definition("kyc.name");
    name.name = Some("Name".into());
    let rows = vec![
        row(name, GovernanceTier::Governed, TrustClass::Proof, label(Classification::Public)),
        row(definition("kyc.desk"), GovernanceTier::Governed, TrustClass::Proof, label(Classification::Public)),
    ];
    let attrs = filter_and_rank_attributes(&rows, &actor, EvidenceMode::Normal, Some(&view), &memberships);
    assert_eq!(attrs.len(), 1);
    assert_eq!(attrs[0].fqn, "kyc.name");
    assert_eq!(attrs[0].name, "Name");
    assert_eq!(attrs[0].rank_score, 105);
    assert!(attrs[0].required);
    assert!(!attrs[0].present);
}

#[test]
fn preconditions_cover_the_first_ten_verbs() {
    let verbs: Vec<VerbCandidate> = (0..12).map(|i| verb(&format!("v.{}", i), AccessDecision::Allow)).collect();
    let statuses = evaluate_verb_preconditions(&verbs);
    assert_eq!(statuses.len(), 10);
    assert_eq!(statuses[3].verb_fqn, "v.3");
    assert!(statuses[3].all_satisfied);
    assert!(statuses[3].checks.is_empty());
}

#[test]
fn policies_apply_by_tier_and_block_or_require() {
    let verbs = vec![verb("kyc.open", AccessDecision::Allow)];
    let mut blocking = definition("policy.block");
    blocking.policy_rule = Some(PolicyRuleBody {
        fqn: "policy.block".into(),
        name: "Block governed".into(),
        enabled: true,
        predicates: vec![PolicyPredicate {
            kind: "governance_tier".into(),
            operator: "eq".into(),
            value: Some("governed".into()),
        }],
        actions: vec![
            PolicyAction { kind: "restrict_access".into(), description: None },
            PolicyAction { kind: "require_approval".into(), description: Some("Ask a steward".into()) },
            PolicyAction { kind: "require_evidence".into(), description: None },
        ],
    });
    let mut unmatched = definition("policy.trust");
    unmatched.policy_rule = Some(PolicyRuleBody {
        fqn: "policy.trust".into(),
        name: "Convenience only".into(),
        enabled: true,
        predicates: vec![PolicyPredicate {
            kind: "trust_class".into(),
            operator: "eq".into(),
            value: Some("convenience".into()),
        }],
        actions: vec![],
    });
    let mut disabled = definition("policy.off");
    disabled.policy_rule = Some(PolicyRuleBody {
        fqn: "policy.off".into(),
        name: "Off".into(),
        enabled: false,
        predicates: vec![],
        actions: vec![],
    });
    let mut everywhere = definition("policy.all");
    everywhere.policy_rule = Some(PolicyRuleBody {
        fqn: "policy.all".into(),
        name: "All".into(),
        enabled: true,
        predicates: vec![],
        actions: vec![],
    });
    let rows = vec![
        row(blocking, GovernanceTier::Governed, TrustClass::Proof, label(Classification::Public)),
        row(unmatched, GovernanceTier::Governed, TrustClass::Proof, label(Classification::Public)),
        row(disabled, GovernanceTier::Governed, TrustClass::Proof, label(Classification::Public)),
        row(definition("not.a.policy"), GovernanceTier::Governed, TrustClass::Proof, label(Classification::Public)),
        row(everywhere, GovernanceTier::Governed, TrustClass::Proof, label(Classification::Public)),
    ];
    let verdicts = evaluate_policies(&rows, &verbs, &test_actor());
    assert_eq!(verdicts.len(), 2);
    assert_eq!(verdicts[0].policy_fqn, "policy.block");
    assert!(!verdicts[0].allowed);
    assert_eq!(verdicts[0].reason, "Policy restricts action");
    assert_eq!(verdicts[0].required_actions, vec!["Ask a steward".to_string(), "require_evidence".to_string()]);
    assert_eq!(verdicts[1].policy_fqn, "policy.all");
    assert!(verdicts[1].allowed);
    assert_eq!(verdicts[1].reason, "Policy permits action");
}

#[test]
fn governance_signals_only_in_governance_and_exploratory_modes() {
    let mut ops = verb("ops.run", AccessDecision::Allow);
    ops.governance_tier = GovernanceTier::Operational;
    ops.usable_for_proof = false;
    ops.preconditions_met = false;
    let actor = test_actor();
    let memberships = SubjectMemberships::default();
    let mut name = definition("kyc.name");
    name.name = Some("Name".into());
    let mut view = kyc_view("kyc.v", "V", "V", "kyc.case");
    view.filters = vec![ViewFilter { attribute_fqn: "kyc.name".into() }];
    let attrs = filter_and_rank_attributes(
        &vec![row(name, GovernanceTier::Governed, TrustClass::Proof, label(Classification::Public))],
        &actor,
        EvidenceMode::Governance,
        Some(&view),
        &memberships,
    );
    assert!(generate_governance_signals(&vec![ops.clone()], &attrs, EvidenceMode::Normal).is_empty());
    let signals = generate_governance_signals(&vec![ops], &attrs, EvidenceMode::Governance);
    assert_eq!(signals.len(), 3);
    assert_eq!(signals[0].message, "Required attribute 'kyc.name' is not populated");
    assert_eq!(signals[0].severity, GovernanceSignalSeverity::Warning);
    assert_eq!(signals[1].message, "Verb 'ops.run' has unsatisfied preconditions");
    assert_eq!(signals[2].message, "Verb 'ops.run' is operational-tier — outputs not usable for proof");
    assert!(signals.iter().all(|s| s.kind == GovernanceSignalKind::CoverageGap));
}

#[test]
fn confidence_inputs_count_what_the_score_weighs() {
    let views = vec![ranked("test.view", "Test View", 80, view_with_operational(false))];
    let verbs = vec![
        verb("test.create", AccessDecision::Allow),
        verb("test.drop", AccessDecision::Deny { reason: "no".into() }),
    ];
    let preconditions = evaluate_verb_preconditions(&verbs);
    let inputs = confidence_inputs(&views, &verbs, &preconditions, &vec![]);
    assert_eq!(inputs.view_score, 80);
    assert_eq!((inputs.preconditions_satisfied, inputs.preconditions_total), (2, 2));
    assert_eq!((inputs.required_present, inputs.required_total), (0, 0));
    assert_eq!((inputs.verbs_permitted, inputs.verbs_total), (1, 2));
    let empty = confidence_inputs(&vec![], &vec![], &vec![], &vec![]);
    assert_eq!(empty.view_score, 0);
}

#[test]
fn test_subject_relationships_edge_classes() {
    let rels = SubjectRelationships {
        outgoing: vec![relationship(
            "relationship.ownership",
            "Ownership",
            "Ownership",
            "ownership",
            "entity.fund",
            "entity.legal_entity",
            Some("ownership"),
            Some(Directionality::Forward),
        )],
        incoming: vec![relationship(
            "relationship.custody_of",
            "Custody Of",
            "Custody",
            "custody",
            "entity.custodian",
            "entity.fund",
            Some("service"),
            None,
        )],
    };
    let classes = rels.edge_classes();
    assert!(classes.iter().any(|c| c == "ownership"));
    assert!(classes.iter().any(|c| c == "service"));
    assert_eq!(classes.len(), 2);
}

#[test]
fn test_subject_relationships_domains() {
    let rels = SubjectRelationships {
        outgoing: vec![relationship(
            "relationship.ownership",
            "Ownership",
            "Ownership",
            "ownership",
            "entity.fund",
            "entity.legal_entity",
            None,
            None,
        )],
        incoming: vec![],
    };
    let domains = rels.relationship_domains();
    assert!(domains.iter().any(|d| d == "ownership"));
    assert!(rels.has_relationships());
}

#[test]
fn test_subject_relationships_empty() {
    let rels = SubjectRelationships::default();
    assert!(!rels.has_relationships());
    assert!(rels.edge_classes().is_empty());
    assert!(rels.relationship_domains().is_empty());
}

#[test]
fn test_evaluate_condition_attribute_equals_excluded() {
    let cond = condition("attribute_equals", "pep_status", serde_json::Value::String("active".into()));
    assert!(!evaluate_condition(&cond));
}

#[test]
fn test_evaluate_condition_always_true() {
    let cond = condition("always_true", "", serde_json::Value::Bool(true));
    assert!(evaluate_condition(&cond));
}

#[test]
fn test_evaluate_condition_always_false() {
    let cond = condition("always_false", "", serde_json::Value::Bool(false));
    assert!(!evaluate_condition(&cond));
}

#[test]
fn test_evaluate_condition_unknown_kind_excluded() {
    let cond = condition("custom_check", "something", serde_json::Value::String("value".into()));
    assert!(!evaluate_condition(&cond));
}

#[test]
fn test_evaluate_conditional_memberships_empty_conditions_pass() {
    let rules = vec![rule("rule.test", "Test", "taxonomy.risk-tier", "taxonomy.risk-tier.high", "entity.person", vec![])];
    let excluded = evaluate_conditional_memberships(&rules);
    assert!(excluded.is_empty());
}

#[test]
fn test_evaluate_conditional_memberships_with_attribute_condition_excluded() {
    let rules = vec![rule(
        "rule.pep-check",
        "PEP Check",
        "taxonomy.risk-tier",
        "taxonomy.risk-tier.high",
        "entity.person",
        vec![condition("attribute_equals", "pep_status", serde_json::Value::String("active".into()))],
    )];
    let excluded = evaluate_conditional_memberships(&rules);
    assert_eq!(excluded.len(), 1);
    assert!(excluded.iter().any(|k| k == "taxonomy.risk-tier::entity.person"));
}

#[test]
fn test_evaluate_conditional_memberships_mixed_rules() {
    let rules = vec![
        rule(
            "rule.always",
            "Always",
            "taxonomy.subject-category",
            "taxonomy.subject-category.fund",
            "entity.fund",
            vec![condition("always_true", "", serde_json::Value::Bool(true))],
        ),
        rule(
            "rule.pep",
            "PEP",
            "taxonomy.risk-tier",
            "taxonomy.risk-tier.high",
            "entity.person",
            vec![condition("attribute_equals", "pep_status", serde_json::Value::String("active".into()))],
        ),
    ];
    let excluded = evaluate_conditional_memberships(&rules);
    assert_eq!(excluded.len(), 1);
    assert!(excluded.iter().any(|k| k == "taxonomy.risk-tier::entity.person"));
    assert!(!excluded.iter().any(|k| k == "taxonomy.subject-category::entity.fund"));
}

#[test]
fn test_build_subject_memberships_filters_conditionals() {
    let memberships = vec![
        TaxonomyMembership {
            taxonomy_fqn: "domain.kyc".into(),
            node_fqn: "domain.kyc.ubo".into(),
            target_type: "entity_type_def".into(),
            target_fqn: "entity.person".into(),
            membership_kind: "direct".into(),
        },
        TaxonomyMembership {
            taxonomy_fqn: "risk.high".into(),
            node_fqn: "risk.high.pep".into(),
            target_type: "entity_type_def".into(),
            target_fqn: "entity.person".into(),
            membership_kind: "conditional".into(),
        },
    ];
    let conditional_rules = vec![rule(
        "rule.pep",
        "PEP",
        "risk.high",
        "risk.high.pep",
        "entity.person",
        vec![condition("attribute_equals", "pep_status", serde_json::Value::String("active".into()))],
    )];
    let result = build_subject_memberships(memberships, Some("entity.person"), &conditional_rules);
    assert!(result.subject_taxonomy_fqns.iter().any(|t| t == "domain.kyc"));
    assert!(!result.subject_taxonomy_fqns.iter().any(|t| t == "risk.high"));
    assert_eq!(result.all_memberships.len(), 2);
}

#[test]
fn build_subject_memberships_without_entity_type_is_empty() {
    let memberships = vec![TaxonomyMembership {
        taxonomy_fqn: "domain.kyc".into(),
        node_fqn: "domain.kyc.ubo".into(),
        target_type: "entity_type_def".into(),
        target_fqn: "entity.person".into(),
        membership_kind: "direct".into(),
    }];
    let result = build_subject_memberships(memberships, None, &vec![]);
    assert!(result.subject_taxonomy_fqns.is_empty());
    assert!(!result.has_memberships());
}

#[test]
fn default_label_decides_unlabelled_verbs() {
    let public_actor = ActorContext {
        actor_id: "a".into(),
        roles: vec![],
        department: None,
        clearance: None,
        jurisdictions: vec![],
    };
    let memberships = SubjectMemberships::default();
    let relationships = SubjectRelationships::default();
    let rows = vec![row(
        definition("kyc.plain"),
        GovernanceTier::Governed,
        TrustClass::Proof,
        LabelParse::Invalid { error: "bad".into() },
    )];
    let ctx = VerbFilterContext {
        actor: &public_actor,
        mode: EvidenceMode::Normal,
        top_view: None,
        entity_kind: None,
        entity_confidence: None,
        memberships: &memberships,
        relationships: &relationships,
    };
    let (kept, _) = filter_and_rank_verbs(&rows, ctx);
    let expected = sem_os_policy::abac::evaluate_abac(&public_actor, &SecurityLabel::default(), AccessPurpose::Operations);
    assert_eq!(kept.is_empty(), !expected.is_allowed());
}
