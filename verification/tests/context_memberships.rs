use sem_os_policy::context_resolution::{
    canonicalize_entity_kind, EvidenceMode, SubjectMemberships, TaxonomyMembership,
};

fn membership(taxonomy: &str, node: &str, target: &str, kind: &str) -> TaxonomyMembership {
    TaxonomyMembership {
        taxonomy_fqn: taxonomy.into(),
        node_fqn: node.into(),
        target_type: "verb_contract".into(),
        target_fqn: target.into(),
        membership_kind: kind.into(),
    }
}

#[test]
fn test_evidence_mode_default() {
    assert_eq!(EvidenceMode::default(), EvidenceMode::Normal);
}

#[test]
fn test_subject_memberships_overlap_count() {
    let memberships = SubjectMemberships {
        subject_taxonomy_fqns: vec!["domain.kyc".into(), "risk.high".into()],
        all_memberships: vec![
            membership("domain.kyc", "domain.kyc.ubo", "kyc-case.create", "direct"),
            membership("risk.high", "risk.high.pep", "kyc-case.create", "direct"),
            membership(
                "domain.trading",
                "domain.trading.equities",
                "trading.create-profile",
                "direct",
            ),
        ],
    };

    assert_eq!(memberships.taxonomy_overlap_count("kyc-case.create"), 2);
    assert_eq!(
        memberships.taxonomy_overlap_count("trading.create-profile"),
        0
    );
    assert_eq!(memberships.taxonomy_overlap_count("unknown.verb"), 0);
}

#[test]
fn test_subject_memberships_excluded_filtered() {
    let memberships = SubjectMemberships {
        subject_taxonomy_fqns: vec!["domain.kyc".into()],
        all_memberships: vec![membership(
            "domain.kyc",
            "domain.kyc.sanctions",
            "kyc.screen",
            "excluded",
        )],
    };

    let target_taxonomies = memberships.taxonomy_fqns_for_target("kyc.screen");
    assert!(target_taxonomies.is_empty());
    assert_eq!(memberships.taxonomy_overlap_count("kyc.screen"), 0);
}

#[test]
fn test_graceful_degradation_no_memberships() {
    let memberships = SubjectMemberships::default();
    assert!(!memberships.has_memberships());
    assert_eq!(memberships.taxonomy_overlap_count("any.verb"), 0);
}

#[test]
fn taxonomy_fqns_for_target_sorted_once_each() {
    let memberships = SubjectMemberships {
        subject_taxonomy_fqns: vec![],
        all_memberships: vec![
            membership("risk.high", "risk.high.pep", "v", "direct"),
            membership("domain.kyc", "domain.kyc.ubo", "v", "direct"),
            membership("risk.high", "risk.high.other", "v", "inherited"),
            membership("domain.other", "domain.other.x", "w", "direct"),
        ],
    };
    assert_eq!(
        memberships.taxonomy_fqns_for_target("v"),
        vec!["domain.kyc".to_string(), "risk.high".to_string()]
    );
}

#[test]
fn entity_kind_canonicalization() {
    assert_eq!(canonicalize_entity_kind("  Company "), canonicalize_entity_kind("company"));
    assert_eq!(canonicalize_entity_kind("CBU"), "cbu");
}
