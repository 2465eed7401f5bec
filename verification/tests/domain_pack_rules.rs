use sem_os_policy::acp_projection::AcpProjectionKind;
use sem_os_policy::domain_pack::{
    authorize_discovery_probe, probe_domain_pack_sources, refresh_decision, AcpPersonaDeclaration,
    ClassificationLimit, ContextClassificationPolicy, DeclaredMode, DiscoveryAuthorizationError,
    DiscoveryProbe, DiscoveryRequest, DiscoverySubject, DomainPackManifest,
    DomainPackRefreshAction, DomainPackReloadStatus, DomainPackSourceFingerprint,
    DomainTransition, MentionNamespace, PackCompatibilityTier, PackImplementationMode,
    ProjectionCatalogEntry, ResourceUriScheme, TypedExtensionPoint, WorkflowPhase,
};

fn valid_manifest() -> DomainPackManifest {
    DomainPackManifest {
        pack_id: "ob-poc.kyc".to_string(),
        name: "ob-poc KYC".to_string(),
        version: "0.1.0".to_string(),
        implementation_mode: PackImplementationMode::NativeCompiled,
        compatibility_tier: PackCompatibilityTier::DryRunOnly,
        owned_dags: vec!["kyc_dag".to_string()],
        owned_packs: vec!["kyc-case".to_string()],
        owned_state_machines: vec!["kyc_case_lifecycle".to_string()],
        owned_constellation_maps: vec!["kyc.onboarding".to_string()],
        owned_constellation_families: vec!["kyc_lifecycle".to_string()],
        owned_universes: vec!["universe.kyc_operations".to_string()],
        owned_verb_prefixes: vec!["kyc-case.".to_string()],
        owned_entity_kinds: vec!["kyc_case".to_string()],
        business_crates: vec![],
        owned_constellations: vec!["kyc.onboarding".to_string()],
        allowed_transitions: vec![DomainTransition {
            transition_ref: "kyc-case.intake-to-discovery".to_string(),
            entity_type: "kyc_case".to_string(),
            state_machine: "kyc_case_lifecycle".to_string(),
            verb: "kyc-case.update-status".to_string(),
            from_state: "INTAKE".to_string(),
            to_state: "DISCOVERY".to_string(),
            dry_run_enabled: true,
            mutation_enabled: false,
            hitl_required: true,
            evidence_refs_required: vec!["case_id".to_string()],
        }],
        discovery_probes: vec![DiscoveryProbe {
            probe_id: "kyc-case.read-state".to_string(),
            operation: "read_state".to_string(),
            target: "\"ob-poc\".cases.status".to_string(),
            idempotent: true,
            modeled: true,
            first_class_state_mutation: false,
        }],
        projection_catalog: vec![ProjectionCatalogEntry {
            kind: AcpProjectionKind::PackManifest,
            source: "domain_pack.manifest".to_string(),
            default_classification: ClassificationLimit::Internal,
            allowed_subject_kinds: vec![],
            max_depth: None,
            acp_visible_by_default: true,
        }],
        mention_namespaces: vec![MentionNamespace {
            namespace: "entity".to_string(),
            target_kind: "semantic_entity".to_string(),
            description: "SemOS entity reference".to_string(),
        }],
        declared_modes: vec![DeclaredMode {
            mode_id: "discovery".to_string(),
            label: "Discovery".to_string(),
            description: "Read-only substrate exploration".to_string(),
        }],
        workflow_phases: vec![WorkflowPhase {
            phase_id: "discovery".to_string(),
            label: "Discovery".to_string(),
            description: "Read-only substrate exploration".to_string(),
        }],
        acp_personas: vec![
            AcpPersonaDeclaration {
                persona_id: "sage:planning".to_string(),
                label: "Sage Planning".to_string(),
                description: "Discovery, projection, planning, and workbook drafting".to_string(),
                mutation_authority: false,
            },
            AcpPersonaDeclaration {
                persona_id: "sage:execution".to_string(),
                label: "Sage Execution".to_string(),
                description: "Workbook validation, dry-run, and approved execution".to_string(),
                mutation_authority: true,
            },
        ],
        resource_uri_schemes: vec![ResourceUriScheme {
            scheme: "semos://entity/{id}".to_string(),
            resource_kind: "entity".to_string(),
            description: "SemOS entity reference".to_string(),
        }],
        external_mcp_transports: vec![],
        typed_extension_points: vec![TypedExtensionPoint {
            extension_id: "derivation.registry".to_string(),
            extension_kind: "derivation_registry".to_string(),
            implementation_ref: "sem_os_core::derivation::DerivationFunctionRegistry".to_string(),
        }],
        classification_policy: ContextClassificationPolicy {
            max_prompt_classification: ClassificationLimit::Internal,
            allow_external_llm: false,
            required_redactions: vec!["pii".to_string()],
        },
    }
}

fn request(probe_id: &str) -> DiscoveryRequest {
    DiscoveryRequest {
        pack_id: "ob-poc.kyc".to_string(),
        probe_id: probe_id.to_string(),
        subject: DiscoverySubject {
            subject_kind: "kyc_case".to_string(),
            subject_id: "case-1".to_string(),
        },
        context: vec![],
    }
}

fn codes(manifest: &DomainPackManifest) -> Vec<String> {
    manifest.validate().diagnostics.iter().map(|d| d.code.clone()).collect()
}

#[test]
fn valid_manifest_passes() {
    let report = valid_manifest().validate();
    assert!(report.valid, "{:?}", report.diagnostics);
    assert!(report.diagnostics.is_empty());
}

#[test]
fn mutation_requires_hitl_and_dry_run() {
    let mut manifest = valid_manifest();
    let transition = &mut manifest.allowed_transitions[0];
    transition.dry_run_enabled = false;
    transition.mutation_enabled = true;
    transition.hitl_required = false;

    let report = manifest.validate();

    assert!(!report.valid);
    let codes: Vec<_> = report.diagnostics.iter().map(|d| d.code.as_str()).collect();
    assert!(codes.contains(&"domain_pack.mutation_requires_hitl"));
    assert!(codes.contains(&"domain_pack.mutation_requires_dry_run"));
    assert!(codes.contains(&"domain_pack.mutation_not_allowed_for_tier"));
}

#[test]
fn probes_must_be_safe_and_modeled() {
    let mut manifest = valid_manifest();
    let probe = &mut manifest.discovery_probes[0];
    probe.idempotent = false;
    probe.modeled = false;
    probe.first_class_state_mutation = true;

    let report = manifest.validate();

    assert!(!report.valid);
    let codes: Vec<_> = report.diagnostics.iter().map(|d| d.code.as_str()).collect();
    assert!(codes.contains(&"domain_pack.probe_not_idempotent"));
    assert!(codes.contains(&"domain_pack.probe_not_modeled"));
    assert!(codes.contains(&"domain_pack.probe_mutates_state"));
}

#[test]
fn duplicate_transition_refs_are_rejected() {
    let mut manifest = valid_manifest();
    manifest
        .allowed_transitions
        .push(manifest.allowed_transitions[0].clone());
    let report = manifest.validate();
    assert!(!report.valid);
    assert!(report
        .diagnostics
        .iter()
        .any(|d| d.code == "domain_pack.duplicate_transition_ref"));
}

#[test]
fn duplicate_projection_kinds_are_rejected() {
    let mut manifest = valid_manifest();
    manifest
        .projection_catalog
        .push(manifest.projection_catalog[0].clone());
    let report = manifest.validate();
    assert!(!report.valid);
    assert!(report
        .diagnostics
        .iter()
        .any(|d| d.code == "domain_pack.duplicate_projection_kind"));
}

#[test]
fn duplicate_owned_values_are_rejected() {
    let mut manifest = valid_manifest();
    manifest.owned_packs.push("kyc-case".to_string());
    let report = manifest.validate();
    assert!(!report.valid);
    assert!(report
        .diagnostics
        .iter()
        .any(|d| d.code == "domain_pack.duplicate_owned_value"));
}

#[test]
fn empty_required_fields_are_reported() {
    let mut manifest = valid_manifest();
    manifest.pack_id = "   ".to_string();
    manifest.owned_dags.push(" ".to_string());
    let codes = codes(&manifest);
    assert!(codes.contains(&"domain_pack.required_field_empty".to_string()));
    assert!(codes.contains(&"domain_pack.owned_field_empty".to_string()));
}

#[test]
fn discovery_probe_authorization_allows_declared_safe_probe() {
    let manifest = valid_manifest();
    let probe =
        authorize_discovery_probe(&manifest, &request("kyc-case.read-state")).expect("probe authorized");
    assert_eq!(probe.operation, "read_state");
}

#[test]
fn discovery_probe_authorization_refuses_unknown_probe() {
    let manifest = valid_manifest();
    let err = authorize_discovery_probe(&manifest, &request("kyc-case.write-state"))
        .expect_err("probe refused");
    assert_eq!(
        err,
        DiscoveryAuthorizationError::UnknownProbe {
            probe_id: "kyc-case.write-state".to_string()
        }
    );
}

#[test]
fn discovery_probe_authorization_refuses_other_pack_and_unsafe_probe() {
    let mut manifest = valid_manifest();
    let mut req = request("kyc-case.read-state");
    req.pack_id = "ob-poc.cbu".to_string();
    assert_eq!(
        authorize_discovery_probe(&manifest, &req),
        Err(DiscoveryAuthorizationError::PackMismatch {
            expected: "ob-poc.kyc".to_string(),
            actual: "ob-poc.cbu".to_string(),
        })
    );
    manifest.discovery_probes[0].modeled = false;
    assert_eq!(
        authorize_discovery_probe(&manifest, &request("kyc-case.read-state")),
        Err(DiscoveryAuthorizationError::UnsafeProbe {
            probe_id: "kyc-case.read-state".to_string(),
            code: "domain_pack.probe_not_modeled".to_string(),
        })
    );
}

fn fingerprint(size: u64) -> DomainPackSourceFingerprint {
    DomainPackSourceFingerprint {
        surface: "dag:cbu_dag".to_string(),
        path: "sem_os_seeds/dag_taxonomies/cbu.yaml".to_string(),
        size_bytes: size,
        modified_unix_millis: Some(1_700_000_000_000),
    }
}

#[test]
fn reload_sources_clean_only_when_every_fingerprint_matches() {
    assert!(probe_domain_pack_sources(&vec![fingerprint(10)], &vec![fingerprint(10)]).clean);
    assert!(!probe_domain_pack_sources(&vec![fingerprint(11)], &vec![fingerprint(10)]).clean);
    assert!(!probe_domain_pack_sources(&vec![], &vec![]).clean);
}

#[test]
fn refresh_requires_publish_without_prior_index() {
    let d = refresh_decision(None, false, "abc");
    assert_eq!(d.action, DomainPackRefreshAction::PublishRequired);
    assert_eq!(d.status, DomainPackReloadStatus::PublishRequired);
    assert_eq!(d.reason, "no prior reload index");
}

#[test]
fn refresh_updates_index_only_when_hash_matches() {
    let d = refresh_decision(Some("abc"), false, "abc");
    assert_eq!(d.action, DomainPackRefreshAction::IndexOnly);
    assert_eq!(d.status, DomainPackReloadStatus::IndexOnly);
    assert_eq!(d.reason, "source fingerprint changed but content hash is unchanged");
    let forced = refresh_decision(Some("abc"), true, "def");
    assert_eq!(forced.action, DomainPackRefreshAction::PublishRequired);
    assert_eq!(forced.reason, "forced check found content hash change");
}

#[test]
fn reload_status_names_round_trip() {
    for s in [
        DomainPackReloadStatus::Clean,
        DomainPackReloadStatus::Loaded,
        DomainPackReloadStatus::IndexOnly,
        DomainPackReloadStatus::PublishRequired,
    ] {
        assert_eq!(s.as_str().parse::<DomainPackReloadStatus>(), Ok(s));
    }
    assert!("stale".parse::<DomainPackReloadStatus>().is_err());
}
