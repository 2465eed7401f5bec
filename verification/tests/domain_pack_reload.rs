use sem_os_policy::acp_projection::AcpProjectionKind;
use sem_os_policy::domain_pack::{
    AcpPersonaDeclaration, ClassificationLimit, ContextClassificationPolicy, DeclaredMode,
    DiscoveryProbe, DomainPackManifest, DomainTransition, MentionNamespace, PackCompatibilityTier,
    PackImplementationMode, ProjectionCatalogEntry, ResourceUriScheme, TypedExtensionPoint,
    WorkflowPhase,
};
use sem_os_policy::domain_pack_reload::{
    declared_pack_id, find_yaml_by_field, record_pack_reload, reload_taxonomy, taxonomy_surface_hash,
    validate_owned_entity_kinds, TaxonomySources, YamlDir,
};

fn valid_manifest() -> DomainPackManifest {
    DomainPackManifest {
        pack_id: "ob-poc.kyc".to_string(),
        name: "ob-poc KYC".to_string(),
        version: "0.1.0".to_string(),
        implementation_mode: PackImplementationMode::NativeCompiled,
        compatibility_tier: PackCompatibilityTier::DryRunOnly,
        owned_dags: vec!["kyc_dag".to_string()],
        owned_packs: vec!["kyc-case".to_string()],
        owned_state_machines: vec!["kyc_case_lifecycle".to_string()],
        owned_constellation_maps: vec!["kyc.onboarding".to_string()],
        owned_constellation_families: vec!["kyc_lifecycle".to_string()],
        owned_universes: vec!["universe.kyc_operations".to_string()],
        owned_verb_prefixes: vec!["kyc-case.".to_string()],
        owned_entity_kinds: vec!["kyc_case".to_string()],
        business_crates: vec![],
        owned_constellations: vec!["kyc.onboarding".to_string()],
        allowed_transitions: vec![DomainTransition {
            transition_ref: "kyc-case.intake-to-discovery".to_string(),
            entity_type: "kyc_case".to_string(),
            state_machine: "kyc_case_lifecycle".to_string(),
            verb: "kyc-case.update-status".to_string(),
            from_state: "INTAKE".to_string(),
            to_state: "DISCOVERY".to_string(),
            dry_run_enabled: true,
            mutation_enabled: false,
            hitl_required: true,
            evidence_refs_required: vec!["case_id".to_string()],
        }],
        discovery_probes: vec![DiscoveryProbe {
            probe_id: "kyc-case.read-state".to_string(),
            operation: "read_state".to_string(),
            target: "\"ob-poc\".cases.status".to_string(),
            idempotent: true,
            modeled: true,
            first_class_state_mutation: false,
        }],
        projection_catalog: vec![ProjectionCatalogEntry {
            kind: AcpProjectionKind::PackManifest,
            source: "domain_pack.manifest".to_string(),
            default_classification: ClassificationLimit::Internal,
            allowed_subject_kinds: vec![],
            max_depth: None,
            acp_visible_by_default: true,
        }],
        mention_namespaces: vec![MentionNamespace {
            namespace: "entity".to_string(),
            target_kind: "semantic_entity".to_string(),
            description: "SemOS entity reference".to_string(),
        }],
        declared_modes: vec![DeclaredMode {
            mode_id: "discovery".to_string(),
            label: "Discovery".to_string(),
            description: "Read-only substrate exploration".to_string(),
        }],
        workflow_phases: vec![WorkflowPhase {
            phase_id: "discovery".to_string(),
            label: "Discovery".to_string(),
            description: "Read-only substrate exploration".to_string(),
        }],
        acp_personas: vec![
            AcpPersonaDeclaration {
                persona_id: "sage:planning".to_string(),
                label: "Sage Planning".to_string(),
                description: "Discovery, projection, planning, and workbook drafting".to_string(),
                mutation_authority: false,
            },
            AcpPersonaDeclaration {
                persona_id: "sage:execution".to_string(),
                label: "Sage Execution".to_string(),
                description: "Workbook validation, dry-run, and approved execution".to_string(),
                mutation_authority: true,
            },
        ],
        resource_uri_schemes: vec![ResourceUriScheme {
            scheme: "semos://entity/{id}".to_string(),
            resource_kind: "entity".to_string(),
            description: "SemOS entity reference".to_string(),
        }],
        external_mcp_transports: vec![],
        typed_extension_points: vec![TypedExtensionPoint {
            extension_id: "derivation.registry".to_string(),
            extension_kind: "derivation_registry".to_string(),
            implementation_ref: "sem_os_core::derivation::DerivationFunctionRegistry".to_string(),
        }],
        classification_policy: ContextClassificationPolicy {
            max_prompt_classification: ClassificationLimit::Internal,
            allow_external_llm: false,
            required_redactions: vec!["pii".to_string()],
        },
    }
}

fn dir(name: &str, files: &[(&str, &str)]) -> YamlDir {
    YamlDir {
        dir: format!("/seeds/{name}"),
        files: files.iter().map(|(p, t)| (p.to_string(), t.to_string())).collect(),
    }
}

fn sources() -> TaxonomySources {
    TaxonomySources {
        domain_packs: dir("domain_packs", &[("/seeds/domain_packs/kyc.yaml", "pack_id: ob-poc.kyc\nname: KYC\n")]),
        dag_taxonomies: dir(
            "dag_taxonomies",
            &[("/seeds/dag_taxonomies/a.yaml", "workspace: other\n"), ("/seeds/dag_taxonomies/b.yaml", "workspace: kyc_dag\nnodes: [1, 2]\n")],
        ),
        packs: dir("packs", &[("/packs/kyc.yaml", "id: kyc-case\nallowed_verbs: [kyc.open, kyc.plain]\n")]),
        macros: dir("macros", &[("/macros/m.yaml", "kyc.open:\n  z: 1\n  a: 2\n")]),
        state_machines: dir("state_machines", &[("/sm/k.yaml", "state_machine: kyc_case_lifecycle\n")]),
        constellation_maps: dir("constellation_maps", &[("/cm/k.yaml", "constellation: kyc.onboarding\n")]),
        constellation_families: dir("constellation_families", &[("/cf/k.yaml", "fqn: kyc_lifecycle\n")]),
        universes: dir("universes", &[("/u/k.yaml", "universe_id: universe.kyc_operations\n")]),
        entity_taxonomy_path: "/ontology/entity_taxonomy.yaml".to_string(),
        entity_taxonomy: "entities:\n  kyc_case: {}\n  cbu: {}\n".to_string(),
    }
}

#[test]
fn reload_collects_every_owned_surface_in_key_order() {
    let reload = reload_taxonomy("ob-poc.kyc", &sources(), valid_manifest()).unwrap();
    let keys: Vec<&str> = reload.surfaces.iter().map(|(k, _)| k.as_str()).collect();
    assert_eq!(
        keys,
        vec![
            "constellation_family:kyc_lifecycle",
            "constellation_map:kyc.onboarding",
            "dag:kyc_dag",
            "domain_pack:ob-poc.kyc",
            "macro:kyc.open",
            "ontology:entity_taxonomy",
            "pack:kyc-case",
            "state_machine:kyc_case_lifecycle",
            "universe:universe.kyc_operations",
        ]
    );
    let dp = &reload.surfaces[3].1;
    assert_eq!(dp.path, "/seeds/domain_packs/kyc.yaml");
    assert_eq!(dp.canonical_payload, r#"{"name":"KYC","pack_id":"ob-poc.kyc"}"#);
    assert_eq!(reload.surfaces[4].1.canonical_payload, r#"{"a":2,"z":1}"#);
    assert_eq!(reload.surfaces[2].1.path, "/seeds/dag_taxonomies/b.yaml");
    let pairs: Vec<(String, String)> = reload
        .surfaces
        .iter()
        .map(|(k, s)| (k.clone(), s.canonical_payload.clone()))
        .collect();
    assert_eq!(reload.surface_hash, taxonomy_surface_hash(&pairs));
    assert_eq!(reload.surface_hash.len(), 64);
    let again = reload_taxonomy("ob-poc.kyc", &sources(), valid_manifest()).unwrap();
    assert_eq!(again.surface_hash, reload.surface_hash);
}

#[test]
fn reload_refuses_a_missing_document() {
    let mut src = sources();
    src.universes.files.clear();
    let err = reload_taxonomy("ob-poc.kyc", &src, valid_manifest()).unwrap_err();
    assert_eq!(
        err,
        r#"failed to find yaml in /seeds/universes with any of ["fqn", "universe_id"] = universe.kyc_operations"#
    );
}

#[test]
fn reload_refuses_an_unknown_entity_kind() {
    let mut src = sources();
    src.entity_taxonomy = "entities:\n  cbu: {}\n".to_string();
    let err = reload_taxonomy("ob-poc.kyc", &src, valid_manifest()).unwrap_err();
    assert_eq!(err, "domain pack owns unknown entity kind kyc_case");
    src.entity_taxonomy = "other: 1\n".to_string();
    let err = reload_taxonomy("ob-poc.kyc", &src, valid_manifest()).unwrap_err();
    assert_eq!(err, "entity taxonomy does not declare entities");
}

#[test]
fn reload_refuses_unparsable_yaml_and_duplicate_macros() {
    let mut src = sources();
    src.state_machines.files.insert(0, ("/sm/bad.yaml".to_string(), "a: [".to_string()));
    let err = reload_taxonomy("ob-poc.kyc", &src, valid_manifest()).unwrap_err();
    assert_eq!(err, "failed to parse yaml /sm/bad.yaml");
    let mut src = sources();
    src.macros.files.push(("/macros/n.yaml".to_string(), "kyc.open: 1\n".to_string()));
    let err = reload_taxonomy("ob-poc.kyc", &src, valid_manifest()).unwrap_err();
    assert_eq!(err, "duplicate macro definition kyc.open");
}

#[test]
fn reload_refuses_an_invalid_manifest_and_an_unknown_pack() {
    let mut m = valid_manifest();
    m.owned_dags = vec!["kyc_dag".to_string(), "kyc_dag".to_string()];
    let err = reload_taxonomy("ob-poc.kyc", &sources(), m).unwrap_err();
    assert!(err.starts_with("domain pack ob-poc.kyc failed validation: ["));
    let err = reload_taxonomy("ob-poc.cbu", &sources(), valid_manifest()).unwrap_err();
    assert_eq!(err, r#"failed to find yaml in /seeds/domain_packs with any of ["pack_id"] = ob-poc.cbu"#);
}

#[test]
fn find_yaml_by_field_takes_the_first_match() {
    let d = dir("x", &[("a", "id: q\n"), ("b", "name: p\n"), ("c", "id: p\n")]);
    let fields = vec!["id".to_string(), "name".to_string()];
    assert_eq!(find_yaml_by_field(&d, &fields, "p"), Ok(1));
    assert_eq!(find_yaml_by_field(&d, &vec!["id".to_string()], "p"), Ok(2));
    assert!(find_yaml_by_field(&d, &fields, "r").is_err());
}

#[test]
fn owned_entity_kinds_must_be_defined() {
    let keys = vec!["a".to_string(), "b".to_string()];
    assert_eq!(validate_owned_entity_kinds(&keys, &vec!["b".to_string()]), Ok(()));
    assert_eq!(
        validate_owned_entity_kinds(&keys, &vec!["a".to_string(), "c".to_string(), "d".to_string()]),
        Err("domain pack owns unknown entity kind c".to_string())
    );
}

#[test]
fn surface_hash_of_known_text() {
    let pairs = vec![("a".to_string(), "b".to_string())];
    // sha256("a\nb\n")
    assert_eq!(
        taxonomy_surface_hash(&pairs),
        "911169ddaaf146aff539f58c26c489af3b892dff0fe283c1c264c65ae5aa59a2"
    );
}

#[test]
fn declared_pack_id_reads_or_refuses() {
    assert_eq!(declared_pack_id("a.yaml", "pack_id: ob-poc.kyc\nname: x\n"), Ok("ob-poc.kyc".to_string()));
    assert_eq!(
        declared_pack_id("b.yaml", "name: x\n"),
        Err("domain pack b.yaml does not declare pack_id".to_string())
    );
    assert_eq!(
        declared_pack_id("c.yaml", "pack_id: [unclosed\n"),
        Err("failed to parse yaml c.yaml".to_string())
    );
}

#[test]
fn reloads_of_all_packs_are_ordered_and_unique() {
    let first = reload_taxonomy("ob-poc.kyc", &sources(), valid_manifest()).unwrap();
    let second = first.clone();
    let third = first.clone();
    let mut out = Vec::new();
    assert_eq!(record_pack_reload(&mut out, "zeta".to_string(), first), Ok(()));
    assert_eq!(record_pack_reload(&mut out, "alpha".to_string(), second), Ok(()));
    let keys: Vec<&str> = out.iter().map(|(k, _)| k.as_str()).collect();
    assert_eq!(keys, vec!["alpha", "zeta"]);
    assert_eq!(
        record_pack_reload(&mut out, "zeta".to_string(), third),
        Err("duplicate domain pack id zeta".to_string())
    );
    assert_eq!(out.len(), 2);
}
