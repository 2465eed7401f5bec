use sem_os_policy::authoring::canonical_hash::{
    compute_artifact_hash, compute_artifact_hash_typed, compute_content_hash, normalize_content, try_canonicalize_json,
    try_canonicalize_yaml,
};
use sem_os_policy::authoring::cleanup::CleanupPolicy;
use sem_os_policy::authoring::errors::{
    V_HASH_MISMATCH,
    V_HASH_MISSING_ARTIFACT,
    V_PARSE_SQL_SYNTAX,
    V_PARSE_YAML_SYNTAX,
    V_PARSE_YAML_SCHEMA,
    V_PARSE_JSON_SYNTAX,
    V_PARSE_JSON_SCHEMA,
    V_REF_MISSING_ENTITY,
    V_REF_MISSING_DOMAIN,
    V_REF_MISSING_ATTRIBUTE,
    V_REF_MISSING_DEPENDENCY,
    V_REF_CIRCULAR_DEPENDENCY,
    V_TYPE_ATTRIBUTE_MISMATCH,
    V_TYPE_CONTRACT_INCOMPLETE,
    V_TYPE_LINEAGE_BROKEN,
    D_SCHEMA_APPLY_FAILED,
    D_SCHEMA_NON_TRANSACTIONAL_DDL,
    D_SCHEMA_FORBIDDEN_DDL,
    D_SCHEMA_DOWN_MISSING,
    D_SCHEMA_DOWN_FAILED,
    D_COMPAT_BREAKING_UNDECLARED,
    D_COMPAT_ATTR_CONFLICT,
    D_COMPAT_VERB_CONFLICT,
    D_COMPAT_DEPENDENCY_UNPUBLISHED,
    D_COMPAT_DEPENDENCY_FAILED,
    D_COMPAT_SUPERSESSION_CONFLICT,
    D_POLICY_APPROVAL_REQUIRED,
    D_POLICY_ROLE_INSUFFICIENT,
    PUBLISH_DRIFT_DETECTED,
    PUBLISH_LOCK_CONTENTION,
    PUBLISH_STATUS_INVALID,
    PUBLISH_BATCH_CYCLE_DETECTED,
};
use sem_os_policy::authoring::ports::ScratchRunResult;
use sem_os_policy::authoring::types::{ArtifactType, ChangeSetArtifact, ChangeSetManifest, ChangeSetStatus, ValidationReport};
use sem_os_policy::authoring::validate_stage2::find_concurrently_line;

#[test]
fn test_normalize_line_endings() {
    assert_eq!(normalize_content("a\r\nb\rc\n"), "a\nb\nc");
}

#[test]
fn test_normalize_trailing_whitespace() {
    assert_eq!(normalize_content("hello   \nworld  "), "hello\nworld");
}

#[test]
fn normalize_keeps_inner_blank_lines() {
    assert_eq!(normalize_content("a\n\n b \n"), "a\n\n b");
    assert_eq!(normalize_content(""), "");
}

#[test]
fn test_artifact_hash_deterministic() {
    let h1 = compute_artifact_hash("SELECT 1;");
    let h2 = compute_artifact_hash("SELECT 1;");
    assert_eq!(h1, h2);
    assert_eq!(h1.len(), 64);
}

#[test]
fn test_artifact_hash_different_content() {
    let h1 = compute_artifact_hash("SELECT 1;");
    let h2 = compute_artifact_hash("SELECT 2;");
    assert_ne!(h1, h2);
}

#[test]
fn artifact_hash_of_empty_text_is_sha256_of_nothing() {
    assert_eq!(
        compute_artifact_hash(""),
        "e3b0c44298fc1c149afbf4c8996fb92427ae41e4649b934ca495991b7852b855"
    );
    // Normalization happens before hashing.
    assert_eq!(compute_artifact_hash("x  \r\n"), compute_artifact_hash("x"));
}

#[test]
fn test_try_canonicalize_json() {
    let input = r#"{"b": 2, "a": 1}"#;
    let canonical = try_canonicalize_json(input);
    assert_eq!(canonical, r#"{"a":1,"b":2}"#);
}

#[test]
fn test_try_canonicalize_yaml() {
    let input = "b: 2\na: 1\n";
    let canonical = try_canonicalize_yaml(input);
    assert_eq!(canonical, r#"{"a":1,"b":2}"#);
}

#[test]
fn test_try_canonicalize_invalid_json() {
    let input = "not json {{{";
    assert_eq!(try_canonicalize_json(input), input);
}

#[test]
fn typed_hash_canonicalizes_json_before_hashing() {
    let a = compute_artifact_hash_typed(r#"{"b": 2, "a": 1}"#, ArtifactType::AttributeJson);
    let b = compute_artifact_hash_typed(r#"{"a":1,"b":2}"#, ArtifactType::DocJson);
    assert_eq!(a, b);
    let sql = compute_artifact_hash_typed("SELECT 1;  \r\n", ArtifactType::MigrationSql);
    assert_eq!(sql, compute_artifact_hash("SELECT 1;"));
}

#[test]
fn test_cleanup_policy_defaults() {
    let policy = CleanupPolicy::default();
    assert_eq!(policy.terminal_retention_days, 90);
    assert_eq!(policy.orphan_retention_days, 30);
}

#[test]
fn test_error_code_format() {
    let all_codes = [
        V_HASH_MISMATCH,
        V_HASH_MISSING_ARTIFACT,
        V_PARSE_SQL_SYNTAX,
        V_PARSE_YAML_SYNTAX,
        V_PARSE_YAML_SCHEMA,
        V_PARSE_JSON_SYNTAX,
        V_PARSE_JSON_SCHEMA,
        V_REF_MISSING_ENTITY,
        V_REF_MISSING_DOMAIN,
        V_REF_MISSING_ATTRIBUTE,
        V_REF_MISSING_DEPENDENCY,
        V_REF_CIRCULAR_DEPENDENCY,
        V_TYPE_ATTRIBUTE_MISMATCH,
        V_TYPE_CONTRACT_INCOMPLETE,
        V_TYPE_LINEAGE_BROKEN,
        D_SCHEMA_APPLY_FAILED,
        D_SCHEMA_NON_TRANSACTIONAL_DDL,
        D_SCHEMA_FORBIDDEN_DDL,
        D_SCHEMA_DOWN_MISSING,
        D_SCHEMA_DOWN_FAILED,
        D_COMPAT_BREAKING_UNDECLARED,
        D_COMPAT_ATTR_CONFLICT,
        D_COMPAT_VERB_CONFLICT,
        D_COMPAT_DEPENDENCY_UNPUBLISHED,
        D_COMPAT_DEPENDENCY_FAILED,
        D_COMPAT_SUPERSESSION_CONFLICT,
        D_POLICY_APPROVAL_REQUIRED,
        D_POLICY_ROLE_INSUFFICIENT,
        PUBLISH_DRIFT_DETECTED,
        PUBLISH_LOCK_CONTENTION,
        PUBLISH_STATUS_INVALID,
        PUBLISH_BATCH_CYCLE_DETECTED,
    ];

    assert_eq!(
        all_codes.len(),
        32,
        "authoring pipeline defines 32 error codes"
    );

    for code in &all_codes {
        let parts: Vec<&str> = code.split(':').collect();
        assert!(
            parts.len() >= 2,
            "code {code} must have at least 2 colon-separated parts"
        );
        assert!(
            parts[0] == "V" || parts[0] == "D" || parts[0] == "PUBLISH",
            "code {code} must start with V, D, or PUBLISH"
        );
    }
}

#[test]
fn test_scratch_run_result_default() {
    let result = ScratchRunResult {
        apply_ms: 42,
        apply_errors: vec![],
        down_errors: vec![],
    };
    assert_eq!(result.apply_ms, 42);
    assert!(result.apply_errors.is_empty());
}

#[test]
fn test_change_set_status_round_trip() {
    for status in [
        ChangeSetStatus::Draft,
        ChangeSetStatus::UnderReview,
        ChangeSetStatus::Approved,
        ChangeSetStatus::Validated,
        ChangeSetStatus::Rejected,
        ChangeSetStatus::DryRunPassed,
        ChangeSetStatus::DryRunFailed,
        ChangeSetStatus::Published,
        ChangeSetStatus::Superseded,
    ] {
        let s: &str = status.as_ref();
        assert_eq!(
            s.parse::<ChangeSetStatus>().ok(),
            Some(status),
            "round-trip failed for {s}"
        );
    }
    assert_eq!(
        "in_review".parse::<ChangeSetStatus>().ok(),
        Some(ChangeSetStatus::UnderReview)
    );
}

#[test]
fn change_set_status_unknown_name_is_refused() {
    assert_eq!(
        ChangeSetStatus::parse("pending"),
        Err("unknown change set status pending".to_string())
    );
    assert_eq!(ChangeSetStatus::DryRunPassed.as_str(), "dry_run_passed");
}

#[test]
fn test_artifact_type_round_trip() {
    for at in [
        ArtifactType::MigrationSql,
        ArtifactType::MigrationDownSql,
        ArtifactType::VerbYaml,
        ArtifactType::AttributeJson,
        ArtifactType::TaxonomyJson,
        ArtifactType::DocJson,
    ] {
        let s: &str = at.as_ref();
        assert_eq!(
            s.parse::<ArtifactType>().ok(),
            Some(at),
            "round-trip failed for {s}"
        );
    }
}

#[test]
fn artifact_type_unknown_name_is_refused() {
    assert!("sql".parse::<ArtifactType>().is_err());
    assert_eq!(ArtifactType::MigrationDownSql.as_str(), "migration_down_sql");
}

#[test]
fn test_terminal_statuses() {
    assert!(ChangeSetStatus::Published.is_terminal());
    assert!(ChangeSetStatus::Rejected.is_terminal());
    assert!(ChangeSetStatus::Superseded.is_terminal());
    assert!(ChangeSetStatus::DryRunFailed.is_terminal());
    assert!(!ChangeSetStatus::Draft.is_terminal());
    assert!(!ChangeSetStatus::UnderReview.is_terminal());
    assert!(!ChangeSetStatus::Approved.is_terminal());
    assert!(!ChangeSetStatus::Validated.is_terminal());
    assert!(!ChangeSetStatus::DryRunPassed.is_terminal());
}

#[test]
fn test_validation_report_empty_ok() {
    let report = ValidationReport::empty_ok();
    assert!(report.ok);
    assert!(report.errors.is_empty());
}

#[test]
fn test_concurrently_detection() {
    let line =
        find_concurrently_line("SELECT 1;\nCREATE INDEX CONCURRENTLY idx ON t(c);\nSELECT 2;");
    assert_eq!(line, Some(2));
}

#[test]
fn test_concurrently_case_insensitive() {
    let line = find_concurrently_line("create index concurrently idx on t(c);");
    assert_eq!(line, Some(1));
}

#[test]
fn concurrently_absent_gives_none() {
    assert_eq!(find_concurrently_line("CREATE INDEX idx ON t(c);\n"), None);
}

fn hash_artifact(artifact_type: ArtifactType, path: &str, content: &str, change_set_id: u128) -> ChangeSetArtifact {
    ChangeSetArtifact {
        artifact_id: uuid::Uuid::new_v4().as_u128(),
        change_set_id,
        artifact_type,
        ordinal: 0,
        path: Some(path.into()),
        content: content.into(),
        content_hash: String::new(),
        metadata: None,
    }
}

#[test]
fn test_content_hash_sorted_by_type_ordinal_path() {
    let manifest = ChangeSetManifest {
        title: "test".into(),
        rationale: None,
        depends_on: vec![],
        supersedes: None,
        artifacts: vec![],
    };
    let id = uuid::Uuid::new_v4().as_u128();
    let artifacts = vec![
        hash_artifact(ArtifactType::VerbYaml, "b.yaml", "verb: b", id),
        hash_artifact(ArtifactType::MigrationSql, "001.sql", "CREATE TABLE t();", id),
    ];
    let h1 = compute_content_hash(&manifest, &artifacts);
    let artifacts_reversed: Vec<ChangeSetArtifact> = artifacts.into_iter().rev().collect();
    let h2 = compute_content_hash(&manifest, &artifacts_reversed);
    assert_eq!(h1, h2);
}

#[test]
fn content_hash_covers_title_and_normalized_content() {
    let manifest = |title: &str| ChangeSetManifest {
        title: title.into(),
        rationale: None,
        depends_on: vec![],
        supersedes: None,
        artifacts: vec![],
    };
    let a = vec![hash_artifact(ArtifactType::MigrationSql, "001.sql", "SELECT 1;  \r\n", 0)];
    let b = vec![hash_artifact(ArtifactType::MigrationSql, "001.sql", "SELECT 1;\n", 0)];
    assert_eq!(compute_content_hash(&manifest("t"), &a), compute_content_hash(&manifest("t"), &b));
    assert_ne!(compute_content_hash(&manifest("t"), &a), compute_content_hash(&manifest("u"), &a));
    assert_eq!(compute_content_hash(&manifest("t"), &vec![]).len(), 64);
}

#[test]
fn canonical_json_sorts_nested_keys_and_keeps_numbers() {
    let input = r#"{"z": {"y": 1.5, "x": [true, null]}, "a": -3, "a": 7}"#;
    assert_eq!(try_canonicalize_json(input), r#"{"a":7,"z":{"x":[true,null],"y":1.5}}"#);
}
