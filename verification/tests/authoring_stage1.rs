use sem_os_policy::authoring::canonical_hash::compute_artifact_hash_typed;
use sem_os_policy::authoring::errors::{
    D_SCHEMA_FORBIDDEN_DDL, D_SCHEMA_NON_TRANSACTIONAL_DDL, V_HASH_MISMATCH, V_HASH_MISSING_ARTIFACT,
    V_PARSE_JSON_SYNTAX, V_PARSE_SQL_SYNTAX, V_PARSE_YAML_SYNTAX, V_REF_CIRCULAR_DEPENDENCY,
    V_TYPE_ATTRIBUTE_MISMATCH, V_TYPE_CONTRACT_INCOMPLETE,
};
use sem_os_policy::authoring::types::{
    ArtifactManifestEntry, ArtifactType, ChangeSetArtifact, ChangeSetManifest,
};
use sem_os_policy::authoring::validate_stage1::validate_stage1;

fn make_artifact(artifact_type: ArtifactType, path: &str, content: &str) -> ChangeSetArtifact {
    ChangeSetArtifact {
        artifact_id: uuid::Uuid::new_v4().as_u128(),
        change_set_id: uuid::Uuid::new_v4().as_u128(),
        artifact_type,
        ordinal: 0,
        path: Some(path.to_string()),
        content: content.to_string(),
        content_hash: compute_artifact_hash_typed(content, artifact_type),
        metadata: None,
    }
}

fn make_manifest(artifacts: &[&ChangeSetArtifact]) -> ChangeSetManifest {
    ChangeSetManifest {
        title: "Test changeset".to_string(),
        rationale: None,
        depends_on: vec![],
        supersedes: None,
        artifacts: artifacts
            .iter()
            .map(|a| ArtifactManifestEntry {
                artifact_type: a.artifact_type,
                path: a.path.clone().unwrap_or_default(),
                content_hash: Some(a.content_hash.clone()),
            })
            .collect(),
    }
}

#[test]
fn test_empty_changeset_passes() {
    let manifest = ChangeSetManifest {
        title: "Empty".to_string(),
        rationale: None,
        depends_on: vec![],
        supersedes: None,
        artifacts: vec![],
    };
    let report = validate_stage1(&manifest, &vec![]);
    assert!(report.ok, "Empty changeset should pass validation");
    assert!(report.errors.is_empty());
}

#[test]
fn test_valid_sql_artifact() {
    let artifact = make_artifact(
        ArtifactType::MigrationSql,
        "migrations/001.sql",
        "CREATE TABLE test_table (id UUID PRIMARY KEY, name TEXT NOT NULL);",
    );
    let manifest = make_manifest(&[&artifact]);
    let report = validate_stage1(&manifest, &vec![artifact]);
    assert!(report.ok, "Valid SQL should pass: {:?}", report.errors);
}

#[test]
fn test_invalid_sql_syntax() {
    let artifact = make_artifact(ArtifactType::MigrationSql, "migrations/bad.sql", "CREATE TABL broken_syntax (;");
    let manifest = make_manifest(&[&artifact]);
    let report = validate_stage1(&manifest, &vec![artifact]);
    assert!(!report.ok);
    assert!(report.errors.iter().any(|e| e.code == V_PARSE_SQL_SYNTAX));
    let e = report.errors.iter().find(|e| e.code == V_PARSE_SQL_SYNTAX).unwrap();
    assert!(e.message.starts_with("SQL parse error in migrations/bad.sql: "));
    assert_eq!(e.artifact_path.as_deref(), Some("migrations/bad.sql"));
}

#[test]
fn test_hash_mismatch() {
    let artifact = make_artifact(ArtifactType::MigrationSql, "migrations/001.sql", "SELECT 1;");
    let manifest = ChangeSetManifest {
        title: "Test".to_string(),
        rationale: None,
        depends_on: vec![],
        supersedes: None,
        artifacts: vec![ArtifactManifestEntry {
            artifact_type: ArtifactType::MigrationSql,
            path: "migrations/001.sql".to_string(),
            content_hash: Some("wrong_hash_value".to_string()),
        }],
    };
    let computed = compute_artifact_hash_typed("SELECT 1;", ArtifactType::MigrationSql);
    let report = validate_stage1(&manifest, &vec![artifact]);
    assert!(!report.ok);
    assert!(report.errors.iter().any(|e| e.code == V_HASH_MISMATCH));
    assert_eq!(
        report.errors[0].message,
        format!("Hash mismatch for migrations/001.sql: declared=wrong_hash_value, computed={}", computed)
    );
}

#[test]
fn test_missing_artifact() {
    let manifest = ChangeSetManifest {
        title: "Test".to_string(),
        rationale: None,
        depends_on: vec![],
        supersedes: None,
        artifacts: vec![ArtifactManifestEntry {
            artifact_type: ArtifactType::MigrationSql,
            path: "migrations/missing.sql".to_string(),
            content_hash: None,
        }],
    };
    let report = validate_stage1(&manifest, &vec![]);
    assert!(!report.ok);
    assert!(report.errors.iter().any(|e| e.code == V_HASH_MISSING_ARTIFACT));
    assert_eq!(
        report.errors[0].message,
        "Artifact declared in manifest not found in bundle: migrations/missing.sql"
    );
}

#[test]
fn test_invalid_json_syntax() {
    let artifact = make_artifact(ArtifactType::AttributeJson, "attrs/bad.json", "{ bad json");
    let manifest = make_manifest(&[&artifact]);
    let report = validate_stage1(&manifest, &vec![artifact]);
    assert!(!report.ok);
    assert!(report.errors.iter().any(|e| e.code == V_PARSE_JSON_SYNTAX));
    let e = report.errors.iter().find(|e| e.code == V_PARSE_JSON_SYNTAX).unwrap();
    assert_eq!(e.line, Some(1));
}

#[test]
fn test_invalid_yaml_syntax() {
    let artifact = make_artifact(ArtifactType::VerbYaml, "verbs/bad.yaml", "key: [unclosed bracket");
    let manifest = make_manifest(&[&artifact]);
    let report = validate_stage1(&manifest, &vec![artifact]);
    assert!(!report.ok);
    assert!(report.errors.iter().any(|e| e.code == V_PARSE_YAML_SYNTAX));
}

#[test]
fn test_concurrently_warning() {
    let artifact = make_artifact(
        ArtifactType::MigrationSql,
        "migrations/idx.sql",
        "CREATE INDEX CONCURRENTLY idx_test ON test_table(name);",
    );
    let manifest = make_manifest(&[&artifact]);
    let report = validate_stage1(&manifest, &vec![artifact]);
    assert!(report.ok, "CONCURRENTLY should be warning, not error");
    assert!(report.warnings.iter().any(|w| w.code == D_SCHEMA_NON_TRANSACTIONAL_DDL));
    assert_eq!(report.warnings[0].line, Some(1));
}

#[test]
fn test_drop_table_warning() {
    let artifact = make_artifact(ArtifactType::MigrationSql, "migrations/drop.sql", "DROP TABLE old_table;");
    let manifest = make_manifest(&[&artifact]);
    let report = validate_stage1(&manifest, &vec![artifact]);
    assert!(report.ok, "DROP TABLE should be warning, not error");
    assert!(report.warnings.iter().any(|w| w.code == D_SCHEMA_FORBIDDEN_DDL));
}

#[test]
fn test_verb_contract_incomplete() {
    let artifact = make_artifact(
        ArtifactType::VerbYaml,
        "verbs/incomplete.yaml",
        "action: create\n# missing domain and description\n",
    );
    let manifest = make_manifest(&[&artifact]);
    let report = validate_stage1(&manifest, &vec![artifact]);
    assert!(!report.ok);
    assert!(report.errors.iter().any(|e| e.code == V_TYPE_CONTRACT_INCOMPLETE));
    assert_eq!(report.errors.len(), 2);
}

#[test]
fn test_attribute_missing_data_type() {
    let artifact = make_artifact(ArtifactType::AttributeJson, "attrs/no_type.json", r#"{"fqn": "cbu.name"}"#);
    let manifest = make_manifest(&[&artifact]);
    let report = validate_stage1(&manifest, &vec![artifact]);
    assert!(!report.ok);
    assert!(report.errors.iter().any(|e| e.code == V_TYPE_ATTRIBUTE_MISMATCH));
    assert_eq!(report.errors[0].message, "Attribute definition must have 'data_type' field");
}

#[test]
fn test_duplicate_dependency() {
    let dep_id = uuid::Uuid::new_v4();
    let manifest = ChangeSetManifest {
        title: "Test".to_string(),
        rationale: None,
        depends_on: vec![dep_id.as_u128(), dep_id.as_u128()],
        supersedes: None,
        artifacts: vec![],
    };
    let report = validate_stage1(&manifest, &vec![]);
    assert!(!report.ok);
    assert!(report.errors.iter().any(|e| e.code == V_REF_CIRCULAR_DEPENDENCY));
    assert_eq!(report.errors.len(), 1);
    assert_eq!(report.errors[0].message, format!("Duplicate dependency: {}", dep_id));
}

#[test]
fn test_valid_full_bundle() {
    let sql = make_artifact(ArtifactType::MigrationSql, "migrations/001.sql", "CREATE TABLE foo (id UUID PRIMARY KEY);");
    let attr = make_artifact(
        ArtifactType::AttributeJson,
        "attrs/foo.name.json",
        r#"{"fqn": "foo.name", "data_type": "text"}"#,
    );
    let verb = make_artifact(ArtifactType::VerbYaml, "verbs/foo.create.yaml", "fqn: foo.create\ndescription: Create a foo\n");
    let manifest = make_manifest(&[&sql, &attr, &verb]);
    let report = validate_stage1(&manifest, &vec![sql, attr, verb]);
    assert!(report.ok, "Valid bundle should pass: {:?}", report.errors);
}

#[test]
fn orphan_artifacts_are_warned_about() {
    let declared = make_artifact(ArtifactType::DocJson, "docs/a.json", "{}");
    let orphan = make_artifact(ArtifactType::DocJson, "docs/b.json", "{}");
    let manifest = make_manifest(&[&declared]);
    let report = validate_stage1(&manifest, &vec![declared, orphan]);
    assert!(report.ok);
    assert_eq!(report.warnings.len(), 1);
    assert_eq!(report.warnings[0].code, "V:WARN:ORPHAN_ARTIFACT");
    assert_eq!(
        report.warnings[0].message,
        "Artifact present in bundle but not declared in manifest: docs/b.json"
    );
}

#[test]
fn drop_column_line_is_found_case_insensitively() {
    let artifact = make_artifact(
        ArtifactType::MigrationSql,
        "migrations/alter.sql",
        "SELECT 1;\nalter table t drop column c;\n",
    );
    let manifest = make_manifest(&[&artifact]);
    let report = validate_stage1(&manifest, &vec![artifact]);
    let w = report.warnings.iter().find(|w| w.message.contains("DROP COLUMN")).unwrap();
    assert_eq!(w.line, Some(2));
}
