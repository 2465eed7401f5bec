use sem_os_policy::authoring::bundle::{build_bundle, build_bundle_from_map, RawArtifactEntry, RawManifest};
use sem_os_policy::authoring::canonical_hash::compute_artifact_hash_typed;
use sem_os_policy::authoring::types::{ArtifactType, AuthoringError};

fn entry(artifact_type: &str, path: &str, ordinal: Option<i32>, content_hash: Option<&str>) -> RawArtifactEntry {
    RawArtifactEntry {
        artifact_type: artifact_type.into(),
        path: path.into(),
        content_hash: content_hash.map(|h| h.to_string()),
        ordinal,
        metadata: None,
    }
}

/// The manifest that `changeset.yaml` describes in the sample bundle.
fn sample_manifest() -> RawManifest {
    RawManifest {
        title: "Add KYC attributes".into(),
        rationale: Some("New KYC entity type with required attributes".into()),
        depends_on: vec![],
        supersedes: None,
        artifacts: vec![
            entry("migration_sql", "001_kyc_tables.sql", Some(0), None),
            entry("verb_yaml", "kyc.yaml", Some(1), None),
            entry("attribute_json", "attrs.json", Some(2), None),
        ],
    }
}

fn manifest(title: &str, artifacts: Vec<RawArtifactEntry>) -> RawManifest {
    RawManifest {
        title: title.into(),
        rationale: None,
        depends_on: vec![],
        supersedes: None,
        artifacts,
    }
}

fn message(e: AuthoringError) -> String {
    e.message().clone()
}

#[test]
fn test_build_bundle_from_map() {
    let raw = sample_manifest();
    let content_map = vec![
        ("001_kyc_tables.sql".to_string(), "CREATE TABLE kyc();".to_string()),
        ("kyc.yaml".to_string(), "domain: kyc\n".to_string()),
        ("attrs.json".to_string(), r#"{"fqn": "kyc.name"}"#.to_string()),
    ];
    let bundle = build_bundle_from_map(&raw, &content_map).unwrap();
    assert_eq!(bundle.manifest.title, "Add KYC attributes");
    assert_eq!(bundle.artifacts.len(), 3);
    assert_eq!(bundle.artifacts[0].artifact_type, ArtifactType::MigrationSql);
    assert_eq!(bundle.artifacts[0].content, "CREATE TABLE kyc();");
    assert!(!bundle.artifacts[0].content_hash.is_empty());
    assert_eq!(
        bundle.artifacts[0].content_hash,
        compute_artifact_hash_typed("CREATE TABLE kyc();", ArtifactType::MigrationSql)
    );
    assert_eq!(bundle.manifest.artifacts[2].path, "attrs.json");
    assert_eq!(bundle.artifacts[1].change_set_id, 0);
}

#[test]
fn test_build_bundle_missing_content() {
    let raw = sample_manifest();
    let result = build_bundle_from_map(&raw, &vec![]);
    assert!(result.is_err());
    assert_eq!(
        message(result.unwrap_err()),
        "Failed to resolve artifact '001_kyc_tables.sql': Missing content for path '001_kyc_tables.sql'"
    );
}

#[test]
fn test_build_bundle_unknown_type() {
    let raw = manifest("Bad type", vec![entry("unknown_type", "foo.txt", None, None)]);
    let content_map = vec![("foo.txt".to_string(), "content".to_string())];
    let result = build_bundle_from_map(&raw, &content_map);
    assert!(result.is_err());
    assert!(message(result.unwrap_err()).contains("Unknown artifact type"));
}

#[test]
fn test_build_bundle_hash_mismatch() {
    let raw = manifest("Hash check", vec![entry("migration_sql", "001.sql", None, Some("wrong_hash"))]);
    let content_map = vec![("001.sql".to_string(), "CREATE TABLE t();".to_string())];
    let result = build_bundle_from_map(&raw, &content_map);
    assert!(result.is_err());
    assert!(message(result.unwrap_err()).contains("Content hash mismatch"));
}

#[test]
fn test_bundle_contents_artifacts_have_content_hash() {
    let raw = sample_manifest();
    let content_map = vec![
        ("001_kyc_tables.sql".to_string(), "SELECT 1;".to_string()),
        ("kyc.yaml".to_string(), "verb: test\n".to_string()),
        ("attrs.json".to_string(), r#"{"a": 1}"#.to_string()),
    ];
    let bundle = build_bundle_from_map(&raw, &content_map).unwrap();
    for artifact in &bundle.artifacts {
        assert_eq!(artifact.content_hash.len(), 64, "SHA-256 hex should be 64 chars");
    }
}

#[test]
fn test_bundle_ordinals_default_to_position() {
    let raw = manifest(
        "Ordinal test",
        vec![entry("migration_sql", "a.sql", None, None), entry("migration_sql", "b.sql", None, None)],
    );
    let content_map = vec![
        ("a.sql".to_string(), "SELECT 1;".to_string()),
        ("b.sql".to_string(), "SELECT 2;".to_string()),
    ];
    let bundle = build_bundle_from_map(&raw, &content_map).unwrap();
    assert_eq!(bundle.artifacts[0].ordinal, 0);
    assert_eq!(bundle.artifacts[1].ordinal, 1);
}

#[test]
fn build_bundle_accepts_a_matching_declared_hash_and_uses_the_resolver() {
    let hash = compute_artifact_hash_typed("SELECT 1;", ArtifactType::MigrationSql);
    let raw = manifest("Declared", vec![entry("migration_sql", "a.sql", None, Some(hash.as_str()))]);
    let bundle = build_bundle(&raw, |t, p| Ok(format!("-- {} {}\nSELECT 1;", t, p))).map(|b| b.artifacts.len());
    // The resolver's content differs from the hashed text, so the declared hash no longer matches.
    assert!(bundle.is_err());
    let ok = build_bundle(&raw, |_, _| Ok("SELECT 1;".to_string())).unwrap();
    assert_eq!(ok.artifacts[0].content_hash, hash);
    let failed = build_bundle(&raw, |_, _| Err("disk error".to_string())).unwrap_err();
    assert_eq!(message(failed), "Failed to resolve artifact 'a.sql': disk error");
}
