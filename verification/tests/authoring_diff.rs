use sem_os_policy::authoring::diff::{diff_changesets, diff_hashes_cuttable, summarize_changeset};
use sem_os_policy::authoring::types::{ArtifactType, ChangeSetArtifact};

fn make_artifact(artifact_type: ArtifactType, path: &str, content: &str) -> ChangeSetArtifact {
    ChangeSetArtifact {
        artifact_id: uuid::Uuid::new_v4().as_u128(),
        change_set_id: uuid::Uuid::new_v4().as_u128(),
        artifact_type,
        ordinal: 0,
        path: Some(path.to_string()),
        content: content.to_string(),
        content_hash: format!("hash_{}", content.len()),
        metadata: None,
    }
}

#[test]
fn test_diff_identical() {
    let a = make_artifact(ArtifactType::MigrationSql, "001.sql", "SELECT 1;");
    let b = make_artifact(ArtifactType::MigrationSql, "001.sql", "SELECT 1;");
    let summary = diff_changesets(&vec![a], &vec![b]);
    assert!(summary.added.is_empty());
    assert!(summary.modified.is_empty());
    assert!(summary.removed.is_empty());
    assert!(summary.breaking_changes.is_empty());
}

#[test]
fn test_diff_added() {
    let b = make_artifact(ArtifactType::MigrationSql, "001.sql", "SELECT 1;");
    let summary = diff_changesets(&vec![], &vec![b]);
    assert_eq!(summary.added.len(), 1);
    assert!(summary.removed.is_empty());
    assert_eq!(summary.added[0].fqn, "migration_sql:001.sql");
    assert_eq!(summary.added[0].object_type, "migration_sql");
    assert_eq!(summary.added[0].detail.as_deref(), Some("New artifact"));
}

#[test]
fn test_diff_removed() {
    let a = make_artifact(ArtifactType::MigrationSql, "001.sql", "SELECT 1;");
    let summary = diff_changesets(&vec![a], &vec![]);
    assert_eq!(summary.removed.len(), 1);
    assert_eq!(summary.breaking_changes.len(), 1, "Removal is always breaking");
    assert_eq!(summary.removed[0].detail.as_deref(), Some("Removed"));
}

#[test]
fn test_diff_modified_non_breaking() {
    let a = make_artifact(ArtifactType::VerbYaml, "verb.yaml", "desc: old");
    let mut b = make_artifact(ArtifactType::VerbYaml, "verb.yaml", "desc: new");
    b.content_hash = "different_hash".to_string();
    let summary = diff_changesets(&vec![a], &vec![b]);
    assert_eq!(summary.modified.len(), 1);
    assert!(summary.breaking_changes.is_empty());
    assert_eq!(summary.modified[0].detail.as_deref(), Some("Hash changed: hash_9 → differen"));
}

#[test]
fn test_diff_breaking_ddl() {
    let a = make_artifact(ArtifactType::MigrationSql, "001.sql", "CREATE TABLE t (id INT);");
    let mut b = make_artifact(ArtifactType::MigrationSql, "001.sql", "DROP TABLE t;");
    b.content_hash = "changed".to_string();
    let summary = diff_changesets(&vec![a], &vec![b]);
    assert_eq!(summary.breaking_changes.len(), 1);
}

#[test]
fn test_summarize_changeset() {
    let artifacts = vec![
        make_artifact(ArtifactType::MigrationSql, "001.sql", "CREATE TABLE t (id INT);"),
        make_artifact(ArtifactType::VerbYaml, "verb.yaml", "fqn: test.create"),
        make_artifact(ArtifactType::MigrationSql, "002.sql", "DROP TABLE old;"),
    ];
    let summary = summarize_changeset(&artifacts);
    assert_eq!(summary.added.len(), 3);
    assert_eq!(summary.breaking_changes.len(), 1, "DROP TABLE is breaking");
    assert_eq!(summary.added[1].detail.as_deref(), Some("verb.yaml"));
    assert_eq!(summary.breaking_changes[0].fqn, "migration_sql:002.sql");
}

#[test]
fn test_attribute_type_change_is_breaking() {
    let a = make_artifact(
        ArtifactType::AttributeJson,
        "attr.json",
        r#"{"fqn":"test.attr","data_type":"text"}"#,
    );
    let mut b = make_artifact(
        ArtifactType::AttributeJson,
        "attr.json",
        r#"{"fqn":"test.attr","data_type":"integer"}"#,
    );
    b.content_hash = "changed".to_string();
    let summary = diff_changesets(&vec![a], &vec![b]);
    assert_eq!(summary.breaking_changes.len(), 1, "Type change is breaking");
}

#[test]
fn diff_matches_by_ordinal_without_path_and_last_one_counts() {
    let mut a = make_artifact(ArtifactType::DocJson, "x", "{}");
    a.path = None;
    a.ordinal = 3;
    let mut older = make_artifact(ArtifactType::DocJson, "x", "{}");
    older.path = None;
    older.ordinal = 3;
    older.content_hash = "other".into();
    let mut newer = make_artifact(ArtifactType::DocJson, "x", "{}");
    newer.path = None;
    newer.ordinal = 3;
    // The later artifact with the same key counts: same hash as the base.
    let summary = diff_changesets(&vec![a], &vec![older, newer]);
    assert!(summary.modified.is_empty());
    assert!(summary.added.is_empty());
    let lone = summarize_changeset(&vec![{
        let mut x = make_artifact(ArtifactType::DocJson, "x", "{}");
        x.path = None;
        x.ordinal = -2;
        x
    }]);
    assert_eq!(lone.added[0].fqn, "doc_json:#-2");
    assert_eq!(lone.added[0].detail, None);
}

#[test]
fn diff_entries_come_in_key_order() {
    let target = vec![
        make_artifact(ArtifactType::VerbYaml, "b.yaml", "b"),
        make_artifact(ArtifactType::VerbYaml, "a.yaml", "a"),
    ];
    let summary = diff_changesets(&vec![], &target);
    let keys: Vec<&str> = summary.added.iter().map(|e| e.fqn.as_str()).collect();
    assert_eq!(keys, vec!["verb_yaml:a.yaml", "verb_yaml:b.yaml"]);
}

#[test]
fn added_keys_mirror_removed_keys() {
    let a = vec![
        make_artifact(ArtifactType::MigrationSql, "001.sql", "SELECT 1;"),
        make_artifact(ArtifactType::VerbYaml, "v.yaml", "x"),
    ];
    let b = vec![
        make_artifact(ArtifactType::MigrationSql, "001.sql", "SELECT 1;"),
        make_artifact(ArtifactType::DocJson, "d.json", "{}"),
        make_artifact(ArtifactType::AttributeJson, "a.json", "{}"),
    ];
    let forward = diff_changesets(&a, &b);
    let backward = diff_changesets(&b, &a);
    let added: Vec<(String, String)> =
        forward.added.iter().map(|e| (e.fqn.clone(), e.object_type.clone())).collect();
    let removed: Vec<(String, String)> =
        backward.removed.iter().map(|e| (e.fqn.clone(), e.object_type.clone())).collect();
    assert_eq!(added, removed);
    assert_eq!(
        added,
        vec![
            ("attribute_json:a.json".to_string(), "attribute_json".to_string()),
            ("doc_json:d.json".to_string(), "doc_json".to_string())
        ]
    );
    for r in &backward.removed {
        assert!(backward.breaking_changes.contains(r));
    }
    let same = diff_changesets(&a, &a);
    assert!(same.added.is_empty() && same.modified.is_empty());
    assert!(same.removed.is_empty() && same.breaking_changes.is_empty());
}

#[test]
fn only_changed_hashes_must_cut_at_eight_bytes() {
    let mut a = make_artifact(ArtifactType::MigrationSql, "001.sql", "SELECT 1;");
    a.content_hash = "abcdefgé-unchanged".to_string();
    let mut b = make_artifact(ArtifactType::MigrationSql, "001.sql", "SELECT 1;");
    b.content_hash = "abcdefgé-unchanged".to_string();
    assert!(diff_hashes_cuttable(&vec![a], &vec![b]));

    let mut c = make_artifact(ArtifactType::MigrationSql, "001.sql", "SELECT 1;");
    c.content_hash = "abcdefgé-old".to_string();
    let mut d = make_artifact(ArtifactType::MigrationSql, "001.sql", "SELECT 2;");
    d.content_hash = "0123456789".to_string();
    assert!(!diff_hashes_cuttable(&vec![c], &vec![d]));

    let e = make_artifact(ArtifactType::MigrationSql, "001.sql", "SELECT 1;");
    let f = make_artifact(ArtifactType::MigrationSql, "001.sql", "SELECT 22;");
    assert!(diff_hashes_cuttable(&vec![e.clone()], &vec![f.clone()]));
    let summary = diff_changesets(&vec![e], &vec![f]);
    assert_eq!(summary.modified[0].detail.as_deref(), Some("Hash changed: hash_9 → hash_10"));
}
