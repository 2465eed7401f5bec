use sem_os_policy::authoring::governance::{
    batch_publish_records, check_batch_member, check_drift, check_status, cs_to_manifest,
    dry_run_outcome, lock_contention_entry, lock_contention_error, migration_tuples,
    plan_publish_from, publish_failure_entry, publish_records, validate_step, ChangeSetFull,
    GovernanceVerb,
};
use sem_os_policy::authoring::topo::topological_sort;
use sem_os_policy::authoring::types::{
    ArtifactType, AuditResult, AuthoringError, ChangeSetArtifact, ChangeSetStatus,
};
use sem_os_policy::gates::Timestamp;

fn ts(secs: i64) -> Timestamp {
    Timestamp { secs, nanos: 0, text: format!("t{secs}") }
}

fn change_set(status: ChangeSetStatus) -> ChangeSetFull {
    ChangeSetFull {
        change_set_id: uuid::Uuid::new_v4().as_u128(),
        status,
        content_hash: "abc".to_string(),
        hash_version: "v1".to_string(),
        title: "Test title".to_string(),
        rationale: Some("Test rationale".to_string()),
        created_by: "test".to_string(),
        scope: "authoring".to_string(),
        created_at: ts(1),
        updated_at: ts(1),
        supersedes_change_set_id: None,
        superseded_by: None,
        superseded_at: None,
        depends_on: vec![uuid::Uuid::new_v4().as_u128()],
        evaluated_against_snapshot_set_id: None,
    }
}

fn artifact(t: ArtifactType, ordinal: i32, path: Option<&str>, content: &str) -> ChangeSetArtifact {
    ChangeSetArtifact {
        artifact_id: 1,
        change_set_id: 2,
        artifact_type: t,
        ordinal,
        path: path.map(|p| p.to_string()),
        content: content.to_string(),
        content_hash: "h".to_string(),
        metadata: None,
    }
}

#[test]
fn test_cs_to_manifest_round_trip() {
    let cs = change_set(ChangeSetStatus::Draft);
    let manifest = cs_to_manifest(&cs);
    assert_eq!(manifest.title, cs.title);
    assert_eq!(manifest.rationale, cs.rationale);
    assert_eq!(manifest.depends_on, cs.depends_on);
    assert_eq!(manifest.supersedes, cs.supersedes_change_set_id);
    assert!(manifest.artifacts.is_empty());
}

#[test]
fn status_guards_name_the_status() {
    assert!(check_status(GovernanceVerb::Validate, ChangeSetStatus::Draft).is_ok());
    assert_eq!(
        check_status(GovernanceVerb::Validate, ChangeSetStatus::Published),
        Err(AuthoringError::InvalidInput(
            "Cannot validate ChangeSet in status 'published' — must be Draft".to_string()
        ))
    );
    assert_eq!(
        check_status(GovernanceVerb::DryRun, ChangeSetStatus::Draft),
        Err(AuthoringError::InvalidInput(
            "Cannot dry-run ChangeSet in status 'draft' — must be Validated".to_string()
        ))
    );
    assert_eq!(
        check_status(GovernanceVerb::PlanPublish, ChangeSetStatus::Validated),
        Err(AuthoringError::InvalidInput(
            "Cannot plan publish for ChangeSet in status 'validated' — must be DryRunPassed".to_string()
        ))
    );
    assert_eq!(
        check_status(GovernanceVerb::Publish, ChangeSetStatus::DryRunFailed),
        Err(AuthoringError::InvalidInput(
            "Cannot publish ChangeSet in status 'dry_run_failed' — must be DryRunPassed".to_string()
        ))
    );
    assert!(check_status(GovernanceVerb::Publish, ChangeSetStatus::DryRunPassed).is_ok());
}

#[test]
fn terminal_statuses_are_refused_by_every_verb() {
    for verb in [
        GovernanceVerb::Validate,
        GovernanceVerb::DryRun,
        GovernanceVerb::PlanPublish,
        GovernanceVerb::Publish,
    ] {
        for status in [
            ChangeSetStatus::Published,
            ChangeSetStatus::Rejected,
            ChangeSetStatus::Superseded,
            ChangeSetStatus::DryRunFailed,
        ] {
            assert!(check_status(verb, status).is_err());
        }
    }
}

#[test]
fn validate_step_moves_a_clean_draft_to_validated() {
    let cs = change_set(ChangeSetStatus::Draft);
    let (report, next) = validate_step(&cs, &vec![]).unwrap();
    assert!(report.ok);
    assert_eq!(next, ChangeSetStatus::Validated);
    let refused = validate_step(&change_set(ChangeSetStatus::Validated), &vec![]);
    assert!(refused.is_err());
}

#[test]
fn validate_step_rejects_a_draft_with_errors() {
    let mut cs = change_set(ChangeSetStatus::Draft);
    let dep = cs.depends_on[0];
    cs.depends_on = vec![dep, dep];
    let (report, next) = validate_step(&cs, &vec![]).unwrap();
    assert!(!report.ok);
    assert_eq!(next, ChangeSetStatus::Rejected);
}

#[test]
fn dry_run_outcomes() {
    assert_eq!(dry_run_outcome(true), ChangeSetStatus::DryRunPassed);
    assert_eq!(dry_run_outcome(false), ChangeSetStatus::DryRunFailed);
}

#[test]
fn plan_publish_counts_and_sorts() {
    let mut cs = change_set(ChangeSetStatus::DryRunPassed);
    cs.evaluated_against_snapshot_set_id = Some(7);
    let arts = vec![
        artifact(ArtifactType::VerbYaml, 0, Some("verbs/a.yaml"), "verb: a"),
        artifact(ArtifactType::MigrationSql, 1, Some("m/1.sql"), "DROP TABLE x;"),
        artifact(ArtifactType::MigrationSql, 2, Some("m/2.sql"), "CREATE TABLE y (id int);"),
        artifact(ArtifactType::MigrationDownSql, 3, Some("m/1.down.sql"), "CREATE TABLE x (id int);"),
        artifact(ArtifactType::AttributeJson, 4, Some("a.json"), "{}"),
    ];
    let plan = plan_publish_from(&cs, &arts, Some(7)).unwrap();
    assert_eq!(plan.migration_count, 2);
    assert_eq!(plan.down_migration_count, 1);
    assert_eq!(plan.diff.added.len(), 5);
    assert_eq!(plan.breaking_change_count, 1);
    assert!(plan.has_breaking_changes);
    assert_eq!(
        plan.affected_artifact_types,
        vec![
            "attribute_json".to_string(),
            "migration_down_sql".to_string(),
            "migration_sql".to_string(),
            "verb_yaml".to_string()
        ]
    );
    assert!(!plan.stale_dry_run);
    assert_eq!(plan.depends_on, cs.depends_on);
    let moved = plan_publish_from(&cs, &arts, Some(8)).unwrap();
    assert!(moved.stale_dry_run);
    let none = plan_publish_from(&cs, &arts, None).unwrap();
    assert!(none.stale_dry_run);
    assert!(plan_publish_from(&change_set(ChangeSetStatus::Validated), &arts, None).is_err());
}

#[test]
fn drift_is_detected_and_described() {
    assert!(check_drift(None, None).is_ok());
    let missing = check_drift(None, Some(3)).unwrap_err();
    assert_eq!(
        missing.error,
        AuthoringError::Conflict(format!(
            "Snapshot set drift detected: dry-run evaluated against <none>, but current active is {}. Re-run dry-run.",
            uuid::Uuid::from_u128(3)
        ))
    );
    assert!(check_drift(Some(3), Some(3)).is_ok());
    let e = uuid::Uuid::from_u128(3);
    let c = uuid::Uuid::from_u128(4);
    let f = check_drift(Some(3), Some(4)).unwrap_err();
    assert_eq!(
        f.detail,
        format!(
            "Dry-run was evaluated against snapshot set {:?}, but current active is {:?}. Re-run dry-run first.",
            e,
            Some(c)
        )
    );
    assert_eq!(
        f.error,
        AuthoringError::Conflict(format!(
            "Snapshot set drift detected: dry-run evaluated against {e}, but current active is {c}. Re-run dry-run."
        ))
    );
    let g = check_drift(Some(3), None).unwrap_err();
    assert_eq!(
        g.error,
        AuthoringError::Conflict(format!(
            "Snapshot set drift detected: dry-run evaluated against {e}, but current active is <none>. Re-run dry-run."
        ))
    );
    assert!(g.detail.ends_with("current active is None. Re-run dry-run first."));
}

#[test]
fn migrations_apply_in_ordinal_order() {
    let arts = vec![
        artifact(ArtifactType::MigrationSql, 5, Some("b.sql"), "B"),
        artifact(ArtifactType::VerbYaml, 0, Some("v.yaml"), "V"),
        artifact(ArtifactType::MigrationSql, -1, None, "A"),
        artifact(ArtifactType::MigrationSql, 5, Some("c.sql"), "C"),
        artifact(ArtifactType::MigrationDownSql, 0, Some("d.sql"), "D"),
    ];
    let tuples = migration_tuples(&arts);
    assert_eq!(
        tuples,
        vec![
            ("ordinal_-1".to_string(), "A".to_string()),
            ("b.sql".to_string(), "B".to_string()),
            ("c.sql".to_string(), "C".to_string()),
        ]
    );
}

#[test]
fn publish_records_describe_the_publish() {
    let (batch, entry) = publish_records(11, 22, "alice", 33, ts(5), 44, ts(6), 9);
    assert_eq!(batch.change_set_ids, vec![11]);
    assert_eq!(batch.snapshot_set_id, 22);
    assert_eq!(batch.publisher, "alice");
    assert_eq!(entry.verb, "publish_snapshot_set");
    assert_eq!(entry.change_set_id, Some(11));
    assert_eq!(entry.active_snapshot_set_id, 22);
    assert_eq!(entry.result, AuditResult::Success { detail: None });
    let (b2, e2) = batch_publish_records(&vec![1, 2, 3], 22, "bob", 33, ts(5), 44, ts(6), 9);
    assert_eq!(b2.change_set_ids, vec![1, 2, 3]);
    assert_eq!(e2.verb, "publish_batch");
    assert_eq!(e2.change_set_id, None);
    assert_eq!(
        e2.result,
        AuditResult::Success { detail: Some("3 ChangeSets published".to_string()) }
    );
}

#[test]
fn failure_entries_record_the_code() {
    let e = publish_failure_entry(1, "X:Y", "boom", None, 2, ts(1), 3);
    assert_eq!(e.active_snapshot_set_id, 0);
    assert_eq!(
        e.result,
        AuditResult::Failure { code: "X:Y".to_string(), message: "boom".to_string() }
    );
    let l = lock_contention_entry(1, Some(9), 2, ts(1), 3);
    assert_eq!(l.active_snapshot_set_id, 9);
    assert_eq!(
        l.result,
        AuditResult::Failure {
            code: "PUBLISH:LOCK_CONTENTION".to_string(),
            message: "Another publish is in progress".to_string()
        }
    );
    assert_eq!(
        lock_contention_error(),
        AuthoringError::Conflict(
            "Could not acquire publish lock — another publish is in progress".to_string()
        )
    );
}

#[test]
fn batch_members_must_have_passed_dry_run() {
    assert!(check_batch_member(5, ChangeSetStatus::DryRunPassed).is_ok());
    let id = uuid::Uuid::from_u128(5);
    assert_eq!(
        check_batch_member(5, ChangeSetStatus::Validated),
        Err(AuthoringError::InvalidInput(format!(
            "ChangeSet {id} is not DryRunPassed (status: validated)"
        )))
    );
}

#[test]
fn topological_sort_puts_dependencies_first() {
    // 3 depends on 1 and 2; 2 depends on 1; 9 is outside the batch.
    let ids = vec![3u128, 2, 1];
    let deps = vec![vec![1u128, 2, 9], vec![1u128], vec![]];
    let order = topological_sort(&ids, &deps).unwrap();
    assert_eq!(order, vec![1, 2, 3]);
}

#[test]
fn topological_sort_keeps_independent_sets_in_batch_order() {
    let ids = vec![5u128, 4, 6];
    let deps = vec![vec![], vec![], vec![]];
    assert_eq!(topological_sort(&ids, &deps).unwrap(), vec![5, 4, 6]);
}

#[test]
fn topological_sort_refuses_cycles_and_repeats() {
    let cyc = topological_sort(&vec![1u128, 2], &vec![vec![2u128], vec![1u128]]);
    assert_eq!(
        cyc,
        Err(AuthoringError::InvalidInput(
            "Circular dependency detected in batch publish".to_string()
        ))
    );
    let rep = topological_sort(&vec![1u128, 1], &vec![vec![], vec![]]);
    assert!(rep.is_err());
    let self_dep = topological_sort(&vec![1u128], &vec![vec![1u128]]);
    assert!(self_dep.is_err());
}
