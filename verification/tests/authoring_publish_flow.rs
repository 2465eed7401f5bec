use sem_os_policy::authoring::governance::ChangeSetFull;
use sem_os_policy::authoring::publish_flow::{
    batch_start, batch_step, publish_start, publish_step, BatchState, PublishAction, PublishEvent,
    PublishState,
};
use sem_os_policy::authoring::types::{
    ArtifactType, AuditResult, AuthoringError, ChangeSetArtifact, ChangeSetStatus,
};
use sem_os_policy::gates::Timestamp;

fn ts(secs: i64) -> Timestamp {
    Timestamp { secs, nanos: 0, text: format!("t{secs}") }
}

fn change_set(status: ChangeSetStatus, evaluated: Option<u128>, supersedes: Option<u128>) -> ChangeSetFull {
    ChangeSetFull {
        change_set_id: 10,
        status,
        content_hash: "h".to_string(),
        hash_version: "v1".to_string(),
        title: "t".to_string(),
        rationale: None,
        created_by: "me".to_string(),
        scope: "authoring".to_string(),
        created_at: ts(1),
        updated_at: ts(1),
        supersedes_change_set_id: supersedes,
        superseded_by: None,
        superseded_at: None,
        depends_on: vec![],
        evaluated_against_snapshot_set_id: evaluated,
    }
}

fn migration(ordinal: i32, path: Option<&str>, sql: &str) -> ChangeSetArtifact {
    ChangeSetArtifact {
        artifact_id: 1,
        change_set_id: 10,
        artifact_type: ArtifactType::MigrationSql,
        ordinal,
        path: path.map(|p| p.to_string()),
        content: sql.to_string(),
        content_hash: "h".to_string(),
        metadata: None,
    }
}

#[test]
fn publish_runs_every_step_in_order() {
    let (s, a) = publish_start(10, "alice".to_string());
    assert!(matches!(a, PublishAction::LoadChangeSet(10)));
    let (s, a) = publish_step(s, PublishEvent::ChangeSet(change_set(ChangeSetStatus::DryRunPassed, Some(7), Some(3))));
    assert!(matches!(a, PublishAction::AcquireLock));
    let (s, a) = publish_step(s, PublishEvent::Lock(true));
    assert!(matches!(a, PublishAction::FetchActive));
    let (s, a) = publish_step(s, PublishEvent::Active(Some(7)));
    assert!(matches!(a, PublishAction::LoadArtifacts(10)));
    let (s, a) = publish_step(
        s,
        PublishEvent::Artifacts(vec![migration(2, Some("b.sql"), "B"), migration(1, None, "A")]),
    );
    match a {
        PublishAction::ApplyMigrations(t) => assert_eq!(
            t,
            vec![("ordinal_1".to_string(), "A".to_string()), ("b.sql".to_string(), "B".to_string())]
        ),
        other => panic!("unexpected {other:?}"),
    }
    let (s, a) = publish_step(s, PublishEvent::Stored);
    assert!(matches!(a, PublishAction::MarkPublished(10)));
    let (s, a) = publish_step(s, PublishEvent::Stored);
    assert!(matches!(a, PublishAction::MarkSuperseded { superseded: 3, by: 10 }));
    let (s, a) = publish_step(s, PublishEvent::Stored);
    match &a {
        PublishAction::CreateSnapshotSet { change_set_ids, publisher } => {
            assert_eq!(change_set_ids, &vec![10]);
            assert_eq!(publisher, "alice");
        }
        other => panic!("unexpected {other:?}"),
    }
    let (s, a) = publish_step(
        s,
        PublishEvent::SnapshotCreated {
            snapshot_set_id: 20,
            batch_id: 30,
            published_at: ts(5),
            entry_id: 40,
            logged_at: ts(6),
            duration_ms: 12,
        },
    );
    match &a {
        PublishAction::RecordBatch(b) => {
            assert_eq!(b.batch_id, 30);
            assert_eq!(b.change_set_ids, vec![10]);
            assert_eq!(b.snapshot_set_id, 20);
        }
        other => panic!("unexpected {other:?}"),
    }
    let (s, a) = publish_step(s, PublishEvent::Stored);
    match &a {
        PublishAction::RecordAudit(e) => {
            assert_eq!(e.verb, "publish_snapshot_set");
            assert_eq!(e.snapshot_set_id, Some(20));
            assert_eq!(e.result, AuditResult::Success { detail: None });
        }
        other => panic!("unexpected {other:?}"),
    }
    let (s, a) = publish_step(s, PublishEvent::Stored);
    assert!(matches!(a, PublishAction::Finish));
    assert!(matches!(s, PublishState::Done));
}

#[test]
fn publish_without_migrations_skips_applying() {
    let (s, _) = publish_start(10, "alice".to_string());
    let (s, _) = publish_step(s, PublishEvent::ChangeSet(change_set(ChangeSetStatus::DryRunPassed, None, None)));
    let (s, _) = publish_step(s, PublishEvent::Lock(true));
    let (s, _) = publish_step(s, PublishEvent::Active(None));
    let (s, a) = publish_step(s, PublishEvent::Artifacts(vec![]));
    assert!(matches!(a, PublishAction::MarkPublished(10)));
    let (_, a) = publish_step(s, PublishEvent::Stored);
    assert!(matches!(a, PublishAction::CreateSnapshotSet { .. }));
}

#[test]
fn publish_drift_is_recorded_then_refused() {
    let (s, _) = publish_start(10, "alice".to_string());
    let (s, _) = publish_step(s, PublishEvent::ChangeSet(change_set(ChangeSetStatus::DryRunPassed, None, None)));
    let (s, _) = publish_step(s, PublishEvent::Lock(true));
    let (s, a) = publish_step(s, PublishEvent::Active(Some(7)));
    assert!(matches!(a, PublishAction::FetchAuditContext));
    let (s, a) = publish_step(
        s,
        PublishEvent::AuditContext { active: Some(7), entry_id: 1, logged_at: ts(2), duration_ms: 3 },
    );
    match &a {
        PublishAction::RecordAudit(e) => {
            assert_eq!(e.snapshot_set_id, None);
            assert_eq!(e.active_snapshot_set_id, 7);
            match &e.result {
                AuditResult::Failure { code, .. } => assert_eq!(code, "PUBLISH:DRIFT_DETECTED"),
                other => panic!("unexpected {other:?}"),
            }
        }
        other => panic!("unexpected {other:?}"),
    }
    // a failed audit write does not change the outcome
    let (s, a) = publish_step(s, PublishEvent::StoreFailed(AuthoringError::Internal("db".to_string())));
    match a {
        PublishAction::Fail(AuthoringError::Conflict(m)) => assert!(m.starts_with("Snapshot set drift detected")),
        other => panic!("unexpected {other:?}"),
    }
    assert!(matches!(s, PublishState::Done));
}

#[test]
fn publish_lock_contention_is_recorded_then_refused() {
    let (s, _) = publish_start(10, "alice".to_string());
    let (s, _) = publish_step(s, PublishEvent::ChangeSet(change_set(ChangeSetStatus::DryRunPassed, None, None)));
    let (s, a) = publish_step(s, PublishEvent::Lock(false));
    assert!(matches!(a, PublishAction::FetchAuditContext));
    let (s, a) = publish_step(
        s,
        PublishEvent::AuditContext { active: None, entry_id: 1, logged_at: ts(2), duration_ms: 3 },
    );
    match &a {
        PublishAction::RecordAudit(e) => {
            assert_eq!(e.active_snapshot_set_id, 0);
            assert_eq!(
                e.result,
                AuditResult::Failure {
                    code: "PUBLISH:LOCK_CONTENTION".to_string(),
                    message: "Another publish is in progress".to_string()
                }
            );
        }
        other => panic!("unexpected {other:?}"),
    }
    let (_, a) = publish_step(s, PublishEvent::Stored);
    match a {
        PublishAction::Fail(e) => assert_eq!(
            e,
            AuthoringError::Conflict(
                "Could not acquire publish lock — another publish is in progress".to_string()
            )
        ),
        other => panic!("unexpected {other:?}"),
    }
}

#[test]
fn publish_refuses_a_change_set_that_did_not_pass_dry_run() {
    let (s, _) = publish_start(10, "alice".to_string());
    let (s, a) = publish_step(s, PublishEvent::ChangeSet(change_set(ChangeSetStatus::Validated, None, None)));
    match a {
        PublishAction::Fail(e) => assert_eq!(
            e,
            AuthoringError::InvalidInput(
                "Cannot publish ChangeSet in status 'validated' — must be DryRunPassed".to_string()
            )
        ),
        other => panic!("unexpected {other:?}"),
    }
    assert!(matches!(s, PublishState::Done));
}

#[test]
fn publish_stops_on_a_store_failure() {
    let (s, _) = publish_start(10, "alice".to_string());
    let (s, a) = publish_step(s, PublishEvent::StoreFailed(AuthoringError::Internal("gone".to_string())));
    assert!(matches!(a, PublishAction::Fail(AuthoringError::Internal(_))));
    assert!(matches!(s, PublishState::Done));
}

fn cs_with(id: u128, status: ChangeSetStatus, depends_on: Vec<u128>) -> ChangeSetFull {
    let mut cs = change_set(status, None, None);
    cs.change_set_id = id;
    cs.depends_on = depends_on;
    cs
}

#[test]
fn batch_publish_orders_checks_and_records() {
    // 1 depends on 2
    let (s, a) = batch_start(vec![1, 2], "bob".to_string());
    assert!(matches!(a, PublishAction::LoadChangeSet(1)));
    let (s, a) = batch_step(s, PublishEvent::ChangeSet(cs_with(1, ChangeSetStatus::DryRunPassed, vec![2])));
    assert!(matches!(a, PublishAction::LoadChangeSet(2)));
    let (s, a) = batch_step(s, PublishEvent::ChangeSet(cs_with(2, ChangeSetStatus::DryRunPassed, vec![])));
    // sorted is [2, 1]; statuses are checked in that order
    assert!(matches!(a, PublishAction::LoadChangeSet(2)));
    let (s, a) = batch_step(s, PublishEvent::ChangeSet(cs_with(2, ChangeSetStatus::DryRunPassed, vec![])));
    assert!(matches!(a, PublishAction::LoadChangeSet(1)));
    let (s, a) = batch_step(s, PublishEvent::ChangeSet(cs_with(1, ChangeSetStatus::DryRunPassed, vec![2])));
    assert!(matches!(a, PublishAction::AcquireLock));
    let (s, a) = batch_step(s, PublishEvent::Lock(true));
    assert!(matches!(a, PublishAction::LoadArtifacts(2)));
    let (s, a) = batch_step(s, PublishEvent::Artifacts(vec![]));
    assert!(matches!(a, PublishAction::LoadArtifacts(1)));
    let (s, a) = batch_step(s, PublishEvent::Artifacts(vec![migration(1, Some("x.sql"), "X")]));
    assert!(matches!(a, PublishAction::ApplyMigrations(_)));
    let (s, a) = batch_step(s, PublishEvent::Stored);
    assert!(matches!(a, PublishAction::MarkPublished(2)));
    let (s, a) = batch_step(s, PublishEvent::Stored);
    assert!(matches!(a, PublishAction::MarkPublished(1)));
    let (s, a) = batch_step(s, PublishEvent::Stored);
    match &a {
        PublishAction::CreateSnapshotSet { change_set_ids, .. } => assert_eq!(change_set_ids, &vec![2, 1]),
        other => panic!("unexpected {other:?}"),
    }
    let (s, a) = batch_step(
        s,
        PublishEvent::SnapshotCreated {
            snapshot_set_id: 9,
            batch_id: 8,
            published_at: ts(1),
            entry_id: 7,
            logged_at: ts(2),
            duration_ms: 3,
        },
    );
    assert!(matches!(a, PublishAction::RecordBatch(_)));
    let (s, a) = batch_step(s, PublishEvent::Stored);
    match &a {
        PublishAction::RecordAudit(e) => assert_eq!(
            e.result,
            AuditResult::Success { detail: Some("2 ChangeSets published".to_string()) }
        ),
        other => panic!("unexpected {other:?}"),
    }
    let (s, a) = batch_step(s, PublishEvent::Stored);
    assert!(matches!(a, PublishAction::Finish));
    assert!(matches!(s, BatchState::Done));
}

#[test]
fn batch_publish_refuses_cycles_unready_members_and_a_held_lock() {
    let (s, _) = batch_start(vec![1, 2], "bob".to_string());
    let (s, _) = batch_step(s, PublishEvent::ChangeSet(cs_with(1, ChangeSetStatus::DryRunPassed, vec![2])));
    let (_, a) = batch_step(s, PublishEvent::ChangeSet(cs_with(2, ChangeSetStatus::DryRunPassed, vec![1])));
    match a {
        PublishAction::Fail(e) => assert_eq!(
            e,
            AuthoringError::InvalidInput("Circular dependency detected in batch publish".to_string())
        ),
        other => panic!("unexpected {other:?}"),
    }
    let (s, _) = batch_start(vec![5], "bob".to_string());
    let (s, _) = batch_step(s, PublishEvent::ChangeSet(cs_with(5, ChangeSetStatus::Validated, vec![])));
    let (_, a) = batch_step(s, PublishEvent::ChangeSet(cs_with(5, ChangeSetStatus::Validated, vec![])));
    match a {
        PublishAction::Fail(AuthoringError::InvalidInput(m)) => {
            assert!(m.ends_with("is not DryRunPassed (status: validated)"))
        }
        other => panic!("unexpected {other:?}"),
    }
    let (s, _) = batch_start(vec![], "bob".to_string());
    let (_, a) = batch_step(s, PublishEvent::Lock(false));
    assert!(matches!(a, PublishAction::Fail(AuthoringError::Conflict(_))));
}
