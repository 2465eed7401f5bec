//! The publish of one change set as a sequence of decisions: from the state
//! reached and what the store answered, the next state and the next thing
//! to ask of the store. The caller performs each action and reports back.

use vstd::prelude::*;

use crate::authoring::errors::{PUBLISH_DRIFT_DETECTED, PUBLISH_LOCK_CONTENTION};
use crate::authoring::governance::{
    check_drift, check_status, drift_detail, drift_message, drifted, forward_migrations, guard_message,
    invalid_input, conflict, lock_contention_detail, lock_contention_error, lock_contention_message,
    migration_name, migration_tuples, ordinal_keys, plain_entry, publish_failure_entry, publish_records,
    required_status, ChangeSetFull, GovernanceAuditEntry, GovernanceVerb, PublishBatch,
};
use crate::authoring::governance::{batch_member_message, batch_publish_records, check_batch_member};
use crate::authoring::topo::{circular_message, has_repeats, is_dependency_order, topological_sort};
use crate::authoring::types::{AuditResult, AuthoringError, ChangeSetArtifact, ChangeSetStatus};
use crate::text::decimal;
use crate::gates::Timestamp;
use crate::order::is_stable_int_order;
use crate::text::owned;

verus! {

/// Where a publish stands.
#[derive(Debug)]
pub enum PublishState {
    /// Nothing asked yet.
    Start { change_set_id: u128, publisher: String },
    /// The change set was asked for.
    AwaitChangeSet { change_set_id: u128, publisher: String },
    /// The publish lock was asked for.
    AwaitLock { cs: ChangeSetFull, publisher: String },
    /// The active snapshot set was asked for.
    AwaitActive { cs: ChangeSetFull, publisher: String },
    /// A failure is to be recorded; what the audit entry needs was asked for.
    AwaitAuditContext { change_set_id: u128, code: String, message: String, error: AuthoringError },
    /// The failure's audit entry was written.
    AwaitFailureLogged { error: AuthoringError },
    /// The artifacts were asked for.
    AwaitArtifacts { cs: ChangeSetFull, publisher: String },
    /// The migrations were applied.
    AwaitMigrations { cs: ChangeSetFull, publisher: String },
    /// The change set was marked published.
    AwaitStatus { cs: ChangeSetFull, publisher: String },
    /// The superseded change set was marked.
    AwaitSupersede { cs: ChangeSetFull, publisher: String },
    /// A snapshot set was asked to be created and activated.
    AwaitSnapshot { cs: ChangeSetFull, publisher: String },
    /// The batch record was written; the audit entry is to follow.
    AwaitBatch { entry: GovernanceAuditEntry },
    /// The audit entry was written.
    AwaitAudit,
    /// The publish is over.
    Done,
}

/// What the store answered.
#[derive(Debug)]
pub enum PublishEvent {
    /// The change set.
    ChangeSet(ChangeSetFull),
    /// Whether the publish lock was taken.
    Lock(bool),
    /// The active snapshot set.
    Active(Option<u128>),
    /// What a failure's audit entry records beside the failure: the active
    /// snapshot set (`None` also when it could not be read), a fresh entry
    /// id, the time, and how long the publish has run.
    AuditContext { active: Option<u128>, entry_id: u128, logged_at: Timestamp, duration_ms: u64 },
    /// The change set's artifacts.
    Artifacts(Vec<ChangeSetArtifact>),
    /// The last write succeeded.
    Stored,
    /// The snapshot set was created and activated; with fresh ids, the
    /// times, and how long the publish has run.
    SnapshotCreated {
        snapshot_set_id: u128,
        batch_id: u128,
        published_at: Timestamp,
        entry_id: u128,
        logged_at: Timestamp,
        duration_ms: u64,
    },
    /// The store failed.
    StoreFailed(AuthoringError),
}

/// What to ask of the store next.
#[derive(Debug)]
pub enum PublishAction {
    LoadChangeSet(u128),
    AcquireLock,
    FetchActive,
    FetchAuditContext,
    RecordAudit(GovernanceAuditEntry),
    LoadArtifacts(u128),
    ApplyMigrations(Vec<(String, String)>),
    MarkPublished(u128),
    MarkSuperseded { superseded: u128, by: u128 },
    CreateSnapshotSet { change_set_ids: Vec<u128>, publisher: String },
    RecordBatch(PublishBatch),
    /// The publish succeeded with the batch that was recorded.
    Finish,
    /// The publish failed with this error.
    Fail(AuthoringError),
}

/// The refusal of an event the state does not wait for.
pub open spec fn unexpected_message() -> Seq<char> {
    "unexpected answer during publish"@
}

/// The error of an answer the state does not wait for.
pub open spec fn unexpected_error(e: AuthoringError) -> bool {
    e matches AuthoringError::Internal(m) && m@ == unexpected_message()
}

/// The audit entry of a failed publish.
pub open spec fn failure_entry(
    e: GovernanceAuditEntry,
    change_set_id: u128,
    code: Seq<char>,
    message: Seq<char>,
    active: Option<u128>,
    entry_id: u128,
    logged_at: Timestamp,
    duration_ms: u64,
) -> bool {
    &&& plain_entry(e, entry_id, logged_at, "publish_snapshot_set"@, duration_ms)
    &&& e.change_set_id == Some(change_set_id)
    &&& e.snapshot_set_id is None
    &&& e.active_snapshot_set_id == match active {
        Some(a) => a,
        None => 0,
    }
    &&& e.result matches AuditResult::Failure { code: c, message: m } && c@ == code && m@ == message
}

/// The state and action after the change set is marked published: mark
/// the change set it supersedes, if any, else create the snapshot set.
pub open spec fn after_published(cs: ChangeSetFull, publisher: String, r: (PublishState, PublishAction)) -> bool {
    match cs.supersedes_change_set_id {
        Some(old) => r.0 == (PublishState::AwaitSupersede { cs, publisher }) && r.1 == (PublishAction::MarkSuperseded {
            superseded: old,
            by: cs.change_set_id,
        }),
        None => after_superseded(cs, publisher, r),
    }
}

/// The state and action once supersession is handled: create and activate
/// a snapshot set of this change set.
pub open spec fn after_superseded(cs: ChangeSetFull, publisher: String, r: (PublishState, PublishAction)) -> bool {
    &&& r.0 == (PublishState::AwaitSnapshot { cs, publisher })
    &&& r.1 matches PublishAction::CreateSnapshotSet { change_set_ids, publisher: p } && change_set_ids@ == seq![
        cs.change_set_id,
    ] && p@ == publisher@
}

fn snapshot_step(cs: ChangeSetFull, publisher: String) -> (r: (PublishState, PublishAction))
    ensures
        after_superseded(cs, publisher, r),
{
    let mut ids: Vec<u128> = Vec::new();
    ids.push(cs.change_set_id);
    let p = publisher.clone();
    (PublishState::AwaitSnapshot { cs, publisher }, PublishAction::CreateSnapshotSet { change_set_ids: ids, publisher: p })
}

/// The first step of publishing a change set: ask for it.
pub fn publish_start(change_set_id: u128, publisher: String) -> (r: (PublishState, PublishAction))
    ensures
        r.0 == (PublishState::AwaitChangeSet { change_set_id, publisher }),
        r.1 == PublishAction::LoadChangeSet(change_set_id),
{
    (PublishState::AwaitChangeSet { change_set_id, publisher }, PublishAction::LoadChangeSet(change_set_id))
}

/// One step of a publish. Only a change set that passed its dry run is
/// published; the single-publisher lock must be taken; the dry run must
/// have been evaluated against the active snapshot set. A refusal for the
/// lock or for drift is recorded in the audit log (whether that write
/// succeeds or not) before the publish fails. Then the forward migrations
/// are applied in ordinal order (none asked when there are none), the
/// change set is marked published, the change set it supersedes is marked,
/// a snapshot set is created and activated, and the batch and the audit
/// entry are written. A store failure ends the publish with its error.
pub fn publish_step(state: PublishState, event: PublishEvent) -> (r: (PublishState, PublishAction))
    ensures
        match (state, event) {
            (PublishState::AwaitFailureLogged { error }, _) => r.0 == PublishState::Done && r.1
                == PublishAction::Fail(error),
            (_, PublishEvent::StoreFailed(e)) => r.0 == PublishState::Done && r.1 == PublishAction::Fail(e),
            (PublishState::AwaitChangeSet { change_set_id, publisher }, PublishEvent::ChangeSet(cs)) => if cs.status
                == required_status(GovernanceVerb::Publish) {
                r.0 == (PublishState::AwaitLock { cs, publisher }) && r.1 == PublishAction::AcquireLock
            } else {
                &&& r.0 == PublishState::Done
                &&& r.1 matches PublishAction::Fail(e) && invalid_input(e, guard_message(GovernanceVerb::Publish, cs.status))
            },
            (PublishState::AwaitLock { cs, publisher }, PublishEvent::Lock(taken)) => if taken {
                r.0 == (PublishState::AwaitActive { cs, publisher }) && r.1 == PublishAction::FetchActive
            } else {
                &&& r.1 == PublishAction::FetchAuditContext
                &&& r.0 matches PublishState::AwaitAuditContext { change_set_id, code, message, error }
                &&& change_set_id == cs.change_set_id
                &&& code@ == PUBLISH_LOCK_CONTENTION@
                &&& message@ == lock_contention_detail()
                &&& conflict(error, lock_contention_message())
            },
            (PublishState::AwaitActive { cs, publisher }, PublishEvent::Active(current)) => if drifted(
                cs.evaluated_against_snapshot_set_id,
                current,
            ) {
                &&& r.1 == PublishAction::FetchAuditContext
                &&& r.0 matches PublishState::AwaitAuditContext { change_set_id, code, message, error }
                &&& change_set_id == cs.change_set_id
                &&& code@ == PUBLISH_DRIFT_DETECTED@
                &&& message@ == drift_detail(cs.evaluated_against_snapshot_set_id, current)
                &&& conflict(error, drift_message(cs.evaluated_against_snapshot_set_id, current))
            } else {
                r.0 == (PublishState::AwaitArtifacts { cs, publisher }) && r.1 == PublishAction::LoadArtifacts(
                    cs.change_set_id,
                )
            },
            (
                PublishState::AwaitAuditContext { change_set_id, code, message, error },
                PublishEvent::AuditContext { active, entry_id, logged_at, duration_ms },
            ) => {
                &&& r.0 == (PublishState::AwaitFailureLogged { error })
                &&& r.1 matches PublishAction::RecordAudit(e) && failure_entry(
                    e,
                    change_set_id,
                    code@,
                    message@,
                    active,
                    entry_id,
                    logged_at,
                    duration_ms,
                )
            },
            (PublishState::AwaitArtifacts { cs, publisher }, PublishEvent::Artifacts(arts)) => {
                let m = forward_migrations(arts@);
                if m.len() == 0 {
                    r.0 == (PublishState::AwaitStatus { cs, publisher }) && r.1 == PublishAction::MarkPublished(
                        cs.change_set_id,
                    )
                } else {
                    &&& r.0 == (PublishState::AwaitMigrations { cs, publisher })
                    &&& r.1 matches PublishAction::ApplyMigrations(t) && exists|p: Seq<usize>|
                        #![trigger is_stable_int_order(ordinal_keys(m), p)]
                        is_stable_int_order(ordinal_keys(m), p) && t@.len() == p.len() && forall|i: int|
                            0 <= i < p.len() ==> (#[trigger] t@[i]).0@ == migration_name(m[p[i] as int])
                                && t@[i].1@ == m[p[i] as int].content@
                }
            },
            (PublishState::AwaitMigrations { cs, publisher }, PublishEvent::Stored) => r.0
                == (PublishState::AwaitStatus { cs, publisher }) && r.1 == PublishAction::MarkPublished(
                cs.change_set_id,
            ),
            (PublishState::AwaitStatus { cs, publisher }, PublishEvent::Stored) => after_published(cs, publisher, r),
            (PublishState::AwaitSupersede { cs, publisher }, PublishEvent::Stored) => after_superseded(
                cs,
                publisher,
                r,
            ),
            (
                PublishState::AwaitSnapshot { cs, publisher },
                PublishEvent::SnapshotCreated {
                    snapshot_set_id,
                    batch_id,
                    published_at,
                    entry_id,
                    logged_at,
                    duration_ms,
                },
            ) => {
                &&& r.0 matches PublishState::AwaitBatch { entry }
                &&& r.1 matches PublishAction::RecordBatch(batch)
                &&& batch.batch_id == batch_id
                &&& batch.change_set_ids@ == seq![cs.change_set_id]
                &&& batch.snapshot_set_id == snapshot_set_id
                &&& batch.published_at == published_at
                &&& batch.publisher@ == publisher@
                &&& plain_entry(entry, entry_id, logged_at, "publish_snapshot_set"@, duration_ms)
                &&& entry.change_set_id == Some(cs.change_set_id)
                &&& entry.snapshot_set_id == Some(snapshot_set_id)
                &&& entry.active_snapshot_set_id == snapshot_set_id
                &&& entry.result == (AuditResult::Success { detail: None })
            },
            (PublishState::AwaitBatch { entry }, PublishEvent::Stored) => r.0 == PublishState::AwaitAudit && r.1
                == PublishAction::RecordAudit(entry),
            (PublishState::AwaitAudit, PublishEvent::Stored) => r.0 == PublishState::Done && r.1
                == PublishAction::Finish,
            (PublishState::Start { change_set_id, publisher }, _) => r.0 == (PublishState::AwaitChangeSet {
                change_set_id,
                publisher,
            }) && r.1 == PublishAction::LoadChangeSet(change_set_id),
            _ => {
                &&& r.0 == PublishState::Done
                &&& r.1 matches PublishAction::Fail(e) && unexpected_error(e)
            },
        },
{
    match (state, event) {
        (PublishState::AwaitFailureLogged { error }, _) => (PublishState::Done, PublishAction::Fail(error)),
        (_, PublishEvent::StoreFailed(e)) => (PublishState::Done, PublishAction::Fail(e)),
        (PublishState::AwaitChangeSet { change_set_id, publisher }, PublishEvent::ChangeSet(cs)) => {
            match check_status(GovernanceVerb::Publish, cs.status) {
                Err(e) => (PublishState::Done, PublishAction::Fail(e)),
                Ok(()) => (PublishState::AwaitLock { cs, publisher }, PublishAction::AcquireLock),
            }
        },
        (PublishState::AwaitLock { cs, publisher }, PublishEvent::Lock(taken)) => {
            if taken {
                (PublishState::AwaitActive { cs, publisher }, PublishAction::FetchActive)
            } else {
                (
                    PublishState::AwaitAuditContext {
                        change_set_id: cs.change_set_id,
                        code: owned(PUBLISH_LOCK_CONTENTION),
                        message: owned("Another publish is in progress"),
                        error: lock_contention_error(),
                    },
                    PublishAction::FetchAuditContext,
                )
            }
        },
        (PublishState::AwaitActive { cs, publisher }, PublishEvent::Active(current)) => {
            match check_drift(cs.evaluated_against_snapshot_set_id, current) {
                Err(f) => (
                    PublishState::AwaitAuditContext {
                        change_set_id: cs.change_set_id,
                        code: owned(PUBLISH_DRIFT_DETECTED),
                        message: f.detail,
                        error: f.error,
                    },
                    PublishAction::FetchAuditContext,
                ),
                Ok(()) => {
                    let id = cs.change_set_id;
                    (PublishState::AwaitArtifacts { cs, publisher }, PublishAction::LoadArtifacts(id))
                },
            }
        },
        (
            PublishState::AwaitAuditContext { change_set_id, code, message, error },
            PublishEvent::AuditContext { active, entry_id, logged_at, duration_ms },
        ) => {
            let entry = publish_failure_entry(
                change_set_id,
                code.as_str(),
                message.as_str(),
                active,
                entry_id,
                logged_at,
                duration_ms,
            );
            (PublishState::AwaitFailureLogged { error }, PublishAction::RecordAudit(entry))
        },
        (PublishState::AwaitArtifacts { cs, publisher }, PublishEvent::Artifacts(arts)) => {
            let tuples = migration_tuples(&arts);
            if tuples.len() == 0 {
                proof {
                    let m = forward_migrations(arts@);
                    let p = choose|p: Seq<usize>|
                        #![trigger is_stable_int_order(ordinal_keys(m), p)]
                        is_stable_int_order(ordinal_keys(m), p) && tuples@.len() == p.len() && forall|i: int|
                            0 <= i < p.len() ==> (#[trigger] tuples@[i]).0@ == migration_name(m[p[i] as int])
                                && tuples@[i].1@ == m[p[i] as int].content@;
                    assert(ordinal_keys(m).len() == m.len());
                }
                let id = cs.change_set_id;
                (PublishState::AwaitStatus { cs, publisher }, PublishAction::MarkPublished(id))
            } else {
                proof {
                    let m = forward_migrations(arts@);
                    let p = choose|p: Seq<usize>|
                        #![trigger is_stable_int_order(ordinal_keys(m), p)]
                        is_stable_int_order(ordinal_keys(m), p) && tuples@.len() == p.len() && forall|i: int|
                            0 <= i < p.len() ==> (#[trigger] tuples@[i]).0@ == migration_name(m[p[i] as int])
                                && tuples@[i].1@ == m[p[i] as int].content@;
                    assert(ordinal_keys(m).len() == m.len());
                }
                (PublishState::AwaitMigrations { cs, publisher }, PublishAction::ApplyMigrations(tuples))
            }
        },
        (PublishState::AwaitMigrations { cs, publisher }, PublishEvent::Stored) => {
            let id = cs.change_set_id;
            (PublishState::AwaitStatus { cs, publisher }, PublishAction::MarkPublished(id))
        },
        (PublishState::AwaitStatus { cs, publisher }, PublishEvent::Stored) => {
            match cs.supersedes_change_set_id {
                Some(old) => {
                    let by = cs.change_set_id;
                    (PublishState::AwaitSupersede { cs, publisher }, PublishAction::MarkSuperseded { superseded: old, by })
                },
                None => snapshot_step(cs, publisher),
            }
        },
        (PublishState::AwaitSupersede { cs, publisher }, PublishEvent::Stored) => snapshot_step(cs, publisher),
        (
            PublishState::AwaitSnapshot { cs, publisher },
            PublishEvent::SnapshotCreated { snapshot_set_id, batch_id, published_at, entry_id, logged_at, duration_ms },
        ) => {
            let (batch, entry) = publish_records(
                cs.change_set_id,
                snapshot_set_id,
                publisher.as_str(),
                batch_id,
                published_at,
                entry_id,
                logged_at,
                duration_ms,
            );
            (PublishState::AwaitBatch { entry }, PublishAction::RecordBatch(batch))
        },
        (PublishState::AwaitBatch { entry }, PublishEvent::Stored) => {
            (PublishState::AwaitAudit, PublishAction::RecordAudit(entry))
        },
        (PublishState::AwaitAudit, PublishEvent::Stored) => (PublishState::Done, PublishAction::Finish),
        (PublishState::Start { change_set_id, publisher }, _) => {
            (PublishState::AwaitChangeSet { change_set_id, publisher }, PublishAction::LoadChangeSet(change_set_id))
        },
        _ => (PublishState::Done, PublishAction::Fail(AuthoringError::Internal(owned("unexpected answer during publish")))),
    }
}

// ── Batch publish ──────────────────────────────────────────────

/// Where a batch publish stands.
#[derive(Debug)]
pub enum BatchState {
    /// The dependencies of `ids[deps.len()]` were asked for.
    Collecting { ids: Vec<u128>, publisher: String, deps: Vec<Vec<u128>> },
    /// The change set `sorted[next]` was asked for, to check its status.
    Checking { sorted: Vec<u128>, publisher: String, next: usize },
    /// The publish lock was asked for.
    Locking { sorted: Vec<u128>, publisher: String },
    /// The artifacts of `sorted[next]` were asked for.
    Migrating { sorted: Vec<u128>, publisher: String, next: usize },
    /// The migrations of `sorted[next]` were applied.
    Applying { sorted: Vec<u128>, publisher: String, next: usize },
    /// `sorted[next]` was marked published.
    Marking { sorted: Vec<u128>, publisher: String, next: usize },
    /// A snapshot set of the whole batch was asked to be created.
    Snapshotting { sorted: Vec<u128>, publisher: String },
    /// The batch record was written; the audit entry is to follow.
    RecordingBatch { entry: GovernanceAuditEntry },
    /// The audit entry was written.
    RecordingAudit,
    /// The batch publish is over.
    Done,
}

/// The batch ends on an answer its state does not wait for.
pub open spec fn batch_unexpected(r: (BatchState, PublishAction)) -> bool {
    &&& r.0 == BatchState::Done
    &&& r.1 matches PublishAction::Fail(e) && unexpected_error(e)
}

/// Ask for the dependencies of the next change set, or, with all of them
/// known, order the batch and start checking statuses.
pub open spec fn collect_next(ids: Seq<u128>, publisher: String, deps: Seq<Seq<u128>>, r: (BatchState, PublishAction)) -> bool {
    if deps.len() < ids.len() {
        &&& r.0 matches BatchState::Collecting { ids: i, publisher: p, deps: d } && i@ == ids && p == publisher
            && d.deep_view() == deps
        &&& r.1 == PublishAction::LoadChangeSet(ids[deps.len() as int])
    } else if has_repeats(ids) || !exists|q: Seq<u128>| is_dependency_order(ids, deps, q) {
        &&& r.0 == BatchState::Done
        &&& r.1 matches PublishAction::Fail(e) && invalid_input(e, circular_message())
    } else {
        exists|sorted: Seq<u128>| #[trigger] is_dependency_order(ids, deps, sorted) && check_next(sorted, publisher, 0, r)
    }
}

/// Check the statuses from `next` on.
pub open spec fn check_next(sorted: Seq<u128>, publisher: String, next: int, r: (BatchState, PublishAction)) -> bool {
    if next < sorted.len() {
        &&& r.0 matches BatchState::Checking { sorted: s, publisher: p, next: n } && s@ == sorted && p == publisher
            && n == next
        &&& r.1 == PublishAction::LoadChangeSet(sorted[next])
    } else {
        &&& r.0 matches BatchState::Locking { sorted: s, publisher: p } && s@ == sorted && p == publisher
        &&& r.1 == PublishAction::AcquireLock
    }
}

/// Load the artifacts of the change sets from `next` on, then mark them.
pub open spec fn migrate_next(sorted: Seq<u128>, publisher: String, next: int, r: (BatchState, PublishAction)) -> bool {
    if next < sorted.len() {
        &&& r.0 matches BatchState::Migrating { sorted: s, publisher: p, next: n } && s@ == sorted && p == publisher
            && n == next
        &&& r.1 == PublishAction::LoadArtifacts(sorted[next])
    } else {
        mark_next(sorted, publisher, 0, r)
    }
}

/// Mark the change sets from `next` on published, then create the
/// snapshot set of the whole batch.
pub open spec fn mark_next(sorted: Seq<u128>, publisher: String, next: int, r: (BatchState, PublishAction)) -> bool {
    if next < sorted.len() {
        &&& r.0 matches BatchState::Marking { sorted: s, publisher: p, next: n } && s@ == sorted && p == publisher
            && n == next
        &&& r.1 == PublishAction::MarkPublished(sorted[next])
    } else {
        &&& r.0 matches BatchState::Snapshotting { sorted: s, publisher: p } && s@ == sorted && p == publisher
        &&& r.1 matches PublishAction::CreateSnapshotSet { change_set_ids, publisher: p } && change_set_ids@
            == sorted && p@ == publisher@
    }
}

fn copy_ids(v: &Vec<u128>) -> (r: Vec<u128>)
    ensures
        r@ == v@,
{
    let mut r: Vec<u128> = Vec::new();
    let mut i: usize = 0;
    while i < v.len()
        invariant
            i <= v.len(),
            r@ == v@.take(i as int),
        decreases v.len() - i,
    {
        r.push(v[i]);
        assert(v@.take(i + 1) == v@.take(i as int).push(v@[i as int]));
        i += 1;
    }
    assert(v@.take(v.len() as int) == v@);
    r
}

fn mark_step(sorted: Vec<u128>, publisher: String, next: usize) -> (r: (BatchState, PublishAction))
    ensures
        mark_next(sorted@, publisher, next as int, r),
{
    if next < sorted.len() {
        let id = sorted[next];
        (BatchState::Marking { sorted, publisher, next }, PublishAction::MarkPublished(id))
    } else {
        let ids = copy_ids(&sorted);
        let p = publisher.clone();
        (BatchState::Snapshotting { sorted, publisher }, PublishAction::CreateSnapshotSet { change_set_ids: ids, publisher: p })
    }
}

fn migrate_step(sorted: Vec<u128>, publisher: String, next: usize) -> (r: (BatchState, PublishAction))
    ensures
        migrate_next(sorted@, publisher, next as int, r),
{
    if next < sorted.len() {
        let id = sorted[next];
        (BatchState::Migrating { sorted, publisher, next }, PublishAction::LoadArtifacts(id))
    } else {
        mark_step(sorted, publisher, 0)
    }
}

fn check_step(sorted: Vec<u128>, publisher: String, next: usize) -> (r: (BatchState, PublishAction))
    ensures
        check_next(sorted@, publisher, next as int, r),
{
    if next < sorted.len() {
        let id = sorted[next];
        (BatchState::Checking { sorted, publisher, next }, PublishAction::LoadChangeSet(id))
    } else {
        (BatchState::Locking { sorted, publisher }, PublishAction::AcquireLock)
    }
}

fn collect_step(ids: Vec<u128>, publisher: String, deps: Vec<Vec<u128>>) -> (r: (BatchState, PublishAction))
    requires
        deps@.len() <= ids@.len(),
    ensures
        collect_next(ids@, publisher, deps.deep_view(), r),
{
    if deps.len() < ids.len() {
        assert(deps.deep_view().len() == deps@.len());
        let id = ids[deps.len()];
        (BatchState::Collecting { ids, publisher, deps }, PublishAction::LoadChangeSet(id))
    } else {
        assert(deps.deep_view().len() == deps@.len());
        match topological_sort(&ids, &deps) {
            Err(e) => (BatchState::Done, PublishAction::Fail(e)),
            Ok(sorted) => {
                let ghost sv = sorted@;
                let r = check_step(sorted, publisher, 0);
                assert(is_dependency_order(ids@, deps.deep_view(), sv) && check_next(sv, publisher, 0, r));
                r
            },
        }
    }
}

/// The first step of a batch publish: ask for the dependencies of the
/// first change set (or, for an empty batch, go on at once).
pub fn batch_start(ids: Vec<u128>, publisher: String) -> (r: (BatchState, PublishAction))
    ensures
        collect_next(ids@, publisher, Seq::empty(), r),
{
    let deps: Vec<Vec<u128>> = Vec::new();
    proof {
        assert(deps.deep_view() =~= Seq::<Seq<u128>>::empty());
    }
    collect_step(ids, publisher, deps)
}

/// One step of a batch publish. The dependencies of every change set are
/// read and the batch is ordered so that each comes after those it depends
/// on (a cycle or a repeat is refused); every change set must have passed
/// its dry run; the lock must be taken (a held lock is refused, with no
/// audit entry); the forward migrations of each change set are applied in
/// that order; all are marked published; one snapshot set is created for
/// the batch; and the batch and its audit entry are written. A store
/// failure ends the batch with its error.
pub fn batch_step(state: BatchState, event: PublishEvent) -> (r: (BatchState, PublishAction))
    ensures
        match (state, event) {
            (_, PublishEvent::StoreFailed(e)) => r.0 == BatchState::Done && r.1 == PublishAction::Fail(e),
            (BatchState::Collecting { ids, publisher, deps }, PublishEvent::ChangeSet(cs)) => if deps@.len()
                < ids@.len() {
                collect_next(ids@, publisher, deps.deep_view().push(cs.depends_on@), r)
            } else {
                batch_unexpected(r)
            },
            (BatchState::Checking { sorted, publisher, next }, PublishEvent::ChangeSet(cs)) => if next < sorted@.len() {
                if cs.status == ChangeSetStatus::DryRunPassed {
                    check_next(sorted@, publisher, next + 1, r)
                } else {
                    &&& r.0 == BatchState::Done
                    &&& r.1 matches PublishAction::Fail(e) && invalid_input(
                        e,
                        batch_member_message(sorted@[next as int], cs.status),
                    )
                }
            } else {
                batch_unexpected(r)
            },
            (BatchState::Locking { sorted, publisher }, PublishEvent::Lock(taken)) => if taken {
                migrate_next(sorted@, publisher, 0, r)
            } else {
                &&& r.0 == BatchState::Done
                &&& r.1 matches PublishAction::Fail(e) && conflict(e, lock_contention_message())
            },
            (BatchState::Migrating { sorted, publisher, next }, PublishEvent::Artifacts(arts)) => {
                let m = forward_migrations(arts@);
                if m.len() == 0 {
                    migrate_next(sorted@, publisher, next + 1, r)
                } else {
                    &&& r.0 matches BatchState::Applying { sorted: s, publisher: p, next: n } && s@ == sorted@
                        && p == publisher && n == next
                    &&& r.1 matches PublishAction::ApplyMigrations(t) && exists|p: Seq<usize>|
                        #![trigger is_stable_int_order(ordinal_keys(m), p)]
                        is_stable_int_order(ordinal_keys(m), p) && t@.len() == p.len() && forall|i: int|
                            0 <= i < p.len() ==> (#[trigger] t@[i]).0@ == migration_name(m[p[i] as int])
                                && t@[i].1@ == m[p[i] as int].content@
                }
            },
            (BatchState::Applying { sorted, publisher, next }, PublishEvent::Stored) => migrate_next(
                sorted@,
                publisher,
                next + 1,
                r,
            ),
            (BatchState::Marking { sorted, publisher, next }, PublishEvent::Stored) => mark_next(
                sorted@,
                publisher,
                next + 1,
                r,
            ),
            (
                BatchState::Snapshotting { sorted, publisher },
                PublishEvent::SnapshotCreated {
                    snapshot_set_id,
                    batch_id,
                    published_at,
                    entry_id,
                    logged_at,
                    duration_ms,
                },
            ) => {
                &&& r.0 matches BatchState::RecordingBatch { entry }
                &&& r.1 matches PublishAction::RecordBatch(batch)
                &&& batch.batch_id == batch_id
                &&& batch.change_set_ids@ == sorted@
                &&& batch.snapshot_set_id == snapshot_set_id
                &&& batch.published_at == published_at
                &&& batch.publisher@ == publisher@
                &&& plain_entry(entry, entry_id, logged_at, "publish_batch"@, duration_ms)
                &&& entry.change_set_id is None
                &&& entry.snapshot_set_id == Some(snapshot_set_id)
                &&& entry.active_snapshot_set_id == snapshot_set_id
                &&& entry.result matches AuditResult::Success { detail: Some(d) } && d@ == decimal(sorted@.len())
                    + " ChangeSets published"@
            },
            (BatchState::RecordingBatch { entry }, PublishEvent::Stored) => r.0 == BatchState::RecordingAudit && r.1
                == PublishAction::RecordAudit(entry),
            (BatchState::RecordingAudit, PublishEvent::Stored) => r.0 == BatchState::Done && r.1
                == PublishAction::Finish,
            _ => {
                &&& r.0 == BatchState::Done
                &&& r.1 matches PublishAction::Fail(e) && unexpected_error(e)
            },
        },
{
    match (state, event) {
        (_, PublishEvent::StoreFailed(e)) => (BatchState::Done, PublishAction::Fail(e)),
        (BatchState::Collecting { ids, publisher, mut deps }, PublishEvent::ChangeSet(cs)) => {
            if deps.len() < ids.len() {
                let ghost before = deps.deep_view();
                let ghost old_deps = deps@;
                let ghost added = cs.depends_on@;
                deps.push(cs.depends_on);
                proof {
                    assert forall|i: int| 0 <= i < deps@.len() implies #[trigger] deps.deep_view()[i] == before.push(added)[i] by {
                        if i < old_deps.len() {
                            assert(deps@[i] == old_deps[i]);
                        }
                    }
                    assert(deps.deep_view() =~= before.push(added));
                }
                collect_step(ids, publisher, deps)
            } else {
                (BatchState::Done, PublishAction::Fail(AuthoringError::Internal(owned("unexpected answer during publish"))))
            }
        },
        (BatchState::Checking { sorted, publisher, next }, PublishEvent::ChangeSet(cs)) => {
            if next < sorted.len() {
                match check_batch_member(sorted[next], cs.status) {
                    Err(e) => (BatchState::Done, PublishAction::Fail(e)),
                    Ok(()) => check_step(sorted, publisher, next + 1),
                }
            } else {
                (BatchState::Done, PublishAction::Fail(AuthoringError::Internal(owned("unexpected answer during publish"))))
            }
        },
        (BatchState::Locking { sorted, publisher }, PublishEvent::Lock(taken)) => {
            if taken {
                migrate_step(sorted, publisher, 0)
            } else {
                (BatchState::Done, PublishAction::Fail(lock_contention_error()))
            }
        },
        (BatchState::Migrating { sorted, publisher, next }, PublishEvent::Artifacts(arts)) => {
            let tuples = migration_tuples(&arts);
            proof {
                let m = forward_migrations(arts@);
                let p = choose|p: Seq<usize>|
                    #![trigger is_stable_int_order(ordinal_keys(m), p)]
                    is_stable_int_order(ordinal_keys(m), p) && tuples@.len() == p.len() && forall|i: int|
                        0 <= i < p.len() ==> (#[trigger] tuples@[i]).0@ == migration_name(m[p[i] as int])
                            && tuples@[i].1@ == m[p[i] as int].content@;
                assert(ordinal_keys(m).len() == m.len());
            }
            if tuples.len() == 0 {
                if next < sorted.len() {
                    migrate_step(sorted, publisher, next + 1)
                } else {
                    migrate_step(sorted, publisher, next)
                }
            } else {
                (BatchState::Applying { sorted, publisher, next }, PublishAction::ApplyMigrations(tuples))
            }
        },
        (BatchState::Applying { sorted, publisher, next }, PublishEvent::Stored) => {
            if next < sorted.len() {
                migrate_step(sorted, publisher, next + 1)
            } else {
                migrate_step(sorted, publisher, next)
            }
        },
        (BatchState::Marking { sorted, publisher, next }, PublishEvent::Stored) => {
            if next < sorted.len() {
                mark_step(sorted, publisher, next + 1)
            } else {
                mark_step(sorted, publisher, next)
            }
        },
        (
            BatchState::Snapshotting { sorted, publisher },
            PublishEvent::SnapshotCreated { snapshot_set_id, batch_id, published_at, entry_id, logged_at, duration_ms },
        ) => {
            let (batch, entry) = batch_publish_records(
                &sorted,
                snapshot_set_id,
                publisher.as_str(),
                batch_id,
                published_at,
                entry_id,
                logged_at,
                duration_ms,
            );
            (BatchState::RecordingBatch { entry }, PublishAction::RecordBatch(batch))
        },
        (BatchState::RecordingBatch { entry }, PublishEvent::Stored) => (BatchState::RecordingAudit, PublishAction::RecordAudit(entry)),
        (BatchState::RecordingAudit, PublishEvent::Stored) => (BatchState::Done, PublishAction::Finish),
        _ => (BatchState::Done, PublishAction::Fail(AuthoringError::Internal(owned("unexpected answer during publish")))),
    }
}

} // verus!
