//! The decisions of the governance verbs: which status a verb accepts and
//! what it moves the change set to, the publish plan, drift detection, the
//! order in which migrations are applied, and the records a publish leaves.
//! The store calls around them are made by the caller.

use vstd::prelude::*;

use crate::authoring::diff::{summarize_changeset, summary_entries, entry_views};
use crate::authoring::errors::{PUBLISH_DRIFT_DETECTED, PUBLISH_LOCK_CONTENTION};
use crate::authoring::types::{
    artifact_type_text, status_name, terminal, ArtifactType, AuditResult, AuthoringError,
    ChangeSetArtifact, ChangeSetManifest, ChangeSetStatus, DiffSummary, ValidationReport,
};
use crate::authoring::validate_stage1::{stage1_errors, stage1_warnings, validate_stage1};
use crate::authoring::types::error_views;
use crate::gates::{uuid_string, uuid_text, Timestamp};
use crate::order::{int_keys, is_stable_int_order, sorted_unique, stable_order_by_int, strictly_sorted};
use crate::text::{copy_opt, i32_text, join2, join3, join5, owned, signed_decimal, texts, decimal, decimal_text};

verus! {

/// A change set as stored. Ids are the 128-bit values of UUIDs.
#[derive(Debug, Clone)]
pub struct ChangeSetFull {
    pub change_set_id: u128,
    pub status: ChangeSetStatus,
    pub content_hash: String,
    pub hash_version: String,
    pub title: String,
    pub rationale: Option<String>,
    pub created_by: String,
    pub scope: String,
    pub created_at: Timestamp,
    pub updated_at: Timestamp,
    pub supersedes_change_set_id: Option<u128>,
    pub superseded_by: Option<u128>,
    pub superseded_at: Option<Timestamp>,
    pub depends_on: Vec<u128>,
    pub evaluated_against_snapshot_set_id: Option<u128>,
}

/// A copy of a list of ids.
fn copy_ids(v: &Vec<u128>) -> (r: Vec<u128>)
    ensures
        r@ == v@,
{
    let mut r: Vec<u128> = Vec::new();
    let mut i: usize = 0;
    while i < v.len()
        invariant
            i <= v.len(),
            r@ == v@.take(i as int),
        decreases v.len() - i,
    {
        r.push(v[i]);
        assert(v@.take(i + 1) == v@.take(i as int).push(v@[i as int]));
        i += 1;
    }
    assert(v@.take(v.len() as int) == v@);
    r
}

/// The manifest a stored change set was proposed with, without its
/// artifacts (they are loaded separately).
pub fn cs_to_manifest(cs: &ChangeSetFull) -> (m: ChangeSetManifest)
    ensures
        m.title@ == cs.title@,
        m.rationale == cs.rationale,
        m.depends_on@ == cs.depends_on@,
        m.supersedes == cs.supersedes_change_set_id,
        m.artifacts@.len() == 0,
{
    ChangeSetManifest {
        title: cs.title.clone(),
        rationale: copy_opt(&cs.rationale),
        depends_on: copy_ids(&cs.depends_on),
        supersedes: cs.supersedes_change_set_id,
        artifacts: Vec::new(),
    }
}

// ── Status guards ──────────────────────────────────────────────

/// A governance verb that acts on one change set in one status.
#[derive(Debug, Clone, Copy, PartialEq, Eq, Structural)]
pub enum GovernanceVerb {
    Validate,
    DryRun,
    PlanPublish,
    Publish,
}

/// The status a verb accepts a change set in.
pub open spec fn required_status(v: GovernanceVerb) -> ChangeSetStatus {
    match v {
        GovernanceVerb::Validate => ChangeSetStatus::Draft,
        GovernanceVerb::DryRun => ChangeSetStatus::Validated,
        GovernanceVerb::PlanPublish => ChangeSetStatus::DryRunPassed,
        GovernanceVerb::Publish => ChangeSetStatus::DryRunPassed,
    }
}

/// The refusal of a verb on a change set in status `s`.
pub open spec fn guard_message(v: GovernanceVerb, s: ChangeSetStatus) -> Seq<char> {
    match v {
        GovernanceVerb::Validate => "Cannot validate ChangeSet in status '"@ + status_name(s)
            + "' — must be Draft"@,
        GovernanceVerb::DryRun => "Cannot dry-run ChangeSet in status '"@ + status_name(s)
            + "' — must be Validated"@,
        GovernanceVerb::PlanPublish => "Cannot plan publish for ChangeSet in status '"@ + status_name(s)
            + "' — must be DryRunPassed"@,
        GovernanceVerb::Publish => "Cannot publish ChangeSet in status '"@ + status_name(s)
            + "' — must be DryRunPassed"@,
    }
}

/// `e` is an invalid-input error with the message `m`.
pub open spec fn invalid_input(e: AuthoringError, m: Seq<char>) -> bool {
    e matches AuthoringError::InvalidInput(t) && t@ == m
}

/// `e` is a conflict error with the message `m`.
pub open spec fn conflict(e: AuthoringError, m: Seq<char>) -> bool {
    e matches AuthoringError::Conflict(t) && t@ == m
}

/// Whether `verb` may act on a change set in `status`; if not, the
/// invalid-input error it is refused with.
pub fn check_status(verb: GovernanceVerb, status: ChangeSetStatus) -> (r: Result<(), AuthoringError>)
    ensures
        r is Ok <==> status == required_status(verb),
        r matches Err(e) ==> invalid_input(e, guard_message(verb, status)),
{
    let (prefix, suffix, accepted) = match verb {
        GovernanceVerb::Validate => (
            "Cannot validate ChangeSet in status '",
            "' — must be Draft",
            status == ChangeSetStatus::Draft,
        ),
        GovernanceVerb::DryRun => (
            "Cannot dry-run ChangeSet in status '",
            "' — must be Validated",
            status == ChangeSetStatus::Validated,
        ),
        GovernanceVerb::PlanPublish => (
            "Cannot plan publish for ChangeSet in status '",
            "' — must be DryRunPassed",
            status == ChangeSetStatus::DryRunPassed,
        ),
        GovernanceVerb::Publish => (
            "Cannot publish ChangeSet in status '",
            "' — must be DryRunPassed",
            status == ChangeSetStatus::DryRunPassed,
        ),
    };
    if accepted {
        Ok(())
    } else {
        Err(AuthoringError::InvalidInput(join3(prefix, status.as_str(), suffix)))
    }
}

/// No verb acts on a change set whose status is terminal: once published,
/// rejected, superseded or failed in its dry run, a change set is refused by
/// every verb.
pub proof fn lemma_terminal_statuses_are_final(v: GovernanceVerb, s: ChangeSetStatus)
    requires
        terminal(s),
    ensures
        s != required_status(v),
{
}

// ── Validate and dry-run ───────────────────────────────────────

/// The status a validation moves a draft to.
pub open spec fn status_after_validation(ok: bool) -> ChangeSetStatus {
    if ok {
        ChangeSetStatus::Validated
    } else {
        ChangeSetStatus::Rejected
    }
}

/// The status a dry run moves a validated change set to.
pub open spec fn status_after_dry_run(ok: bool) -> ChangeSetStatus {
    if ok {
        ChangeSetStatus::DryRunPassed
    } else {
        ChangeSetStatus::DryRunFailed
    }
}

/// Validate a stored change set against its artifacts: a draft gets the
/// stage-1 report of its manifest and moves to `Validated` when the report
/// is clean, else to `Rejected`; any other status is refused.
pub fn validate_step(cs: &ChangeSetFull, artifacts: &Vec<ChangeSetArtifact>) -> (r: Result<
    (ValidationReport, ChangeSetStatus),
    AuthoringError,
>)
    ensures
        r is Ok <==> cs.status == ChangeSetStatus::Draft,
        r matches Err(e) ==> invalid_input(e, guard_message(GovernanceVerb::Validate, cs.status)),
        r matches Ok((report, next)) ==> {
            &&& exists|m: ChangeSetManifest|
                #![trigger stage1_errors(m, artifacts@)]
                m.title@ == cs.title@ && m.rationale == cs.rationale && m.depends_on@ == cs.depends_on@
                    && m.supersedes == cs.supersedes_change_set_id && m.artifacts@.len() == 0
                    && error_views(report.errors@) == stage1_errors(m, artifacts@)
                    && error_views(report.warnings@) == stage1_warnings(m, artifacts@)
            &&& report.ok == (report.errors@.len() == 0)
            &&& next == status_after_validation(report.ok)
        },
{
    match check_status(GovernanceVerb::Validate, cs.status) {
        Err(e) => Err(e),
        Ok(()) => {
            let manifest = cs_to_manifest(cs);
            let report = validate_stage1(&manifest, artifacts);
            let next = if report.ok {
                ChangeSetStatus::Validated
            } else {
                ChangeSetStatus::Rejected
            };
            Ok((report, next))
        },
    }
}

/// The status a dry run with the given outcome moves a change set to.
pub fn dry_run_outcome(ok: bool) -> (r: ChangeSetStatus)
    ensures
        r == status_after_dry_run(ok),
{
    if ok {
        ChangeSetStatus::DryRunPassed
    } else {
        ChangeSetStatus::DryRunFailed
    }
}

// ── Publish plan ───────────────────────────────────────────────

/// The blast radius of publishing a change set. Read-only.
#[derive(Debug, Clone)]
pub struct PublishPlan {
    /// The change set being planned.
    pub change_set_id: u128,
    /// Its current status.
    pub status: ChangeSetStatus,
    /// The structural summary of its artifacts.
    pub diff: DiffSummary,
    /// Number of forward migrations.
    pub migration_count: usize,
    /// Number of down migrations.
    pub down_migration_count: usize,
    /// Whether any breaking change was found.
    pub has_breaking_changes: bool,
    /// How many breaking changes were found.
    pub breaking_change_count: usize,
    /// The distinct artifact types, sorted.
    pub affected_artifact_types: Vec<String>,
    /// The change set this one supersedes.
    pub supersedes: Option<u128>,
    /// The change sets this one depends on.
    pub depends_on: Vec<u128>,
    /// Whether the dry run was evaluated against another snapshot set than
    /// the active one, or against none.
    pub stale_dry_run: bool,
    /// The snapshot set the dry run was evaluated against.
    pub evaluated_against_snapshot_set_id: Option<u128>,
    /// The active snapshot set now.
    pub current_active_snapshot_set_id: Option<u128>,
}

/// How many artifacts have type `t`.
pub open spec fn count_of_type(arts: Seq<ChangeSetArtifact>, t: ArtifactType) -> nat
    decreases arts.len(),
{
    if arts.len() == 0 {
        0
    } else {
        count_of_type(arts.drop_last(), t) + if arts.last().artifact_type == t {
            1nat
        } else {
            0nat
        }
    }
}

/// The names of the artifacts' types.
pub open spec fn type_names(arts: Seq<ChangeSetArtifact>) -> Seq<Seq<char>> {
    arts.map_values(|a: ChangeSetArtifact| artifact_type_text(a.artifact_type))
}

/// A dry run is stale unless it was evaluated against the snapshot set
/// that is active now.
pub open spec fn stale(evaluated: Option<u128>, current: Option<u128>) -> bool {
    match (evaluated, current) {
        (Some(e), Some(c)) => e != c,
        _ => true,
    }
}

fn count_type(artifacts: &Vec<ChangeSetArtifact>, t: ArtifactType) -> (r: usize)
    ensures
        r == count_of_type(artifacts@, t),
{
    let mut n: usize = 0;
    let mut i: usize = 0;
    while i < artifacts.len()
        invariant
            i <= artifacts.len(),
            n <= i,
            n == count_of_type(artifacts@.take(i as int), t),
        decreases artifacts.len() - i,
    {
        assert(artifacts@.take(i + 1).drop_last() =~= artifacts@.take(i as int));
        if artifacts[i].artifact_type == t {
            n += 1;
        }
        i += 1;
    }
    assert(artifacts@.take(artifacts.len() as int) =~= artifacts@);
    n
}

fn type_name_list(artifacts: &Vec<ChangeSetArtifact>) -> (r: Vec<String>)
    ensures
        texts(r@) == type_names(artifacts@),
{
    let mut r: Vec<String> = Vec::new();
    let mut i: usize = 0;
    while i < artifacts.len()
        invariant
            i <= artifacts.len(),
            r@.len() == i,
            texts(r@) == type_names(artifacts@.take(i as int)),
        decreases artifacts.len() - i,
    {
        let ghost old_r = r@;
        r.push(owned(artifacts[i].artifact_type.as_str()));
        proof {
            let t = artifacts@.take(i + 1);
            assert forall|k: int| 0 <= k < i + 1 implies #[trigger] texts(r@)[k] == type_names(t)[k] by {
                if k < i {
                    assert(r@[k] == old_r[k]);
                    assert(texts(old_r)[k] == type_names(artifacts@.take(i as int))[k]);
                    assert(t[k] == artifacts@.take(i as int)[k]);
                }
            }
            assert(texts(r@) =~= type_names(t));
        }
        i += 1;
    }
    assert(artifacts@.take(artifacts.len() as int) =~= artifacts@);
    r
}

/// The publish plan of a change set, given its artifacts and the snapshot
/// set active now. Only a change set that passed its dry run is planned.
pub fn plan_publish_from(
    cs: &ChangeSetFull,
    artifacts: &Vec<ChangeSetArtifact>,
    current_active: Option<u128>,
) -> (r: Result<PublishPlan, AuthoringError>)
    ensures
        r is Ok <==> cs.status == ChangeSetStatus::DryRunPassed,
        r matches Err(e) ==> invalid_input(e, guard_message(GovernanceVerb::PlanPublish, cs.status)),
        r matches Ok(plan) ==> {
            &&& plan.change_set_id == cs.change_set_id
            &&& plan.status == cs.status
            &&& entry_views(plan.diff.added@) == summary_entries(artifacts@, false)
            &&& plan.diff.modified@.len() == 0
            &&& plan.diff.removed@.len() == 0
            &&& entry_views(plan.diff.breaking_changes@) == summary_entries(artifacts@, true)
            &&& plan.migration_count == count_of_type(artifacts@, ArtifactType::MigrationSql)
            &&& plan.down_migration_count == count_of_type(artifacts@, ArtifactType::MigrationDownSql)
            &&& plan.has_breaking_changes == (summary_entries(artifacts@, true).len() > 0)
            &&& plan.breaking_change_count == summary_entries(artifacts@, true).len()
            &&& strictly_sorted(texts(plan.affected_artifact_types@))
            &&& texts(plan.affected_artifact_types@).to_set() == type_names(artifacts@).to_set()
            &&& plan.supersedes == cs.supersedes_change_set_id
            &&& plan.depends_on@ == cs.depends_on@
            &&& plan.stale_dry_run == stale(cs.evaluated_against_snapshot_set_id, current_active)
            &&& plan.evaluated_against_snapshot_set_id == cs.evaluated_against_snapshot_set_id
            &&& plan.current_active_snapshot_set_id == current_active
        },
{
    match check_status(GovernanceVerb::PlanPublish, cs.status) {
        Err(e) => { return Err(e); },
        Ok(()) => {},
    }
    let diff = summarize_changeset(artifacts);
    let migration_count = count_type(artifacts, ArtifactType::MigrationSql);
    let down_migration_count = count_type(artifacts, ArtifactType::MigrationDownSql);
    let names = type_name_list(artifacts);
    let affected = sorted_unique(&names);
    let stale_dry_run = match (cs.evaluated_against_snapshot_set_id, current_active) {
        (Some(evaluated), Some(active)) => evaluated != active,
        _ => true,
    };
    proof {
        assert(entry_views(diff.breaking_changes@).len() == diff.breaking_changes@.len());
    }
    let breaking_change_count = diff.breaking_changes.len();
    Ok(PublishPlan {
        change_set_id: cs.change_set_id,
        status: cs.status,
        has_breaking_changes: breaking_change_count > 0,
        breaking_change_count,
        diff,
        migration_count,
        down_migration_count,
        affected_artifact_types: affected,
        supersedes: cs.supersedes_change_set_id,
        depends_on: copy_ids(&cs.depends_on),
        stale_dry_run,
        evaluated_against_snapshot_set_id: cs.evaluated_against_snapshot_set_id,
        current_active_snapshot_set_id: current_active,
    })
}

// ── Publish ────────────────────────────────────────────────────

/// The conflict a publish meets when another publish holds the lock.
pub open spec fn lock_contention_message() -> Seq<char> {
    "Could not acquire publish lock — another publish is in progress"@
}

/// What the audit log records of a publish that met the lock held.
pub open spec fn lock_contention_detail() -> Seq<char> {
    "Another publish is in progress"@
}

/// The error of a publish or batch publish that could not take the
/// single-publisher lock.
pub fn lock_contention_error() -> (e: AuthoringError)
    ensures
        conflict(e, lock_contention_message()),
{
    AuthoringError::Conflict(owned("Could not acquire publish lock — another publish is in progress"))
}

/// A dry run has drifted unless it was evaluated against the snapshot set
/// that is active now: an evaluation against another set, a missing
/// evaluation while a set is active, or an evaluation against a set when
/// none is active.
pub open spec fn drifted(evaluated: Option<u128>, current: Option<u128>) -> bool {
    evaluated != current
}

/// How an optional id is written for debugging: `Some(<uuid>)` or `None`.
pub open spec fn debug_opt_id(o: Option<u128>) -> Seq<char> {
    match o {
        Some(u) => "Some("@ + uuid_text(u) + ")"@,
        None => "None"@,
    }
}

/// An optional id as text: the UUID, or `<none>`.
pub open spec fn id_or_none(o: Option<u128>) -> Seq<char> {
    match o {
        Some(u) => uuid_text(u),
        None => "<none>"@,
    }
}

/// What the audit log records of a drifted publish.
pub open spec fn drift_detail(evaluated: Option<u128>, current: Option<u128>) -> Seq<char> {
    "Dry-run was evaluated against snapshot set "@ + id_or_none(evaluated) + ", but current active is "@
        + debug_opt_id(current) + ". Re-run dry-run first."@
}

/// The conflict a drifted publish is refused with.
pub open spec fn drift_message(evaluated: Option<u128>, current: Option<u128>) -> Seq<char> {
    "Snapshot set drift detected: dry-run evaluated against "@ + id_or_none(evaluated)
        + ", but current active is "@ + id_or_none(current) + ". Re-run dry-run."@
}

/// A publish refused for drift: what the audit log records and the error.
#[derive(Debug, Clone)]
pub struct DriftFailure {
    pub detail: String,
    pub error: AuthoringError,
}

fn debug_opt_id_text(o: Option<u128>) -> (r: String)
    ensures
        r@ == debug_opt_id(o),
{
    match o {
        Some(u) => {
            let t = uuid_string(u);
            join3("Some(", t.as_str(), ")")
        },
        None => owned("None"),
    }
}

fn id_or_none_text(o: Option<u128>) -> (r: String)
    ensures
        r@ == id_or_none(o),
{
    match o {
        Some(u) => uuid_string(u),
        None => owned("<none>"),
    }
}

/// Drift detection before a publish: the dry run must have been evaluated
/// against the snapshot set that is active now, else it must be run again.
pub fn check_drift(evaluated: Option<u128>, current: Option<u128>) -> (r: Result<(), DriftFailure>)
    ensures
        r is Ok <==> !drifted(evaluated, current),
        r matches Err(f) ==> f.detail@ == drift_detail(evaluated, current) && conflict(
            f.error,
            drift_message(evaluated, current),
        ),
{
    if evaluated == current {
        Ok(())
    } else {
        let et = id_or_none_text(evaluated);
        let cur_debug = debug_opt_id_text(current);
        let detail = join5(
            "Dry-run was evaluated against snapshot set ",
            et.as_str(),
            ", but current active is ",
            cur_debug.as_str(),
            ". Re-run dry-run first.",
        );
        let cur_text = id_or_none_text(current);
        let message = join5(
            "Snapshot set drift detected: dry-run evaluated against ",
            et.as_str(),
            ", but current active is ",
            cur_text.as_str(),
            ". Re-run dry-run.",
        );
        Err(DriftFailure { detail, error: AuthoringError::Conflict(message) })
    }
}

/// The forward migrations among the artifacts, in their order.
pub open spec fn forward_migrations(arts: Seq<ChangeSetArtifact>) -> Seq<ChangeSetArtifact>
    decreases arts.len(),
{
    if arts.len() == 0 {
        Seq::empty()
    } else {
        let rest = forward_migrations(arts.drop_last());
        if arts.last().artifact_type == ArtifactType::MigrationSql {
            rest.push(arts.last())
        } else {
            rest
        }
    }
}

/// The ordinals of artifacts, as integers.
pub open spec fn ordinal_keys(arts: Seq<ChangeSetArtifact>) -> Seq<int> {
    arts.map_values(|a: ChangeSetArtifact| a.ordinal as int)
}

/// The name a migration is applied under: its path, else `ordinal_<n>`.
pub open spec fn migration_name(a: ChangeSetArtifact) -> Seq<char> {
    match a.path {
        Some(p) => p@,
        None => "ordinal_"@ + signed_decimal(a.ordinal as int),
    }
}

/// The (name, SQL) pairs of the forward migrations, sorted stably by
/// ordinal: the order in which a publish applies them.
pub fn migration_tuples(artifacts: &Vec<ChangeSetArtifact>) -> (r: Vec<(String, String)>)
    ensures
        ({
            let m = forward_migrations(artifacts@);
            exists|p: Seq<usize>|
                #![trigger is_stable_int_order(ordinal_keys(m), p)]
                is_stable_int_order(ordinal_keys(m), p) && r@.len() == p.len() && forall|i: int|
                    0 <= i < p.len() ==> (#[trigger] r@[i]).0@ == migration_name(m[p[i] as int])
                        && r@[i].1@ == m[p[i] as int].content@
        }),
{
    // positions of the forward migrations, and their ordinals
    let mut pos: Vec<usize> = Vec::new();
    let mut keys: Vec<i32> = Vec::new();
    let mut i: usize = 0;
    while i < artifacts.len()
        invariant
            i <= artifacts.len(),
            pos@.len() == keys@.len(),
            pos@.len() == forward_migrations(artifacts@.take(i as int)).len(),
            forall|k: int| 0 <= k < pos@.len() ==> #[trigger] pos@[k] < artifacts@.len()
                && artifacts@[pos@[k] as int] == forward_migrations(artifacts@.take(i as int))[k]
                && keys@[k] == artifacts@[pos@[k] as int].ordinal,
        decreases artifacts.len() - i,
    {
        assert(artifacts@.take(i + 1).drop_last() =~= artifacts@.take(i as int));
        assert(artifacts@.take(i + 1).last() == artifacts@[i as int]);
        if artifacts[i].artifact_type == ArtifactType::MigrationSql {
            pos.push(i);
            keys.push(artifacts[i].ordinal);
        }
        i += 1;
    }
    assert(artifacts@.take(artifacts.len() as int) =~= artifacts@);
    let ghost m = forward_migrations(artifacts@);
    proof {
        assert forall|k: int| 0 <= k < keys@.len() implies #[trigger] int_keys(keys@)[k] == ordinal_keys(m)[k] by {
            assert(artifacts@[pos@[k] as int] == m[k]);
        }
        assert(int_keys(keys@) =~= ordinal_keys(m));
    }
    let order = stable_order_by_int(&keys);
    let mut r: Vec<(String, String)> = Vec::new();
    let mut j: usize = 0;
    while j < order.len()
        invariant
            m == forward_migrations(artifacts@),
            pos@.len() == m.len(),
            order@.len() == m.len(),
            forall|k: int| 0 <= k < pos@.len() ==> #[trigger] pos@[k] < artifacts@.len()
                && artifacts@[pos@[k] as int] == m[k],
            forall|k: int| 0 <= k < order@.len() ==> #[trigger] order@[k] < m.len(),
            j <= order@.len(),
            r@.len() == j,
            forall|t: int|
                0 <= t < j ==> (#[trigger] r@[t]).0@ == migration_name(m[order@[t] as int]) && r@[t].1@
                    == m[order@[t] as int].content@,
        decreases order@.len() - j,
    {
        let a = &artifacts[pos[order[j]]];
        let name = match &a.path {
            Some(p) => p.clone(),
            None => {
                let n = i32_text(a.ordinal);
                join2("ordinal_", n.as_str())
            },
        };
        r.push((name, a.content.clone()));
        j += 1;
    }
    proof {
        assert(is_stable_int_order(ordinal_keys(m), order@));
    }
    r
}

// ── Records ────────────────────────────────────────────────────

/// The record of a publish: which change sets went into which snapshot set.
#[derive(Debug, Clone)]
pub struct PublishBatch {
    pub batch_id: u128,
    pub change_set_ids: Vec<u128>,
    pub snapshot_set_id: u128,
    pub published_at: Timestamp,
    pub publisher: String,
}

/// An entry of the governance audit log. `agent_mode` holds the mode's
/// name.
#[derive(Debug, Clone)]
pub struct GovernanceAuditEntry {
    pub entry_id: u128,
    pub timestamp: Timestamp,
    pub verb: String,
    pub agent_session_id: Option<u128>,
    pub agent_mode: Option<String>,
    pub change_set_id: Option<u128>,
    pub snapshot_set_id: Option<u128>,
    pub active_snapshot_set_id: u128,
    pub result: AuditResult,
    pub duration_ms: u64,
    pub metadata: Option<serde_json::Value>,
}

/// `e` records a call of `verb` with no agent and no metadata.
pub open spec fn plain_entry(e: GovernanceAuditEntry, entry_id: u128, at: Timestamp, verb: Seq<char>, duration_ms: u64) -> bool {
    &&& e.entry_id == entry_id
    &&& e.timestamp == at
    &&& e.verb@ == verb
    &&& e.agent_session_id is None
    &&& e.agent_mode is None
    &&& e.metadata is None
    &&& e.duration_ms == duration_ms
}

/// The records of a successful publish of one change set into the snapshot
/// set `snapshot_set_id`: the batch, and the audit entry.
pub fn publish_records(
    change_set_id: u128,
    snapshot_set_id: u128,
    publisher: &str,
    batch_id: u128,
    published_at: Timestamp,
    entry_id: u128,
    logged_at: Timestamp,
    duration_ms: u64,
) -> (r: (PublishBatch, GovernanceAuditEntry))
    ensures
        r.0.batch_id == batch_id,
        r.0.change_set_ids@ == seq![change_set_id],
        r.0.snapshot_set_id == snapshot_set_id,
        r.0.published_at == published_at,
        r.0.publisher@ == publisher@,
        plain_entry(r.1, entry_id, logged_at, "publish_snapshot_set"@, duration_ms),
        r.1.change_set_id == Some(change_set_id),
        r.1.snapshot_set_id == Some(snapshot_set_id),
        r.1.active_snapshot_set_id == snapshot_set_id,
        r.1.result == (AuditResult::Success { detail: None }),
{
    let mut ids: Vec<u128> = Vec::new();
    ids.push(change_set_id);
    let batch = PublishBatch {
        batch_id,
        change_set_ids: ids,
        snapshot_set_id,
        published_at,
        publisher: owned(publisher),
    };
    let entry = GovernanceAuditEntry {
        entry_id,
        timestamp: logged_at,
        verb: owned("publish_snapshot_set"),
        agent_session_id: None,
        agent_mode: None,
        change_set_id: Some(change_set_id),
        snapshot_set_id: Some(snapshot_set_id),
        active_snapshot_set_id: snapshot_set_id,
        result: AuditResult::Success { detail: None },
        duration_ms,
        metadata: None,
    };
    (batch, entry)
}

/// The records of a successful batch publish of `sorted` (in the order
/// they were published) into the snapshot set `snapshot_set_id`.
pub fn batch_publish_records(
    sorted: &Vec<u128>,
    snapshot_set_id: u128,
    publisher: &str,
    batch_id: u128,
    published_at: Timestamp,
    entry_id: u128,
    logged_at: Timestamp,
    duration_ms: u64,
) -> (r: (PublishBatch, GovernanceAuditEntry))
    ensures
        r.0.batch_id == batch_id,
        r.0.change_set_ids@ == sorted@,
        r.0.snapshot_set_id == snapshot_set_id,
        r.0.published_at == published_at,
        r.0.publisher@ == publisher@,
        plain_entry(r.1, entry_id, logged_at, "publish_batch"@, duration_ms),
        r.1.change_set_id is None,
        r.1.snapshot_set_id == Some(snapshot_set_id),
        r.1.active_snapshot_set_id == snapshot_set_id,
        r.1.result matches AuditResult::Success { detail: Some(d) } && d@ == decimal(sorted@.len())
            + " ChangeSets published"@,
{
    let count = decimal_text(sorted.len());
    let detail = join2(count.as_str(), " ChangeSets published");
    let batch = PublishBatch {
        batch_id,
        change_set_ids: copy_ids(sorted),
        snapshot_set_id,
        published_at,
        publisher: owned(publisher),
    };
    let entry = GovernanceAuditEntry {
        entry_id,
        timestamp: logged_at,
        verb: owned("publish_batch"),
        agent_session_id: None,
        agent_mode: None,
        change_set_id: None,
        snapshot_set_id: Some(snapshot_set_id),
        active_snapshot_set_id: snapshot_set_id,
        result: AuditResult::Success { detail: Some(detail) },
        duration_ms,
        metadata: None,
    };
    (batch, entry)
}

/// The audit entry of a publish that failed with `code` and `message`; the
/// active snapshot set is recorded as the nil id when there is none.
pub fn publish_failure_entry(
    change_set_id: u128,
    code: &str,
    message: &str,
    active_snapshot: Option<u128>,
    entry_id: u128,
    logged_at: Timestamp,
    duration_ms: u64,
) -> (e: GovernanceAuditEntry)
    ensures
        plain_entry(e, entry_id, logged_at, "publish_snapshot_set"@, duration_ms),
        e.change_set_id == Some(change_set_id),
        e.snapshot_set_id is None,
        e.active_snapshot_set_id == match active_snapshot {
            Some(a) => a,
            None => 0,
        },
        e.result matches AuditResult::Failure { code: c, message: m } && c@ == code@ && m@ == message@,
{
    let active = match active_snapshot {
        Some(a) => a,
        None => 0,
    };
    GovernanceAuditEntry {
        entry_id,
        timestamp: logged_at,
        verb: owned("publish_snapshot_set"),
        agent_session_id: None,
        agent_mode: None,
        change_set_id: Some(change_set_id),
        snapshot_set_id: None,
        active_snapshot_set_id: active,
        result: AuditResult::Failure { code: owned(code), message: owned(message) },
        duration_ms,
        metadata: None,
    }
}

/// The audit entry of a publish that met the lock held.
pub fn lock_contention_entry(
    change_set_id: u128,
    active_snapshot: Option<u128>,
    entry_id: u128,
    logged_at: Timestamp,
    duration_ms: u64,
) -> (e: GovernanceAuditEntry)
    ensures
        plain_entry(e, entry_id, logged_at, "publish_snapshot_set"@, duration_ms),
        e.change_set_id == Some(change_set_id),
        e.snapshot_set_id is None,
        e.result matches AuditResult::Failure { code: c, message: m } && c@ == PUBLISH_LOCK_CONTENTION@
            && m@ == lock_contention_detail(),
{
    publish_failure_entry(
        change_set_id,
        PUBLISH_LOCK_CONTENTION,
        "Another publish is in progress",
        active_snapshot,
        entry_id,
        logged_at,
        duration_ms,
    )
}

/// The audit entry of a publish refused for drift.
pub fn drift_entry(
    change_set_id: u128,
    failure: &DriftFailure,
    active_snapshot: Option<u128>,
    entry_id: u128,
    logged_at: Timestamp,
    duration_ms: u64,
) -> (e: GovernanceAuditEntry)
    ensures
        plain_entry(e, entry_id, logged_at, "publish_snapshot_set"@, duration_ms),
        e.change_set_id == Some(change_set_id),
        e.snapshot_set_id is None,
        e.result matches AuditResult::Failure { code: c, message: m } && c@ == PUBLISH_DRIFT_DETECTED@
            && m@ == failure.detail@,
{
    publish_failure_entry(
        change_set_id,
        PUBLISH_DRIFT_DETECTED,
        failure.detail.as_str(),
        active_snapshot,
        entry_id,
        logged_at,
        duration_ms,
    )
}

/// The refusal of a batch member that has not passed its dry run.
pub open spec fn batch_member_message(id: u128, status: ChangeSetStatus) -> Seq<char> {
    "ChangeSet "@ + uuid_text(id) + " is not DryRunPassed (status: "@ + status_name(status) + ")"@
}

/// Every change set of a batch must have passed its dry run.
pub fn check_batch_member(change_set_id: u128, status: ChangeSetStatus) -> (r: Result<(), AuthoringError>)
    ensures
        r is Ok <==> status == ChangeSetStatus::DryRunPassed,
        r matches Err(e) ==> invalid_input(e, batch_member_message(change_set_id, status)),
{
    if status == ChangeSetStatus::DryRunPassed {
        Ok(())
    } else {
        let id = uuid_string(change_set_id);
        Err(AuthoringError::InvalidInput(join5("ChangeSet ", id.as_str(), " is not DryRunPassed (status: ", status.as_str(), ")")))
    }
}

} // verus!
