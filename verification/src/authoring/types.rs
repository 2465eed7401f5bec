//! Authoring pipeline value types: change-set status, artifact types,
//! validation errors and reports, diff summaries and health counters.

use vstd::prelude::*;
use vstd::string::*;

use crate::text::{join2, text_eq};

verus! {

broadcast use vstd::string::group_string_axioms;

/// Type of an artifact in a change-set bundle.
#[derive(Debug, Clone, Copy, PartialEq, Eq, Hash, Structural)]
pub enum ArtifactType {
    MigrationSql,
    MigrationDownSql,
    VerbYaml,
    AttributeJson,
    TaxonomyJson,
    DocJson,
}

/// The snake_case name of an artifact type.
pub open spec fn artifact_type_text(t: ArtifactType) -> Seq<char> {
    match t {
        ArtifactType::MigrationSql => "migration_sql"@,
        ArtifactType::MigrationDownSql => "migration_down_sql"@,
        ArtifactType::VerbYaml => "verb_yaml"@,
        ArtifactType::AttributeJson => "attribute_json"@,
        ArtifactType::TaxonomyJson => "taxonomy_json"@,
        ArtifactType::DocJson => "doc_json"@,
    }
}

impl ArtifactType {
    /// The snake_case name of this type.
    pub fn as_str(self) -> (r: &'static str)
        ensures
            r@ == artifact_type_text(self),
    {
        match self {
            ArtifactType::MigrationSql => "migration_sql",
            ArtifactType::MigrationDownSql => "migration_down_sql",
            ArtifactType::VerbYaml => "verb_yaml",
            ArtifactType::AttributeJson => "attribute_json",
            ArtifactType::TaxonomyJson => "taxonomy_json",
            ArtifactType::DocJson => "doc_json",
        }
    }

    /// The type with the given snake_case name.
    pub fn parse(value: &str) -> (r: Result<Self, String>)
        ensures
            match r {
                Ok(t) => artifact_type_text(t) == value@,
                Err(e) => (forall|t: ArtifactType| artifact_type_text(t) != value@) && e@
                    == "unknown artifact type "@ + value@,
            },
    {
        if text_eq(value, "migration_sql") {
            Ok(ArtifactType::MigrationSql)
        } else if text_eq(value, "migration_down_sql") {
            Ok(ArtifactType::MigrationDownSql)
        } else if text_eq(value, "verb_yaml") {
            Ok(ArtifactType::VerbYaml)
        } else if text_eq(value, "attribute_json") {
            Ok(ArtifactType::AttributeJson)
        } else if text_eq(value, "taxonomy_json") {
            Ok(ArtifactType::TaxonomyJson)
        } else if text_eq(value, "doc_json") {
            Ok(ArtifactType::DocJson)
        } else {
            Err(join2("unknown artifact type ", value))
        }
    }
}

impl AsRef<str> for ArtifactType {
    fn as_ref(&self) -> (r: &str)
        ensures
            r@ == artifact_type_text(*self),
    {
        self.as_str()
    }
}

impl std::str::FromStr for ArtifactType {
    type Err = String;

    fn from_str(value: &str) -> (r: Result<Self, String>)
        ensures
            match r {
                Ok(t) => artifact_type_text(t) == value@,
                Err(e) => (forall|t: ArtifactType| artifact_type_text(t) != value@) && e@
                    == "unknown artifact type "@ + value@,
            },
    {
        ArtifactType::parse(value)
    }
}

/// Distinct artifact types have distinct names, so parsing a type's name
/// gives that type back.
pub proof fn lemma_artifact_type_text_injective(a: ArtifactType, b: ArtifactType)
    ensures
        artifact_type_text(a) == artifact_type_text(b) ==> a == b,
{
    reveal_strlit("migration_sql");
    reveal_strlit("migration_down_sql");
    reveal_strlit("verb_yaml");
    reveal_strlit("attribute_json");
    reveal_strlit("taxonomy_json");
    reveal_strlit("doc_json");
    if artifact_type_text(a) == artifact_type_text(b) {
        assert(artifact_type_text(a).len() == artifact_type_text(b).len());
        assert(artifact_type_text(a)[0] == artifact_type_text(b)[0]);
    }
}

/// Lifecycle state of a change set.
#[derive(Debug, Clone, Copy, PartialEq, Eq, Hash, Structural)]
pub enum ChangeSetStatus {
    Draft,
    UnderReview,
    Approved,
    Validated,
    Rejected,
    DryRunPassed,
    DryRunFailed,
    Published,
    Superseded,
}

/// The snake_case name of a status.
pub open spec fn status_name(s: ChangeSetStatus) -> Seq<char> {
    match s {
        ChangeSetStatus::Draft => "draft"@,
        ChangeSetStatus::UnderReview => "under_review"@,
        ChangeSetStatus::Approved => "approved"@,
        ChangeSetStatus::Validated => "validated"@,
        ChangeSetStatus::Rejected => "rejected"@,
        ChangeSetStatus::DryRunPassed => "dry_run_passed"@,
        ChangeSetStatus::DryRunFailed => "dry_run_failed"@,
        ChangeSetStatus::Published => "published"@,
        ChangeSetStatus::Superseded => "superseded"@,
    }
}

/// A status from which a change set moves no further.
pub open spec fn terminal(s: ChangeSetStatus) -> bool {
    s is Published || s is Rejected || s is Superseded || s is DryRunFailed
}

impl ChangeSetStatus {
    /// The snake_case name of this status.
    pub fn as_str(self) -> (r: &'static str)
        ensures
            r@ == status_name(self),
    {
        match self {
            ChangeSetStatus::Draft => "draft",
            ChangeSetStatus::UnderReview => "under_review",
            ChangeSetStatus::Approved => "approved",
            ChangeSetStatus::Validated => "validated",
            ChangeSetStatus::Rejected => "rejected",
            ChangeSetStatus::DryRunPassed => "dry_run_passed",
            ChangeSetStatus::DryRunFailed => "dry_run_failed",
            ChangeSetStatus::Published => "published",
            ChangeSetStatus::Superseded => "superseded",
        }
    }

    /// The status with the given snake_case name; `in_review` is also read
    /// as `UnderReview`.
    pub fn parse(value: &str) -> (r: Result<Self, String>)
        ensures
            match r {
                Ok(st) => status_name(st) == value@ || (st == ChangeSetStatus::UnderReview && value@
                    == "in_review"@),
                Err(e) => (forall|st: ChangeSetStatus| status_name(st) != value@) && value@
                    != "in_review"@ && e@ == "unknown change set status "@ + value@,
            },
    {
        if text_eq(value, "draft") {
            Ok(ChangeSetStatus::Draft)
        } else if text_eq(value, "under_review") || text_eq(value, "in_review") {
            Ok(ChangeSetStatus::UnderReview)
        } else if text_eq(value, "approved") {
            Ok(ChangeSetStatus::Approved)
        } else if text_eq(value, "validated") {
            Ok(ChangeSetStatus::Validated)
        } else if text_eq(value, "rejected") {
            Ok(ChangeSetStatus::Rejected)
        } else if text_eq(value, "dry_run_passed") {
            Ok(ChangeSetStatus::DryRunPassed)
        } else if text_eq(value, "dry_run_failed") {
            Ok(ChangeSetStatus::DryRunFailed)
        } else if text_eq(value, "published") {
            Ok(ChangeSetStatus::Published)
        } else if text_eq(value, "superseded") {
            Ok(ChangeSetStatus::Superseded)
        } else {
            Err(join2("unknown change set status ", value))
        }
    }

    /// Published, rejected, superseded and failed dry runs are terminal.
    pub fn is_terminal(self) -> (r: bool)
        ensures
            r == terminal(self),
    {
        match self {
            ChangeSetStatus::Published => true,
            ChangeSetStatus::Rejected => true,
            ChangeSetStatus::Superseded => true,
            ChangeSetStatus::DryRunFailed => true,
            _ => false,
        }
    }
}

impl AsRef<str> for ChangeSetStatus {
    fn as_ref(&self) -> (r: &str)
        ensures
            r@ == status_name(*self),
    {
        self.as_str()
    }
}

impl std::str::FromStr for ChangeSetStatus {
    type Err = String;

    fn from_str(value: &str) -> (r: Result<Self, String>)
        ensures
            match r {
                Ok(st) => status_name(st) == value@ || (st == ChangeSetStatus::UnderReview && value@
                    == "in_review"@),
                Err(e) => (forall|st: ChangeSetStatus| status_name(st) != value@) && value@
                    != "in_review"@ && e@ == "unknown change set status "@ + value@,
            },
    {
        ChangeSetStatus::parse(value)
    }
}

/// Distinct statuses have distinct names, and no status is named
/// `in_review`; so parsing a status's name gives that status back.
pub proof fn lemma_status_name_injective(a: ChangeSetStatus, b: ChangeSetStatus)
    ensures
        status_name(a) == status_name(b) ==> a == b,
        status_name(a) != "in_review"@,
{
    reveal_strlit("draft");
    reveal_strlit("under_review");
    reveal_strlit("approved");
    reveal_strlit("validated");
    reveal_strlit("rejected");
    reveal_strlit("dry_run_passed");
    reveal_strlit("dry_run_failed");
    reveal_strlit("published");
    reveal_strlit("superseded");
    reveal_strlit("in_review");
    if status_name(a) == status_name(b) {
        assert(status_name(a).len() == status_name(b).len());
        assert(status_name(a)[0] == status_name(b)[0]);
        assert(status_name(a)[1] == status_name(b)[1]);
        assert(status_name(a)[8] == status_name(b)[8]);
    }
    assert(status_name(a).len() != 9 || status_name(a)[0] != 'i');
}

/// Which validation stage produced a report.
#[derive(Debug, Clone, Copy, PartialEq, Eq, Hash, Structural)]
pub enum ValidationStage {
    Validate,
    DryRun,
}

/// Severity of a validation error.
#[derive(Debug, Clone, Copy, PartialEq, Eq, Hash, Structural)]
pub enum ErrorSeverity {
    Error,
    Warning,
    Info,
}

/// A validation error with a structured code.
#[derive(Debug, Clone)]
pub struct ValidationError {
    pub code: String,
    pub severity: ErrorSeverity,
    pub message: String,
    pub artifact_path: Option<String>,
    pub line: Option<u32>,
    pub context: Option<serde_json::Value>,
}

/// A validation error as texts; of the optional JSON context only whether
/// there is one.
pub struct ErrorView {
    pub code: Seq<char>,
    pub severity: ErrorSeverity,
    pub message: Seq<char>,
    pub artifact_path: Option<Seq<char>>,
    pub line: Option<u32>,
    pub has_context: bool,
}

impl View for ValidationError {
    type V = ErrorView;

    open spec fn view(&self) -> ErrorView {
        ErrorView {
            code: self.code@,
            severity: self.severity,
            message: self.message@,
            artifact_path: match self.artifact_path {
                Some(p) => Some(p@),
                None => None,
            },
            line: self.line,
            has_context: self.context is Some,
        }
    }
}

/// The views of a list of validation errors.
pub open spec fn error_views(es: Seq<ValidationError>) -> Seq<ErrorView> {
    es.map_values(|e: ValidationError| e@)
}

/// An error with no path, line or context.
pub open spec fn plain_error(code: Seq<char>, severity: ErrorSeverity, message: Seq<char>) -> ErrorView {
    ErrorView { code, severity, message, artifact_path: None, line: None, has_context: false }
}

/// A single artifact of a change-set bundle.
#[derive(Debug, Clone)]
pub struct ChangeSetArtifact {
    pub artifact_id: u128,
    pub change_set_id: u128,
    pub artifact_type: ArtifactType,
    pub ordinal: i32,
    pub path: Option<String>,
    pub content: String,
    pub content_hash: String,
    pub metadata: Option<serde_json::Value>,
}

/// Stage-1 validation report.
#[derive(Debug, Clone)]
pub struct ValidationReport {
    pub ok: bool,
    pub errors: Vec<ValidationError>,
    pub warnings: Vec<ValidationError>,
}

impl ValidationReport {
    /// A passing report with no findings.
    pub fn empty_ok() -> (r: Self)
        ensures
            r.ok,
            r.errors@.len() == 0,
            r.warnings@.len() == 0,
    {
        ValidationReport { ok: true, errors: Vec::new(), warnings: Vec::new() }
    }
}

/// An entry of a structural diff.
#[derive(Debug, Clone, PartialEq, Eq)]
pub struct DiffEntry {
    pub fqn: String,
    pub object_type: String,
    pub detail: Option<String>,
}

/// Structural diff between two artifact sets.
#[derive(Debug, Clone, PartialEq, Eq)]
pub struct DiffSummary {
    pub added: Vec<DiffEntry>,
    pub modified: Vec<DiffEntry>,
    pub removed: Vec<DiffEntry>,
    pub breaking_changes: Vec<DiffEntry>,
}

/// Stage-2 dry-run report.
#[derive(Debug, Clone)]
pub struct DryRunReport {
    pub ok: bool,
    pub errors: Vec<ValidationError>,
    pub warnings: Vec<ValidationError>,
    pub scratch_schema_apply_ms: Option<u64>,
    pub diff_summary: Option<DiffSummary>,
}

/// A manifest entry describing an artifact.
#[derive(Debug, Clone, PartialEq, Eq)]
pub struct ArtifactManifestEntry {
    pub artifact_type: ArtifactType,
    pub path: String,
    pub content_hash: Option<String>,
}

/// The manifest of a change set: what it is, what it depends on, and its
/// artifacts.
#[derive(Debug, Clone, PartialEq, Eq)]
pub struct ChangeSetManifest {
    pub title: String,
    pub rationale: Option<String>,
    pub depends_on: Vec<u128>,
    pub supersedes: Option<u128>,
    pub artifacts: Vec<ArtifactManifestEntry>,
}

/// An error of the authoring pipeline.
#[derive(Debug, Clone, PartialEq, Eq)]
pub enum AuthoringError {
    /// The input is malformed or inconsistent.
    InvalidInput(String),
    /// The request conflicts with the current state.
    Conflict(String),
    /// Something failed inside the pipeline.
    Internal(String),
}

impl AuthoringError {
    /// The error's message.
    pub fn message(&self) -> (r: &String)
        ensures
            *r == match self {
                AuthoringError::InvalidInput(m) => m,
                AuthoringError::Conflict(m) => m,
                AuthoringError::Internal(m) => m,
            },
    {
        match self {
            AuthoringError::InvalidInput(m) => m,
            AuthoringError::Conflict(m) => m,
            AuthoringError::Internal(m) => m,
        }
    }
}

/// Outcome of a governance verb invocation.
#[derive(Debug, Clone, PartialEq, Eq)]
pub enum AuditResult {
    Success { detail: Option<String> },
    Failure { code: String, message: String },
}

/// A (status, count) pair for health reporting.
#[derive(Debug, Clone, PartialEq, Eq)]
pub struct StatusCount {
    pub status: String,
    pub count: i64,
}

/// Pending change-set counts by status.
#[derive(Debug, Clone, PartialEq, Eq)]
pub struct PendingChangeSetsHealth {
    pub counts: Vec<StatusCount>,
    pub total_pending: i64,
}

/// Outbox projection lag.
#[derive(Debug, Clone, PartialEq, Eq)]
pub struct ProjectionLagHealth {
    pub unprocessed_events: i64,
    pub oldest_pending_age_seconds: Option<i64>,
}

} // verus!
