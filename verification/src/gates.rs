//! Publish gates: the simple four-gate pipeline (proof rule, security label,
//! governed approval, version monotonicity) and the extended gate result
//! with its enforcement mode.

use vstd::prelude::*;
use vstd::string::*;

pub mod cycle;
pub mod extended;
pub mod governance;
pub mod technical;

pub use cycle::check_derivation_cycle;
pub use extended::{
    check_derivation_evidence_grade, evaluate_all_publish_gates, evaluate_extended_gates,
    ExtendedGateContext,
};

use crate::abac::{Classification, SecurityLabel};
use crate::text::{
    concat_all, decimal, decimal_text, flat, join2, join4, joined_lines, lemma_concat_take,
    lemma_flat_take,
};

verus! {

broadcast use vstd::string::group_string_axioms;

/// Governance tier of a registry object.
#[derive(Debug, Clone, Copy, PartialEq, Eq, Hash, Structural)]
pub enum GovernanceTier {
    Governed,
    Operational,
}

/// Trust class of a registry object.
#[derive(Debug, Clone, Copy, PartialEq, Eq, Hash, Structural)]
pub enum TrustClass {
    Proof,
    DecisionSupport,
    Convenience,
}

/// What the simple gates read of a snapshot being published.
#[derive(Debug, Clone, PartialEq, Eq)]
pub struct SnapshotMeta {
    pub governance_tier: GovernanceTier,
    pub trust_class: TrustClass,
    pub security_label: SecurityLabel,
    pub approved_by: Option<String>,
    pub version_major: u32,
    pub version_minor: u32,
}

/// How a snapshot changes its predecessor.
#[derive(Debug, Clone, Copy, PartialEq, Eq, Hash, Structural)]
pub enum ChangeType {
    Created,
    NonBreaking,
    Breaking,
}

/// An instant as seconds and nanoseconds since the Unix epoch, with the text
/// it is written as.
#[derive(Debug, Clone, PartialEq, Eq)]
pub struct Timestamp {
    pub secs: i64,
    pub nanos: u32,
    pub text: String,
}

/// `a` is strictly earlier than `b`.
pub open spec fn earlier(a: Timestamp, b: Timestamp) -> bool {
    a.secs < b.secs || (a.secs == b.secs && a.nanos < b.nanos)
}

impl Timestamp {
    /// Whether this instant is strictly earlier than `other`.
    pub fn is_before(&self, other: &Timestamp) -> (r: bool)
        ensures
            r == earlier(*self, *other),
    {
        self.secs < other.secs || (self.secs == other.secs && self.nanos < other.nanos)
    }
}

/// The shape of one field of a snapshot's JSON definition.
#[derive(Debug, Clone, Copy, PartialEq, Eq, Structural)]
pub enum FieldShape {
    /// The field is not there.
    Absent,
    /// The field holds something other than an array.
    NotArray,
    /// The field holds an array of `len` items.
    Array { len: usize },
}

/// What the gates read of a snapshot's JSON definition.
#[derive(Debug, Clone, PartialEq, Eq)]
pub struct DefinitionFacts {
    /// The definition's `fqn`, when it is a string.
    pub fqn: Option<String>,
    pub regulatory_references: FieldShape,
    pub regulation_ids: FieldShape,
    /// The definition's `behavior`, when it is a string.
    pub behavior: Option<String>,
    /// The `verb` of each expansion step (`expands_to`, else `expansion`)
    /// that names one as a string.
    pub expansion_verbs: Vec<String>,
    /// The definition's `name`, when it is a string.
    pub name: Option<String>,
    /// The definition's `description`, when it is a string.
    pub description: Option<String>,
    /// The definition's `subject_kinds` when it is a list of strings, else
    /// empty.
    pub subject_kinds: Vec<String>,
    /// The definition read as a policy rule, when it is one.
    pub policy_rule: Option<crate::ontology::PolicyRuleBody>,
    /// The evidence grade of the definition read as an attribute
    /// definition, when it is one.
    pub attribute_evidence_grade: Option<crate::abac::EvidenceGrade>,
}

/// A snapshot's security label as parsed from its JSON, or the parser's
/// message when it does not parse.
#[derive(Debug, Clone, PartialEq, Eq)]
pub enum LabelParse {
    Valid(SecurityLabel),
    Invalid { error: String },
}

/// A registry snapshot as the gates read it. Ids are the 128-bit values of
/// UUIDs; `object_type` is the object type's name.
#[derive(Debug, Clone, PartialEq, Eq)]
pub struct SnapshotRow {
    pub snapshot_id: u128,
    pub object_type: String,
    pub object_id: u128,
    pub version_major: u32,
    pub version_minor: u32,
    pub governance_tier: GovernanceTier,
    pub trust_class: TrustClass,
    pub security_label: LabelParse,
    pub effective_until: Option<Timestamp>,
    pub predecessor_id: Option<u128>,
    pub change_type: ChangeType,
    pub change_rationale: Option<String>,
    pub created_by: String,
    pub approved_by: Option<String>,
    pub definition: DefinitionFacts,
}

/// The last `n` bytes of a number, most significant first.
pub open spec fn be_bytes(x: nat, n: nat) -> Seq<u8>
    decreases n,
{
    if n == 0 {
        Seq::empty()
    } else {
        be_bytes(x / 256, (n - 1) as nat).push((x % 256) as u8)
    }
}

/// The hyphenated lower-case text of a UUID, as `uuid` writes it: the
/// lower-case hex of its 16 bytes, most significant first, in groups of
/// 8, 4, 4, 4 and 12 digits joined by hyphens.
pub open spec fn uuid_text(id: u128) -> Seq<char> {
    let h = crate::authoring::canonical_hash::hex_text(be_bytes(id as nat, 16));
    h.subrange(0, 8) + "-"@ + h.subrange(8, 12) + "-"@ + h.subrange(12, 16) + "-"@ + h.subrange(16, 20) + "-"@
        + h.subrange(20, 32)
}

/// `uuid::Uuid::from_u128(id).to_string()`: the UUID's hyphenated text.
#[verifier::external_body]
pub(crate) fn uuid_string(id: u128) -> (r: String)
    ensures
        r@ == uuid_text(id),
{
    uuid::Uuid::from_u128(id).to_string()
}

/// Result of a single gate check.
#[derive(Debug, Clone)]
pub struct GateResult {
    pub gate_name: &'static str,
    pub passed: bool,
    pub reason: Option<String>,
}

impl GateResult {
    /// A passed gate.
    pub fn pass(gate_name: &'static str) -> (r: Self)
        ensures
            r.gate_name@ == gate_name@,
            r.passed,
            r.reason is None,
    {
        GateResult { gate_name, passed: true, reason: None }
    }

    /// A failed gate with its reason.
    pub fn fail(gate_name: &'static str, reason: String) -> (r: Self)
        ensures
            r.gate_name@ == gate_name@,
            !r.passed,
            r.reason == Some(reason),
    {
        GateResult { gate_name, passed: false, reason: Some(reason) }
    }
}

/// Aggregated result of all publish gates.
#[derive(Debug, Clone)]
pub struct PublishGateResult {
    pub results: Vec<GateResult>,
}

/// The message of a failed gate: `[gate] reason`.
pub open spec fn failure_message(r: GateResult) -> Seq<Seq<char>> {
    if !r.passed && r.reason is Some {
        seq!["["@ + r.gate_name@ + "] "@ + r.reason->0@]
    } else {
        Seq::empty()
    }
}

/// The messages of the failed gates, in order.
pub open spec fn failure_messages_of(rs: Seq<GateResult>) -> Seq<Seq<char>> {
    flat(Seq::new(rs.len(), |i: int| failure_message(rs[i])))
}

impl PublishGateResult {
    /// Every gate passed.
    pub fn all_passed(&self) -> (r: bool)
        ensures
            r == forall|i: int| 0 <= i < self.results@.len() ==> (#[trigger] self.results@[i]).passed,
    {
        let mut i: usize = 0;
        while i < self.results.len()
            invariant
                i <= self.results.len(),
                forall|j: int| 0 <= j < i ==> (#[trigger] self.results@[j]).passed,
            decreases self.results.len() - i,
        {
            if !self.results[i].passed {
                return false;
            }
            i += 1;
        }
        true
    }

    /// The failed gates, in order.
    pub fn failures(&self) -> (r: Vec<&GateResult>)
        ensures
            r@.map_values(|g: &GateResult| *g) == self.results@.filter(|g: GateResult| !g.passed),
    {
        let mut r: Vec<&GateResult> = Vec::new();
        let mut i: usize = 0;
        while i < self.results.len()
            invariant
                i <= self.results.len(),
                r@.map_values(|g: &GateResult| *g) == self.results@.take(i as int).filter(
                    |g: GateResult| !g.passed,
                ),
            decreases self.results.len() - i,
        {
            let g = &self.results[i];
            proof {
                assert(self.results@.take(i + 1).drop_last() =~= self.results@.take(i as int));
                reveal(Seq::filter);
                assert(self.results@.take(i + 1).last() == *g);
            }
            let ghost before = r@.map_values(|g: &GateResult| *g);
            if !g.passed {
                r.push(g);
            }
            assert(r@.map_values(|g: &GateResult| *g) =~= self.results@.take(i + 1).filter(
                |g: GateResult| !g.passed,
            ));
            i += 1;
        }
        assert(self.results@.take(self.results.len() as int) =~= self.results@);
        r
    }

    /// `[gate] reason` for every failed gate with a reason, in order.
    pub fn failure_messages(&self) -> (r: Vec<String>)
        ensures
            r@.map_values(|s: String| s@) == failure_messages_of(self.results@),
    {
        let ghost parts = Seq::new(self.results@.len(), |i: int| failure_message(self.results@[i]));
        let mut r: Vec<String> = Vec::new();
        let mut i: usize = 0;
        while i < self.results.len()
            invariant
                i <= self.results.len(),
                parts == Seq::new(self.results@.len(), |i: int| failure_message(self.results@[i])),
                r@.map_values(|s: String| s@) == flat(parts.take(i as int)),
            decreases self.results.len() - i,
        {
            let g = &self.results[i];
            let ghost before = r@.map_values(|s: String| s@);
            if !g.passed {
                match &g.reason {
                    Some(msg) => {
                        r.push(join4("[", g.gate_name, "] ", msg.as_str()));
                    },
                    None => {},
                }
            }
            proof {
                lemma_flat_take(parts, i as int);
                assert(r@.map_values(|s: String| s@) =~= before + parts[i as int]);
            }
            i += 1;
        }
        assert(parts.take(parts.len() as int) =~= parts);
        r
    }
}

// ── Individual gate checks ──────────────────────────────────────

/// **Proof rule**: only governed-tier objects may have the proof trust class.
pub fn check_proof_rule(tier: GovernanceTier, trust: TrustClass) -> (r: GateResult)
    ensures
        r.gate_name@ == "proof_rule"@,
        r.passed == !(trust == TrustClass::Proof && tier == GovernanceTier::Operational),
        r.passed ==> r.reason is None,
        !r.passed ==> r.reason is Some && r.reason->0@
            == "Operational-tier objects cannot have TrustClass::Proof — promote to Governed tier first"@,
{
    if trust == TrustClass::Proof && tier == GovernanceTier::Operational {
        GateResult::fail(
            "proof_rule",
            "Operational-tier objects cannot have TrustClass::Proof — promote to Governed tier first".to_owned(),
        )
    } else {
        GateResult::pass("proof_rule")
    }
}

/// **Security label**: PII-flagged objects must be at least confidential.
pub fn check_security_label(label: &SecurityLabel) -> (r: GateResult)
    ensures
        r.gate_name@ == "security_label"@,
        r.passed == !(label.pii && (label.classification == Classification::Public
            || label.classification == Classification::Internal)),
        r.passed ==> r.reason is None,
        !r.passed ==> r.reason is Some && r.reason->0@
            == "PII-flagged objects must have classification >= Confidential"@,
{
    if label.pii && (label.classification == Classification::Public || label.classification
        == Classification::Internal) {
        return GateResult::fail(
            "security_label",
            "PII-flagged objects must have classification >= Confidential".to_owned(),
        );
    }
    GateResult::pass("security_label")
}

/// **Governed approval**: governed-tier snapshots must have an approver.
pub fn check_governed_approval(meta: &SnapshotMeta) -> (r: GateResult)
    ensures
        r.gate_name@ == "governed_approval"@,
        r.passed == !(meta.governance_tier == GovernanceTier::Governed && meta.approved_by is None),
        r.passed ==> r.reason is None,
        !r.passed ==> r.reason is Some && r.reason->0@
            == "Governed-tier snapshots require an approver"@,
{
    if meta.governance_tier == GovernanceTier::Governed && meta.approved_by.is_none() {
        GateResult::fail("governed_approval", "Governed-tier snapshots require an approver".to_owned())
    } else {
        GateResult::pass("governed_approval")
    }
}

/// `(a_major, a_minor)` is lexicographically below `(b_major, b_minor)`.
pub open spec fn version_below(a_major: u32, a_minor: u32, b_major: u32, b_minor: u32) -> bool {
    a_major < b_major || (a_major == b_major && a_minor < b_minor)
}

/// **Version monotonicity**: a new version may not be below its predecessor.
pub fn check_version_monotonicity(meta: &SnapshotMeta, predecessor: Option<&SnapshotRow>) -> (r:
    GateResult)
    ensures
        r.gate_name@ == "version_monotonicity"@,
        r.passed == match predecessor {
            Some(p) => !version_below(
                meta.version_major,
                meta.version_minor,
                p.version_major,
                p.version_minor,
            ),
            None => true,
        },
        r.passed ==> r.reason is None,
        !r.passed ==> r.reason is Some && r.reason->0@ == "New version "@ + decimal(
            meta.version_major as nat,
        ) + "."@ + decimal(meta.version_minor as nat) + " is less than predecessor "@ + decimal(
            predecessor->0.version_major as nat,
        ) + "."@ + decimal(predecessor->0.version_minor as nat),
{
    match predecessor {
        Some(pred) => {
            if meta.version_major < pred.version_major || (meta.version_major == pred.version_major
                && meta.version_minor < pred.version_minor) {
                let a = decimal_text(meta.version_major as usize);
                let b = decimal_text(meta.version_minor as usize);
                let c = decimal_text(pred.version_major as usize);
                let d = decimal_text(pred.version_minor as usize);
                let mut msg = join4("New version ", a.as_str(), ".", b.as_str());
                msg.append(" is less than predecessor ");
                msg.append(c.as_str());
                msg.append(".");
                msg.append(d.as_str());
                return GateResult::fail("version_monotonicity", msg);
            }
        },
        None => {},
    }
    GateResult::pass("version_monotonicity")
}

/// Evaluate the four simple publish gates, in order: proof rule, security
/// label, governed approval, version monotonicity.
pub fn evaluate_publish_gates(meta: &SnapshotMeta, predecessor: Option<&SnapshotRow>) -> (r:
    PublishGateResult)
    ensures
        r.results@.len() == 4,
        r.results@[0].gate_name@ == "proof_rule"@,
        r.results@[0].passed == !(meta.trust_class == TrustClass::Proof && meta.governance_tier
            == GovernanceTier::Operational),
        r.results@[1].gate_name@ == "security_label"@,
        r.results@[1].passed == !(meta.security_label.pii && (meta.security_label.classification
            == Classification::Public || meta.security_label.classification
            == Classification::Internal)),
        r.results@[2].gate_name@ == "governed_approval"@,
        r.results@[2].passed == !(meta.governance_tier == GovernanceTier::Governed
            && meta.approved_by is None),
        r.results@[3].gate_name@ == "version_monotonicity"@,
        r.results@[3].passed == match predecessor {
            Some(p) => !version_below(
                meta.version_major,
                meta.version_minor,
                p.version_major,
                p.version_minor,
            ),
            None => true,
        },
        forall|i: int| 0 <= i < 4 ==> ((#[trigger] r.results@[i]).passed <==> r.results@[i].reason is None),
{
    let mut results: Vec<GateResult> = Vec::new();
    results.push(check_proof_rule(meta.governance_tier, meta.trust_class));
    results.push(check_security_label(&meta.security_label));
    results.push(check_governed_approval(meta));
    results.push(check_version_monotonicity(meta, predecessor));
    PublishGateResult { results }
}

/// **Evidence proof rule**: evidence that references a proof-class attribute
/// must itself be governed.
pub fn check_evidence_proof_rule(
    evidence_tier: GovernanceTier,
    referenced_attribute_trust_class: TrustClass,
) -> (r: GateResult)
    ensures
        r.gate_name@ == "evidence_proof_rule"@,
        r.passed == !(referenced_attribute_trust_class == TrustClass::Proof && evidence_tier
            != GovernanceTier::Governed),
        r.passed ==> r.reason is None,
        !r.passed ==> r.reason is Some && r.reason->0@
            == "Evidence requirement referencing a Proof-class attribute must be Governed tier"@,
{
    if referenced_attribute_trust_class == TrustClass::Proof && evidence_tier
        != GovernanceTier::Governed {
        GateResult::fail(
            "evidence_proof_rule",
            "Evidence requirement referencing a Proof-class attribute must be Governed tier".to_owned(),
        )
    } else {
        GateResult::pass("evidence_proof_rule")
    }
}

} // verus!

verus! {

// ── Extended gate framework ─────────────────────────────────────

/// Gate enforcement mode: whether failures block or only warn.
#[derive(Debug, Clone, Copy, PartialEq, Eq, Structural)]
pub enum GateMode {
    Enforce,
    ReportOnly,
}

/// Severity of an extended gate failure.
#[derive(Debug, Clone, Copy, PartialEq, Eq, Hash, Structural)]
pub enum GateSeverity {
    Error,
    Warning,
}

/// Structured gate failure with metadata for audit and remediation.
#[derive(Debug, Clone, PartialEq, Eq)]
pub struct GateFailure {
    pub gate_name: String,
    pub severity: GateSeverity,
    pub object_type: String,
    pub object_fqn: Option<String>,
    pub snapshot_id: Option<u128>,
    pub message: String,
    pub remediation_hint: Option<String>,
}

/// A gate failure as texts.
pub struct FailureView {
    pub gate_name: Seq<char>,
    pub severity: GateSeverity,
    pub object_type: Seq<char>,
    pub object_fqn: Option<Seq<char>>,
    pub snapshot_id: Option<u128>,
    pub message: Seq<char>,
    pub remediation_hint: Option<Seq<char>>,
}

pub open spec fn opt_view(o: Option<String>) -> Option<Seq<char>> {
    match o {
        Some(s) => Some(s@),
        None => None,
    }
}

impl View for GateFailure {
    type V = FailureView;

    open spec fn view(&self) -> FailureView {
        FailureView {
            gate_name: self.gate_name@,
            severity: self.severity,
            object_type: self.object_type@,
            object_fqn: opt_view(self.object_fqn),
            snapshot_id: self.snapshot_id,
            message: self.message@,
            remediation_hint: opt_view(self.remediation_hint),
        }
    }
}

/// A failure with no FQN, snapshot or hint.
pub open spec fn bare_failure(
    gate: Seq<char>,
    severity: GateSeverity,
    object_type: Seq<char>,
    message: Seq<char>,
) -> FailureView {
    FailureView {
        gate_name: gate,
        severity,
        object_type,
        object_fqn: None,
        snapshot_id: None,
        message,
        remediation_hint: None,
    }
}

/// The views of a list of failures.
pub open spec fn failure_views(fs: Seq<GateFailure>) -> Seq<FailureView> {
    fs.map_values(|f: GateFailure| f@)
}

impl GateFailure {
    /// An error-level failure.
    pub fn error(gate_name: &str, object_type: &str, message: String) -> (r: Self)
        ensures
            r@ == bare_failure(gate_name@, GateSeverity::Error, object_type@, message@),
    {
        GateFailure {
            gate_name: gate_name.to_owned(),
            severity: GateSeverity::Error,
            object_type: object_type.to_owned(),
            object_fqn: None,
            snapshot_id: None,
            message,
            remediation_hint: None,
        }
    }

    /// A warning-level failure.
    pub fn warning(gate_name: &str, object_type: &str, message: String) -> (r: Self)
        ensures
            r@ == bare_failure(gate_name@, GateSeverity::Warning, object_type@, message@),
    {
        GateFailure {
            gate_name: gate_name.to_owned(),
            severity: GateSeverity::Warning,
            object_type: object_type.to_owned(),
            object_fqn: None,
            snapshot_id: None,
            message,
            remediation_hint: None,
        }
    }

    /// The same failure with the object FQN set.
    pub fn with_fqn(self, fqn: &str) -> (r: Self)
        ensures
            r@ == (FailureView { object_fqn: Some(fqn@), ..self@ }),
    {
        let mut s = self;
        s.object_fqn = Some(fqn.to_owned());
        s
    }

    /// The same failure with the snapshot id set.
    pub fn with_snapshot_id(self, id: u128) -> (r: Self)
        ensures
            r@ == (FailureView { snapshot_id: Some(id), ..self@ }),
    {
        let mut s = self;
        s.snapshot_id = Some(id);
        s
    }

    /// The same failure with a remediation hint.
    pub fn with_hint(self, hint: &str) -> (r: Self)
        ensures
            r@ == (FailureView { remediation_hint: Some(hint@), ..self@ }),
    {
        let mut s = self;
        s.remediation_hint = Some(hint.to_owned());
        s
    }
}

/// Extended publish gate result with its enforcement mode.
#[derive(Debug, Clone)]
pub struct ExtendedPublishGateResult {
    pub failures: Vec<GateFailure>,
    pub mode: GateMode,
}

/// Some failure has the given severity.
pub open spec fn has_severity(fs: Seq<GateFailure>, s: GateSeverity) -> bool {
    exists|i: int| 0 <= i < fs.len() && (#[trigger] fs[i]).severity == s
}

/// The number of failures with the given severity.
pub open spec fn count_severity(fs: Seq<GateFailure>, s: GateSeverity) -> nat
    decreases fs.len(),
{
    if fs.len() == 0 {
        0
    } else {
        count_severity(fs.drop_last(), s) + if fs.last().severity == s {
            1nat
        } else {
            0nat
        }
    }
}

fn any_with_severity(fs: &Vec<GateFailure>, s: GateSeverity) -> (r: bool)
    ensures
        r == has_severity(fs@, s),
{
    let mut i: usize = 0;
    while i < fs.len()
        invariant
            i <= fs.len(),
            forall|j: int| 0 <= j < i ==> (#[trigger] fs@[j]).severity != s,
        decreases fs.len() - i,
    {
        if fs[i].severity == s {
            return true;
        }
        i += 1;
    }
    false
}

fn count_with_severity(fs: &Vec<GateFailure>, s: GateSeverity) -> (r: usize)
    ensures
        r == count_severity(fs@, s),
        r <= fs@.len(),
{
    let mut n: usize = 0;
    let mut i: usize = 0;
    while i < fs.len()
        invariant
            i <= fs.len(),
            n == count_severity(fs@.take(i as int), s),
            n <= i,
        decreases fs.len() - i,
    {
        assert(fs@.take(i + 1).drop_last() =~= fs@.take(i as int));
        if fs[i].severity == s {
            n += 1;
        }
        i += 1;
    }
    assert(fs@.take(fs.len() as int) =~= fs@);
    n
}

/// One line of a failure report: `[ERROR|WARN] gate (fqn): message`.
pub open spec fn report_line(f: GateFailure) -> Seq<char> {
    "["@ + (if f.severity == GateSeverity::Error {
        "ERROR"@
    } else {
        "WARN"@
    }) + "] "@ + f.gate_name@ + " ("@ + match f.object_fqn {
        Some(q) => q@,
        None => "unknown"@,
    } + "): "@ + f.message@
}

/// The human-readable failure report.
pub open spec fn failure_report_text(fs: Seq<GateFailure>) -> Seq<char> {
    if fs.len() == 0 {
        "All gates passed."@
    } else {
        joined_lines(fs.map_values(|f: GateFailure| report_line(f)))
    }
}

fn report_line_text(f: &GateFailure) -> (r: String)
    ensures
        r@ == report_line(*f),
{
    let mut out = String::new();
    out.append("[");
    match f.severity {
        GateSeverity::Error => out.append("ERROR"),
        GateSeverity::Warning => out.append("WARN"),
    }
    out.append("] ");
    out.append(f.gate_name.as_str());
    out.append(" (");
    match &f.object_fqn {
        Some(q) => out.append(q.as_str()),
        None => out.append("unknown"),
    }
    out.append("): ");
    out.append(f.message.as_str());
    out
}

impl ExtendedPublishGateResult {
    /// Some failure is an error.
    pub fn has_errors(&self) -> (r: bool)
        ensures
            r == has_severity(self.failures@, GateSeverity::Error),
    {
        any_with_severity(&self.failures, GateSeverity::Error)
    }

    /// Some failure is a warning.
    pub fn has_warnings(&self) -> (r: bool)
        ensures
            r == has_severity(self.failures@, GateSeverity::Warning),
    {
        any_with_severity(&self.failures, GateSeverity::Warning)
    }

    /// Errors block a publish in enforce mode only.
    pub fn should_block(&self) -> (r: bool)
        ensures
            r == (has_severity(self.failures@, GateSeverity::Error) && self.mode
                == GateMode::Enforce),
    {
        self.has_errors() && self.mode == GateMode::Enforce
    }

    /// One line per failure, or `All gates passed.` when there is none.
    pub fn failure_report(&self) -> (r: String)
        ensures
            r@ == failure_report_text(self.failures@),
    {
        if self.failures.len() == 0 {
            return "All gates passed.".to_owned();
        }
        let ghost lines = self.failures@.map_values(|f: GateFailure| report_line(f));
        let mut out = report_line_text(&self.failures[0]);
        assert(lines.take(1).drop_last() =~= Seq::<Seq<char>>::empty());
        let mut i: usize = 1;
        while i < self.failures.len()
            invariant
                1 <= i <= self.failures.len(),
                lines == self.failures@.map_values(|f: GateFailure| report_line(f)),
                out@ == joined_lines(lines.take(i as int)),
            decreases self.failures.len() - i,
        {
            let l = report_line_text(&self.failures[i]);
            out.append("\n");
            out.append(l.as_str());
            assert(lines.take(i + 1).drop_last() =~= lines.take(i as int));
            i += 1;
        }
        assert(lines.take(lines.len() as int) =~= lines);
        out
    }
}

/// Both gate frameworks together.
#[derive(Debug, Clone)]
pub struct UnifiedPublishGateResult {
    pub simple: PublishGateResult,
    pub extended: ExtendedPublishGateResult,
}

/// The messages of the error-level extended failures: `[gate] (fqn) message`.
pub open spec fn extended_error_message(f: GateFailure) -> Seq<Seq<char>> {
    if f.severity == GateSeverity::Error {
        seq![
            "["@ + f.gate_name@ + "] ("@ + match f.object_fqn {
                Some(q) => q@,
                None => "unknown"@,
            } + ") "@ + f.message@,
        ]
    } else {
        Seq::empty()
    }
}

impl UnifiedPublishGateResult {
    /// A publish is blocked when a simple gate fails or the extended result
    /// blocks.
    pub fn should_block(&self) -> (r: bool)
        ensures
            r == (!(forall|i: int|
                0 <= i < self.simple.results@.len() ==> (#[trigger] self.simple.results@[i]).passed)
                || (has_severity(self.extended.failures@, GateSeverity::Error)
                && self.extended.mode == GateMode::Enforce)),
    {
        !self.simple.all_passed() || self.extended.should_block()
    }

    /// The simple failure messages, then the error-level extended ones.
    pub fn all_failure_messages(&self) -> (r: Vec<String>)
        ensures
            r@.map_values(|s: String| s@) == failure_messages_of(self.simple.results@) + flat(
                Seq::new(
                    self.extended.failures@.len(),
                    |i: int| extended_error_message(self.extended.failures@[i]),
                ),
            ),
    {
        let mut msgs = self.simple.failure_messages();
        let ghost head = msgs@.map_values(|s: String| s@);
        let ghost parts = Seq::new(
            self.extended.failures@.len(),
            |i: int| extended_error_message(self.extended.failures@[i]),
        );
        let mut i: usize = 0;
        while i < self.extended.failures.len()
            invariant
                i <= self.extended.failures.len(),
                parts == Seq::new(
                    self.extended.failures@.len(),
                    |i: int| extended_error_message(self.extended.failures@[i]),
                ),
                msgs@.map_values(|s: String| s@) == head + flat(parts.take(i as int)),
            decreases self.extended.failures.len() - i,
        {
            let f = &self.extended.failures[i];
            let ghost before = msgs@.map_values(|s: String| s@);
            if f.severity == GateSeverity::Error {
                let mut m = String::new();
                m.append("[");
                m.append(f.gate_name.as_str());
                m.append("] (");
                match &f.object_fqn {
                    Some(q) => m.append(q.as_str()),
                    None => m.append("unknown"),
                }
                m.append(") ");
                m.append(f.message.as_str());
                msgs.push(m);
            }
            proof {
                lemma_flat_take(parts, i as int);
                assert(msgs@.map_values(|s: String| s@) =~= before + parts[i as int]);
            }
            i += 1;
        }
        assert(parts.take(parts.len() as int) =~= parts);
        msgs
    }

    /// Failed simple gates plus error-level extended failures.
    pub fn error_count(&self) -> (r: usize)
        requires
            self.simple.results@.len() + self.extended.failures@.len() <= usize::MAX,
        ensures
            r == self.simple.results@.filter(|g: GateResult| !g.passed).len() + count_severity(
                self.extended.failures@,
                GateSeverity::Error,
            ),
    {
        let failed = self.simple.failures();
        proof {
            self.simple.results@.lemma_filter_len(|g: GateResult| !g.passed);
            assert(failed@.len() == failed@.map_values(|g: &GateResult| *g).len());
        }
        let e = count_with_severity(&self.extended.failures, GateSeverity::Error);
        failed.len() + e
    }

    /// Warning-level extended failures (the simple gates have no warnings).
    pub fn warning_count(&self) -> (r: usize)
        ensures
            r == count_severity(self.extended.failures@, GateSeverity::Warning),
    {
        count_with_severity(&self.extended.failures, GateSeverity::Warning)
    }
}

} // verus!

verus! {

// ── Derivation gates ────────────────────────────────────────────

/// One input of a derivation.
#[derive(Debug, Clone, PartialEq, Eq)]
pub struct DerivationInput {
    pub attribute_fqn: String,
}

/// The parts of a derivation spec the gates read.
#[derive(Debug, Clone, PartialEq, Eq)]
pub struct DerivationSpecBody {
    pub fqn: String,
    pub output_attribute_fqn: String,
    pub inputs: Vec<DerivationInput>,
    pub evidence_grade: crate::abac::EvidenceGrade,
}

/// A derivation failure with FQN and hint.
pub open spec fn derivation_failure(fqn: Seq<char>, message: Seq<char>, hint: Seq<char>) -> FailureView {
    FailureView {
        gate_name: "derivation_type_compat"@,
        severity: GateSeverity::Error,
        object_type: "derivation_spec"@,
        object_fqn: Some(fqn),
        snapshot_id: None,
        message,
        remediation_hint: Some(hint),
    }
}

/// The error for an input attribute missing from the registry.
pub open spec fn input_failure(s: DerivationSpecBody, input: Seq<char>, known: Seq<Seq<char>>) -> Seq<FailureView> {
    if !known.contains(input) {
        seq![
            derivation_failure(
                s.fqn@,
                "Derivation '"@ + s.fqn@ + "' input attribute '"@ + input + "' not found in registry"@,
                "Publish the input attribute definition first"@,
            ),
        ]
    } else {
        Seq::empty()
    }
}

/// All reference errors of a derivation: the output, then each input.
pub open spec fn derivation_reference_failures(s: DerivationSpecBody, known: Seq<Seq<char>>) -> Seq<FailureView> {
    (if !known.contains(s.output_attribute_fqn@) {
        seq![
            derivation_failure(
                s.fqn@,
                "Derivation '"@ + s.fqn@ + "' output attribute '"@ + s.output_attribute_fqn@
                    + "' not found in registry"@,
                "Publish the output attribute definition first"@,
            ),
        ]
    } else {
        Seq::empty()
    }) + flat(
        Seq::new(s.inputs@.len(), |i: int| input_failure(s, s.inputs@[i].attribute_fqn@, known)),
    )
}

/// Check that a derivation's output and inputs are known attributes.
pub fn check_derivation_type_compatibility(
    spec: &DerivationSpecBody,
    known_attribute_fqns: &Vec<String>,
) -> (r: Vec<GateFailure>)
    ensures
        failure_views(r@) == derivation_reference_failures(*spec, crate::text::texts(known_attribute_fqns@)),
{
    let ghost known = crate::text::texts(known_attribute_fqns@);
    let mut failures: Vec<GateFailure> = Vec::new();
    if !crate::text::contains_text(known_attribute_fqns, spec.output_attribute_fqn.as_str()) {
        let msg = crate::text::join3("Derivation '", spec.fqn.as_str(), "' output attribute '");
        let msg = crate::text::join3(
            msg.as_str(),
            spec.output_attribute_fqn.as_str(),
            "' not found in registry",
        );
        failures.push(
            GateFailure::error("derivation_type_compat", "derivation_spec", msg).with_fqn(
                spec.fqn.as_str(),
            ).with_hint("Publish the output attribute definition first"),
        );
    }
    let ghost head = failure_views(failures@);
    let ghost parts = Seq::new(
        spec.inputs@.len(),
        |i: int| input_failure(*spec, spec.inputs@[i].attribute_fqn@, known),
    );
    let mut i: usize = 0;
    while i < spec.inputs.len()
        invariant
            i <= spec.inputs.len(),
            known == crate::text::texts(known_attribute_fqns@),
            parts == Seq::new(
                spec.inputs@.len(),
                |i: int| input_failure(*spec, spec.inputs@[i].attribute_fqn@, known),
            ),
            failure_views(failures@) == head + flat(parts.take(i as int)),
        decreases spec.inputs.len() - i,
    {
        let input = spec.inputs[i].attribute_fqn.as_str();
        let ghost before = failure_views(failures@);
        if !crate::text::contains_text(known_attribute_fqns, input) {
            let msg = crate::text::join3("Derivation '", spec.fqn.as_str(), "' input attribute '");
            let msg = crate::text::join3(msg.as_str(), input, "' not found in registry");
            failures.push(
                GateFailure::error("derivation_type_compat", "derivation_spec", msg).with_fqn(
                    spec.fqn.as_str(),
                ).with_hint("Publish the input attribute definition first"),
            );
        }
        proof {
            lemma_flat_take(parts, i as int);
            assert(failure_views(failures@) =~= before + parts[i as int]);
        }
        i += 1;
    }
    assert(parts.take(parts.len() as int) =~= parts);
    failures
}

} // verus!
