//! Domain Pack contract for configuration-native state-machine agents: the
//! manifest, its validation, discovery-probe authorization and the decisions
//! of the reload index.

use vstd::prelude::*;
use vstd::string::*;

use crate::acp_projection::{kind_text, AcpProjectionKind};
use crate::text::{
    blank, contains_text, flat, is_blank, join2, join3, lemma_flat_take, text_eq, texts,
};

verus! {

broadcast use vstd::string::group_string_axioms;

// ── Manifest ────────────────────────────────────────────────────

/// How a pack is implemented.
#[derive(Debug, Clone, Copy, PartialEq, Eq, Structural)]
pub enum PackImplementationMode {
    NativeCompiled,
    ExternalAdapter,
}

/// How far a pack may go: dry-run only, reference mutation, or reuse proof.
#[derive(Debug, Clone, Copy, PartialEq, Eq, Structural)]
pub enum PackCompatibilityTier {
    DryRunOnly,
    ReferenceMutation,
    ReuseProof,
}

/// Classification ceiling of context, ordered from least to most sensitive.
#[derive(Debug, Clone, Copy, PartialEq, Eq, Structural)]
pub enum ClassificationLimit {
    Public,
    Internal,
    Confidential,
    Restricted,
}

/// A state-machine transition the pack may drive.
#[derive(Debug, Clone, PartialEq, Eq)]
pub struct DomainTransition {
    pub transition_ref: String,
    pub entity_type: String,
    pub state_machine: String,
    pub verb: String,
    pub from_state: String,
    pub to_state: String,
    pub dry_run_enabled: bool,
    pub mutation_enabled: bool,
    pub hitl_required: bool,
    pub evidence_refs_required: Vec<String>,
}

/// A read-only probe of the substrate.
#[derive(Debug, Clone, PartialEq, Eq)]
pub struct DiscoveryProbe {
    pub probe_id: String,
    pub operation: String,
    pub target: String,
    pub idempotent: bool,
    pub modeled: bool,
    pub first_class_state_mutation: bool,
}

/// A projection the pack publishes.
#[derive(Debug, Clone, PartialEq, Eq)]
pub struct ProjectionCatalogEntry {
    pub kind: AcpProjectionKind,
    pub source: String,
    pub default_classification: ClassificationLimit,
    pub allowed_subject_kinds: Vec<String>,
    pub max_depth: Option<u32>,
    pub acp_visible_by_default: bool,
}

/// A mention namespace.
#[derive(Debug, Clone, PartialEq, Eq)]
pub struct MentionNamespace {
    pub namespace: String,
    pub target_kind: String,
    pub description: String,
}

/// A declared interaction mode.
#[derive(Debug, Clone, PartialEq, Eq)]
pub struct DeclaredMode {
    pub mode_id: String,
    pub label: String,
    pub description: String,
}

/// A workflow phase.
#[derive(Debug, Clone, PartialEq, Eq)]
pub struct WorkflowPhase {
    pub phase_id: String,
    pub label: String,
    pub description: String,
}

/// An ACP persona.
#[derive(Debug, Clone, PartialEq, Eq)]
pub struct AcpPersonaDeclaration {
    pub persona_id: String,
    pub label: String,
    pub description: String,
    pub mutation_authority: bool,
}

/// A resource URI scheme.
#[derive(Debug, Clone, PartialEq, Eq)]
pub struct ResourceUriScheme {
    pub scheme: String,
    pub resource_kind: String,
    pub description: String,
}

/// An external MCP transport and the probes it may call.
#[derive(Debug, Clone, PartialEq, Eq)]
pub struct ExternalMcpTransport {
    pub server_id: String,
    pub description: String,
    pub read_only: bool,
    pub classification: ClassificationLimit,
    pub allowed_probe_ids: Vec<String>,
}

/// A typed extension point.
#[derive(Debug, Clone, PartialEq, Eq)]
pub struct TypedExtensionPoint {
    pub extension_id: String,
    pub extension_kind: String,
    pub implementation_ref: String,
}

/// What context may reach a prompt.
#[derive(Debug, Clone, PartialEq, Eq)]
pub struct ContextClassificationPolicy {
    pub max_prompt_classification: ClassificationLimit,
    pub allow_external_llm: bool,
    pub required_redactions: Vec<String>,
}

/// A Domain Pack manifest.
#[derive(Debug, Clone, PartialEq, Eq)]
pub struct DomainPackManifest {
    pub pack_id: String,
    pub name: String,
    pub version: String,
    pub implementation_mode: PackImplementationMode,
    pub compatibility_tier: PackCompatibilityTier,
    pub owned_dags: Vec<String>,
    pub owned_packs: Vec<String>,
    pub owned_state_machines: Vec<String>,
    pub owned_constellation_maps: Vec<String>,
    pub owned_constellation_families: Vec<String>,
    pub owned_universes: Vec<String>,
    pub owned_verb_prefixes: Vec<String>,
    pub owned_entity_kinds: Vec<String>,
    pub business_crates: Vec<String>,
    pub owned_constellations: Vec<String>,
    pub allowed_transitions: Vec<DomainTransition>,
    pub discovery_probes: Vec<DiscoveryProbe>,
    pub projection_catalog: Vec<ProjectionCatalogEntry>,
    pub mention_namespaces: Vec<MentionNamespace>,
    pub declared_modes: Vec<DeclaredMode>,
    pub workflow_phases: Vec<WorkflowPhase>,
    pub acp_personas: Vec<AcpPersonaDeclaration>,
    pub resource_uri_schemes: Vec<ResourceUriScheme>,
    pub external_mcp_transports: Vec<ExternalMcpTransport>,
    pub typed_extension_points: Vec<TypedExtensionPoint>,
    pub classification_policy: ContextClassificationPolicy,
}

// ── Diagnostics ─────────────────────────────────────────────────

/// The result of validating a manifest.
#[derive(Debug, Clone, PartialEq, Eq)]
pub struct DomainPackValidationReport {
    pub valid: bool,
    pub diagnostics: Vec<DomainPackDiagnostic>,
}

/// One finding of validation.
#[derive(Debug, Clone, PartialEq, Eq)]
pub struct DomainPackDiagnostic {
    pub code: String,
    pub message: String,
}

/// A diagnostic as texts.
pub struct DiagnosticView {
    pub code: Seq<char>,
    pub message: Seq<char>,
}

impl View for DomainPackDiagnostic {
    type V = DiagnosticView;

    open spec fn view(&self) -> DiagnosticView {
        DiagnosticView { code: self.code@, message: self.message@ }
    }
}

pub open spec fn diag(code: Seq<char>, message: Seq<char>) -> DiagnosticView {
    DiagnosticView { code, message }
}

/// The views of a list of diagnostics.
pub open spec fn diag_views(ds: Seq<DomainPackDiagnostic>) -> Seq<DiagnosticView> {
    ds.map_values(|d: DomainPackDiagnostic| d@)
}

/// One diagnostic when `c` holds, none otherwise.
pub open spec fn when(c: bool, d: DiagnosticView) -> Seq<DiagnosticView> {
    if c {
        seq![d]
    } else {
        Seq::empty()
    }
}

fn diagnostic(code: &str, message: String) -> (r: DomainPackDiagnostic)
    ensures
        r@ == diag(code@, message@),
{
    DomainPackDiagnostic { code: code.to_owned(), message }
}

fn push_diagnostic(diagnostics: &mut Vec<DomainPackDiagnostic>, code: &str, message: String)
    ensures
        diag_views(final(diagnostics)@) == diag_views(old(diagnostics)@).push(diag(code@, message@)),
{
    let d = diagnostic(code, message);
    diagnostics.push(d);
    assert(diag_views(diagnostics@) =~= diag_views(old(diagnostics)@).push(diag(code@, message@)));
}

fn push_when(
    diagnostics: &mut Vec<DomainPackDiagnostic>,
    cond: bool,
    code: &str,
    message: String,
)
    ensures
        diag_views(final(diagnostics)@) == diag_views(old(diagnostics)@) + when(
            cond,
            diag(code@, message@),
        ),
{
    if cond {
        push_diagnostic(diagnostics, code, message);
    }
    assert(diag_views(diagnostics@) =~= diag_views(old(diagnostics)@) + when(
        cond,
        diag(code@, message@),
    ));
}

impl DomainPackValidationReport {
    /// A report that is valid exactly when there are no diagnostics.
    pub fn from_diagnostics(diagnostics: Vec<DomainPackDiagnostic>) -> (r: Self)
        ensures
            r.valid == (diagnostics@.len() == 0),
            r.diagnostics@ == diagnostics@,
    {
        let valid = diagnostics.len() == 0;
        DomainPackValidationReport { valid, diagnostics }
    }
}

/// The diagnostic for a required field that trims to nothing.
pub open spec fn required(field: Seq<char>, value: Seq<char>) -> Seq<DiagnosticView> {
    when(
        blank(value),
        diag("domain_pack.required_field_empty"@, field + " must not be empty"@),
    )
}

fn require_non_empty(diagnostics: &mut Vec<DomainPackDiagnostic>, field: &str, value: &str)
    ensures
        diag_views(final(diagnostics)@) == diag_views(old(diagnostics)@) + required(field@, value@),
{
    if is_blank(value) {
        push_diagnostic(
            diagnostics,
            "domain_pack.required_field_empty",
            join2(field, " must not be empty"),
        );
    }
    assert(diag_views(diagnostics@) =~= diag_views(old(diagnostics)@) + required(field@, value@));
}

/// The diagnostics of value `i` of an owned list: blank, or a repeat of an
/// earlier value.
pub open spec fn owned_value_diags(field: Seq<char>, values: Seq<Seq<char>>, i: int) -> Seq<
    DiagnosticView,
> {
    if blank(values[i]) {
        seq![diag("domain_pack.owned_field_empty"@, field + " contains an empty value"@)]
    } else if values.take(i).contains(values[i]) {
        seq![
            diag(
                "domain_pack.duplicate_owned_value"@,
                field + " contains duplicate value "@ + values[i],
            ),
        ]
    } else {
        Seq::empty()
    }
}

/// The diagnostics of an owned list, value by value.
pub open spec fn owned_diags(field: Seq<char>, values: Seq<Seq<char>>) -> Seq<DiagnosticView> {
    flat(Seq::new(values.len(), |i: int| owned_value_diags(field, values, i)))
}

fn contains_before(values: &Vec<String>, i: usize, key: &str) -> (r: bool)
    requires
        i <= values.len(),
    ensures
        r == texts(values@).take(i as int).contains(key@),
{
    let mut j: usize = 0;
    while j < i
        invariant
            j <= i <= values.len(),
            forall|k: int| 0 <= k < j ==> values@[k]@ != key@,
        decreases i - j,
    {
        if text_eq(values[j].as_str(), key) {
            assert(texts(values@).take(i as int)[j as int] == key@);
            return true;
        }
        j += 1;
    }
    proof {
        if texts(values@).take(i as int).contains(key@) {
            let k = choose|k: int| 0 <= k < i && texts(values@).take(i as int)[k] == key@;
            assert(values@[k]@ == key@);
        }
    }
    false
}

fn validate_owned_values(
    field: &str,
    values: &Vec<String>,
    diagnostics: &mut Vec<DomainPackDiagnostic>,
)
    ensures
        diag_views(final(diagnostics)@) == diag_views(old(diagnostics)@) + owned_diags(
            field@,
            texts(values@),
        ),
{
    let ghost vs = texts(values@);
    let ghost parts = Seq::new(vs.len(), |i: int| owned_value_diags(field@, vs, i));
    let ghost start = diag_views(diagnostics@);
    let mut i: usize = 0;
    while i < values.len()
        invariant
            i <= values.len(),
            vs == texts(values@),
            parts == Seq::new(vs.len(), |i: int| owned_value_diags(field@, vs, i)),
            diag_views(diagnostics@) == start + flat(parts.take(i as int)),
        decreases values.len() - i,
    {
        let v = values[i].as_str();
        let ghost before = diag_views(diagnostics@);
        if is_blank(v) {
            push_diagnostic(
                diagnostics,
                "domain_pack.owned_field_empty",
                join2(field, " contains an empty value"),
            );
        } else if contains_before(values, i, v) {
            push_diagnostic(
                diagnostics,
                "domain_pack.duplicate_owned_value",
                join3(field, " contains duplicate value ", v),
            );
        }
        proof {
            lemma_flat_take(parts, i as int);
            assert(vs[i as int] == v@);
            assert(diag_views(diagnostics@) =~= before + parts[i as int]);
        }
        i += 1;
    }
    assert(parts.take(parts.len() as int) =~= parts);
}

} // verus!

verus! {
/// The keys of a list of `DomainTransition` values.
pub open spec fn transition_keys(xs: Seq<DomainTransition>) -> Seq<Seq<char>> {
    xs.map_values(|x: DomainTransition| x.transition_ref@)
}

/// The diagnostics of one `DomainTransition`, given the keys declared before it.
#[verifier::opaque]
pub open spec fn transition_diags(x: DomainTransition, seen: Seq<Seq<char>>) -> Seq<DiagnosticView> {
    required("transition_ref"@, x.transition_ref@) + required("entity_type"@, x.entity_type@) + required("state_machine"@, x.state_machine@) + required("verb"@, x.verb@) + required("from_state"@, x.from_state@) + required("to_state"@, x.to_state@)
        + when(
        !blank(x.transition_ref@) && seen.contains(x.transition_ref@),
        diag("domain_pack.duplicate_transition_ref"@, "duplicate transition_ref "@ + x.transition_ref@),
    )
        + when(x.from_state@ == x.to_state@, diag("domain_pack.noop_transition"@, x.transition_ref@ + " has the same from_state and to_state"@))
        + when(x.mutation_enabled && !x.hitl_required, diag("domain_pack.mutation_requires_hitl"@, x.transition_ref@ + " enables mutation without HITL"@))
        + when(x.mutation_enabled && !x.dry_run_enabled, diag("domain_pack.mutation_requires_dry_run"@, x.transition_ref@ + " enables mutation without dry-run"@))
}

/// The diagnostics of a list of `DomainTransition` values, in order.
pub open spec fn all_transition_diags(xs: Seq<DomainTransition>) -> Seq<DiagnosticView> {
    flat(Seq::new(xs.len(), |i: int| transition_diags(xs[i], transition_keys(xs).take(i))))
}

#[verifier::rlimit(40)]
fn validate_transition(
    x: &DomainTransition,
    seen: &mut Vec<String>,
    diagnostics: &mut Vec<DomainPackDiagnostic>,
)
    ensures
        diag_views(final(diagnostics)@) == diag_views(old(diagnostics)@) + transition_diags(
            *x,
            texts(old(seen)@),
        ),
        texts(final(seen)@) == texts(old(seen)@).push(x.transition_ref@),
{
    let ghost d0 = diag_views(diagnostics@);
    let ghost s0 = texts(seen@);
    require_non_empty(diagnostics, "transition_ref", x.transition_ref.as_str());
    let ghost mut acc = required("transition_ref"@, x.transition_ref@);
    require_non_empty(diagnostics, "entity_type", x.entity_type.as_str());
    proof {
        acc = acc + required("entity_type"@, x.entity_type@);
        assert(diag_views(diagnostics@) =~= d0 + acc);
    }
    require_non_empty(diagnostics, "state_machine", x.state_machine.as_str());
    proof {
        acc = acc + required("state_machine"@, x.state_machine@);
        assert(diag_views(diagnostics@) =~= d0 + acc);
    }
    require_non_empty(diagnostics, "verb", x.verb.as_str());
    proof {
        acc = acc + required("verb"@, x.verb@);
        assert(diag_views(diagnostics@) =~= d0 + acc);
    }
    require_non_empty(diagnostics, "from_state", x.from_state.as_str());
    proof {
        acc = acc + required("from_state"@, x.from_state@);
        assert(diag_views(diagnostics@) =~= d0 + acc);
    }
    require_non_empty(diagnostics, "to_state", x.to_state.as_str());
    proof {
        acc = acc + required("to_state"@, x.to_state@);
        assert(diag_views(diagnostics@) =~= d0 + acc);
    }
    let dup = !is_blank(x.transition_ref.as_str()) && contains_text(seen, x.transition_ref.as_str());
    push_when(
        diagnostics,
        dup,
        "domain_pack.duplicate_transition_ref",
        join2("duplicate transition_ref ", x.transition_ref.as_str()),
    );
    proof {
        acc = acc + when(
            !blank(x.transition_ref@) && s0.contains(x.transition_ref@),
            diag("domain_pack.duplicate_transition_ref"@, "duplicate transition_ref "@ + x.transition_ref@),
        );
        assert(diag_views(diagnostics@) =~= d0 + acc);
    }
    seen.push(x.transition_ref.clone());
    push_when(diagnostics, text_eq(x.from_state.as_str(), x.to_state.as_str()), "domain_pack.noop_transition", join2(x.transition_ref.as_str(), " has the same from_state and to_state"));
    proof {
        acc = acc + when(x.from_state@ == x.to_state@, diag("domain_pack.noop_transition"@, x.transition_ref@ + " has the same from_state and to_state"@));
        assert(diag_views(diagnostics@) =~= d0 + acc);
    }
    push_when(diagnostics, x.mutation_enabled && !x.hitl_required, "domain_pack.mutation_requires_hitl", join2(x.transition_ref.as_str(), " enables mutation without HITL"));
    proof {
        acc = acc + when(x.mutation_enabled && !x.hitl_required, diag("domain_pack.mutation_requires_hitl"@, x.transition_ref@ + " enables mutation without HITL"@));
        assert(diag_views(diagnostics@) =~= d0 + acc);
    }
    push_when(diagnostics, x.mutation_enabled && !x.dry_run_enabled, "domain_pack.mutation_requires_dry_run", join2(x.transition_ref.as_str(), " enables mutation without dry-run"));
    proof {
        acc = acc + when(x.mutation_enabled && !x.dry_run_enabled, diag("domain_pack.mutation_requires_dry_run"@, x.transition_ref@ + " enables mutation without dry-run"@));
        assert(diag_views(diagnostics@) =~= d0 + acc);
    }
    proof {
        reveal(transition_diags);
        assert(acc == transition_diags(*x, s0));
        assert(texts(seen@) =~= s0.push(x.transition_ref@));
    }
}

fn validate_all_transition(xs: &Vec<DomainTransition>, diagnostics: &mut Vec<DomainPackDiagnostic>)
    ensures
        diag_views(final(diagnostics)@) == diag_views(old(diagnostics)@) + all_transition_diags(xs@),
{
    let ghost parts = Seq::new(xs@.len(), |i: int| transition_diags(xs@[i], transition_keys(xs@).take(i)));
    let ghost start = diag_views(diagnostics@);
    let mut seen: Vec<String> = Vec::new();
    let mut i: usize = 0;
    while i < xs.len()
        invariant
            i <= xs.len(),
            parts == Seq::new(xs@.len(), |i: int| transition_diags(xs@[i], transition_keys(xs@).take(i))),
            texts(seen@) == transition_keys(xs@).take(i as int),
            diag_views(diagnostics@) == start + flat(parts.take(i as int)),
        decreases xs.len() - i,
    {
        validate_transition(&xs[i], &mut seen, diagnostics);
        proof {
            lemma_flat_take(parts, i as int);
            assert(transition_keys(xs@).take(i + 1) =~= transition_keys(xs@).take(i as int).push(xs@[i as int].transition_ref@));
        }
        i += 1;
    }
    assert(parts.take(parts.len() as int) =~= parts);
}

/// The keys of a list of `DiscoveryProbe` values.
pub open spec fn probe_keys(xs: Seq<DiscoveryProbe>) -> Seq<Seq<char>> {
    xs.map_values(|x: DiscoveryProbe| x.probe_id@)
}

/// The diagnostics of one `DiscoveryProbe`, given the keys declared before it.
#[verifier::opaque]
pub open spec fn probe_diags(x: DiscoveryProbe, seen: Seq<Seq<char>>) -> Seq<DiagnosticView> {
    required("probe_id"@, x.probe_id@) + required("operation"@, x.operation@) + required("target"@, x.target@)
        + when(
        !blank(x.probe_id@) && seen.contains(x.probe_id@),
        diag("domain_pack.duplicate_probe_id"@, "duplicate probe_id "@ + x.probe_id@),
    )
        + when(!x.idempotent, diag("domain_pack.probe_not_idempotent"@, x.probe_id@ + " must be idempotent"@))
        + when(!x.modeled, diag("domain_pack.probe_not_modeled"@, x.probe_id@ + " must be modeled"@))
        + when(x.first_class_state_mutation, diag("domain_pack.probe_mutates_state"@, x.probe_id@ + " declares first-class state mutation"@))
}

/// The diagnostics of a list of `DiscoveryProbe` values, in order.
pub open spec fn all_probe_diags(xs: Seq<DiscoveryProbe>) -> Seq<DiagnosticView> {
    flat(Seq::new(xs.len(), |i: int| probe_diags(xs[i], probe_keys(xs).take(i))))
}

#[verifier::rlimit(40)]
fn validate_probe(
    x: &DiscoveryProbe,
    seen: &mut Vec<String>,
    diagnostics: &mut Vec<DomainPackDiagnostic>,
)
    ensures
        diag_views(final(diagnostics)@) == diag_views(old(diagnostics)@) + probe_diags(
            *x,
            texts(old(seen)@),
        ),
        texts(final(seen)@) == texts(old(seen)@).push(x.probe_id@),
{
    let ghost d0 = diag_views(diagnostics@);
    let ghost s0 = texts(seen@);
    require_non_empty(diagnostics, "probe_id", x.probe_id.as_str());
    let ghost mut acc = required("probe_id"@, x.probe_id@);
    require_non_empty(diagnostics, "operation", x.operation.as_str());
    proof {
        acc = acc + required("operation"@, x.operation@);
        assert(diag_views(diagnostics@) =~= d0 + acc);
    }
    require_non_empty(diagnostics, "target", x.target.as_str());
    proof {
        acc = acc + required("target"@, x.target@);
        assert(diag_views(diagnostics@) =~= d0 + acc);
    }
    let dup = !is_blank(x.probe_id.as_str()) && contains_text(seen, x.probe_id.as_str());
    push_when(
        diagnostics,
        dup,
        "domain_pack.duplicate_probe_id",
        join2("duplicate probe_id ", x.probe_id.as_str()),
    );
    proof {
        acc = acc + when(
            !blank(x.probe_id@) && s0.contains(x.probe_id@),
            diag("domain_pack.duplicate_probe_id"@, "duplicate probe_id "@ + x.probe_id@),
        );
        assert(diag_views(diagnostics@) =~= d0 + acc);
    }
    seen.push(x.probe_id.clone());
    push_when(diagnostics, !x.idempotent, "domain_pack.probe_not_idempotent", join2(x.probe_id.as_str(), " must be idempotent"));
    proof {
        acc = acc + when(!x.idempotent, diag("domain_pack.probe_not_idempotent"@, x.probe_id@ + " must be idempotent"@));
        assert(diag_views(diagnostics@) =~= d0 + acc);
    }
    push_when(diagnostics, !x.modeled, "domain_pack.probe_not_modeled", join2(x.probe_id.as_str(), " must be modeled"));
    proof {
        acc = acc + when(!x.modeled, diag("domain_pack.probe_not_modeled"@, x.probe_id@ + " must be modeled"@));
        assert(diag_views(diagnostics@) =~= d0 + acc);
    }
    push_when(diagnostics, x.first_class_state_mutation, "domain_pack.probe_mutates_state", join2(x.probe_id.as_str(), " declares first-class state mutation"));
    proof {
        acc = acc + when(x.first_class_state_mutation, diag("domain_pack.probe_mutates_state"@, x.probe_id@ + " declares first-class state mutation"@));
        assert(diag_views(diagnostics@) =~= d0 + acc);
    }
    proof {
        reveal(probe_diags);
        assert(acc == probe_diags(*x, s0));
        assert(texts(seen@) =~= s0.push(x.probe_id@));
    }
}

fn validate_all_probe(xs: &Vec<DiscoveryProbe>, diagnostics: &mut Vec<DomainPackDiagnostic>)
    ensures
        diag_views(final(diagnostics)@) == diag_views(old(diagnostics)@) + all_probe_diags(xs@),
{
    let ghost parts = Seq::new(xs@.len(), |i: int| probe_diags(xs@[i], probe_keys(xs@).take(i)));
    let ghost start = diag_views(diagnostics@);
    let mut seen: Vec<String> = Vec::new();
    let mut i: usize = 0;
    while i < xs.len()
        invariant
            i <= xs.len(),
            parts == Seq::new(xs@.len(), |i: int| probe_diags(xs@[i], probe_keys(xs@).take(i))),
            texts(seen@) == probe_keys(xs@).take(i as int),
            diag_views(diagnostics@) == start + flat(parts.take(i as int)),
        decreases xs.len() - i,
    {
        validate_probe(&xs[i], &mut seen, diagnostics);
        proof {
            lemma_flat_take(parts, i as int);
            assert(probe_keys(xs@).take(i + 1) =~= probe_keys(xs@).take(i as int).push(xs@[i as int].probe_id@));
        }
        i += 1;
    }
    assert(parts.take(parts.len() as int) =~= parts);
}

/// The keys of a list of `MentionNamespace` values.
pub open spec fn mention_keys(xs: Seq<MentionNamespace>) -> Seq<Seq<char>> {
    xs.map_values(|x: MentionNamespace| x.namespace@)
}

/// The diagnostics of one `MentionNamespace`, given the keys declared before it.
#[verifier::opaque]
pub open spec fn mention_diags(x: MentionNamespace, seen: Seq<Seq<char>>) -> Seq<DiagnosticView> {
    required("mention.namespace"@, x.namespace@) + required("mention.target_kind"@, x.target_kind@) + required("mention.description"@, x.description@)
        + when(
        !blank(x.namespace@) && seen.contains(x.namespace@),
        diag("domain_pack.duplicate_mention_namespace"@, "duplicate mention namespace "@ + x.namespace@),
    )
}

/// The diagnostics of a list of `MentionNamespace` values, in order.
pub open spec fn all_mention_diags(xs: Seq<MentionNamespace>) -> Seq<DiagnosticView> {
    flat(Seq::new(xs.len(), |i: int| mention_diags(xs[i], mention_keys(xs).take(i))))
}

fn validate_mention_namespace(
    x: &MentionNamespace,
    seen: &mut Vec<String>,
    diagnostics: &mut Vec<DomainPackDiagnostic>,
)
    ensures
        diag_views(final(diagnostics)@) == diag_views(old(diagnostics)@) + mention_diags(
            *x,
            texts(old(seen)@),
        ),
        texts(final(seen)@) == texts(old(seen)@).push(x.namespace@),
{
    let ghost d0 = diag_views(diagnostics@);
    let ghost s0 = texts(seen@);
    require_non_empty(diagnostics, "mention.namespace", x.namespace.as_str());
    let ghost mut acc = required("mention.namespace"@, x.namespace@);
    require_non_empty(diagnostics, "mention.target_kind", x.target_kind.as_str());
    proof {
        acc = acc + required("mention.target_kind"@, x.target_kind@);
        assert(diag_views(diagnostics@) =~= d0 + acc);
    }
    require_non_empty(diagnostics, "mention.description", x.description.as_str());
    proof {
        acc = acc + required("mention.description"@, x.description@);
        assert(diag_views(diagnostics@) =~= d0 + acc);
    }
    let dup = !is_blank(x.namespace.as_str()) && contains_text(seen, x.namespace.as_str());
    push_when(
        diagnostics,
        dup,
        "domain_pack.duplicate_mention_namespace",
        join2("duplicate mention namespace ", x.namespace.as_str()),
    );
    proof {
        acc = acc + when(
            !blank(x.namespace@) && s0.contains(x.namespace@),
            diag("domain_pack.duplicate_mention_namespace"@, "duplicate mention namespace "@ + x.namespace@),
        );
        assert(diag_views(diagnostics@) =~= d0 + acc);
    }
    seen.push(x.namespace.clone());
    proof {
        reveal(mention_diags);
        assert(acc == mention_diags(*x, s0));
        assert(texts(seen@) =~= s0.push(x.namespace@));
    }
}

fn validate_all_mention(xs: &Vec<MentionNamespace>, diagnostics: &mut Vec<DomainPackDiagnostic>)
    ensures
        diag_views(final(diagnostics)@) == diag_views(old(diagnostics)@) + all_mention_diags(xs@),
{
    let ghost parts = Seq::new(xs@.len(), |i: int| mention_diags(xs@[i], mention_keys(xs@).take(i)));
    let ghost start = diag_views(diagnostics@);
    let mut seen: Vec<String> = Vec::new();
    let mut i: usize = 0;
    while i < xs.len()
        invariant
            i <= xs.len(),
            parts == Seq::new(xs@.len(), |i: int| mention_diags(xs@[i], mention_keys(xs@).take(i))),
            texts(seen@) == mention_keys(xs@).take(i as int),
            diag_views(diagnostics@) == start + flat(parts.take(i as int)),
        decreases xs.len() - i,
    {
        validate_mention_namespace(&xs[i], &mut seen, diagnostics);
        proof {
            lemma_flat_take(parts, i as int);
            assert(mention_keys(xs@).take(i + 1) =~= mention_keys(xs@).take(i as int).push(xs@[i as int].namespace@));
        }
        i += 1;
    }
    assert(parts.take(parts.len() as int) =~= parts);
}

/// The keys of a list of `DeclaredMode` values.
pub open spec fn mode_keys(xs: Seq<DeclaredMode>) -> Seq<Seq<char>> {
    xs.map_values(|x: DeclaredMode| x.mode_id@)
}

/// The diagnostics of one `DeclaredMode`, given the keys declared before it.
#[verifier::opaque]
pub open spec fn mode_diags(x: DeclaredMode, seen: Seq<Seq<char>>) -> Seq<DiagnosticView> {
    required("mode.mode_id"@, x.mode_id@) + required("mode.label"@, x.label@) + required("mode.description"@, x.description@)
        + when(
        !blank(x.mode_id@) && seen.contains(x.mode_id@),
        diag("domain_pack.duplicate_mode"@, "duplicate mode "@ + x.mode_id@),
    )
}

/// The diagnostics of a list of `DeclaredMode` values, in order.
pub open spec fn all_mode_diags(xs: Seq<DeclaredMode>) -> Seq<DiagnosticView> {
    flat(Seq::new(xs.len(), |i: int| mode_diags(xs[i], mode_keys(xs).take(i))))
}

fn validate_declared_mode(
    x: &DeclaredMode,
    seen: &mut Vec<String>,
    diagnostics: &mut Vec<DomainPackDiagnostic>,
)
    ensures
        diag_views(final(diagnostics)@) == diag_views(old(diagnostics)@) + mode_diags(
            *x,
            texts(old(seen)@),
        ),
        texts(final(seen)@) == texts(old(seen)@).push(x.mode_id@),
{
    let ghost d0 = diag_views(diagnostics@);
    let ghost s0 = texts(seen@);
    require_non_empty(diagnostics, "mode.mode_id", x.mode_id.as_str());
    let ghost mut acc = required("mode.mode_id"@, x.mode_id@);
    require_non_empty(diagnostics, "mode.label", x.label.as_str());
    proof {
        acc = acc + required("mode.label"@, x.label@);
        assert(diag_views(diagnostics@) =~= d0 + acc);
    }
    require_non_empty(diagnostics, "mode.description", x.description.as_str());
    proof {
        acc = acc + required("mode.description"@, x.description@);
        assert(diag_views(diagnostics@) =~= d0 + acc);
    }
    let dup = !is_blank(x.mode_id.as_str()) && contains_text(seen, x.mode_id.as_str());
    push_when(
        diagnostics,
        dup,
        "domain_pack.duplicate_mode",
        join2("duplicate mode ", x.mode_id.as_str()),
    );
    proof {
        acc = acc + when(
            !blank(x.mode_id@) && s0.contains(x.mode_id@),
            diag("domain_pack.duplicate_mode"@, "duplicate mode "@ + x.mode_id@),
        );
        assert(diag_views(diagnostics@) =~= d0 + acc);
    }
    seen.push(x.mode_id.clone());
    proof {
        reveal(mode_diags);
        assert(acc == mode_diags(*x, s0));
        assert(texts(seen@) =~= s0.push(x.mode_id@));
    }
}

fn validate_all_mode(xs: &Vec<DeclaredMode>, diagnostics: &mut Vec<DomainPackDiagnostic>)
    ensures
        diag_views(final(diagnostics)@) == diag_views(old(diagnostics)@) + all_mode_diags(xs@),
{
    let ghost parts = Seq::new(xs@.len(), |i: int| mode_diags(xs@[i], mode_keys(xs@).take(i)));
    let ghost start = diag_views(diagnostics@);
    let mut seen: Vec<String> = Vec::new();
    let mut i: usize = 0;
    while i < xs.len()
        invariant
            i <= xs.len(),
            parts == Seq::new(xs@.len(), |i: int| mode_diags(xs@[i], mode_keys(xs@).take(i))),
            texts(seen@) == mode_keys(xs@).take(i as int),
            diag_views(diagnostics@) == start + flat(parts.take(i as int)),
        decreases xs.len() - i,
    {
        validate_declared_mode(&xs[i], &mut seen, diagnostics);
        proof {
            lemma_flat_take(parts, i as int);
            assert(mode_keys(xs@).take(i + 1) =~= mode_keys(xs@).take(i as int).push(xs@[i as int].mode_id@));
        }
        i += 1;
    }
    assert(parts.take(parts.len() as int) =~= parts);
}

/// The keys of a list of `WorkflowPhase` values.
pub open spec fn phase_keys(xs: Seq<WorkflowPhase>) -> Seq<Seq<char>> {
    xs.map_values(|x: WorkflowPhase| x.phase_id@)
}

/// The diagnostics of one `WorkflowPhase`, given the keys declared before it.
#[verifier::opaque]
pub open spec fn phase_diags(x: WorkflowPhase, seen: Seq<Seq<char>>) -> Seq<DiagnosticView> {
    required("workflow_phase.phase_id"@, x.phase_id@) + required("workflow_phase.label"@, x.label@) + required("workflow_phase.description"@, x.description@)
        + when(
        x.phase_id@.len() > 0 && seen.contains(x.phase_id@),
        diag("domain_pack.duplicate_workflow_phase"@, "duplicate workflow phase "@ + x.phase_id@),
    )
}

/// The diagnostics of a list of `WorkflowPhase` values, in order.
pub open spec fn all_phase_diags(xs: Seq<WorkflowPhase>) -> Seq<DiagnosticView> {
    flat(Seq::new(xs.len(), |i: int| phase_diags(xs[i], phase_keys(xs).take(i))))
}

fn validate_workflow_phase(
    x: &WorkflowPhase,
    seen: &mut Vec<String>,
    diagnostics: &mut Vec<DomainPackDiagnostic>,
)
    ensures
        diag_views(final(diagnostics)@) == diag_views(old(diagnostics)@) + phase_diags(
            *x,
            texts(old(seen)@),
        ),
        texts(final(seen)@) == texts(old(seen)@).push(x.phase_id@),
{
    let ghost d0 = diag_views(diagnostics@);
    let ghost s0 = texts(seen@);
    require_non_empty(diagnostics, "workflow_phase.phase_id", x.phase_id.as_str());
    let ghost mut acc = required("workflow_phase.phase_id"@, x.phase_id@);
    require_non_empty(diagnostics, "workflow_phase.label", x.label.as_str());
    proof {
        acc = acc + required("workflow_phase.label"@, x.label@);
        assert(diag_views(diagnostics@) =~= d0 + acc);
    }
    require_non_empty(diagnostics, "workflow_phase.description", x.description.as_str());
    proof {
        acc = acc + required("workflow_phase.description"@, x.description@);
        assert(diag_views(diagnostics@) =~= d0 + acc);
    }
    let dup = !x.phase_id.as_str().is_empty() && contains_text(seen, x.phase_id.as_str());
    push_when(
        diagnostics,
        dup,
        "domain_pack.duplicate_workflow_phase",
        join2("duplicate workflow phase ", x.phase_id.as_str()),
    );
    proof {
        acc = acc + when(
            x.phase_id@.len() > 0 && s0.contains(x.phase_id@),
            diag("domain_pack.duplicate_workflow_phase"@, "duplicate workflow phase "@ + x.phase_id@),
        );
        assert(diag_views(diagnostics@) =~= d0 + acc);
    }
    seen.push(x.phase_id.clone());
    proof {
        reveal(phase_diags);
        assert(acc == phase_diags(*x, s0));
        assert(texts(seen@) =~= s0.push(x.phase_id@));
    }
}

fn validate_all_phase(xs: &Vec<WorkflowPhase>, diagnostics: &mut Vec<DomainPackDiagnostic>)
    ensures
        diag_views(final(diagnostics)@) == diag_views(old(diagnostics)@) + all_phase_diags(xs@),
{
    let ghost parts = Seq::new(xs@.len(), |i: int| phase_diags(xs@[i], phase_keys(xs@).take(i)));
    let ghost start = diag_views(diagnostics@);
    let mut seen: Vec<String> = Vec::new();
    let mut i: usize = 0;
    while i < xs.len()
        invariant
            i <= xs.len(),
            parts == Seq::new(xs@.len(), |i: int| phase_diags(xs@[i], phase_keys(xs@).take(i))),
            texts(seen@) == phase_keys(xs@).take(i as int),
            diag_views(diagnostics@) == start + flat(parts.take(i as int)),
        decreases xs.len() - i,
    {
        validate_workflow_phase(&xs[i], &mut seen, diagnostics);
        proof {
            lemma_flat_take(parts, i as int);
            assert(phase_keys(xs@).take(i + 1) =~= phase_keys(xs@).take(i as int).push(xs@[i as int].phase_id@));
        }
        i += 1;
    }
    assert(parts.take(parts.len() as int) =~= parts);
}

/// The keys of a list of `AcpPersonaDeclaration` values.
pub open spec fn persona_keys(xs: Seq<AcpPersonaDeclaration>) -> Seq<Seq<char>> {
    xs.map_values(|x: AcpPersonaDeclaration| x.persona_id@)
}

/// The diagnostics of one `AcpPersonaDeclaration`, given the keys declared before it.
#[verifier::opaque]
pub open spec fn persona_diags(x: AcpPersonaDeclaration, seen: Seq<Seq<char>>) -> Seq<DiagnosticView> {
    required("acp_persona.persona_id"@, x.persona_id@) + required("acp_persona.label"@, x.label@) + required("acp_persona.description"@, x.description@)
        + when(
        x.persona_id@.len() > 0 && seen.contains(x.persona_id@),
        diag("domain_pack.duplicate_acp_persona"@, "duplicate ACP persona "@ + x.persona_id@),
    )
}

/// The diagnostics of a list of `AcpPersonaDeclaration` values, in order.
pub open spec fn all_persona_diags(xs: Seq<AcpPersonaDeclaration>) -> Seq<DiagnosticView> {
    flat(Seq::new(xs.len(), |i: int| persona_diags(xs[i], persona_keys(xs).take(i))))
}

fn validate_acp_persona(
    x: &AcpPersonaDeclaration,
    seen: &mut Vec<String>,
    diagnostics: &mut Vec<DomainPackDiagnostic>,
)
    ensures
        diag_views(final(diagnostics)@) == diag_views(old(diagnostics)@) + persona_diags(
            *x,
            texts(old(seen)@),
        ),
        texts(final(seen)@) == texts(old(seen)@).push(x.persona_id@),
{
    let ghost d0 = diag_views(diagnostics@);
    let ghost s0 = texts(seen@);
    require_non_empty(diagnostics, "acp_persona.persona_id", x.persona_id.as_str());
    let ghost mut acc = required("acp_persona.persona_id"@, x.persona_id@);
    require_non_empty(diagnostics, "acp_persona.label", x.label.as_str());
    proof {
        acc = acc + required("acp_persona.label"@, x.label@);
        assert(diag_views(diagnostics@) =~= d0 + acc);
    }
    require_non_empty(diagnostics, "acp_persona.description", x.description.as_str());
    proof {
        acc = acc + required("acp_persona.description"@, x.description@);
        assert(diag_views(diagnostics@) =~= d0 + acc);
    }
    let dup = !x.persona_id.as_str().is_empty() && contains_text(seen, x.persona_id.as_str());
    push_when(
        diagnostics,
        dup,
        "domain_pack.duplicate_acp_persona",
        join2("duplicate ACP persona ", x.persona_id.as_str()),
    );
    proof {
        acc = acc + when(
            x.persona_id@.len() > 0 && s0.contains(x.persona_id@),
            diag("domain_pack.duplicate_acp_persona"@, "duplicate ACP persona "@ + x.persona_id@),
        );
        assert(diag_views(diagnostics@) =~= d0 + acc);
    }
    seen.push(x.persona_id.clone());
    proof {
        reveal(persona_diags);
        assert(acc == persona_diags(*x, s0));
        assert(texts(seen@) =~= s0.push(x.persona_id@));
    }
}

fn validate_all_persona(xs: &Vec<AcpPersonaDeclaration>, diagnostics: &mut Vec<DomainPackDiagnostic>)
    ensures
        diag_views(final(diagnostics)@) == diag_views(old(diagnostics)@) + all_persona_diags(xs@),
{
    let ghost parts = Seq::new(xs@.len(), |i: int| persona_diags(xs@[i], persona_keys(xs@).take(i)));
    let ghost start = diag_views(diagnostics@);
    let mut seen: Vec<String> = Vec::new();
    let mut i: usize = 0;
    while i < xs.len()
        invariant
            i <= xs.len(),
            parts == Seq::new(xs@.len(), |i: int| persona_diags(xs@[i], persona_keys(xs@).take(i))),
            texts(seen@) == persona_keys(xs@).take(i as int),
            diag_views(diagnostics@) == start + flat(parts.take(i as int)),
        decreases xs.len() - i,
    {
        validate_acp_persona(&xs[i], &mut seen, diagnostics);
        proof {
            lemma_flat_take(parts, i as int);
            assert(persona_keys(xs@).take(i + 1) =~= persona_keys(xs@).take(i as int).push(xs@[i as int].persona_id@));
        }
        i += 1;
    }
    assert(parts.take(parts.len() as int) =~= parts);
}

/// The keys of a list of `ResourceUriScheme` values.
pub open spec fn scheme_keys(xs: Seq<ResourceUriScheme>) -> Seq<Seq<char>> {
    xs.map_values(|x: ResourceUriScheme| x.scheme@)
}

/// The diagnostics of one `ResourceUriScheme`, given the keys declared before it.
#[verifier::opaque]
pub open spec fn scheme_diags(x: ResourceUriScheme, seen: Seq<Seq<char>>) -> Seq<DiagnosticView> {
    required("resource_uri_scheme.scheme"@, x.scheme@) + required("resource_uri_scheme.resource_kind"@, x.resource_kind@) + required("resource_uri_scheme.description"@, x.description@)
        + when(
        x.scheme@.len() > 0 && seen.contains(x.scheme@),
        diag("domain_pack.duplicate_resource_uri_scheme"@, "duplicate resource URI scheme "@ + x.scheme@),
    )
}

/// The diagnostics of a list of `ResourceUriScheme` values, in order.
pub open spec fn all_scheme_diags(xs: Seq<ResourceUriScheme>) -> Seq<DiagnosticView> {
    flat(Seq::new(xs.len(), |i: int| scheme_diags(xs[i], scheme_keys(xs).take(i))))
}

fn validate_resource_uri_scheme(
    x: &ResourceUriScheme,
    seen: &mut Vec<String>,
    diagnostics: &mut Vec<DomainPackDiagnostic>,
)
    ensures
        diag_views(final(diagnostics)@) == diag_views(old(diagnostics)@) + scheme_diags(
            *x,
            texts(old(seen)@),
        ),
        texts(final(seen)@) == texts(old(seen)@).push(x.scheme@),
{
    let ghost d0 = diag_views(diagnostics@);
    let ghost s0 = texts(seen@);
    require_non_empty(diagnostics, "resource_uri_scheme.scheme", x.scheme.as_str());
    let ghost mut acc = required("resource_uri_scheme.scheme"@, x.scheme@);
    require_non_empty(diagnostics, "resource_uri_scheme.resource_kind", x.resource_kind.as_str());
    proof {
        acc = acc + required("resource_uri_scheme.resource_kind"@, x.resource_kind@);
        assert(diag_views(diagnostics@) =~= d0 + acc);
    }
    require_non_empty(diagnostics, "resource_uri_scheme.description", x.description.as_str());
    proof {
        acc = acc + required("resource_uri_scheme.description"@, x.description@);
        assert(diag_views(diagnostics@) =~= d0 + acc);
    }
    let dup = !x.scheme.as_str().is_empty() && contains_text(seen, x.scheme.as_str());
    push_when(
        diagnostics,
        dup,
        "domain_pack.duplicate_resource_uri_scheme",
        join2("duplicate resource URI scheme ", x.scheme.as_str()),
    );
    proof {
        acc = acc + when(
            x.scheme@.len() > 0 && s0.contains(x.scheme@),
            diag("domain_pack.duplicate_resource_uri_scheme"@, "duplicate resource URI scheme "@ + x.scheme@),
        );
        assert(diag_views(diagnostics@) =~= d0 + acc);
    }
    seen.push(x.scheme.clone());
    proof {
        reveal(scheme_diags);
        assert(acc == scheme_diags(*x, s0));
        assert(texts(seen@) =~= s0.push(x.scheme@));
    }
}

fn validate_all_scheme(xs: &Vec<ResourceUriScheme>, diagnostics: &mut Vec<DomainPackDiagnostic>)
    ensures
        diag_views(final(diagnostics)@) == diag_views(old(diagnostics)@) + all_scheme_diags(xs@),
{
    let ghost parts = Seq::new(xs@.len(), |i: int| scheme_diags(xs@[i], scheme_keys(xs@).take(i)));
    let ghost start = diag_views(diagnostics@);
    let mut seen: Vec<String> = Vec::new();
    let mut i: usize = 0;
    while i < xs.len()
        invariant
            i <= xs.len(),
            parts == Seq::new(xs@.len(), |i: int| scheme_diags(xs@[i], scheme_keys(xs@).take(i))),
            texts(seen@) == scheme_keys(xs@).take(i as int),
            diag_views(diagnostics@) == start + flat(parts.take(i as int)),
        decreases xs.len() - i,
    {
        validate_resource_uri_scheme(&xs[i], &mut seen, diagnostics);
        proof {
            lemma_flat_take(parts, i as int);
            assert(scheme_keys(xs@).take(i + 1) =~= scheme_keys(xs@).take(i as int).push(xs@[i as int].scheme@));
        }
        i += 1;
    }
    assert(parts.take(parts.len() as int) =~= parts);
}

} // verus!

verus! {

// ── Projections, transports, tier and prompt policy ─────────────

/// The kinds of a list of catalogue entries.
pub open spec fn projection_kinds(xs: Seq<ProjectionCatalogEntry>) -> Seq<AcpProjectionKind> {
    xs.map_values(|x: ProjectionCatalogEntry| x.kind)
}

/// The diagnostics of one catalogue entry, given the kinds declared before it.
#[verifier::opaque]
pub open spec fn projection_diags(x: ProjectionCatalogEntry, seen: Seq<AcpProjectionKind>) -> Seq<
    DiagnosticView,
> {
    required("projection.source"@, x.source@) + when(
        seen.contains(x.kind),
        diag("domain_pack.duplicate_projection_kind"@, "duplicate projection kind "@ + kind_text(x.kind)),
    ) + when(
        x.max_depth == Some(0u32),
        diag("domain_pack.invalid_projection_depth"@, kind_text(x.kind) + " has max_depth=0"@),
    )
}

/// The diagnostics of the projection catalogue, in order.
pub open spec fn all_projection_diags(xs: Seq<ProjectionCatalogEntry>) -> Seq<DiagnosticView> {
    flat(Seq::new(xs.len(), |i: int| projection_diags(xs[i], projection_kinds(xs).take(i))))
}

fn kind_seen(seen: &Vec<AcpProjectionKind>, kind: AcpProjectionKind) -> (r: bool)
    ensures
        r == seen@.contains(kind),
{
    let mut i: usize = 0;
    while i < seen.len()
        invariant
            i <= seen.len(),
            forall|j: int| 0 <= j < i ==> seen@[j] != kind,
        decreases seen.len() - i,
    {
        if seen[i] == kind {
            return true;
        }
        i += 1;
    }
    false
}

fn validate_projection(
    x: &ProjectionCatalogEntry,
    seen: &mut Vec<AcpProjectionKind>,
    diagnostics: &mut Vec<DomainPackDiagnostic>,
)
    ensures
        diag_views(final(diagnostics)@) == diag_views(old(diagnostics)@) + projection_diags(
            *x,
            old(seen)@,
        ),
        final(seen)@ == old(seen)@.push(x.kind),
{
    let ghost d0 = diag_views(diagnostics@);
    let ghost s0 = seen@;
    require_non_empty(diagnostics, "projection.source", x.source.as_str());
    let dup = kind_seen(seen, x.kind);
    push_when(
        diagnostics,
        dup,
        "domain_pack.duplicate_projection_kind",
        join2("duplicate projection kind ", x.kind.as_str()),
    );
    seen.push(x.kind);
    let zero = match x.max_depth {
        Some(d) => d == 0,
        None => false,
    };
    push_when(
        diagnostics,
        zero,
        "domain_pack.invalid_projection_depth",
        join2(x.kind.as_str(), " has max_depth=0"),
    );
    proof {
        reveal(projection_diags);
        assert(diag_views(diagnostics@) =~= d0 + projection_diags(*x, s0));
    }
}

fn validate_all_projection(
    xs: &Vec<ProjectionCatalogEntry>,
    diagnostics: &mut Vec<DomainPackDiagnostic>,
)
    ensures
        diag_views(final(diagnostics)@) == diag_views(old(diagnostics)@) + all_projection_diags(
            xs@,
        ),
{
    let ghost parts = Seq::new(
        xs@.len(),
        |i: int| projection_diags(xs@[i], projection_kinds(xs@).take(i)),
    );
    let ghost start = diag_views(diagnostics@);
    let mut seen: Vec<AcpProjectionKind> = Vec::new();
    let mut i: usize = 0;
    while i < xs.len()
        invariant
            i <= xs.len(),
            parts == Seq::new(
                xs@.len(),
                |i: int| projection_diags(xs@[i], projection_kinds(xs@).take(i)),
            ),
            seen@ == projection_kinds(xs@).take(i as int),
            diag_views(diagnostics@) == start + flat(parts.take(i as int)),
        decreases xs.len() - i,
    {
        validate_projection(&xs[i], &mut seen, diagnostics);
        proof {
            lemma_flat_take(parts, i as int);
            assert(projection_kinds(xs@).take(i + 1) =~= projection_kinds(xs@).take(i as int).push(
                xs@[i as int].kind,
            ));
        }
        i += 1;
    }
    assert(parts.take(parts.len() as int) =~= parts);
}

/// The diagnostics for the allowed probes of a transport that no declared
/// probe has.
pub open spec fn unknown_probe_diags(x: ExternalMcpTransport, probe_ids: Seq<Seq<char>>) -> Seq<
    DiagnosticView,
> {
    flat(
        Seq::new(
            x.allowed_probe_ids@.len(),
            |j: int|
                when(
                    !probe_ids.contains(x.allowed_probe_ids@[j]@),
                    diag(
                        "domain_pack.mcp_transport_unknown_probe"@,
                        x.server_id@ + " references unknown probe "@ + x.allowed_probe_ids@[j]@,
                    ),
                ),
        ),
    )
}

/// The diagnostics of one external MCP transport.
pub open spec fn transport_diags(x: ExternalMcpTransport, probe_ids: Seq<Seq<char>>) -> Seq<
    DiagnosticView,
> {
    required("mcp.server_id"@, x.server_id@) + required("mcp.description"@, x.description@) + when(
        !x.read_only,
        diag("domain_pack.mcp_transport_not_read_only"@, x.server_id@ + " is not read-only"@),
    ) + unknown_probe_diags(x, probe_ids)
}

/// The diagnostics of the external MCP transports, in order.
pub open spec fn all_transport_diags(
    xs: Seq<ExternalMcpTransport>,
    probe_ids: Seq<Seq<char>>,
) -> Seq<DiagnosticView> {
    flat(Seq::new(xs.len(), |i: int| transport_diags(xs[i], probe_ids)))
}

fn validate_external_mcp_transport(
    x: &ExternalMcpTransport,
    probe_ids: &Vec<String>,
    diagnostics: &mut Vec<DomainPackDiagnostic>,
)
    ensures
        diag_views(final(diagnostics)@) == diag_views(old(diagnostics)@) + transport_diags(
            *x,
            texts(probe_ids@),
        ),
{
    let ghost d0 = diag_views(diagnostics@);
    require_non_empty(diagnostics, "mcp.server_id", x.server_id.as_str());
    require_non_empty(diagnostics, "mcp.description", x.description.as_str());
    push_when(
        diagnostics,
        !x.read_only,
        "domain_pack.mcp_transport_not_read_only",
        join2(x.server_id.as_str(), " is not read-only"),
    );
    let ghost head = diag_views(diagnostics@);
    assert(head =~= d0 + (required("mcp.server_id"@, x.server_id@) + required(
        "mcp.description"@,
        x.description@,
    ) + when(
        !x.read_only,
        diag("domain_pack.mcp_transport_not_read_only"@, x.server_id@ + " is not read-only"@),
    )));
    let ghost parts = Seq::new(
        x.allowed_probe_ids@.len(),
        |j: int|
            when(
                !texts(probe_ids@).contains(x.allowed_probe_ids@[j]@),
                diag(
                    "domain_pack.mcp_transport_unknown_probe"@,
                    x.server_id@ + " references unknown probe "@ + x.allowed_probe_ids@[j]@,
                ),
            ),
    );
    let mut j: usize = 0;
    while j < x.allowed_probe_ids.len()
        invariant
            j <= x.allowed_probe_ids.len(),
            parts == Seq::new(
                x.allowed_probe_ids@.len(),
                |j: int|
                    when(
                        !texts(probe_ids@).contains(x.allowed_probe_ids@[j]@),
                        diag(
                            "domain_pack.mcp_transport_unknown_probe"@,
                            x.server_id@ + " references unknown probe "@ + x.allowed_probe_ids@[j]@,
                        ),
                    ),
            ),
            diag_views(diagnostics@) == head + flat(parts.take(j as int)),
        decreases x.allowed_probe_ids.len() - j,
    {
        let id = x.allowed_probe_ids[j].as_str();
        let known = contains_text(probe_ids, id);
        push_when(
            diagnostics,
            !known,
            "domain_pack.mcp_transport_unknown_probe",
            join3(x.server_id.as_str(), " references unknown probe ", id),
        );
        proof {
            lemma_flat_take(parts, j as int);
        }
        j += 1;
    }
    assert(parts.take(parts.len() as int) =~= parts);
    assert(diag_views(diagnostics@) =~= d0 + transport_diags(*x, texts(probe_ids@)));
}

fn validate_all_transport(
    xs: &Vec<ExternalMcpTransport>,
    probe_ids: &Vec<String>,
    diagnostics: &mut Vec<DomainPackDiagnostic>,
)
    ensures
        diag_views(final(diagnostics)@) == diag_views(old(diagnostics)@) + all_transport_diags(
            xs@,
            texts(probe_ids@),
        ),
{
    let ghost parts = Seq::new(xs@.len(), |i: int| transport_diags(xs@[i], texts(probe_ids@)));
    let ghost start = diag_views(diagnostics@);
    let mut i: usize = 0;
    while i < xs.len()
        invariant
            i <= xs.len(),
            parts == Seq::new(xs@.len(), |i: int| transport_diags(xs@[i], texts(probe_ids@))),
            diag_views(diagnostics@) == start + flat(parts.take(i as int)),
        decreases xs.len() - i,
    {
        validate_external_mcp_transport(&xs[i], probe_ids, diagnostics);
        proof {
            lemma_flat_take(parts, i as int);
        }
        i += 1;
    }
    assert(parts.take(parts.len() as int) =~= parts);
}

/// The `Debug` name of a compatibility tier.
pub open spec fn tier_name(t: PackCompatibilityTier) -> Seq<char> {
    match t {
        PackCompatibilityTier::DryRunOnly => "DryRunOnly"@,
        PackCompatibilityTier::ReferenceMutation => "ReferenceMutation"@,
        PackCompatibilityTier::ReuseProof => "ReuseProof"@,
    }
}

fn tier_debug_name(t: PackCompatibilityTier) -> (r: &'static str)
    ensures
        r@ == tier_name(t),
{
    match t {
        PackCompatibilityTier::DryRunOnly => "DryRunOnly",
        PackCompatibilityTier::ReferenceMutation => "ReferenceMutation",
        PackCompatibilityTier::ReuseProof => "ReuseProof",
    }
}

/// A tier under which no transition may enable mutation.
pub open spec fn tier_forbids_mutation(t: PackCompatibilityTier) -> bool {
    t is DryRunOnly || t is ReuseProof
}

/// The diagnostics for transitions that enable mutation under a tier that
/// forbids it.
pub open spec fn tier_diags(ts: Seq<DomainTransition>, tier: PackCompatibilityTier) -> Seq<
    DiagnosticView,
> {
    if tier_forbids_mutation(tier) {
        flat(
            Seq::new(
                ts.len(),
                |i: int|
                    when(
                        ts[i].mutation_enabled,
                        diag(
                            "domain_pack.mutation_not_allowed_for_tier"@,
                            ts[i].transition_ref@ + " enables mutation but pack tier is "@
                                + tier_name(tier),
                        ),
                    ),
            ),
        )
    } else {
        Seq::empty()
    }
}

fn validate_tier(
    ts: &Vec<DomainTransition>,
    tier: PackCompatibilityTier,
    diagnostics: &mut Vec<DomainPackDiagnostic>,
)
    ensures
        diag_views(final(diagnostics)@) == diag_views(old(diagnostics)@) + tier_diags(ts@, tier),
{
    let ghost start = diag_views(diagnostics@);
    let forbids = match tier {
        PackCompatibilityTier::DryRunOnly => true,
        PackCompatibilityTier::ReuseProof => true,
        PackCompatibilityTier::ReferenceMutation => false,
    };
    if forbids {
        let ghost parts = Seq::new(
            ts@.len(),
            |i: int|
                when(
                    ts@[i].mutation_enabled,
                    diag(
                        "domain_pack.mutation_not_allowed_for_tier"@,
                        ts@[i].transition_ref@ + " enables mutation but pack tier is "@ + tier_name(
                            tier,
                        ),
                    ),
                ),
        );
        let mut i: usize = 0;
        while i < ts.len()
            invariant
                i <= ts.len(),
                parts == Seq::new(
                    ts@.len(),
                    |i: int|
                        when(
                            ts@[i].mutation_enabled,
                            diag(
                                "domain_pack.mutation_not_allowed_for_tier"@,
                                ts@[i].transition_ref@ + " enables mutation but pack tier is "@
                                    + tier_name(tier),
                            ),
                        ),
                ),
                diag_views(diagnostics@) == start + flat(parts.take(i as int)),
            decreases ts.len() - i,
        {
            let t = &ts[i];
            push_when(
                diagnostics,
                t.mutation_enabled,
                "domain_pack.mutation_not_allowed_for_tier",
                join3(
                    t.transition_ref.as_str(),
                    " enables mutation but pack tier is ",
                    tier_debug_name(tier),
                ),
            );
            proof {
                lemma_flat_take(parts, i as int);
            }
            i += 1;
        }
        assert(parts.take(parts.len() as int) =~= parts);
    } else {
        assert(diag_views(diagnostics@) =~= start + tier_diags(ts@, tier));
    }
}

/// External LLMs may not see confidential or restricted context.
pub open spec fn llm_diags(p: ContextClassificationPolicy) -> Seq<DiagnosticView> {
    when(
        p.allow_external_llm && (p.max_prompt_classification is Confidential
            || p.max_prompt_classification is Restricted),
        diag(
            "domain_pack.external_llm_classification_limit"@,
            "external LLM prompts may not include confidential or restricted context"@,
        ),
    )
}

} // verus!

verus! {

// ── Whole-manifest validation ───────────────────────────────────

/// Every diagnostic of a manifest, in the order validation reports them.
#[verifier::opaque]
pub open spec fn validation_diagnostics(m: DomainPackManifest) -> Seq<DiagnosticView> {
    required("pack_id"@, m.pack_id@) + required("name"@, m.name@) + required("version"@, m.version@)
        + owned_diags("owned_dags"@, texts(m.owned_dags@)) + owned_diags(
        "owned_packs"@,
        texts(m.owned_packs@),
    ) + owned_diags("owned_state_machines"@, texts(m.owned_state_machines@)) + owned_diags(
        "owned_constellation_maps"@,
        texts(m.owned_constellation_maps@),
    ) + owned_diags("owned_constellation_families"@, texts(m.owned_constellation_families@))
        + owned_diags("owned_universes"@, texts(m.owned_universes@)) + owned_diags(
        "owned_verb_prefixes"@,
        texts(m.owned_verb_prefixes@),
    ) + owned_diags("owned_entity_kinds"@, texts(m.owned_entity_kinds@)) + owned_diags(
        "business_crates"@,
        texts(m.business_crates@),
    ) + owned_diags("owned_constellations"@, texts(m.owned_constellations@)) + when(
        m.owned_constellations@.len() == 0,
        diag(
            "domain_pack.no_owned_constellations"@,
            "domain pack must declare at least one owned constellation"@,
        ),
    ) + when(
        m.allowed_transitions@.len() == 0,
        diag(
            "domain_pack.no_allowed_transitions"@,
            "domain pack must declare at least one allowed transition"@,
        ),
    ) + all_transition_diags(m.allowed_transitions@) + all_probe_diags(m.discovery_probes@)
        + all_projection_diags(m.projection_catalog@) + all_mention_diags(m.mention_namespaces@)
        + all_mode_diags(m.declared_modes@) + all_phase_diags(m.workflow_phases@)
        + all_persona_diags(m.acp_personas@) + all_scheme_diags(m.resource_uri_schemes@)
        + all_transport_diags(m.external_mcp_transports@, probe_keys(m.discovery_probes@))
        + tier_diags(m.allowed_transitions@, m.compatibility_tier) + llm_diags(
        m.classification_policy,
    )
}

fn probe_id_list(probes: &Vec<DiscoveryProbe>) -> (r: Vec<String>)
    ensures
        texts(r@) == probe_keys(probes@),
{
    let mut r: Vec<String> = Vec::new();
    let mut i: usize = 0;
    while i < probes.len()
        invariant
            i <= probes.len(),
            texts(r@) == probe_keys(probes@).take(i as int),
        decreases probes.len() - i,
    {
        r.push(probes[i].probe_id.clone());
        assert(probe_keys(probes@).take(i + 1) =~= probe_keys(probes@).take(i as int).push(
            probes@[i as int].probe_id@,
        ));
        assert(texts(r@) =~= probe_keys(probes@).take(i + 1));
        i += 1;
    }
    assert(probe_keys(probes@).take(probes@.len() as int) =~= probe_keys(probes@));
    r
}

/// Validate a Domain Pack manifest. The report lists every finding, in a
/// fixed order, and is valid exactly when there is none.
#[verifier::rlimit(40)]
pub fn validate_domain_pack(manifest: &DomainPackManifest) -> (r: DomainPackValidationReport)
    ensures
        diag_views(r.diagnostics@) == validation_diagnostics(*manifest),
        r.valid == (r.diagnostics@.len() == 0),
{
    let m = manifest;
    let mut d: Vec<DomainPackDiagnostic> = Vec::new();
    require_non_empty(&mut d, "pack_id", m.pack_id.as_str());
    let ghost mut acc = diag_views(d@);
    require_non_empty(&mut d, "name", m.name.as_str());
    proof { acc = acc + required("name"@, m.name@); }
    require_non_empty(&mut d, "version", m.version.as_str());
    proof { acc = acc + required("version"@, m.version@); }
    validate_owned_values("owned_dags", &m.owned_dags, &mut d);
    proof { acc = acc + owned_diags("owned_dags"@, texts(m.owned_dags@)); }
    validate_owned_values("owned_packs", &m.owned_packs, &mut d);
    proof { acc = acc + owned_diags("owned_packs"@, texts(m.owned_packs@)); }
    validate_owned_values("owned_state_machines", &m.owned_state_machines, &mut d);
    proof { acc = acc + owned_diags("owned_state_machines"@, texts(m.owned_state_machines@)); }
    validate_owned_values("owned_constellation_maps", &m.owned_constellation_maps, &mut d);
    proof {
        acc = acc + owned_diags("owned_constellation_maps"@, texts(m.owned_constellation_maps@));
    }
    validate_owned_values("owned_constellation_families", &m.owned_constellation_families, &mut d);
    proof {
        acc = acc + owned_diags(
            "owned_constellation_families"@,
            texts(m.owned_constellation_families@),
        );
    }
    validate_owned_values("owned_universes", &m.owned_universes, &mut d);
    proof { acc = acc + owned_diags("owned_universes"@, texts(m.owned_universes@)); }
    validate_owned_values("owned_verb_prefixes", &m.owned_verb_prefixes, &mut d);
    proof { acc = acc + owned_diags("owned_verb_prefixes"@, texts(m.owned_verb_prefixes@)); }
    validate_owned_values("owned_entity_kinds", &m.owned_entity_kinds, &mut d);
    proof { acc = acc + owned_diags("owned_entity_kinds"@, texts(m.owned_entity_kinds@)); }
    validate_owned_values("business_crates", &m.business_crates, &mut d);
    proof { acc = acc + owned_diags("business_crates"@, texts(m.business_crates@)); }
    validate_owned_values("owned_constellations", &m.owned_constellations, &mut d);
    proof { acc = acc + owned_diags("owned_constellations"@, texts(m.owned_constellations@)); }
    push_when(
        &mut d,
        m.owned_constellations.len() == 0,
        "domain_pack.no_owned_constellations",
        "domain pack must declare at least one owned constellation".to_owned(),
    );
    proof {
        acc = acc + when(
            m.owned_constellations@.len() == 0,
            diag(
                "domain_pack.no_owned_constellations"@,
                "domain pack must declare at least one owned constellation"@,
            ),
        );
    }
    push_when(
        &mut d,
        m.allowed_transitions.len() == 0,
        "domain_pack.no_allowed_transitions",
        "domain pack must declare at least one allowed transition".to_owned(),
    );
    proof {
        acc = acc + when(
            m.allowed_transitions@.len() == 0,
            diag(
                "domain_pack.no_allowed_transitions"@,
                "domain pack must declare at least one allowed transition"@,
            ),
        );
    }
    validate_all_transition(&m.allowed_transitions, &mut d);
    proof { acc = acc + all_transition_diags(m.allowed_transitions@); }
    validate_all_probe(&m.discovery_probes, &mut d);
    proof { acc = acc + all_probe_diags(m.discovery_probes@); }
    validate_all_projection(&m.projection_catalog, &mut d);
    proof { acc = acc + all_projection_diags(m.projection_catalog@); }
    validate_all_mention(&m.mention_namespaces, &mut d);
    proof { acc = acc + all_mention_diags(m.mention_namespaces@); }
    validate_all_mode(&m.declared_modes, &mut d);
    proof { acc = acc + all_mode_diags(m.declared_modes@); }
    validate_all_phase(&m.workflow_phases, &mut d);
    proof { acc = acc + all_phase_diags(m.workflow_phases@); }
    validate_all_persona(&m.acp_personas, &mut d);
    proof { acc = acc + all_persona_diags(m.acp_personas@); }
    validate_all_scheme(&m.resource_uri_schemes, &mut d);
    proof { acc = acc + all_scheme_diags(m.resource_uri_schemes@); }
    let probe_ids = probe_id_list(&m.discovery_probes);
    validate_all_transport(&m.external_mcp_transports, &probe_ids, &mut d);
    proof {
        acc = acc + all_transport_diags(m.external_mcp_transports@, probe_keys(m.discovery_probes@));
    }
    validate_tier(&m.allowed_transitions, m.compatibility_tier, &mut d);
    proof { acc = acc + tier_diags(m.allowed_transitions@, m.compatibility_tier); }
    let p = &m.classification_policy;
    let sensitive = match p.max_prompt_classification {
        ClassificationLimit::Confidential => true,
        ClassificationLimit::Restricted => true,
        _ => false,
    };
    push_when(
        &mut d,
        p.allow_external_llm && sensitive,
        "domain_pack.external_llm_classification_limit",
        "external LLM prompts may not include confidential or restricted context".to_owned(),
    );
    proof {
        acc = acc + llm_diags(m.classification_policy);
        reveal(validation_diagnostics);
        assert(acc == validation_diagnostics(*m));
    }
    DomainPackValidationReport::from_diagnostics(d)
}

/// A manifest that lets external LLMs see confidential or restricted
/// context is invalid, whatever else it declares: validation reports the
/// external-LLM classification limit.
pub proof fn lemma_external_llm_limit(m: DomainPackManifest)
    requires
        m.classification_policy.allow_external_llm,
        m.classification_policy.max_prompt_classification == ClassificationLimit::Confidential
            || m.classification_policy.max_prompt_classification == ClassificationLimit::Restricted,
    ensures
        validation_diagnostics(m).contains(
            DiagnosticView {
                code: "domain_pack.external_llm_classification_limit"@,
                message: "external LLM prompts may not include confidential or restricted context"@,
            },
        ),
        validation_diagnostics(m).len() > 0,
{
    reveal(validation_diagnostics);
    let d = DiagnosticView {
        code: "domain_pack.external_llm_classification_limit"@,
        message: "external LLM prompts may not include confidential or restricted context"@,
    };
    let all = validation_diagnostics(m);
    let l = llm_diags(m.classification_policy);
    assert(l == seq![d]);
    assert(all[all.len() - 1] == d);
}

impl DomainPackManifest {
    /// Validate this manifest (see `validate_domain_pack`).
    pub fn validate(&self) -> (r: DomainPackValidationReport)
        ensures
            diag_views(r.diagnostics@) == validation_diagnostics(*self),
            r.valid == (r.diagnostics@.len() == 0),
    {
        validate_domain_pack(self)
    }
}

} // verus!

verus! {

// ── Discovery-probe authorization ───────────────────────────────

/// The subject of a discovery request.
#[derive(Debug, Clone, PartialEq, Eq)]
pub struct DiscoverySubject {
    pub subject_kind: String,
    pub subject_id: String,
}

/// A request to run a discovery probe.
#[derive(Debug, Clone, PartialEq, Eq)]
pub struct DiscoveryRequest {
    pub pack_id: String,
    pub probe_id: String,
    pub subject: DiscoverySubject,
    /// Free-form context values by key, in ascending key order.
    pub context: Vec<(String, serde_json::Value)>,
}

/// Where an observation came from.
#[derive(Debug, Clone, PartialEq, Eq)]
pub struct DiscoveryProvenance {
    pub source: String,
    pub snapshot_ref: Option<String>,
}

/// Why a discovery request was refused.
#[derive(Debug, Clone, PartialEq, Eq)]
pub enum DiscoveryAuthorizationError {
    PackMismatch { expected: String, actual: String },
    UnknownProbe { probe_id: String },
    UnsafeProbe { probe_id: String, code: String },
}

/// `i` is the first probe of `ps` with id `id`.
pub open spec fn is_first_probe(ps: Seq<DiscoveryProbe>, id: Seq<char>, i: int) -> bool {
    0 <= i < ps.len() && ps[i].probe_id@ == id && forall|j: int|
        0 <= j < i ==> ps[j].probe_id@ != id
}

/// The code under which a declared probe is refused, if it is unsafe: not
/// idempotent, not modeled, or mutating first-class state (checked in that order).
pub open spec fn probe_refusal(p: DiscoveryProbe) -> Option<Seq<char>> {
    if !p.idempotent {
        Some("domain_pack.probe_not_idempotent"@)
    } else if !p.modeled {
        Some("domain_pack.probe_not_modeled"@)
    } else if p.first_class_state_mutation {
        Some("domain_pack.probe_mutates_state"@)
    } else {
        None
    }
}

/// Authorize a discovery request against a manifest: the request must name
/// this pack and a declared probe, and the first probe with that id must be
/// safe. The probe is handed back on success.
pub fn authorize_discovery_probe<'a>(
    manifest: &'a DomainPackManifest,
    request: &DiscoveryRequest,
) -> (r: Result<&'a DiscoveryProbe, DiscoveryAuthorizationError>)
    ensures
        request.pack_id@ != manifest.pack_id@ ==> match r {
            Err(DiscoveryAuthorizationError::PackMismatch { expected, actual }) => expected@
                == manifest.pack_id@ && actual@ == request.pack_id@,
            _ => false,
        },
        request.pack_id@ == manifest.pack_id@ && (forall|i: int|
            0 <= i < manifest.discovery_probes@.len() ==> manifest.discovery_probes@[i].probe_id@
                != request.probe_id@) ==> match r {
            Err(DiscoveryAuthorizationError::UnknownProbe { probe_id }) => probe_id@
                == request.probe_id@,
            _ => false,
        },
        forall|i: int|
            request.pack_id@ == manifest.pack_id@ && is_first_probe(
                manifest.discovery_probes@,
                request.probe_id@,
                i,
            ) ==> match probe_refusal(manifest.discovery_probes@[i]) {
                Some(code) => match r {
                    Err(DiscoveryAuthorizationError::UnsafeProbe { probe_id, code: c }) => probe_id@
                        == manifest.discovery_probes@[i].probe_id@ && c@ == code,
                    _ => false,
                },
                None => match r {
                    Ok(p) => *p == manifest.discovery_probes@[i],
                    _ => false,
                },
            },
{
    if !text_eq(request.pack_id.as_str(), manifest.pack_id.as_str()) {
        return Err(
            DiscoveryAuthorizationError::PackMismatch {
                expected: manifest.pack_id.clone(),
                actual: request.pack_id.clone(),
            },
        );
    }
    let probes = &manifest.discovery_probes;
    let mut i: usize = 0;
    while i < probes.len()
        invariant
            i <= probes.len(),
            probes == &manifest.discovery_probes,
            request.pack_id@ == manifest.pack_id@,
            forall|j: int| 0 <= j < i ==> probes@[j].probe_id@ != request.probe_id@,
        decreases probes.len() - i,
    {
        let probe = &probes[i];
        if text_eq(probe.probe_id.as_str(), request.probe_id.as_str()) {
            proof {
                assert(is_first_probe(probes@, request.probe_id@, i as int));
                assert forall|k: int| is_first_probe(probes@, request.probe_id@, k) implies k
                    == i by {
                    if k < i {
                    } else if k > i {
                        assert(probes@[i as int].probe_id@ == request.probe_id@);
                    }
                }
            }
            if !probe.idempotent {
                return Err(
                    DiscoveryAuthorizationError::UnsafeProbe {
                        probe_id: probe.probe_id.clone(),
                        code: "domain_pack.probe_not_idempotent".to_owned(),
                    },
                );
            }
            if !probe.modeled {
                return Err(
                    DiscoveryAuthorizationError::UnsafeProbe {
                        probe_id: probe.probe_id.clone(),
                        code: "domain_pack.probe_not_modeled".to_owned(),
                    },
                );
            }
            if probe.first_class_state_mutation {
                return Err(
                    DiscoveryAuthorizationError::UnsafeProbe {
                        probe_id: probe.probe_id.clone(),
                        code: "domain_pack.probe_mutates_state".to_owned(),
                    },
                );
            }
            return Ok(probe);
        }
        i += 1;
    }
    Err(DiscoveryAuthorizationError::UnknownProbe { probe_id: request.probe_id.clone() })
}

// ── Reload index ────────────────────────────────────────────────

/// Outcome of the last reload check of a pack.
#[derive(Debug, Clone, Copy, PartialEq, Eq, Structural)]
pub enum DomainPackReloadStatus {
    Clean,
    Loaded,
    IndexOnly,
    PublishRequired,
}

/// The snake_case name of a reload status.
pub open spec fn status_text(s: DomainPackReloadStatus) -> Seq<char> {
    match s {
        DomainPackReloadStatus::Clean => "clean"@,
        DomainPackReloadStatus::Loaded => "loaded"@,
        DomainPackReloadStatus::IndexOnly => "index_only"@,
        DomainPackReloadStatus::PublishRequired => "publish_required"@,
    }
}

impl DomainPackReloadStatus {
    /// The snake_case name of this status.
    pub fn as_str(self) -> (r: &'static str)
        ensures
            r@ == status_text(self),
    {
        match self {
            DomainPackReloadStatus::Clean => "clean",
            DomainPackReloadStatus::Loaded => "loaded",
            DomainPackReloadStatus::IndexOnly => "index_only",
            DomainPackReloadStatus::PublishRequired => "publish_required",
        }
    }

    /// The status with the given name, or the message
    /// `unknown domain pack reload status <value>`.
    pub fn parse(value: &str) -> (r: Result<Self, String>)
        ensures
            match r {
                Ok(s) => status_text(s) == value@,
                Err(e) => (forall|s: DomainPackReloadStatus| status_text(s) != value@) && e@
                    == "unknown domain pack reload status "@ + value@,
            },
    {
        if text_eq(value, "clean") {
            Ok(DomainPackReloadStatus::Clean)
        } else if text_eq(value, "loaded") {
            Ok(DomainPackReloadStatus::Loaded)
        } else if text_eq(value, "index_only") {
            Ok(DomainPackReloadStatus::IndexOnly)
        } else if text_eq(value, "publish_required") {
            Ok(DomainPackReloadStatus::PublishRequired)
        } else {
            Err(join2("unknown domain pack reload status ", value))
        }
    }
}

impl std::str::FromStr for DomainPackReloadStatus {
    type Err = String;

    fn from_str(value: &str) -> (r: Result<Self, String>)
        ensures
            match r {
                Ok(s) => status_text(s) == value@,
                Err(e) => (forall|s: DomainPackReloadStatus| status_text(s) != value@) && e@
                    == "unknown domain pack reload status "@ + value@,
            },
    {
        DomainPackReloadStatus::parse(value)
    }
}

/// Distinct statuses have distinct names, so parsing a status's name gives
/// that status back.
pub proof fn lemma_status_text_injective(a: DomainPackReloadStatus, b: DomainPackReloadStatus)
    ensures
        status_text(a) == status_text(b) ==> a == b,
{
    reveal_strlit("clean");
    reveal_strlit("loaded");
    reveal_strlit("index_only");
    reveal_strlit("publish_required");
    if status_text(a) == status_text(b) {
        assert(status_text(a).len() == status_text(b).len());
        assert(status_text(a)[0] == status_text(b)[0]);
    }
}

/// What a refresh decided to do.
#[derive(Debug, Clone, Copy, PartialEq, Eq, Structural)]
pub enum DomainPackRefreshAction {
    Skip,
    IndexOnly,
    PublishRequired,
}

/// The size and modification time of one source file of a pack surface.
#[derive(Debug, Clone, PartialEq, Eq)]
pub struct DomainPackSourceFingerprint {
    pub surface: String,
    pub path: String,
    pub size_bytes: u64,
    pub modified_unix_millis: Option<i64>,
}

/// Whether recorded sources still match what is on disk now.
#[derive(Debug, Clone, Copy, PartialEq, Eq)]
pub struct SourceProbe {
    pub clean: bool,
}

/// Compare recorded fingerprints with the current ones, taken from the same
/// paths in the same order: clean when there is at least one and every size
/// and modification time is unchanged.
pub fn probe_domain_pack_sources(
    previous: &Vec<DomainPackSourceFingerprint>,
    current: &Vec<DomainPackSourceFingerprint>,
) -> (r: SourceProbe)
    requires
        current@.len() == previous@.len(),
    ensures
        r.clean == (previous@.len() > 0 && forall|i: int|
            0 <= i < previous@.len() ==> (#[trigger] current@[i]).size_bytes
                == previous@[i].size_bytes && current@[i].modified_unix_millis
                == previous@[i].modified_unix_millis),
{
    if previous.len() == 0 {
        return SourceProbe { clean: false };
    }
    let mut i: usize = 0;
    while i < previous.len()
        invariant
            i <= previous.len(),
            current@.len() == previous@.len(),
            forall|j: int|
                0 <= j < i ==> (#[trigger] current@[j]).size_bytes == previous@[j].size_bytes
                    && current@[j].modified_unix_millis == previous@[j].modified_unix_millis,
        decreases previous.len() - i,
    {
        let old = &previous[i];
        let now = &current[i];
        let same_time = match (now.modified_unix_millis, old.modified_unix_millis) {
            (Some(a), Some(b)) => a == b,
            (None, None) => true,
            _ => false,
        };
        if now.size_bytes != old.size_bytes || !same_time {
            return SourceProbe { clean: false };
        }
        i += 1;
    }
    SourceProbe { clean: true }
}

/// The decision of a refresh that reloaded the pack.
#[derive(Debug, Clone, PartialEq, Eq)]
pub struct DomainPackRefreshDecision {
    pub action: DomainPackRefreshAction,
    pub status: DomainPackReloadStatus,
    pub reason: String,
}

/// The reason text of a refresh that reloaded the pack.
pub open spec fn refresh_reason(has_previous: bool, force_check: bool, hash_changed: bool) -> Seq<
    char,
> {
    if !has_previous {
        "no prior reload index"@
    } else if force_check && hash_changed {
        "forced check found content hash change"@
    } else if force_check {
        "forced check found unchanged content hash"@
    } else if hash_changed {
        "source fingerprint changed and content hash changed"@
    } else {
        "source fingerprint changed but content hash is unchanged"@
    }
}

/// Decide what a reload means for the index: a changed content hash (or no
/// prior index) requires a publish, an unchanged one only an index update.
pub fn refresh_decision(previous_hash: Option<&str>, force_check: bool, new_hash: &str) -> (r:
    DomainPackRefreshDecision)
    ensures
        ({
            let changed = match previous_hash {
                Some(h) => h@ != new_hash@,
                None => true,
            };
            &&& r.action == (if changed {
                DomainPackRefreshAction::PublishRequired
            } else {
                DomainPackRefreshAction::IndexOnly
            })
            &&& r.status == (if changed {
                DomainPackReloadStatus::PublishRequired
            } else {
                DomainPackReloadStatus::IndexOnly
            })
            &&& r.reason@ == refresh_reason(previous_hash is Some, force_check, changed)
        }),
{
    let changed = match previous_hash {
        Some(h) => !text_eq(h, new_hash),
        None => true,
    };
    let action = if changed {
        DomainPackRefreshAction::PublishRequired
    } else {
        DomainPackRefreshAction::IndexOnly
    };
    let status = if changed {
        DomainPackReloadStatus::PublishRequired
    } else {
        DomainPackReloadStatus::IndexOnly
    };
    let reason = if previous_hash.is_none() {
        "no prior reload index"
    } else if force_check && changed {
        "forced check found content hash change"
    } else if force_check {
        "forced check found unchanged content hash"
    } else if changed {
        "source fingerprint changed and content hash changed"
    } else {
        "source fingerprint changed but content hash is unchanged"
    };
    DomainPackRefreshDecision { action, status, reason: reason.to_owned() }
}

} // verus!
