//! The kinds of ACP projection, their wire names, and the small value types
//! that a projection envelope carries.

use vstd::prelude::*;
use vstd::string::*;

use crate::authoring::canonical_hash::{hex_encode, hex_text, lemma_digest_hex_shape, sha256, sha256_digest};
use crate::domain_pack::ClassificationLimit;
use crate::gates::extended::current_timestamp;
use crate::gates::{be_bytes, Timestamp};
use crate::text::{join2, joined_with, text_eq};
use crate::json::{json_bytes, json_normal, json_value_bytes, JsonValue};

verus! {

broadcast use vstd::string::group_string_axioms;

/// What an ACP projection shows.
#[derive(Debug, Clone, Copy, PartialEq, Eq, Hash, Structural)]
pub enum AcpProjectionKind {
    PackManifest,
    ProbeCatalogue,
    DiscoverySurface,
    WorkspaceState,
    Dag,
    GraphScene,
    VerbSurface,
    TransitionSurface,
    LanguagePack,
    Governance,
    EvidenceSchema,
    AffinityGraph,
    Lineage,
    DerivationRegistry,
    Materiality,
    Policy,
}

/// The snake_case wire name of a projection kind.
pub open spec fn kind_text(k: AcpProjectionKind) -> Seq<char> {
    match k {
        AcpProjectionKind::PackManifest => "pack_manifest"@,
        AcpProjectionKind::ProbeCatalogue => "probe_catalogue"@,
        AcpProjectionKind::DiscoverySurface => "discovery_surface"@,
        AcpProjectionKind::WorkspaceState => "workspace_state"@,
        AcpProjectionKind::Dag => "dag"@,
        AcpProjectionKind::GraphScene => "graph_scene"@,
        AcpProjectionKind::VerbSurface => "verb_surface"@,
        AcpProjectionKind::TransitionSurface => "transition_surface"@,
        AcpProjectionKind::LanguagePack => "language_pack"@,
        AcpProjectionKind::Governance => "governance"@,
        AcpProjectionKind::EvidenceSchema => "evidence_schema"@,
        AcpProjectionKind::AffinityGraph => "affinity_graph"@,
        AcpProjectionKind::Lineage => "lineage"@,
        AcpProjectionKind::DerivationRegistry => "derivation_registry"@,
        AcpProjectionKind::Materiality => "materiality"@,
        AcpProjectionKind::Policy => "policy"@,
    }
}

impl AcpProjectionKind {
    /// The wire name of this kind.
    pub fn as_str(self) -> (r: &'static str)
        ensures
            r@ == kind_text(self),
    {
        match self {
            AcpProjectionKind::PackManifest => "pack_manifest",
            AcpProjectionKind::ProbeCatalogue => "probe_catalogue",
            AcpProjectionKind::DiscoverySurface => "discovery_surface",
            AcpProjectionKind::WorkspaceState => "workspace_state",
            AcpProjectionKind::Dag => "dag",
            AcpProjectionKind::GraphScene => "graph_scene",
            AcpProjectionKind::VerbSurface => "verb_surface",
            AcpProjectionKind::TransitionSurface => "transition_surface",
            AcpProjectionKind::LanguagePack => "language_pack",
            AcpProjectionKind::Governance => "governance",
            AcpProjectionKind::EvidenceSchema => "evidence_schema",
            AcpProjectionKind::AffinityGraph => "affinity_graph",
            AcpProjectionKind::Lineage => "lineage",
            AcpProjectionKind::DerivationRegistry => "derivation_registry",
            AcpProjectionKind::Materiality => "materiality",
            AcpProjectionKind::Policy => "policy",
        }
    }

    /// The kind with the given wire name, or the message
    /// `unknown ACP projection kind <value>`.
    pub fn parse(value: &str) -> (r: Result<Self, String>)
        ensures
            match r {
                Ok(k) => kind_text(k) == value@,
                Err(e) => (forall|k: AcpProjectionKind| kind_text(k) != value@) && e@
                    == "unknown ACP projection kind "@ + value@,
            },
    {
        if text_eq(value, "pack_manifest") {
            Ok(AcpProjectionKind::PackManifest)
        } else if text_eq(value, "probe_catalogue") {
            Ok(AcpProjectionKind::ProbeCatalogue)
        } else if text_eq(value, "discovery_surface") {
            Ok(AcpProjectionKind::DiscoverySurface)
        } else if text_eq(value, "workspace_state") {
            Ok(AcpProjectionKind::WorkspaceState)
        } else if text_eq(value, "dag") {
            Ok(AcpProjectionKind::Dag)
        } else if text_eq(value, "graph_scene") {
            Ok(AcpProjectionKind::GraphScene)
        } else if text_eq(value, "verb_surface") {
            Ok(AcpProjectionKind::VerbSurface)
        } else if text_eq(value, "transition_surface") {
            Ok(AcpProjectionKind::TransitionSurface)
        } else if text_eq(value, "language_pack") {
            Ok(AcpProjectionKind::LanguagePack)
        } else if text_eq(value, "governance") {
            Ok(AcpProjectionKind::Governance)
        } else if text_eq(value, "evidence_schema") {
            Ok(AcpProjectionKind::EvidenceSchema)
        } else if text_eq(value, "affinity_graph") {
            Ok(AcpProjectionKind::AffinityGraph)
        } else if text_eq(value, "lineage") {
            Ok(AcpProjectionKind::Lineage)
        } else if text_eq(value, "derivation_registry") {
            Ok(AcpProjectionKind::DerivationRegistry)
        } else if text_eq(value, "materiality") {
            Ok(AcpProjectionKind::Materiality)
        } else if text_eq(value, "policy") {
            Ok(AcpProjectionKind::Policy)
        } else {
            Err(join2("unknown ACP projection kind ", value))
        }
    }
}

impl std::str::FromStr for AcpProjectionKind {
    type Err = String;

    fn from_str(value: &str) -> (r: Result<Self, String>)
        ensures
            match r {
                Ok(k) => kind_text(k) == value@,
                Err(e) => (forall|k: AcpProjectionKind| kind_text(k) != value@) && e@
                    == "unknown ACP projection kind "@ + value@,
            },
    {
        AcpProjectionKind::parse(value)
    }
}

/// Distinct kinds have distinct wire names, so a name read back gives the
/// kind it was written from.
pub proof fn lemma_kind_text_injective(a: AcpProjectionKind, b: AcpProjectionKind)
    ensures
        kind_text(a) == kind_text(b) ==> a == b,
{
    reveal_strlit("pack_manifest");
    reveal_strlit("probe_catalogue");
    reveal_strlit("discovery_surface");
    reveal_strlit("workspace_state");
    reveal_strlit("dag");
    reveal_strlit("graph_scene");
    reveal_strlit("verb_surface");
    reveal_strlit("transition_surface");
    reveal_strlit("language_pack");
    reveal_strlit("governance");
    reveal_strlit("evidence_schema");
    reveal_strlit("affinity_graph");
    reveal_strlit("lineage");
    reveal_strlit("derivation_registry");
    reveal_strlit("materiality");
    reveal_strlit("policy");
    if kind_text(a) == kind_text(b) {
        let s = kind_text(a);
        assert(s.len() == kind_text(b).len() && s[0] == kind_text(b)[0]);
        match a {
            AcpProjectionKind::PackManifest => assert(s.len() == 13 && s[0] == 'p'),
            AcpProjectionKind::ProbeCatalogue => assert(s.len() == 15 && s[0] == 'p'),
            AcpProjectionKind::DiscoverySurface => assert(s.len() == 17),
            AcpProjectionKind::WorkspaceState => assert(s.len() == 15 && s[0] == 'w'),
            AcpProjectionKind::Dag => assert(s.len() == 3),
            AcpProjectionKind::GraphScene => assert(s.len() == 11 && s[0] == 'g'),
            AcpProjectionKind::VerbSurface => assert(s.len() == 12),
            AcpProjectionKind::TransitionSurface => assert(s.len() == 18),
            AcpProjectionKind::LanguagePack => assert(s.len() == 13 && s[0] == 'l'),
            AcpProjectionKind::Governance => assert(s.len() == 10),
            AcpProjectionKind::EvidenceSchema => assert(s.len() == 15 && s[0] == 'e'),
            AcpProjectionKind::AffinityGraph => assert(s.len() == 14),
            AcpProjectionKind::Lineage => assert(s.len() == 7),
            AcpProjectionKind::DerivationRegistry => assert(s.len() == 19),
            AcpProjectionKind::Materiality => assert(s.len() == 11 && s[0] == 'm'),
            AcpProjectionKind::Policy => assert(s.len() == 6),
        }
        let t = kind_text(b);
        match b {
            AcpProjectionKind::PackManifest => assert(t.len() == 13 && t[0] == 'p'),
            AcpProjectionKind::ProbeCatalogue => assert(t.len() == 15 && t[0] == 'p'),
            AcpProjectionKind::DiscoverySurface => assert(t.len() == 17),
            AcpProjectionKind::WorkspaceState => assert(t.len() == 15 && t[0] == 'w'),
            AcpProjectionKind::Dag => assert(t.len() == 3),
            AcpProjectionKind::GraphScene => assert(t.len() == 11 && t[0] == 'g'),
            AcpProjectionKind::VerbSurface => assert(t.len() == 12),
            AcpProjectionKind::TransitionSurface => assert(t.len() == 18),
            AcpProjectionKind::LanguagePack => assert(t.len() == 13 && t[0] == 'l'),
            AcpProjectionKind::Governance => assert(t.len() == 10),
            AcpProjectionKind::EvidenceSchema => assert(t.len() == 15 && t[0] == 'e'),
            AcpProjectionKind::AffinityGraph => assert(t.len() == 14),
            AcpProjectionKind::Lineage => assert(t.len() == 7),
            AcpProjectionKind::DerivationRegistry => assert(t.len() == 19),
            AcpProjectionKind::Materiality => assert(t.len() == 11 && t[0] == 'm'),
            AcpProjectionKind::Policy => assert(t.len() == 6),
        }
    }
}

/// Parsing the wire name of a kind gives back that kind: any result that
/// meets the contract of `AcpProjectionKind::parse` on `kind_text(k)` is `Ok(k)`.
pub proof fn lemma_parse_as_str(k: AcpProjectionKind, r: Result<AcpProjectionKind, String>)
    requires
        r is Ok ==> kind_text(r->Ok_0) == kind_text(k),
        r is Err ==> forall|j: AcpProjectionKind| #[trigger] kind_text(j) != kind_text(k),
    ensures
        r == Ok::<AcpProjectionKind, String>(k),
{
    match r {
        Ok(j) => lemma_kind_text_injective(j, k),
        Err(e) => {
            assert(r is Err);
            let k2 = k;
            assert(kind_text(k2) != kind_text(k));
        },
    }
}

/// The subject a projection is about.
#[derive(Debug, Clone, PartialEq, Eq)]
pub struct AcpProjectionSubject {
    pub subject_kind: String,
    pub subject_id: String,
}

/// A redaction applied to a projection payload.
#[derive(Debug, Clone, PartialEq, Eq)]
pub struct AcpProjectionRedaction {
    pub path: String,
    pub reason: String,
}

// ── Envelopes ──────────────────────────────────────────────────

/// What an envelope is made from.
#[derive(Debug)]
pub struct AcpProjectionEnvelopeInput {
    pub projection_kind: AcpProjectionKind,
    pub session_id: u128,
    pub pack_id: String,
    pub classification: ClassificationLimit,
    pub subject: Option<AcpProjectionSubject>,
    pub snapshot_refs: Vec<String>,
    pub payload: JsonValue,
    pub redactions: Vec<AcpProjectionRedaction>,
}

/// A projection with its provenance: what it shows, for whom, under which
/// classification and redactions, the hash of all of it, and when it was
/// made.
#[derive(Debug)]
pub struct AcpProjectionEnvelope {
    pub projection_kind: AcpProjectionKind,
    pub session_id: u128,
    pub pack_id: String,
    pub classification: ClassificationLimit,
    pub subject: Option<AcpProjectionSubject>,
    pub snapshot_refs: Vec<String>,
    pub payload: JsonValue,
    pub redactions: Vec<AcpProjectionRedaction>,
    pub projection_hash: String,
    pub generated_at: Timestamp,
}

/// How `{:?}` writes a classification limit: its variant's name.
pub open spec fn classification_debug(c: ClassificationLimit) -> Seq<char> {
    match c {
        ClassificationLimit::Public => "Public"@,
        ClassificationLimit::Internal => "Internal"@,
        ClassificationLimit::Confidential => "Confidential"@,
        ClassificationLimit::Restricted => "Restricted"@,
    }
}

fn classification_debug_text(c: ClassificationLimit) -> (r: &'static str)
    ensures
        r@ == classification_debug(c),
{
    match c {
        ClassificationLimit::Public => "Public",
        ClassificationLimit::Internal => "Internal",
        ClassificationLimit::Confidential => "Confidential",
        ClassificationLimit::Restricted => "Restricted",
    }
}

/// The JSON text `serde_json` writes for a string: quoted and escaped.
pub uninterp spec fn json_string(s: Seq<char>) -> Seq<char>;

/// `serde_json::to_string` on a string.
#[verifier::external_body]
fn json_string_text(s: &str) -> (r: String)
    ensures
        r@ == json_string(s@),
{
    serde_json::to_string(s).unwrap_or_default()
}

/// The JSON object of a redaction, as its serialization writes it.
pub open spec fn redaction_json(r: AcpProjectionRedaction) -> Seq<char> {
    "{\"path\":"@ + json_string(r.path@) + ",\"reason\":"@ + json_string(r.reason@) + "}"@
}

/// The JSON array of the redactions, as their serialization writes it.
pub open spec fn redactions_json(rs: Seq<AcpProjectionRedaction>) -> Seq<char> {
    "["@ + joined_with(rs.map_values(|r: AcpProjectionRedaction| redaction_json(r)), ","@) + "]"@
}

/// The bytes of a list of texts, one after another.
pub open spec fn texts_bytes(v: Seq<String>) -> Seq<u8>
    decreases v.len(),
{
    if v.len() == 0 {
        Seq::empty()
    } else {
        texts_bytes(v.drop_last()) + vstd::utf8::encode_utf8(v.last()@)
    }
}

/// What the projection hash is computed over: the kind's name, the session
/// id's 16 bytes, the pack id, the classification's name, the subject's
/// kind and id if any, the snapshot refs, then the payload's and the
/// redactions' JSON bytes.
pub open spec fn projection_preimage(input: AcpProjectionEnvelopeInput, payload_bytes: Seq<u8>, redaction_bytes: Seq<u8>) -> Seq<u8> {
    vstd::utf8::encode_utf8(kind_text(input.projection_kind)) + be_bytes(input.session_id as nat, 16)
        + vstd::utf8::encode_utf8(input.pack_id@) + vstd::utf8::encode_utf8(classification_debug(input.classification))
        + match input.subject {
        Some(s) => vstd::utf8::encode_utf8(s.subject_kind@) + vstd::utf8::encode_utf8(s.subject_id@),
        None => Seq::empty(),
    } + texts_bytes(input.snapshot_refs@) + payload_bytes + redaction_bytes
}

fn push_bytes(v: &mut Vec<u8>, b: &[u8])
    ensures
        final(v)@ == old(v)@ + b@,
{
    let mut i: usize = 0;
    while i < b.len()
        invariant
            i <= b.len(),
            v@ == old(v)@ + b@.take(i as int),
        decreases b.len() - i,
    {
        v.push(b[i]);
        assert(b@.take(i + 1) =~= b@.take(i as int).push(b@[i as int]));
        i += 1;
    }
    assert(b@.take(b.len() as int) =~= b@);
}

fn big_endian(x: u128, n: usize) -> (r: Vec<u8>)
    ensures
        r@ == be_bytes(x as nat, n as nat),
    decreases n,
{
    if n == 0 {
        Vec::new()
    } else {
        let mut v = big_endian(x / 256, n - 1);
        v.push((x % 256) as u8);
        v
    }
}

/// The JSON text of the redactions, as their serialization writes it.
fn redactions_json_text(rs: &Vec<AcpProjectionRedaction>) -> (r: String)
    ensures
        r@ == redactions_json(rs@),
{
    let ghost items = rs@.map_values(|r: AcpProjectionRedaction| redaction_json(r));
    let mut body = String::new();
    let mut i: usize = 0;
    while i < rs.len()
        invariant
            i <= rs.len(),
            items == rs@.map_values(|r: AcpProjectionRedaction| redaction_json(r)),
            body@ == joined_with(items.take(i as int), ","@),
        decreases rs.len() - i,
    {
        let p = json_string_text(rs[i].path.as_str());
        let q = json_string_text(rs[i].reason.as_str());
        if i > 0 {
            body.append(",");
        }
        body.append("{\"path\":");
        body.append(p.as_str());
        body.append(",\"reason\":");
        body.append(q.as_str());
        body.append("}");
        proof {
            assert(items.take(i + 1).drop_last() =~= items.take(i as int));
            assert(items.take(i + 1).last() == redaction_json(rs@[i as int]));
            if i == 0 {
                assert(items.take(1)[0] == items[0]);
            }
        }
        i += 1;
    }
    assert(items.take(rs.len() as int) =~= items);
    let mut r = String::new();
    r.append("[");
    r.append(body.as_str());
    r.append("]");
    r
}

/// The projection hash of an envelope's input, given the JSON bytes of its
/// payload and of its redactions: `sha256:` and the lower-case hex SHA-256
/// of the preimage.
pub fn projection_hash(input: &AcpProjectionEnvelopeInput, payload_bytes: &Vec<u8>, redaction_bytes: &Vec<u8>) -> (r: String)
    ensures
        r@ == "sha256:"@ + hex_text(sha256(projection_preimage(*input, payload_bytes@, redaction_bytes@))),
{
    let mut data: Vec<u8> = Vec::new();
    push_bytes(&mut data, input.projection_kind.as_str().as_bytes());
    let id = big_endian(input.session_id, 16);
    push_bytes(&mut data, id.as_slice());
    push_bytes(&mut data, input.pack_id.as_str().as_bytes());
    push_bytes(&mut data, classification_debug_text(input.classification).as_bytes());
    match &input.subject {
        Some(s) => {
            push_bytes(&mut data, s.subject_kind.as_str().as_bytes());
            push_bytes(&mut data, s.subject_id.as_str().as_bytes());
        },
        None => {},
    }
    let ghost before_refs = data@;
    let mut i: usize = 0;
    while i < input.snapshot_refs.len()
        invariant
            i <= input.snapshot_refs.len(),
            data@ == before_refs + texts_bytes(input.snapshot_refs@.take(i as int)),
        decreases input.snapshot_refs.len() - i,
    {
        push_bytes(&mut data, input.snapshot_refs[i].as_str().as_bytes());
        proof {
            let t = input.snapshot_refs@.take(i + 1);
            assert(t.drop_last() =~= input.snapshot_refs@.take(i as int));
            assert(t.last() == input.snapshot_refs@[i as int]);
        }
        i += 1;
    }
    assert(input.snapshot_refs@.take(input.snapshot_refs.len() as int) =~= input.snapshot_refs@);
    push_bytes(&mut data, payload_bytes.as_slice());
    push_bytes(&mut data, redaction_bytes.as_slice());
    proof {
        assert(data@ =~= projection_preimage(*input, payload_bytes@, redaction_bytes@));
    }
    let digest = sha256_digest(data.as_slice());
    let hex = hex_encode(&digest);
    join2("sha256:", hex.as_str())
}

impl AcpProjectionEnvelope {
    /// An envelope of the input, hashed over its fields and the JSON bytes
    /// of its payload and redactions, and stamped with the current time.
    pub fn new(input: AcpProjectionEnvelopeInput) -> (r: AcpProjectionEnvelope)
        ensures
            r.projection_kind == input.projection_kind,
            r.session_id == input.session_id,
            r.pack_id == input.pack_id,
            r.classification == input.classification,
            r.subject == input.subject,
            r.snapshot_refs == input.snapshot_refs,
            r.payload == input.payload,
            r.redactions == input.redactions,
            r.projection_hash@ == "sha256:"@ + hex_text(
                sha256(
                    projection_preimage(
                        input,
                        json_bytes(json_normal(input.payload@)),
                        vstd::utf8::encode_utf8(redactions_json(input.redactions@)),
                    ),
                ),
            ),
    {
        let payload_bytes = json_value_bytes(&input.payload);
        let rj = redactions_json_text(&input.redactions);
        let mut redaction_bytes: Vec<u8> = Vec::new();
        push_bytes(&mut redaction_bytes, rj.as_str().as_bytes());
        let projection_hash = projection_hash(&input, &payload_bytes, &redaction_bytes);
        let generated_at = current_timestamp();
        AcpProjectionEnvelope {
            projection_kind: input.projection_kind,
            session_id: input.session_id,
            pack_id: input.pack_id,
            classification: input.classification,
            subject: input.subject,
            snapshot_refs: input.snapshot_refs,
            payload: input.payload,
            redactions: input.redactions,
            projection_hash,
            generated_at,
        }
    }
}

/// Envelopes whose payloads are objects with the same entries, in whatever
/// order, and whose other inputs agree, get the same projection hash.
pub proof fn lemma_payload_entry_order(
    input: AcpProjectionEnvelopeInput,
    es1: Seq<(Seq<char>, crate::json::JsonView)>,
    es2: Seq<(Seq<char>, crate::json::JsonView)>,
    redaction_bytes: Seq<u8>,
)
    requires
        forall|k: Seq<char>| #[trigger] crate::json::entry_lookup(es1, k) == crate::json::entry_lookup(es2, k),
    ensures
        projection_preimage(input, json_bytes(json_normal(crate::json::JsonView::Object(es1))), redaction_bytes)
            == projection_preimage(input, json_bytes(json_normal(crate::json::JsonView::Object(es2))), redaction_bytes),
{
    crate::json::lemma_entry_order_irrelevant(es1, es2);
}

} // verus!
