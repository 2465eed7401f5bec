//! Technical gates, which apply to both governance tiers: type correctness,
//! verb surface disclosure, orphan attributes and derivation references.

use vstd::prelude::*;
use vstd::string::*;

pub use crate::gates::extended::check_dependency_correctness;

use crate::gates::{
    bare_failure, failure_views, uuid_string, uuid_text, FailureView, GateFailure, GateSeverity,
    GovernanceTier, LabelParse, SnapshotRow,
};
use crate::ontology::{VerbArgDef, VerbContractBody};
use crate::text::{
    contains_text, decimal, decimal_text, flat, join2, join3, join4, last_segment,
    last_segment_text, lemma_flat_take, text_eq, texts,
};

verus! {

broadcast use vstd::string::group_string_axioms;

/// A failure of a verb contract with FQN and optional hint.
pub open spec fn verb_failure(
    gate: Seq<char>,
    severity: GateSeverity,
    fqn: Seq<char>,
    message: Seq<char>,
    hint: Option<Seq<char>>,
) -> FailureView {
    FailureView {
        gate_name: gate,
        severity,
        object_type: "verb_contract"@,
        object_fqn: Some(fqn),
        snapshot_id: None,
        message,
        remediation_hint: hint,
    }
}

/// An entity type is known by its `entity.` FQN or by itself.
pub open spec fn entity_known(known: Seq<Seq<char>>, et: Seq<char>) -> bool {
    known.contains("entity."@ + et) || known.contains(et)
}

/// The warning for an argument whose lookup names an unknown entity type.
pub open spec fn lookup_failure(v: VerbContractBody, a: VerbArgDef, known_entities: Seq<Seq<char>>) -> Seq<FailureView> {
    match a.lookup {
        Some(l) => if !entity_known(known_entities, l.entity_type@) {
            seq![
                verb_failure(
                    "type_correctness"@,
                    GateSeverity::Warning,
                    v.fqn@,
                    "Verb '"@ + v.fqn@ + "' arg '"@ + a.name@
                        + "' has lookup referencing entity type '"@ + l.entity_type@
                        + "' which is not in the entity type registry"@,
                    Some("Register the entity type via the scanner or publish it manually"@),
                ),
            ]
        } else {
            Seq::empty()
        },
        None => Seq::empty(),
    }
}

/// The warning for a verb producing an unknown entity type.
pub open spec fn produces_failure(v: VerbContractBody, known_entities: Seq<Seq<char>>) -> Seq<FailureView> {
    match v.produces {
        Some(p) => if !entity_known(known_entities, p.entity_type@) {
            seq![
                verb_failure(
                    "type_correctness"@,
                    GateSeverity::Warning,
                    v.fqn@,
                    "Verb '"@ + v.fqn@ + "' produces entity type '"@ + p.entity_type@
                        + "' which is not in the entity type registry"@,
                    Some("Register the entity type or check for typos in the produces spec"@),
                ),
            ]
        } else {
            Seq::empty()
        },
        None => Seq::empty(),
    }
}

/// The warning for a consumed attribute missing from the dictionary, under
/// its domain-qualified name and its own.
pub open spec fn consume_failure(v: VerbContractBody, c: Seq<char>, known_attributes: Seq<Seq<char>>) -> Seq<FailureView> {
    if !known_attributes.contains(v.domain@ + "."@ + c) && !known_attributes.contains(c) {
        seq![
            verb_failure(
                "type_correctness"@,
                GateSeverity::Warning,
                v.fqn@,
                "Verb '"@ + v.fqn@ + "' consumes '"@ + c + "' which is not in the attribute dictionary"@,
                None,
            ),
        ]
    } else {
        Seq::empty()
    }
}

/// All type-correctness warnings of a verb: argument lookups, then the
/// produced entity type, then consumed attributes.
pub open spec fn type_correctness_failures(
    v: VerbContractBody,
    known_attributes: Seq<Seq<char>>,
    known_entities: Seq<Seq<char>>,
) -> Seq<FailureView> {
    flat(Seq::new(v.args@.len(), |i: int| lookup_failure(v, v.args@[i], known_entities)))
        + produces_failure(v, known_entities) + flat(
        Seq::new(v.consumes@.len(), |i: int| consume_failure(v, v.consumes@[i]@, known_attributes)),
    )
}

fn entity_type_known(known: &Vec<String>, et: &str) -> (r: bool)
    ensures
        r == entity_known(texts(known@), et@),
{
    let q = join2("entity.", et);
    contains_text(known, q.as_str()) || contains_text(known, et)
}

/// Check that a verb's argument lookups, produced entity type and consumed
/// attributes resolve against the registries (warnings only).
pub fn check_type_correctness(
    verb: &VerbContractBody,
    known_attribute_fqns: &Vec<String>,
    known_entity_type_fqns: &Vec<String>,
) -> (r: Vec<GateFailure>)
    ensures
        failure_views(r@) == type_correctness_failures(
            *verb,
            texts(known_attribute_fqns@),
            texts(known_entity_type_fqns@),
        ),
{
    let ghost ka = texts(known_attribute_fqns@);
    let ghost ke = texts(known_entity_type_fqns@);
    let mut failures: Vec<GateFailure> = Vec::new();
    let ghost args_parts = Seq::new(verb.args@.len(), |i: int| lookup_failure(*verb, verb.args@[i], ke));
    let mut i: usize = 0;
    while i < verb.args.len()
        invariant
            i <= verb.args.len(),
            ke == texts(known_entity_type_fqns@),
            args_parts == Seq::new(verb.args@.len(), |i: int| lookup_failure(*verb, verb.args@[i], ke)),
            failure_views(failures@) == flat(args_parts.take(i as int)),
        decreases verb.args.len() - i,
    {
        let a = &verb.args[i];
        let ghost before = failure_views(failures@);
        match &a.lookup {
            Some(l) => {
                if !entity_type_known(known_entity_type_fqns, l.entity_type.as_str()) {
                    let mut msg = join3("Verb '", verb.fqn.as_str(), "' arg '");
                    msg.append(a.name.as_str());
                    msg.append("' has lookup referencing entity type '");
                    msg.append(l.entity_type.as_str());
                    msg.append("' which is not in the entity type registry");
                    let f = GateFailure::warning("type_correctness", "verb_contract", msg).with_fqn(
                        verb.fqn.as_str(),
                    ).with_hint("Register the entity type via the scanner or publish it manually");
                    failures.push(f);
                }
            },
            None => {},
        }
        proof {
            lemma_flat_take(args_parts, i as int);
            assert(failure_views(failures@) =~= before + args_parts[i as int]);
        }
        i += 1;
    }
    assert(args_parts.take(args_parts.len() as int) =~= args_parts);
    let ghost head = failure_views(failures@);
    match &verb.produces {
        Some(p) => {
            if !entity_type_known(known_entity_type_fqns, p.entity_type.as_str()) {
                let mut msg = join3("Verb '", verb.fqn.as_str(), "' produces entity type '");
                msg.append(p.entity_type.as_str());
                msg.append("' which is not in the entity type registry");
                let f = GateFailure::warning("type_correctness", "verb_contract", msg).with_fqn(
                    verb.fqn.as_str(),
                ).with_hint("Register the entity type or check for typos in the produces spec");
                failures.push(f);
            }
        },
        None => {},
    }
    assert(failure_views(failures@) =~= head + produces_failure(*verb, ke));
    let ghost head2 = failure_views(failures@);
    let ghost cons_parts = Seq::new(
        verb.consumes@.len(),
        |i: int| consume_failure(*verb, verb.consumes@[i]@, ka),
    );
    let mut j: usize = 0;
    while j < verb.consumes.len()
        invariant
            j <= verb.consumes.len(),
            ka == texts(known_attribute_fqns@),
            cons_parts == Seq::new(
                verb.consumes@.len(),
                |i: int| consume_failure(*verb, verb.consumes@[i]@, ka),
            ),
            failure_views(failures@) == head2 + flat(cons_parts.take(j as int)),
        decreases verb.consumes.len() - j,
    {
        let c = verb.consumes[j].as_str();
        let ghost before = failure_views(failures@);
        let q = join3(verb.domain.as_str(), ".", c);
        if !contains_text(known_attribute_fqns, q.as_str()) && !contains_text(known_attribute_fqns, c) {
            let msg = join3("Verb '", verb.fqn.as_str(), "' consumes '");
            let msg = join3(msg.as_str(), c, "' which is not in the attribute dictionary");
            let f = GateFailure::warning("type_correctness", "verb_contract", msg).with_fqn(
                verb.fqn.as_str(),
            );
            failures.push(f);
        }
        proof {
            lemma_flat_take(cons_parts, j as int);
            assert(failure_views(failures@) =~= before + cons_parts[j as int]);
        }
        j += 1;
    }
    assert(cons_parts.take(cons_parts.len() as int) =~= cons_parts);
    failures
}

// ── Security label presence ─────────────────────────────────────

pub open spec fn label_presence_failures(s: SnapshotRow) -> Seq<FailureView> {
    match s.security_label {
        LabelParse::Valid(_) => Seq::empty(),
        LabelParse::Invalid { error } => seq![
            FailureView {
                snapshot_id: Some(s.snapshot_id),
                ..bare_failure(
                    "security_label_presence"@,
                    GateSeverity::Error,
                    s.object_type@,
                    "Snapshot "@ + uuid_text(s.snapshot_id) + " has invalid or missing security label: "@
                        + error@,
                )
            },
        ],
    }
}

/// A snapshot must carry a security label that parses.
pub fn check_security_label_presence(snapshot: &SnapshotRow) -> (r: Vec<GateFailure>)
    ensures
        failure_views(r@) == label_presence_failures(*snapshot),
{
    let mut r: Vec<GateFailure> = Vec::new();
    match &snapshot.security_label {
        LabelParse::Valid(_) => {},
        LabelParse::Invalid { error } => {
            let id = uuid_string(snapshot.snapshot_id);
            let msg = join4("Snapshot ", id.as_str(), " has invalid or missing security label: ", error.as_str());
            r.push(
                GateFailure::error("security_label_presence", snapshot.object_type.as_str(), msg).with_snapshot_id(
                    snapshot.snapshot_id,
                ),
            );
        },
    }
    assert(failure_views(r@) =~= label_presence_failures(*snapshot));
    r
}

// ── Snapshot integrity ──────────────────────────────────────────

pub open spec fn integrity_failure(s: SnapshotRow, message: Seq<char>) -> FailureView {
    FailureView {
        snapshot_id: Some(s.snapshot_id),
        ..bare_failure("snapshot_integrity"@, GateSeverity::Error, s.object_type@, message)
    }
}

/// Against its predecessor, a snapshot's version may not go down and its
/// object type and object id must be the same; each breach is an error.
pub open spec fn integrity_failures(s: SnapshotRow, p: Option<SnapshotRow>) -> Seq<FailureView> {
    match p {
        None => Seq::empty(),
        Some(pred) => (if crate::gates::version_below(
            s.version_major,
            s.version_minor,
            pred.version_major,
            pred.version_minor,
        ) {
            seq![
                integrity_failure(
                    s,
                    "Version "@ + decimal(s.version_major as nat) + "."@ + decimal(s.version_minor as nat)
                        + " is less than predecessor "@ + decimal(pred.version_major as nat) + "."@
                        + decimal(pred.version_minor as nat),
                ),
            ]
        } else {
            Seq::empty()
        }) + (if s.object_type@ != pred.object_type@ {
            seq![
                integrity_failure(
                    s,
                    "Snapshot object_type "@ + s.object_type@ + " does not match predecessor "@
                        + pred.object_type@,
                ),
            ]
        } else {
            Seq::empty()
        }) + (if s.object_id != pred.object_id {
            seq![
                integrity_failure(
                    s,
                    "Snapshot object_id "@ + uuid_text(s.object_id) + " does not match predecessor "@
                        + uuid_text(pred.object_id),
                ),
            ]
        } else {
            Seq::empty()
        }),
    }
}

/// Check a snapshot against its predecessor: version, object type, object id.
pub fn check_snapshot_integrity(snapshot: &SnapshotRow, predecessor: Option<&SnapshotRow>) -> (r: Vec<
    GateFailure,
>)
    ensures
        failure_views(r@) == integrity_failures(
            *snapshot,
            match predecessor {
                Some(p) => Some(*p),
                None => None,
            },
        ),
{
    let mut r: Vec<GateFailure> = Vec::new();
    match predecessor {
        None => {},
        Some(pred) => {
            if snapshot.version_major < pred.version_major || (snapshot.version_major
                == pred.version_major && snapshot.version_minor < pred.version_minor) {
                let a = decimal_text(snapshot.version_major as usize);
                let b = decimal_text(snapshot.version_minor as usize);
                let c = decimal_text(pred.version_major as usize);
                let d = decimal_text(pred.version_minor as usize);
                let mut msg = join4("Version ", a.as_str(), ".", b.as_str());
                msg.append(" is less than predecessor ");
                msg.append(c.as_str());
                msg.append(".");
                msg.append(d.as_str());
                r.push(
                    GateFailure::error("snapshot_integrity", snapshot.object_type.as_str(), msg).with_snapshot_id(
                        snapshot.snapshot_id,
                    ),
                );
            }
            if !text_eq(snapshot.object_type.as_str(), pred.object_type.as_str()) {
                let msg = join4(
                    "Snapshot object_type ",
                    snapshot.object_type.as_str(),
                    " does not match predecessor ",
                    pred.object_type.as_str(),
                );
                r.push(
                    GateFailure::error("snapshot_integrity", snapshot.object_type.as_str(), msg).with_snapshot_id(
                        snapshot.snapshot_id,
                    ),
                );
            }
            if snapshot.object_id != pred.object_id {
                let a = uuid_string(snapshot.object_id);
                let b = uuid_string(pred.object_id);
                let msg = join4("Snapshot object_id ", a.as_str(), " does not match predecessor ", b.as_str());
                r.push(
                    GateFailure::error("snapshot_integrity", snapshot.object_type.as_str(), msg).with_snapshot_id(
                        snapshot.snapshot_id,
                    ),
                );
            }
        },
    }
    assert(failure_views(r@) =~= integrity_failures(
        *snapshot,
        match predecessor {
            Some(p) => Some(*p),
            None => None,
        },
    ));
    r
}

} // verus!

verus! {

/// `x` is in a verb's declared I/O surface: an argument, the produced entity
/// type or a consumed attribute, each by its own name or qualified with the
/// verb's domain.
pub open spec fn in_surface(v: VerbContractBody, x: Seq<char>) -> bool {
    ||| exists|i: int|
        0 <= i < v.args@.len() && (x == v.domain@ + "."@ + (#[trigger] v.args@[i]).name@ || x
            == v.args@[i].name@)
    ||| (v.produces is Some && (x == v.domain@ + "."@ + v.produces->0.entity_type@ || x
        == v.produces->0.entity_type@))
    ||| exists|i: int|
        0 <= i < v.consumes@.len() && (x == v.domain@ + "."@ + (#[trigger] v.consumes@[i])@ || x
            == v.consumes@[i]@)
}

fn in_declared_surface(v: &VerbContractBody, x: &str) -> (r: bool)
    ensures
        r == in_surface(*v, x@),
{
    let mut i: usize = 0;
    while i < v.args.len()
        invariant
            i <= v.args.len(),
            forall|j: int|
                0 <= j < i ==> !(x@ == v.domain@ + "."@ + (#[trigger] v.args@[j]).name@ || x@
                    == v.args@[j].name@),
        decreases v.args.len() - i,
    {
        let q = join3(v.domain.as_str(), ".", v.args[i].name.as_str());
        if crate::text::text_eq(q.as_str(), x) || crate::text::text_eq(v.args[i].name.as_str(), x) {
            return true;
        }
        i += 1;
    }
    match &v.produces {
        Some(p) => {
            let q = join3(v.domain.as_str(), ".", p.entity_type.as_str());
            if crate::text::text_eq(q.as_str(), x) || crate::text::text_eq(
                p.entity_type.as_str(),
                x,
            ) {
                return true;
            }
        },
        None => {},
    }
    let mut k: usize = 0;
    while k < v.consumes.len()
        invariant
            k <= v.consumes.len(),
            forall|j: int|
                0 <= j < k ==> !(x@ == v.domain@ + "."@ + (#[trigger] v.consumes@[j])@ || x@
                    == v.consumes@[j]@),
        decreases v.consumes.len() - k,
    {
        let q = join3(v.domain.as_str(), ".", v.consumes[k].as_str());
        if crate::text::text_eq(q.as_str(), x) || crate::text::text_eq(v.consumes[k].as_str(), x) {
            return true;
        }
        k += 1;
    }
    false
}

/// An attribute naming the verb as a sink must be in its surface (error).
pub open spec fn sink_failure(v: VerbContractBody, s: Seq<char>) -> Seq<FailureView> {
    if !in_surface(v, s) && !in_surface(v, last_segment(s)) {
        seq![
            verb_failure(
                "verb_surface_disclosure"@,
                GateSeverity::Error,
                v.fqn@,
                "Attribute '"@ + s + "' declares verb '"@ + v.fqn@
                    + "' as a consumer (sink), but the verb does not include it in its I/O surface (args, produces, or consumes)"@,
                Some("Add this attribute to the verb's consumes list or update the attribute's sinks"@),
            ),
        ]
    } else {
        Seq::empty()
    }
}

/// An attribute naming the verb as its producer should be in its surface
/// (warning).
pub open spec fn source_failure(v: VerbContractBody, s: Seq<char>) -> Seq<FailureView> {
    if !in_surface(v, s) && !in_surface(v, last_segment(s)) {
        seq![
            verb_failure(
                "verb_surface_disclosure"@,
                GateSeverity::Warning,
                v.fqn@,
                "Attribute '"@ + s + "' declares verb '"@ + v.fqn@
                    + "' as its producing verb, but the verb does not include it in its I/O surface"@,
                Some("Update the verb's produces spec or add the attribute to its args list"@),
            ),
        ]
    } else {
        Seq::empty()
    }
}

/// All verb-surface failures: sinks first, then sources.
pub open spec fn surface_failures(v: VerbContractBody, sinks: Seq<Seq<char>>, sources: Seq<Seq<char>>) -> Seq<FailureView> {
    flat(Seq::new(sinks.len(), |i: int| sink_failure(v, sinks[i]))) + flat(
        Seq::new(sources.len(), |i: int| source_failure(v, sources[i])),
    )
}

/// Check that every attribute a verb reads or writes appears in its I/O
/// surface (arguments, produced entity type, consumed attributes).
pub fn check_verb_surface_disclosure(
    verb: &VerbContractBody,
    _known_attribute_fqns: &Vec<String>,
    attribute_sinks_for_verb: &Vec<String>,
    attribute_sources_from_verb: &Vec<String>,
) -> (r: Vec<GateFailure>)
    ensures
        failure_views(r@) == surface_failures(
            *verb,
            texts(attribute_sinks_for_verb@),
            texts(attribute_sources_from_verb@),
        ),
{
    let ghost sinks = texts(attribute_sinks_for_verb@);
    let ghost sources = texts(attribute_sources_from_verb@);
    let ghost p1 = Seq::new(sinks.len(), |i: int| sink_failure(*verb, sinks[i]));
    let mut failures: Vec<GateFailure> = Vec::new();
    let mut i: usize = 0;
    while i < attribute_sinks_for_verb.len()
        invariant
            i <= attribute_sinks_for_verb.len(),
            sinks == texts(attribute_sinks_for_verb@),
            p1 == Seq::new(sinks.len(), |i: int| sink_failure(*verb, sinks[i])),
            failure_views(failures@) == flat(p1.take(i as int)),
        decreases attribute_sinks_for_verb.len() - i,
    {
        let s = attribute_sinks_for_verb[i].as_str();
        let ghost before = failure_views(failures@);
        if !in_declared_surface(verb, s) {
            let short = last_segment_text(s);
            if !in_declared_surface(verb, short.as_str()) {
                let msg = join3("Attribute '", s, "' declares verb '");
                let msg = join3(
                    msg.as_str(),
                    verb.fqn.as_str(),
                    "' as a consumer (sink), but the verb does not include it in its I/O surface (args, produces, or consumes)",
                );
                let f = GateFailure::error("verb_surface_disclosure", "verb_contract", msg).with_fqn(
                    verb.fqn.as_str(),
                ).with_hint(
                    "Add this attribute to the verb's consumes list or update the attribute's sinks",
                );
                failures.push(f);
            }
        }
        proof {
            lemma_flat_take(p1, i as int);
            assert(failure_views(failures@) =~= before + p1[i as int]);
        }
        i += 1;
    }
    assert(p1.take(p1.len() as int) =~= p1);
    let ghost head = failure_views(failures@);
    let ghost p2 = Seq::new(sources.len(), |i: int| source_failure(*verb, sources[i]));
    let mut j: usize = 0;
    while j < attribute_sources_from_verb.len()
        invariant
            j <= attribute_sources_from_verb.len(),
            sources == texts(attribute_sources_from_verb@),
            p2 == Seq::new(sources.len(), |i: int| source_failure(*verb, sources[i])),
            failure_views(failures@) == head + flat(p2.take(j as int)),
        decreases attribute_sources_from_verb.len() - j,
    {
        let s = attribute_sources_from_verb[j].as_str();
        let ghost before = failure_views(failures@);
        if !in_declared_surface(verb, s) {
            let short = last_segment_text(s);
            if !in_declared_surface(verb, short.as_str()) {
                let msg = join3("Attribute '", s, "' declares verb '");
                let msg = join3(
                    msg.as_str(),
                    verb.fqn.as_str(),
                    "' as its producing verb, but the verb does not include it in its I/O surface",
                );
                let f = GateFailure::warning("verb_surface_disclosure", "verb_contract", msg).with_fqn(
                    verb.fqn.as_str(),
                ).with_hint("Update the verb's produces spec or add the attribute to its args list");
                failures.push(f);
            }
        }
        proof {
            lemma_flat_take(p2, j as int);
            assert(failure_views(failures@) =~= before + p2[j as int]);
        }
        j += 1;
    }
    assert(p2.take(p2.len() as int) =~= p2);
    failures
}

/// The orphan-attribute failure: an attribute no verb consumes is an error
/// when governed and a warning when operational.
pub open spec fn orphan_failures(attr: Seq<char>, tier: GovernanceTier, consumers: nat) -> Seq<FailureView> {
    if consumers == 0 {
        seq![
            FailureView {
                gate_name: "orphan_attributes"@,
                severity: if tier == GovernanceTier::Governed {
                    GateSeverity::Error
                } else {
                    GateSeverity::Warning
                },
                object_type: "attribute_def"@,
                object_fqn: Some(attr),
                snapshot_id: None,
                message: "Attribute '"@ + attr + "' is not consumed by any verb"@,
                remediation_hint: Some(
                    "Add this attribute to a verb's args or consumes list, or deprecate it"@,
                ),
            },
        ]
    } else {
        Seq::empty()
    }
}

/// Check for an attribute that no verb consumes.
pub fn check_orphan_attributes(
    attribute_fqn: &str,
    tier: GovernanceTier,
    consuming_verbs: &Vec<String>,
) -> (r: Vec<GateFailure>)
    ensures
        failure_views(r@) == orphan_failures(attribute_fqn@, tier, consuming_verbs@.len()),
{
    let mut r: Vec<GateFailure> = Vec::new();
    if consuming_verbs.len() == 0 {
        let severity = match tier {
            GovernanceTier::Governed => GateSeverity::Error,
            GovernanceTier::Operational => GateSeverity::Warning,
        };
        r.push(
            GateFailure {
                gate_name: "orphan_attributes".to_owned(),
                severity,
                object_type: "attribute_def".to_owned(),
                object_fqn: Some(attribute_fqn.to_owned()),
                snapshot_id: None,
                message: join3("Attribute '", attribute_fqn, "' is not consumed by any verb"),
                remediation_hint: Some(
                    "Add this attribute to a verb's args or consumes list, or deprecate it".to_owned(),
                ),
            },
        );
    }
    assert(failure_views(r@) =~= orphan_failures(attribute_fqn@, tier, consuming_verbs@.len()));
    r
}

} // verus!
