//! Five-pass construction of the affinity graph from parsed registry
//! definitions: verb contracts give forward edges, entity types the
//! entity↔table maps, attributes the reverse edges and column map,
//! derivations the lineage edges and relationship types the entity
//! relationships; then both indexes are grouped from the edges.

use vstd::prelude::*;
use vstd::string::*;

use crate::affinity::{
    column_key, index_key_of, table_key, AffinityEdge, AffinityGraph, AffinityKind,
    AffinityProvenance, ColumnRef, DataRef, DerivationEdge, EntityRelationship, TableRef,
};
use crate::assoc::{keys_of, map_of, put_ordered};
use crate::gates::DerivationSpecBody;
use crate::ontology::{
    AttributeDefBody, Directionality, EntityTypeDefBody, RelationshipCardinality,
    RelationshipTypeDefBody, VerbContractBody,
};
use crate::order::{sorted_unique, strictly_sorted};
use crate::text::{contains_text, flat, lemma_flat_take, owned, text_eq, texts};

verus! {

broadcast use vstd::string::group_string_axioms;

/// The parsed active registry definitions a graph is built from, each list
/// in snapshot order (definitions that did not parse are left out).
#[derive(Debug, Clone)]
pub struct RegistryDefinitions {
    pub verb_contracts: Vec<VerbContractBody>,
    pub entity_types: Vec<EntityTypeDefBody>,
    pub attributes: Vec<AttributeDefBody>,
    pub derivations: Vec<DerivationSpecBody>,
    pub relationships: Vec<RelationshipTypeDefBody>,
}

// ── Grouping positions by key ───────────────────────────────────

/// The texts of `ks` in order of first appearance, each once.
pub open spec fn distinct_texts(ks: Seq<Seq<char>>) -> Seq<Seq<char>>
    decreases ks.len(),
{
    if ks.len() == 0 {
        Seq::empty()
    } else {
        let r = distinct_texts(ks.drop_last());
        if r.contains(ks.last()) {
            r
        } else {
            r.push(ks.last())
        }
    }
}

/// The positions of `k` in `ks`, ascending.
pub open spec fn positions(ks: Seq<Seq<char>>, k: Seq<char>) -> Seq<usize>
    decreases ks.len(),
{
    if ks.len() == 0 {
        Seq::empty()
    } else {
        positions(ks.drop_last(), k) + if ks.last() == k {
            seq![(ks.len() - 1) as usize]
        } else {
            Seq::empty()
        }
    }
}

/// Each key in order of first appearance with the positions where it occurs.
pub open spec fn grouping(ks: Seq<Seq<char>>) -> Seq<(Seq<char>, Seq<usize>)> {
    let d = distinct_texts(ks);
    Seq::new(d.len(), |j: int| (d[j], positions(ks, d[j])))
}

/// An index as texts and position sequences.
pub open spec fn index_view(ix: Seq<(String, Vec<usize>)>) -> Seq<(Seq<char>, Seq<usize>)> {
    ix.map_values(|p: (String, Vec<usize>)| (p.0@, p.1@))
}

/// Group the positions of a list of keys by key: one entry per distinct key,
/// in order of first appearance, with its positions ascending.
pub fn group_positions(keys: &Vec<String>) -> (r: Vec<(String, Vec<usize>)>)
    ensures
        index_view(r@) == grouping(texts(keys@)),
{
    let ghost ks = texts(keys@);
    let mut r: Vec<(String, Vec<usize>)> = Vec::new();
    let mut i: usize = 0;
    while i < keys.len()
        invariant
            i <= keys.len(),
            ks == texts(keys@),
            index_view(r@) == grouping(ks.take(i as int)),
        decreases keys.len() - i,
    {
        let ghost pre = ks.take(i as int);
        let ghost post = ks.take(i + 1);
        let ghost k = ks[i as int];
        assert(post.drop_last() =~= pre);
        assert(post.last() == k);
        let ghost d = distinct_texts(pre);
        let mut j: usize = 0;
        let mut found = false;
        while j < r.len()
            invariant_except_break
                !found,
            invariant
                j <= r.len(),
                i < keys.len(),
                ks == texts(keys@),
                k == ks[i as int],
                index_view(r@) == grouping(pre),
                forall|t: int| 0 <= t < j ==> r@[t].0@ != k,
            ensures
                j <= r.len(),
                found ==> j < r.len() && r@[j as int].0@ == k,
                !found ==> forall|t: int| 0 <= t < r.len() ==> r@[t].0@ != k,
            decreases r.len() - j,
        {
            if text_eq(r[j].0.as_str(), keys[i].as_str()) {
                assert(ks[i as int] == keys@[i as int]@);
                found = true;
                break;
            }
            j += 1;
        }
        let ghost old_view = index_view(r@);
        assert(old_view.len() == d.len());
        assert forall|t: int| 0 <= t < d.len() implies #[trigger] old_view[t] == (d[t], positions(pre, d[t])) by {}
        if found {
            let mut group = r[j].1.clone();
            group.push(i);
            let key = r[j].0.clone();
            r.set(j, (key, group));
            proof {
                assert(old_view[j as int] == (d[j as int], positions(pre, d[j as int])));
                assert(d[j as int] == k);
                assert(d.contains(k));
                assert(distinct_texts(post) == d);
                assert forall|t: int| 0 <= t < d.len() implies positions(post, #[trigger] d[t]) == if d[t] == k {
                    positions(pre, d[t]).push(i)
                } else {
                    positions(pre, d[t])
                } by {
                    assert(positions(post, d[t]) == positions(pre, d[t]) + if k == d[t] {
                        seq![i]
                    } else {
                        Seq::empty()
                    });
                }
                lemma_distinct_texts_unique(pre);
                assert(index_view(r@).len() == grouping(post).len());
                assert forall|t: int| 0 <= t < d.len() implies #[trigger] index_view(r@)[t] == grouping(post)[t] by {
                    if t == j {
                        assert(index_view(r@)[t] == (k, positions(pre, k).push(i)));
                    } else {
                        assert(d[t] != d[j as int]);
                        assert(index_view(r@)[t] == old_view[t]);
                    }
                }
                assert(index_view(r@) =~= grouping(post));
            }
        } else {
            let mut group: Vec<usize> = Vec::new();
            group.push(i);
            r.push((keys[i].clone(), group));
            proof {
                lemma_distinct_texts_unique(pre);
                assert(!d.contains(k)) by {
                    if d.contains(k) {
                        let t = choose|t: int| 0 <= t < d.len() && d[t] == k;
                        assert(old_view[t].0 == k);
                    }
                }
                assert(distinct_texts(post) == d.push(k));
                lemma_positions_absent(pre, k);
                assert forall|t: int| 0 <= t < d.len() implies positions(post, #[trigger] d[t]) == positions(pre, d[t]) by {
                    assert(d[t] != k);
                }
                assert(positions(post, k) =~= seq![i]);
                assert(index_view(r@).len() == grouping(post).len());
                assert forall|t: int| 0 <= t < index_view(r@).len() implies #[trigger] index_view(r@)[t] == grouping(post)[t] by {
                    if t < d.len() {
                        assert(index_view(r@)[t] == old_view[t]);
                    } else {
                        assert(index_view(r@)[t] == (k, seq![i]));
                        assert(grouping(post)[t] == (d.push(k)[t], positions(post, d.push(k)[t])));
                    }
                }
                assert(index_view(r@) =~= grouping(post));
            }
        }
        i += 1;
    }
    assert(ks.take(keys.len() as int) =~= ks);
    r
}

proof fn lemma_distinct_texts_unique(ks: Seq<Seq<char>>)
    ensures
        distinct_texts(ks).no_duplicates(),
        forall|x: Seq<char>| distinct_texts(ks).contains(x) <==> ks.contains(x),
    decreases ks.len(),
{
    if ks.len() > 0 {
        let rest = ks.drop_last();
        lemma_distinct_texts_unique(rest);
        let r = distinct_texts(rest);
        let l = ks.last();
        assert forall|x: Seq<char>| distinct_texts(ks).contains(x) <==> ks.contains(x) by {
            if ks.contains(x) && x != l {
                let t = choose|t: int| 0 <= t < ks.len() && ks[t] == x;
                assert(rest[t] == x);
            }
            if rest.contains(x) {
                let t = choose|t: int| 0 <= t < rest.len() && rest[t] == x;
                assert(ks[t] == x);
            }
            if x == l {
                assert(ks[ks.len() - 1] == x);
            }
            if !r.contains(l) {
                let d = r.push(l);
                if d.contains(x) && x != l {
                    let t = choose|t: int| 0 <= t < d.len() && d[t] == x;
                    assert(r[t] == x);
                }
                if r.contains(x) {
                    let t = choose|t: int| 0 <= t < r.len() && r[t] == x;
                    assert(d[t] == x);
                }
                if x == l {
                    assert(d[r.len() as int] == x);
                }
            }
        }
        if !r.contains(l) {
            assert forall|a: int, b: int| 0 <= a < b < r.push(l).len() implies r.push(l)[a] != r.push(l)[b] by {
                if b == r.len() {
                    assert(r.contains(r[a]));
                }
            }
        }
    }
}

proof fn lemma_positions_absent(ks: Seq<Seq<char>>, k: Seq<char>)
    requires
        !ks.contains(k),
    ensures
        positions(ks, k) == Seq::<usize>::empty(),
    decreases ks.len(),
{
    if ks.len() > 0 {
        assert(ks.last() != k) by {
            assert(ks[ks.len() - 1] == ks.last());
        }
        assert forall|t: int| 0 <= t < ks.drop_last().len() implies ks.drop_last()[t] != k by {
            assert(ks[t] == ks.drop_last()[t]);
        }
        lemma_positions_absent(ks.drop_last(), k);
    }
}

// ── Edge views ──────────────────────────────────────────────────

/// A data reference as texts.
pub enum DataView {
    Table { schema: Seq<char>, table: Seq<char> },
    Column { schema: Seq<char>, table: Seq<char>, column: Seq<char> },
    EntityType { fqn: Seq<char> },
    Attribute { fqn: Seq<char> },
}

/// An affinity kind as texts.
pub enum KindView {
    Produces,
    Consumes,
    CrudRead,
    CrudInsert,
    CrudUpdate,
    CrudDelete,
    ArgLookup { arg_name: Seq<char> },
    ProducesAttribute,
    ConsumesAttribute { arg_name: Seq<char> },
}

/// An edge as texts.
pub struct EdgeView {
    pub verb: Seq<char>,
    pub data: DataView,
    pub kind: KindView,
    pub provenance: AffinityProvenance,
}

pub open spec fn data_view(d: DataRef) -> DataView {
    match d {
        DataRef::Table(t) => DataView::Table { schema: t.schema@, table: t.table@ },
        DataRef::Column(c) => DataView::Column { schema: c.schema@, table: c.table@, column: c.column@ },
        DataRef::EntityType { fqn } => DataView::EntityType { fqn: fqn@ },
        DataRef::Attribute { fqn } => DataView::Attribute { fqn: fqn@ },
    }
}

pub open spec fn kind_view(k: AffinityKind) -> KindView {
    match k {
        AffinityKind::Produces => KindView::Produces,
        AffinityKind::Consumes => KindView::Consumes,
        AffinityKind::CrudRead => KindView::CrudRead,
        AffinityKind::CrudInsert => KindView::CrudInsert,
        AffinityKind::CrudUpdate => KindView::CrudUpdate,
        AffinityKind::CrudDelete => KindView::CrudDelete,
        AffinityKind::ArgLookup { arg_name } => KindView::ArgLookup { arg_name: arg_name@ },
        AffinityKind::ProducesAttribute => KindView::ProducesAttribute,
        AffinityKind::ConsumesAttribute { arg_name } => KindView::ConsumesAttribute { arg_name: arg_name@ },
    }
}

pub open spec fn edge_view(e: AffinityEdge) -> EdgeView {
    EdgeView { verb: e.verb_fqn@, data: data_view(e.data_ref), kind: kind_view(e.affinity_kind), provenance: e.provenance }
}

pub open spec fn edge_views(es: Seq<AffinityEdge>) -> Seq<EdgeView> {
    es.map_values(|e: AffinityEdge| edge_view(e))
}

/// The index key of a data reference, from its view.
pub open spec fn data_key(d: DataView) -> Seq<char> {
    match d {
        DataView::Table { schema, table } => "table:"@ + schema + ":"@ + table,
        DataView::Column { schema, table, column } => "column:"@ + schema + ":"@ + table + ":"@ + column,
        DataView::EntityType { fqn } => "entity_type:"@ + fqn,
        DataView::Attribute { fqn } => "attribute:"@ + fqn,
    }
}

/// A table reference whose schema may be absent (then empty).
pub open spec fn table_view(schema: Option<String>, table: Seq<char>) -> DataView {
    DataView::Table {
        schema: match schema {
            Some(s) => s@,
            None => Seq::empty(),
        },
        table,
    }
}

// ── Pass 1: verb contracts ──────────────────────────────────────

/// The table operation a CRUD mapping names, if any.
pub open spec fn crud_kind(op: Seq<char>) -> Option<KindView> {
    if op == "select"@ || op == "read"@ {
        Some(KindView::CrudRead)
    } else if op == "insert"@ || op == "create"@ {
        Some(KindView::CrudInsert)
    } else if op == "update"@ {
        Some(KindView::CrudUpdate)
    } else if op == "delete"@ {
        Some(KindView::CrudDelete)
    } else {
        None
    }
}

pub open spec fn lookup_edge(f: Seq<char>, a: crate::ontology::VerbArgDef) -> Seq<EdgeView> {
    match a.lookup {
        Some(l) => seq![
            EdgeView {
                verb: f,
                data: table_view(l.schema, l.table@),
                kind: KindView::ArgLookup { arg_name: a.name@ },
                provenance: AffinityProvenance::VerbArgLookup,
            },
        ],
        None => Seq::empty(),
    }
}

pub open spec fn crud_edge(f: Seq<char>, v: VerbContractBody) -> Seq<EdgeView> {
    match v.crud_mapping {
        Some(c) => match (crud_kind(c.operation@), c.table) {
            (Some(k), Some(t)) => seq![
                EdgeView {
                    verb: f,
                    data: table_view(c.schema, t@),
                    kind: k,
                    provenance: AffinityProvenance::VerbCrudMapping,
                },
            ],
            _ => Seq::empty(),
        },
        None => Seq::empty(),
    }
}

/// The forward edges of a verb contract: produces, consumes, the CRUD
/// mapping, argument lookups, then `reads_from` and `writes_to` tables.
pub open spec fn verb_edges(v: VerbContractBody) -> Seq<EdgeView> {
    let f = v.fqn@;
    (match v.produces {
        Some(p) => seq![
            EdgeView {
                verb: f,
                data: DataView::EntityType { fqn: p.entity_type@ },
                kind: KindView::Produces,
                provenance: AffinityProvenance::VerbProduces,
            },
        ],
        None => Seq::empty(),
    }) + Seq::new(
        v.consumes@.len(),
        |i: int|
            EdgeView {
                verb: f,
                data: DataView::EntityType { fqn: v.consumes@[i]@ },
                kind: KindView::Consumes,
                provenance: AffinityProvenance::VerbConsumes,
            },
    ) + crud_edge(f, v) + flat(Seq::new(v.args@.len(), |i: int| lookup_edge(f, v.args@[i]))) + Seq::new(
        v.reads_from@.len(),
        |i: int|
            EdgeView {
                verb: f,
                data: DataView::Table { schema: Seq::empty(), table: v.reads_from@[i]@ },
                kind: KindView::CrudRead,
                provenance: AffinityProvenance::VerbDataFootprint,
            },
    ) + Seq::new(
        v.writes_to@.len(),
        |i: int|
            EdgeView {
                verb: f,
                data: DataView::Table { schema: Seq::empty(), table: v.writes_to@[i]@ },
                kind: KindView::CrudInsert,
                provenance: AffinityProvenance::VerbDataFootprint,
            },
    )
}

// ── Pass 3: attributes ──────────────────────────────────────────

/// The reverse edges of an attribute: its producing verb, then its sinks.
pub open spec fn attribute_edges(a: AttributeDefBody) -> Seq<EdgeView> {
    (match a.source {
        Some(src) => match src.producing_verb {
            Some(pv) => seq![
                EdgeView {
                    verb: pv@,
                    data: DataView::Attribute { fqn: a.fqn@ },
                    kind: KindView::ProducesAttribute,
                    provenance: AffinityProvenance::AttributeSource,
                },
            ],
            None => Seq::empty(),
        },
        None => Seq::empty(),
    }) + Seq::new(
        a.sinks@.len(),
        |i: int|
            EdgeView {
                verb: a.sinks@[i].consuming_verb@,
                data: DataView::Attribute { fqn: a.fqn@ },
                kind: KindView::ConsumesAttribute { arg_name: a.sinks@[i].arg_name@ },
                provenance: AffinityProvenance::AttributeSink,
            },
    )
}

/// All edges of a registry: each verb contract's, then each attribute's.
pub open spec fn registry_edges(d: RegistryDefinitions) -> Seq<EdgeView> {
    flat(Seq::new(d.verb_contracts@.len(), |i: int| verb_edges(d.verb_contracts@[i]))) + flat(
        Seq::new(d.attributes@.len(), |i: int| attribute_edges(d.attributes@[i])),
    )
}

fn push_edge(edges: &mut Vec<AffinityEdge>, verb: &str, data_ref: DataRef, kind: AffinityKind, provenance: AffinityProvenance)
    ensures
        edge_views(final(edges)@) == edge_views(old(edges)@).push(
            EdgeView { verb: verb@, data: data_view(data_ref), kind: kind_view(kind), provenance },
        ),
{
    edges.push(AffinityEdge { verb_fqn: owned(verb), data_ref, affinity_kind: kind, provenance });
    assert(edge_views(edges@) =~= edge_views(old(edges)@).push(
        EdgeView { verb: verb@, data: data_view(data_ref), kind: kind_view(kind), provenance },
    ));
}

fn optional_text(o: &Option<String>) -> (r: String)
    ensures
        r@ == match o {
            Some(s) => s@,
            None => Seq::empty(),
        },
{
    match o {
        Some(s) => s.clone(),
        None => String::new(),
    }
}

/// Pass 1: the forward edges of one verb contract.
fn pass1_verb_contract(body: &VerbContractBody, edges: &mut Vec<AffinityEdge>)
    ensures
        edge_views(final(edges)@) == edge_views(old(edges)@) + verb_edges(*body),
{
    let ghost start = edge_views(edges@);
    let f = body.fqn.as_str();
    match &body.produces {
        Some(p) => {
            push_edge(
                edges,
                f,
                DataRef::EntityType { fqn: p.entity_type.clone() },
                AffinityKind::Produces,
                AffinityProvenance::VerbProduces,
            );
        },
        None => {},
    }
    let ghost after_produces = edge_views(edges@);
    let ghost consumes = Seq::new(
        body.consumes@.len(),
        |i: int|
            EdgeView {
                verb: f@,
                data: DataView::EntityType { fqn: body.consumes@[i]@ },
                kind: KindView::Consumes,
                provenance: AffinityProvenance::VerbConsumes,
            },
    );
    let mut i: usize = 0;
    while i < body.consumes.len()
        invariant
            i <= body.consumes.len(),
            f@ == body.fqn@,
            consumes == Seq::new(
                body.consumes@.len(),
                |i: int|
                    EdgeView {
                        verb: f@,
                        data: DataView::EntityType { fqn: body.consumes@[i]@ },
                        kind: KindView::Consumes,
                        provenance: AffinityProvenance::VerbConsumes,
                    },
            ),
            edge_views(edges@) == after_produces + consumes.take(i as int),
        decreases body.consumes.len() - i,
    {
        push_edge(
            edges,
            f,
            DataRef::EntityType { fqn: body.consumes[i].clone() },
            AffinityKind::Consumes,
            AffinityProvenance::VerbConsumes,
        );
        assert(consumes.take(i + 1) =~= consumes.take(i as int).push(consumes[i as int]));
        i += 1;
    }
    assert(consumes.take(consumes.len() as int) =~= consumes);
    let ghost after_consumes = edge_views(edges@);
    match &body.crud_mapping {
        Some(crud) => {
            let op = crud.operation.as_str();
            let kind = if text_eq(op, "select") || text_eq(op, "read") {
                Some(AffinityKind::CrudRead)
            } else if text_eq(op, "insert") || text_eq(op, "create") {
                Some(AffinityKind::CrudInsert)
            } else if text_eq(op, "update") {
                Some(AffinityKind::CrudUpdate)
            } else if text_eq(op, "delete") {
                Some(AffinityKind::CrudDelete)
            } else {
                None
            };
            match (kind, &crud.table) {
                (Some(k), Some(t)) => {
                    let schema = optional_text(&crud.schema);
                    push_edge(
                        edges,
                        f,
                        DataRef::Table(TableRef { schema, table: t.clone() }),
                        k,
                        AffinityProvenance::VerbCrudMapping,
                    );
                },
                _ => {},
            }
        },
        None => {},
    }
    assert(edge_views(edges@) == after_consumes + crud_edge(f@, *body));
    let ghost after_crud = edge_views(edges@);
    let ghost lookups = Seq::new(body.args@.len(), |i: int| lookup_edge(f@, body.args@[i]));
    let mut i: usize = 0;
    while i < body.args.len()
        invariant
            i <= body.args.len(),
            f@ == body.fqn@,
            lookups == Seq::new(body.args@.len(), |i: int| lookup_edge(f@, body.args@[i])),
            edge_views(edges@) == after_crud + flat(lookups.take(i as int)),
        decreases body.args.len() - i,
    {
        let arg = &body.args[i];
        let ghost before = edge_views(edges@);
        match &arg.lookup {
            Some(l) => {
                let schema = optional_text(&l.schema);
                push_edge(
                    edges,
                    f,
                    DataRef::Table(TableRef { schema, table: l.table.clone() }),
                    AffinityKind::ArgLookup { arg_name: arg.name.clone() },
                    AffinityProvenance::VerbArgLookup,
                );
            },
            None => {},
        }
        proof {
            lemma_flat_take(lookups, i as int);
            assert(edge_views(edges@) =~= before + lookups[i as int]);
        }
        i += 1;
    }
    assert(lookups.take(lookups.len() as int) =~= lookups);
    let ghost after_lookups = edge_views(edges@);
    let ghost reads = Seq::new(
        body.reads_from@.len(),
        |i: int|
            EdgeView {
                verb: f@,
                data: DataView::Table { schema: Seq::empty(), table: body.reads_from@[i]@ },
                kind: KindView::CrudRead,
                provenance: AffinityProvenance::VerbDataFootprint,
            },
    );
    let mut i: usize = 0;
    while i < body.reads_from.len()
        invariant
            i <= body.reads_from.len(),
            f@ == body.fqn@,
            reads == Seq::new(
                body.reads_from@.len(),
                |i: int|
                    EdgeView {
                        verb: f@,
                        data: DataView::Table { schema: Seq::empty(), table: body.reads_from@[i]@ },
                        kind: KindView::CrudRead,
                        provenance: AffinityProvenance::VerbDataFootprint,
                    },
            ),
            edge_views(edges@) == after_lookups + reads.take(i as int),
        decreases body.reads_from.len() - i,
    {
        push_edge(
            edges,
            f,
            DataRef::Table(TableRef { schema: String::new(), table: body.reads_from[i].clone() }),
            AffinityKind::CrudRead,
            AffinityProvenance::VerbDataFootprint,
        );
        assert(reads.take(i + 1) =~= reads.take(i as int).push(reads[i as int]));
        i += 1;
    }
    assert(reads.take(reads.len() as int) =~= reads);
    let ghost after_reads = edge_views(edges@);
    let ghost writes = Seq::new(
        body.writes_to@.len(),
        |i: int|
            EdgeView {
                verb: f@,
                data: DataView::Table { schema: Seq::empty(), table: body.writes_to@[i]@ },
                kind: KindView::CrudInsert,
                provenance: AffinityProvenance::VerbDataFootprint,
            },
    );
    let mut i: usize = 0;
    while i < body.writes_to.len()
        invariant
            i <= body.writes_to.len(),
            f@ == body.fqn@,
            writes == Seq::new(
                body.writes_to@.len(),
                |i: int|
                    EdgeView {
                        verb: f@,
                        data: DataView::Table { schema: Seq::empty(), table: body.writes_to@[i]@ },
                        kind: KindView::CrudInsert,
                        provenance: AffinityProvenance::VerbDataFootprint,
                    },
            ),
            edge_views(edges@) == after_reads + writes.take(i as int),
        decreases body.writes_to.len() - i,
    {
        push_edge(
            edges,
            f,
            DataRef::Table(TableRef { schema: String::new(), table: body.writes_to[i].clone() }),
            AffinityKind::CrudInsert,
            AffinityProvenance::VerbDataFootprint,
        );
        assert(writes.take(i + 1) =~= writes.take(i as int).push(writes[i as int]));
        i += 1;
    }
    assert(writes.take(writes.len() as int) =~= writes);
    assert(edge_views(edges@) =~= start + verb_edges(*body));
}

/// Pass 3: the reverse edges of one attribute.
fn pass3_attribute_edges(body: &AttributeDefBody, edges: &mut Vec<AffinityEdge>)
    ensures
        edge_views(final(edges)@) == edge_views(old(edges)@) + attribute_edges(*body),
{
    let ghost start = edge_views(edges@);
    let a = body.fqn.as_str();
    match &body.source {
        Some(src) => match &src.producing_verb {
            Some(pv) => {
                push_edge(
                    edges,
                    pv.as_str(),
                    DataRef::Attribute { fqn: owned(a) },
                    AffinityKind::ProducesAttribute,
                    AffinityProvenance::AttributeSource,
                );
            },
            None => {},
        },
        None => {},
    }
    let ghost after_source = edge_views(edges@);
    let ghost sinks = Seq::new(
        body.sinks@.len(),
        |i: int|
            EdgeView {
                verb: body.sinks@[i].consuming_verb@,
                data: DataView::Attribute { fqn: a@ },
                kind: KindView::ConsumesAttribute { arg_name: body.sinks@[i].arg_name@ },
                provenance: AffinityProvenance::AttributeSink,
            },
    );
    let mut i: usize = 0;
    while i < body.sinks.len()
        invariant
            i <= body.sinks.len(),
            a@ == body.fqn@,
            sinks == Seq::new(
                body.sinks@.len(),
                |i: int|
                    EdgeView {
                        verb: body.sinks@[i].consuming_verb@,
                        data: DataView::Attribute { fqn: a@ },
                        kind: KindView::ConsumesAttribute { arg_name: body.sinks@[i].arg_name@ },
                        provenance: AffinityProvenance::AttributeSink,
                    },
            ),
            edge_views(edges@) == after_source + sinks.take(i as int),
        decreases body.sinks.len() - i,
    {
        let sink = &body.sinks[i];
        push_edge(
            edges,
            sink.consuming_verb.as_str(),
            DataRef::Attribute { fqn: owned(a) },
            AffinityKind::ConsumesAttribute { arg_name: sink.arg_name.clone() },
            AffinityProvenance::AttributeSink,
        );
        assert(sinks.take(i + 1) =~= sinks.take(i as int).push(sinks[i as int]));
        i += 1;
    }
    assert(sinks.take(sinks.len() as int) =~= sinks);
    assert(edge_views(edges@) =~= start + attribute_edges(*body));
}

// ── Pass 2: entity types ────────────────────────────────────────

/// Entity FQN → table, a later definition of the same entity replacing an
/// earlier one.
pub open spec fn entity_tables(ets: Seq<EntityTypeDefBody>) -> Map<Seq<char>, TableRef>
    decreases ets.len(),
{
    if ets.len() == 0 {
        Map::empty()
    } else {
        let m = entity_tables(ets.drop_last());
        match ets.last().db_table {
            Some(db) => m.insert(ets.last().fqn@, TableRef { schema: db.schema, table: db.table }),
            None => m,
        }
    }
}

/// Table key (`schema:table`) → entity FQN, the later definition winning.
pub open spec fn table_entities(ets: Seq<EntityTypeDefBody>) -> Map<Seq<char>, String>
    decreases ets.len(),
{
    if ets.len() == 0 {
        Map::empty()
    } else {
        let m = table_entities(ets.drop_last());
        match ets.last().db_table {
            Some(db) => m.insert(db.schema@ + ":"@ + db.table@, ets.last().fqn),
            None => m,
        }
    }
}

// ── Pass 3: attribute columns ───────────────────────────────────

/// Attribute FQN → source column, for sources that name schema, table and
/// column; the later definition wins.
pub open spec fn attribute_columns(attrs: Seq<AttributeDefBody>) -> Map<Seq<char>, ColumnRef>
    decreases attrs.len(),
{
    if attrs.len() == 0 {
        Map::empty()
    } else {
        let m = attribute_columns(attrs.drop_last());
        match attrs.last().source {
            Some(src) => match (src.schema, src.table, src.column) {
                (Some(sc), Some(t), Some(c)) => m.insert(
                    attrs.last().fqn@,
                    ColumnRef { schema: sc, table: t, column: c },
                ),
                _ => m,
            },
            None => m,
        }
    }
}

// ── Pass 4: derivations ─────────────────────────────────────────

/// One lineage edge per input of each derivation, in order.
pub open spec fn lineage(specs: Seq<DerivationSpecBody>) -> Seq<DerivationEdge> {
    flat(
        Seq::new(
            specs.len(),
            |i: int|
                Seq::new(
                    specs[i].inputs@.len(),
                    |j: int|
                        DerivationEdge {
                            from_attribute: specs[i].inputs@[j].attribute_fqn,
                            to_attribute: specs[i].output_attribute_fqn,
                            spec_fqn: specs[i].fqn,
                        },
                ),
        ),
    )
}

// ── Pass 5: relationship types ──────────────────────────────────

/// The lower-cased variant name of a cardinality.
pub open spec fn cardinality_name(c: RelationshipCardinality) -> Seq<char> {
    match c {
        RelationshipCardinality::OneToOne => "onetoone"@,
        RelationshipCardinality::OneToMany => "onetomany"@,
        RelationshipCardinality::ManyToOne => "manytoone"@,
        RelationshipCardinality::ManyToMany => "manytomany"@,
    }
}

/// The lower-cased variant name of a directionality.
pub open spec fn direction_name(d: Directionality) -> Seq<char> {
    match d {
        Directionality::Forward => "forward"@,
        Directionality::Reverse => "reverse"@,
        Directionality::Bidirectional => "bidirectional"@,
    }
}

/// The entity relationship a relationship type stands for.
pub open spec fn relationship_of(e: EntityRelationship, b: RelationshipTypeDefBody) -> bool {
    &&& e.fqn == b.fqn
    &&& e.source_entity_type_fqn == b.source_entity_type_fqn
    &&& e.target_entity_type_fqn == b.target_entity_type_fqn
    &&& e.cardinality@ == cardinality_name(b.cardinality)
    &&& e.edge_class == b.edge_class
    &&& match (e.directionality, b.directionality) {
        (Some(t), Some(d)) => t@ == direction_name(d),
        (None, None) => true,
        _ => false,
    }
}

fn relationship_entry(b: &RelationshipTypeDefBody) -> (r: EntityRelationship)
    ensures
        relationship_of(r, *b),
{
    let cardinality = match b.cardinality {
        RelationshipCardinality::OneToOne => "onetoone",
        RelationshipCardinality::OneToMany => "onetomany",
        RelationshipCardinality::ManyToOne => "manytoone",
        RelationshipCardinality::ManyToMany => "manytomany",
    };
    let directionality = match b.directionality {
        Some(Directionality::Forward) => Some(owned("forward")),
        Some(Directionality::Reverse) => Some(owned("reverse")),
        Some(Directionality::Bidirectional) => Some(owned("bidirectional")),
        None => None,
    };
    EntityRelationship {
        fqn: b.fqn.clone(),
        source_entity_type_fqn: b.source_entity_type_fqn.clone(),
        target_entity_type_fqn: b.target_entity_type_fqn.clone(),
        cardinality: owned(cardinality),
        edge_class: crate::text::copy_opt(&b.edge_class),
        directionality,
    }
}

// ── The graph ───────────────────────────────────────────────────

/// The verb of each edge.
pub open spec fn edge_verbs(es: Seq<EdgeView>) -> Seq<Seq<char>> {
    es.map_values(|e: EdgeView| e.verb)
}

/// The data index key of each edge.
pub open spec fn edge_keys(es: Seq<EdgeView>) -> Seq<Seq<char>> {
    es.map_values(|e: EdgeView| data_key(e.data))
}

impl AffinityGraph {
    /// Build a graph from parsed registry definitions in five passes, then
    /// group the edge positions into the forward (by verb) and reverse (by
    /// data key) indexes.
    pub fn build(defs: &RegistryDefinitions) -> (g: AffinityGraph)
        ensures
            edge_views(g.edges@) == registry_edges(*defs),
            index_view(g.verb_to_data@) == grouping(edge_verbs(registry_edges(*defs))),
            index_view(g.data_to_verb@) == grouping(edge_keys(registry_edges(*defs))),
            strictly_sorted(keys_of(g.entity_to_table@)),
            map_of(g.entity_to_table@) == entity_tables(defs.entity_types@),
            strictly_sorted(keys_of(g.table_to_entity@)),
            map_of(g.table_to_entity@) == table_entities(defs.entity_types@),
            strictly_sorted(keys_of(g.attribute_to_column@)),
            map_of(g.attribute_to_column@) == attribute_columns(defs.attributes@),
            g.derivation_edges@ == lineage(defs.derivations@),
            g.entity_relationships@.len() == defs.relationships@.len(),
            forall|i: int| 0 <= i < defs.relationships@.len() ==> relationship_of(
                #[trigger] g.entity_relationships@[i],
                defs.relationships@[i],
            ),
            strictly_sorted(texts(g.known_verbs@)),
            texts(g.known_verbs@).to_set() == Seq::new(
                defs.verb_contracts@.len(),
                |i: int| defs.verb_contracts@[i].fqn@,
            ).to_set(),
    {
        // Pass 1: verb contracts.
        let mut edges: Vec<AffinityEdge> = Vec::new();
        let mut verb_names: Vec<String> = Vec::new();
        let ghost vparts = Seq::new(defs.verb_contracts@.len(), |i: int| verb_edges(defs.verb_contracts@[i]));
        let ghost vnames = Seq::new(defs.verb_contracts@.len(), |i: int| defs.verb_contracts@[i].fqn@);
        let mut i: usize = 0;
        while i < defs.verb_contracts.len()
            invariant
                i <= defs.verb_contracts.len(),
                vparts == Seq::new(defs.verb_contracts@.len(), |i: int| verb_edges(defs.verb_contracts@[i])),
                vnames == Seq::new(defs.verb_contracts@.len(), |i: int| defs.verb_contracts@[i].fqn@),
                edge_views(edges@) == flat(vparts.take(i as int)),
                texts(verb_names@) == vnames.take(i as int),
            decreases defs.verb_contracts.len() - i,
        {
            let ghost before = edge_views(edges@);
            let body = &defs.verb_contracts[i];
            let ghost old_names = texts(verb_names@);
            verb_names.push(body.fqn.clone());
            assert(texts(verb_names@) =~= old_names.push(body.fqn@));
            pass1_verb_contract(body, &mut edges);
            proof {
                lemma_flat_take(vparts, i as int);
                assert(texts(verb_names@) =~= vnames.take(i + 1));
            }
            i += 1;
        }
        assert(vparts.take(vparts.len() as int) =~= vparts);
        assert(vnames.take(vnames.len() as int) =~= vnames);
        let known_verbs = sorted_unique(&verb_names);

        // Pass 2: entity types.
        let mut entity_to_table: Vec<(String, TableRef)> = Vec::new();
        let mut table_to_entity: Vec<(String, String)> = Vec::new();
        let mut i: usize = 0;
        while i < defs.entity_types.len()
            invariant
                i <= defs.entity_types.len(),
                strictly_sorted(keys_of(entity_to_table@)),
                strictly_sorted(keys_of(table_to_entity@)),
                map_of(entity_to_table@) == entity_tables(defs.entity_types@.take(i as int)),
                map_of(table_to_entity@) == table_entities(defs.entity_types@.take(i as int)),
            decreases defs.entity_types.len() - i,
        {
            let body = &defs.entity_types[i];
            assert(defs.entity_types@.take(i + 1).drop_last() =~= defs.entity_types@.take(i as int));
            match &body.db_table {
                Some(db) => {
                    let t = TableRef { schema: db.schema.clone(), table: db.table.clone() };
                    let key = t.key();
                    put_ordered(&mut entity_to_table, body.fqn.clone(), t);
                    put_ordered(&mut table_to_entity, key, body.fqn.clone());
                },
                None => {},
            }
            i += 1;
        }
        assert(defs.entity_types@.take(defs.entity_types.len() as int) =~= defs.entity_types@);

        // Pass 3: attributes.
        let ghost aparts = Seq::new(defs.attributes@.len(), |i: int| attribute_edges(defs.attributes@[i]));
        let ghost after_verbs = edge_views(edges@);
        let mut attribute_to_column: Vec<(String, ColumnRef)> = Vec::new();
        let mut i: usize = 0;
        while i < defs.attributes.len()
            invariant
                i <= defs.attributes.len(),
                aparts == Seq::new(defs.attributes@.len(), |i: int| attribute_edges(defs.attributes@[i])),
                edge_views(edges@) == after_verbs + flat(aparts.take(i as int)),
                strictly_sorted(keys_of(attribute_to_column@)),
                map_of(attribute_to_column@) == attribute_columns(defs.attributes@.take(i as int)),
            decreases defs.attributes.len() - i,
        {
            let body = &defs.attributes[i];
            let ghost before = edge_views(edges@);
            pass3_attribute_edges(body, &mut edges);
            assert(defs.attributes@.take(i + 1).drop_last() =~= defs.attributes@.take(i as int));
            match &body.source {
                Some(src) => match (&src.schema, &src.table, &src.column) {
                    (Some(sc), Some(t), Some(c)) => {
                        put_ordered(
                            &mut attribute_to_column,
                            body.fqn.clone(),
                            ColumnRef { schema: sc.clone(), table: t.clone(), column: c.clone() },
                        );
                    },
                    _ => {},
                },
                None => {},
            }
            proof {
                lemma_flat_take(aparts, i as int);
                assert(edge_views(edges@) =~= after_verbs + flat(aparts.take(i + 1)));
            }
            i += 1;
        }
        assert(aparts.take(aparts.len() as int) =~= aparts);
        assert(defs.attributes@.take(defs.attributes.len() as int) =~= defs.attributes@);

        // Pass 4: derivations.
        let ghost dparts = Seq::new(
            defs.derivations@.len(),
            |i: int|
                Seq::new(
                    defs.derivations@[i].inputs@.len(),
                    |j: int|
                        DerivationEdge {
                            from_attribute: defs.derivations@[i].inputs@[j].attribute_fqn,
                            to_attribute: defs.derivations@[i].output_attribute_fqn,
                            spec_fqn: defs.derivations@[i].fqn,
                        },
                ),
        );
        let mut derivation_edges: Vec<DerivationEdge> = Vec::new();
        let mut i: usize = 0;
        while i < defs.derivations.len()
            invariant
                i <= defs.derivations.len(),
                dparts == Seq::new(
                    defs.derivations@.len(),
                    |i: int|
                        Seq::new(
                            defs.derivations@[i].inputs@.len(),
                            |j: int|
                                DerivationEdge {
                                    from_attribute: defs.derivations@[i].inputs@[j].attribute_fqn,
                                    to_attribute: defs.derivations@[i].output_attribute_fqn,
                                    spec_fqn: defs.derivations@[i].fqn,
                                },
                        ),
                ),
                derivation_edges@ == flat(dparts.take(i as int)),
            decreases defs.derivations.len() - i,
        {
            let spec = &defs.derivations[i];
            let ghost base = derivation_edges@;
            let mut j: usize = 0;
            while j < spec.inputs.len()
                invariant
                    j <= spec.inputs.len(),
                    i < defs.derivations@.len(),
                    *spec == defs.derivations@[i as int],
                    dparts == Seq::new(
                        defs.derivations@.len(),
                        |i: int|
                            Seq::new(
                                defs.derivations@[i].inputs@.len(),
                                |j: int|
                                    DerivationEdge {
                                        from_attribute: defs.derivations@[i].inputs@[j].attribute_fqn,
                                        to_attribute: defs.derivations@[i].output_attribute_fqn,
                                        spec_fqn: defs.derivations@[i].fqn,
                                    },
                            ),
                    ),
                    derivation_edges@ == base + dparts[i as int].take(j as int),
                decreases spec.inputs.len() - j,
            {
                derivation_edges.push(
                    DerivationEdge {
                        from_attribute: spec.inputs[j].attribute_fqn.clone(),
                        to_attribute: spec.output_attribute_fqn.clone(),
                        spec_fqn: spec.fqn.clone(),
                    },
                );
                assert(dparts[i as int].take(j + 1) =~= dparts[i as int].take(j as int).push(
                    dparts[i as int][j as int],
                ));
                j += 1;
            }
            proof {
                assert(dparts[i as int].take(dparts[i as int].len() as int) =~= dparts[i as int]);
                lemma_flat_take(dparts, i as int);
            }
            i += 1;
        }
        assert(dparts.take(dparts.len() as int) =~= dparts);

        // Pass 5: relationship types.
        let mut entity_relationships: Vec<EntityRelationship> = Vec::new();
        let mut i: usize = 0;
        while i < defs.relationships.len()
            invariant
                i <= defs.relationships.len(),
                entity_relationships@.len() == i,
                forall|t: int| 0 <= t < i ==> relationship_of(
                    #[trigger] entity_relationships@[t],
                    defs.relationships@[t],
                ),
            decreases defs.relationships.len() - i,
        {
            entity_relationships.push(relationship_entry(&defs.relationships[i]));
            i += 1;
        }

        // Indexes.
        let ghost ev = edge_views(edges@);
        let mut verb_keys: Vec<String> = Vec::new();
        let mut data_keys: Vec<String> = Vec::new();
        let mut i: usize = 0;
        while i < edges.len()
            invariant
                i <= edges.len(),
                ev == edge_views(edges@),
                texts(verb_keys@) == edge_verbs(ev).take(i as int),
                texts(data_keys@) == edge_keys(ev).take(i as int),
            decreases edges.len() - i,
        {
            let ghost old_v = texts(verb_keys@);
            let ghost old_d = texts(data_keys@);
            verb_keys.push(edges[i].verb_fqn.clone());
            data_keys.push(edges[i].data_ref.index_key());
            proof {
                assert(texts(verb_keys@) =~= old_v.push(edges@[i as int].verb_fqn@));
                assert(texts(data_keys@) =~= old_d.push(index_key_of(edges@[i as int].data_ref)));
                assert(ev[i as int] == edge_view(edges@[i as int]));
                assert(edge_verbs(ev)[i as int] == edges@[i as int].verb_fqn@);
                assert(edge_keys(ev)[i as int] == index_key_of(edges@[i as int].data_ref));
                assert(texts(verb_keys@) =~= edge_verbs(ev).take(i + 1));
                assert(texts(data_keys@) =~= edge_keys(ev).take(i + 1));
            }
            i += 1;
        }
        assert(edge_verbs(ev).take(edges.len() as int) =~= edge_verbs(ev));
        assert(edge_keys(ev).take(edges.len() as int) =~= edge_keys(ev));
        let verb_to_data = group_positions(&verb_keys);
        let data_to_verb = group_positions(&data_keys);
        AffinityGraph {
            edges,
            verb_to_data,
            data_to_verb,
            entity_to_table,
            table_to_entity,
            attribute_to_column,
            derivation_edges,
            entity_relationships,
            known_verbs,
        }
    }
}

proof fn lemma_positions_exact(ks: Seq<Seq<char>>, k: Seq<char>, p: int)
    requires
        ks.len() <= usize::MAX,
        0 <= p <= usize::MAX,
    ensures
        positions(ks, k).contains(p as usize) <==> (p < ks.len() && ks[p] == k),
    decreases ks.len(),
{
    if ks.len() > 0 {
        let rest = ks.drop_last();
        lemma_positions_exact(rest, k, p);
        let tail: Seq<usize> = if ks.last() == k {
            seq![(ks.len() - 1) as usize]
        } else {
            Seq::empty()
        };
        let ps = positions(ks, k);
        assert(ps == positions(rest, k) + tail);
        if 0 <= p < ks.len() && ks[p] == k {
            if p < ks.len() - 1 {
                assert(rest[p] == k);
                let t = choose|t: int| 0 <= t < positions(rest, k).len() && positions(rest, k)[t] == p as usize;
                assert(ps[t] == p as usize);
            } else {
                assert(ps[ps.len() - 1] == p as usize);
            }
        }
        if ps.contains(p as usize) {
            let t = choose|t: int| 0 <= t < ps.len() && ps[t] == p as usize;
            if t < positions(rest, k).len() {
                assert(positions(rest, k)[t] == p as usize);
                assert(rest[p] == ks[p]);
            } else {
                assert(tail[t - positions(rest, k).len()] == p as usize);
            }
        }
    }
}

/// The index of a built graph is exact: grouping a list of keys gives each
/// distinct key once, every position is listed under its own key, and an
/// entry lists no position whose key differs.
pub proof fn lemma_grouping_exact(ks: Seq<Seq<char>>)
    requires
        ks.len() <= usize::MAX,
    ensures
        forall|a: int, b: int| 0 <= a < b < grouping(ks).len() ==> grouping(ks)[a].0 != grouping(ks)[b].0,
        forall|i: int| 0 <= i < ks.len() ==> exists|j: int|
            0 <= j < grouping(ks).len() && (#[trigger] grouping(ks)[j]).0 == #[trigger] ks[i]
                && grouping(ks)[j].1.contains(i as usize),
        forall|j: int, p: usize| 0 <= j < grouping(ks).len() && #[trigger] grouping(ks)[j].1.contains(p) ==> p
            < ks.len() && ks[p as int] == grouping(ks)[j].0,
{
    lemma_distinct_texts_unique(ks);
    let d = distinct_texts(ks);
    assert forall|i: int| 0 <= i < ks.len() implies exists|j: int|
        0 <= j < grouping(ks).len() && (#[trigger] grouping(ks)[j]).0 == #[trigger] ks[i]
            && grouping(ks)[j].1.contains(i as usize) by {
        assert(ks.contains(ks[i]));
        let j = choose|j: int| 0 <= j < d.len() && d[j] == ks[i];
        lemma_positions_exact(ks, ks[i], i);
        assert(grouping(ks)[j] == (d[j], positions(ks, d[j])));
    }
    assert forall|j: int, p: usize| 0 <= j < grouping(ks).len() && #[trigger] grouping(ks)[j].1.contains(p) implies p
        < ks.len() && ks[p as int] == grouping(ks)[j].0 by {
        lemma_positions_exact(ks, d[j], p as int);
    }
}

proof fn lemma_positions_increasing(ks: Seq<Seq<char>>, k: Seq<char>)
    requires
        ks.len() <= usize::MAX,
    ensures
        forall|a: int| 0 <= a < positions(ks, k).len() ==> (#[trigger] positions(ks, k)[a]) < ks.len(),
        forall|a: int, b: int|
            0 <= a < b < positions(ks, k).len() ==> #[trigger] positions(ks, k)[a] < #[trigger] positions(ks, k)[b],
    decreases ks.len(),
{
    if ks.len() > 0 {
        let rest = ks.drop_last();
        lemma_positions_increasing(rest, k);
        let pr = positions(rest, k);
        let p = positions(ks, k);
        assert forall|a: int| 0 <= a < pr.len() implies p[a] == pr[a] by {}
    }
}

/// Every list of an index of a built graph is non-empty and strictly
/// increasing: each distinct key occurs somewhere, and its positions are
/// listed once each, in order.
pub proof fn lemma_grouping_lists_sorted(ks: Seq<Seq<char>>)
    requires
        ks.len() <= usize::MAX,
    ensures
        forall|j: int| 0 <= j < grouping(ks).len() ==> (#[trigger] grouping(ks)[j]).1.len() > 0,
        forall|j: int, a: int, b: int|
            0 <= j < grouping(ks).len() && 0 <= a < b < grouping(ks)[j].1.len() ==> #[trigger] grouping(ks)[j].1[a]
                < #[trigger] grouping(ks)[j].1[b],
{
    lemma_distinct_texts_unique(ks);
    let d = distinct_texts(ks);
    assert forall|j: int| 0 <= j < grouping(ks).len() implies (#[trigger] grouping(ks)[j]).1.len() > 0 by {
        assert(d.contains(d[j]));
        assert(ks.contains(d[j]));
        let i = choose|i: int| 0 <= i < ks.len() && ks[i] == d[j];
        lemma_positions_exact(ks, d[j], i);
        assert(grouping(ks)[j].1 == positions(ks, d[j]));
        assert(positions(ks, d[j]).contains(i as usize));
    }
    assert forall|j: int, a: int, b: int|
        0 <= j < grouping(ks).len() && 0 <= a < b < grouping(ks)[j].1.len() implies #[trigger] grouping(ks)[j].1[a]
            < #[trigger] grouping(ks)[j].1[b] by {
        lemma_positions_increasing(ks, d[j]);
    }
}

/// The indexes of a built graph are consistent with its edges: each edge
/// is listed under its verb and under its data key, every listed position
/// is an edge with that verb or key, each key has one list, and every list
/// is non-empty and strictly increasing.
pub proof fn lemma_affinity_indexes(defs: RegistryDefinitions)
    requires
        registry_edges(defs).len() <= usize::MAX,
    ensures
        ({
            let es = registry_edges(defs);
            let vs = grouping(edge_verbs(es));
            let ks = grouping(edge_keys(es));
            &&& forall|i: int| 0 <= i < es.len() ==> exists|j: int|
                0 <= j < vs.len() && (#[trigger] vs[j]).0 == (#[trigger] es[i]).verb && vs[j].1.contains(i as usize)
            &&& forall|i: int| 0 <= i < es.len() ==> exists|j: int|
                0 <= j < ks.len() && (#[trigger] ks[j]).0 == data_key((#[trigger] es[i]).data) && ks[j].1.contains(i as usize)
            &&& forall|j: int, p: usize| 0 <= j < vs.len() && #[trigger] vs[j].1.contains(p) ==> p < es.len()
                && es[p as int].verb == vs[j].0
            &&& forall|j: int, p: usize| 0 <= j < ks.len() && #[trigger] ks[j].1.contains(p) ==> p < es.len()
                && data_key(es[p as int].data) == ks[j].0
            &&& forall|a: int, b: int| 0 <= a < b < vs.len() ==> vs[a].0 != vs[b].0
            &&& forall|a: int, b: int| 0 <= a < b < ks.len() ==> ks[a].0 != ks[b].0
            &&& forall|j: int| 0 <= j < vs.len() ==> (#[trigger] vs[j]).1.len() > 0
            &&& forall|j: int| 0 <= j < ks.len() ==> (#[trigger] ks[j]).1.len() > 0
            &&& forall|j: int, a: int, b: int|
                0 <= j < vs.len() && 0 <= a < b < vs[j].1.len() ==> #[trigger] vs[j].1[a] < #[trigger] vs[j].1[b]
            &&& forall|j: int, a: int, b: int|
                0 <= j < ks.len() && 0 <= a < b < ks[j].1.len() ==> #[trigger] ks[j].1[a] < #[trigger] ks[j].1[b]
        }),
{
    let es = registry_edges(defs);
    let ev = edge_verbs(es);
    let ek = edge_keys(es);
    lemma_grouping_exact(ev);
    lemma_grouping_exact(ek);
    lemma_grouping_lists_sorted(ev);
    lemma_grouping_lists_sorted(ek);
    assert forall|i: int| 0 <= i < es.len() implies exists|j: int|
        0 <= j < grouping(ev).len() && (#[trigger] grouping(ev)[j]).0 == (#[trigger] es[i]).verb && grouping(ev)[j].1.contains(
            i as usize,
        ) by {
        assert(ev[i] == es[i].verb);
    }
    assert forall|i: int| 0 <= i < es.len() implies exists|j: int|
        0 <= j < grouping(ek).len() && (#[trigger] grouping(ek)[j]).0 == data_key((#[trigger] es[i]).data) && grouping(
            ek,
        )[j].1.contains(i as usize) by {
        assert(ek[i] == data_key(es[i].data));
    }
    assert forall|j: int, p: usize| 0 <= j < grouping(ev).len() && #[trigger] grouping(ev)[j].1.contains(p) implies p
        < es.len() && es[p as int].verb == grouping(ev)[j].0 by {
        assert(ev[p as int] == es[p as int].verb);
    }
    assert forall|j: int, p: usize| 0 <= j < grouping(ek).len() && #[trigger] grouping(ek)[j].1.contains(p) implies p
        < es.len() && data_key(es[p as int].data) == grouping(ek)[j].0 by {
        assert(ek[p as int] == data_key(es[p as int].data));
    }
}

} // verus!
