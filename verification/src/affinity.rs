//! The affinity graph: a pre-computed bidirectional index of verb↔data
//! relationships, and its navigation and governance queries.

use vstd::prelude::*;
use vstd::string::*;

use crate::assoc::{find_key, map_of};
use crate::text::{join2, join3, join4, join6, owned, text_eq, texts};

pub mod builder;
pub mod discovery;
pub mod footprint;

verus! {

broadcast use vstd::string::group_string_axioms;

// ── Data references ─────────────────────────────────────────────

/// Physical table reference.
#[derive(Debug, Clone, PartialEq, Eq, Hash)]
pub struct TableRef {
    pub schema: String,
    pub table: String,
}

/// Physical column reference.
#[derive(Debug, Clone, PartialEq, Eq, Hash)]
pub struct ColumnRef {
    pub schema: String,
    pub table: String,
    pub column: String,
}

/// Unified reference to a data asset.
#[derive(Debug, Clone, PartialEq, Eq, Hash)]
pub enum DataRef {
    Table(TableRef),
    Column(ColumnRef),
    EntityType { fqn: String },
    Attribute { fqn: String },
}

/// How a verb relates to a data asset.
#[derive(Debug, Clone, PartialEq, Eq, Hash)]
pub enum AffinityKind {
    /// Verb produces an entity.
    Produces,
    /// Verb consumes an entity.
    Consumes,
    /// Verb reads from a table.
    CrudRead,
    /// Verb inserts into a table.
    CrudInsert,
    /// Verb updates a table.
    CrudUpdate,
    /// Verb deletes from a table.
    CrudDelete,
    /// Verb looks up an entity via an argument.
    ArgLookup { arg_name: String },
    /// Verb produces an attribute value.
    ProducesAttribute,
    /// Verb consumes an attribute value.
    ConsumesAttribute { arg_name: String },
}

/// Where an edge was derived from.
#[derive(Debug, Clone, Copy, PartialEq, Eq, Hash, Structural)]
pub enum AffinityProvenance {
    VerbProduces,
    VerbConsumes,
    VerbCrudMapping,
    VerbArgLookup,
    AttributeSource,
    AttributeSink,
    DerivationSpec,
    VerbDataFootprint,
}

/// A single verb↔data relationship.
#[derive(Debug, Clone)]
pub struct AffinityEdge {
    pub verb_fqn: String,
    pub data_ref: DataRef,
    pub affinity_kind: AffinityKind,
    pub provenance: AffinityProvenance,
}

/// Attribute-level lineage edge from derivation specs.
#[derive(Debug, Clone)]
pub struct DerivationEdge {
    pub from_attribute: String,
    pub to_attribute: String,
    pub spec_fqn: String,
}

/// Entity↔entity relationship captured from relationship type definitions.
#[derive(Debug, Clone)]
pub struct EntityRelationship {
    pub fqn: String,
    pub source_entity_type_fqn: String,
    pub target_entity_type_fqn: String,
    pub cardinality: String,
    pub edge_class: Option<String>,
    pub directionality: Option<String>,
}

/// Query result: a verb with its edge context.
#[derive(Debug, Clone)]
pub struct VerbAffinity {
    pub verb_fqn: String,
    pub affinity_kind: AffinityKind,
    pub provenance: AffinityProvenance,
}

/// Query result: a data asset with its edge context.
#[derive(Debug, Clone)]
pub struct DataAffinity {
    pub data_ref: DataRef,
    pub affinity_kind: AffinityKind,
    pub provenance: AffinityProvenance,
}

/// Pre-computed bidirectional index of verb↔data relationships. Each index
/// is a text-keyed association list (see `crate::assoc::map_of`).
#[derive(Debug, Clone)]
pub struct AffinityGraph {
    /// All edges in the graph.
    pub edges: Vec<AffinityEdge>,
    /// Forward index: verb FQN → positions of its edges.
    pub verb_to_data: Vec<(String, Vec<usize>)>,
    /// Reverse index: data ref key → positions of the edges that touch it.
    pub data_to_verb: Vec<(String, Vec<usize>)>,
    /// Entity FQN → physical table.
    pub entity_to_table: Vec<(String, TableRef)>,
    /// Physical table key → entity FQN.
    pub table_to_entity: Vec<(String, String)>,
    /// Attribute FQN → physical column.
    pub attribute_to_column: Vec<(String, ColumnRef)>,
    /// Derivation lineage edges.
    pub derivation_edges: Vec<DerivationEdge>,
    /// Entity↔entity relationships.
    pub entity_relationships: Vec<EntityRelationship>,
    /// All declared verb FQNs, including verbs without edges.
    pub known_verbs: Vec<String>,
}

// ── Keys ─────────────────────────────────────────────────────────

/// `schema:table`.
pub open spec fn table_key(t: TableRef) -> Seq<char> {
    t.schema@ + ":"@ + t.table@
}

/// `schema:table:column`.
pub open spec fn column_key(c: ColumnRef) -> Seq<char> {
    c.schema@ + ":"@ + c.table@ + ":"@ + c.column@
}

/// The index key of a table: `table:schema:table`.
pub open spec fn table_index_key(schema: Seq<char>, table: Seq<char>) -> Seq<char> {
    "table:"@ + schema + ":"@ + table
}

/// The stable index key of a data reference.
pub open spec fn index_key_of(d: DataRef) -> Seq<char> {
    match d {
        DataRef::Table(t) => table_index_key(t.schema@, t.table@),
        DataRef::Column(c) => "column:"@ + c.schema@ + ":"@ + c.table@ + ":"@ + c.column@,
        DataRef::EntityType { fqn } => "entity_type:"@ + fqn@,
        DataRef::Attribute { fqn } => "attribute:"@ + fqn@,
    }
}

impl TableRef {
    pub fn new(schema: &str, table: &str) -> (r: Self)
        ensures
            r.schema@ == schema@,
            r.table@ == table@,
    {
        TableRef { schema: owned(schema), table: owned(table) }
    }

    /// Stable string key for lookups: `schema:table`.
    pub fn key(&self) -> (r: String)
        ensures
            r@ == table_key(*self),
    {
        join3(self.schema.as_str(), ":", self.table.as_str())
    }

    /// A copy of this reference.
    pub fn duplicate(&self) -> (r: Self)
        ensures
            r == *self,
    {
        TableRef { schema: self.schema.clone(), table: self.table.clone() }
    }
}

impl ColumnRef {
    pub fn new(schema: &str, table: &str, column: &str) -> (r: Self)
        ensures
            r.schema@ == schema@,
            r.table@ == table@,
            r.column@ == column@,
    {
        ColumnRef { schema: owned(schema), table: owned(table), column: owned(column) }
    }

    /// A copy of this reference.
    pub fn duplicate(&self) -> (r: Self)
        ensures
            r == *self,
    {
        ColumnRef {
            schema: self.schema.clone(),
            table: self.table.clone(),
            column: self.column.clone(),
        }
    }
}

impl DataRef {
    /// Stable string key for indexing.
    pub fn index_key(&self) -> (r: String)
        ensures
            r@ == index_key_of(*self),
    {
        match self {
            DataRef::Table(t) => join4("table:", t.schema.as_str(), ":", t.table.as_str()),
            DataRef::Column(c) => join6(
                "column:",
                c.schema.as_str(),
                ":",
                c.table.as_str(),
                ":",
                c.column.as_str(),
            ),
            DataRef::EntityType { fqn } => join2("entity_type:", fqn.as_str()),
            DataRef::Attribute { fqn } => join2("attribute:", fqn.as_str()),
        }
    }

    /// A copy of this reference.
    pub fn duplicate(&self) -> (r: Self)
        ensures
            r == *self,
    {
        match self {
            DataRef::Table(t) => DataRef::Table(t.duplicate()),
            DataRef::Column(c) => DataRef::Column(c.duplicate()),
            DataRef::EntityType { fqn } => DataRef::EntityType { fqn: fqn.clone() },
            DataRef::Attribute { fqn } => DataRef::Attribute { fqn: fqn.clone() },
        }
    }
}

/// Two kinds are the same kind: same variant and, for the variants that
/// carry an argument name, the same name.
pub open spec fn same_kind(a: AffinityKind, b: AffinityKind) -> bool {
    match (a, b) {
        (AffinityKind::Produces, AffinityKind::Produces) => true,
        (AffinityKind::Consumes, AffinityKind::Consumes) => true,
        (AffinityKind::CrudRead, AffinityKind::CrudRead) => true,
        (AffinityKind::CrudInsert, AffinityKind::CrudInsert) => true,
        (AffinityKind::CrudUpdate, AffinityKind::CrudUpdate) => true,
        (AffinityKind::CrudDelete, AffinityKind::CrudDelete) => true,
        (AffinityKind::ArgLookup { arg_name: x }, AffinityKind::ArgLookup { arg_name: y }) => x@ == y@,
        (AffinityKind::ProducesAttribute, AffinityKind::ProducesAttribute) => true,
        (
            AffinityKind::ConsumesAttribute { arg_name: x },
            AffinityKind::ConsumesAttribute { arg_name: y },
        ) => x@ == y@,
        _ => false,
    }
}

impl AffinityKind {
    /// A copy of this kind.
    pub fn duplicate(&self) -> (r: Self)
        ensures
            r == *self,
    {
        match self {
            AffinityKind::Produces => AffinityKind::Produces,
            AffinityKind::Consumes => AffinityKind::Consumes,
            AffinityKind::CrudRead => AffinityKind::CrudRead,
            AffinityKind::CrudInsert => AffinityKind::CrudInsert,
            AffinityKind::CrudUpdate => AffinityKind::CrudUpdate,
            AffinityKind::CrudDelete => AffinityKind::CrudDelete,
            AffinityKind::ArgLookup { arg_name } => AffinityKind::ArgLookup { arg_name: arg_name.clone() },
            AffinityKind::ProducesAttribute => AffinityKind::ProducesAttribute,
            AffinityKind::ConsumesAttribute { arg_name } => AffinityKind::ConsumesAttribute {
                arg_name: arg_name.clone(),
            },
        }
    }

    /// Whether two kinds are the same kind.
    pub fn same_as(&self, other: &Self) -> (r: bool)
        ensures
            r == same_kind(*self, *other),
    {
        match (self, other) {
            (AffinityKind::Produces, AffinityKind::Produces) => true,
            (AffinityKind::Consumes, AffinityKind::Consumes) => true,
            (AffinityKind::CrudRead, AffinityKind::CrudRead) => true,
            (AffinityKind::CrudInsert, AffinityKind::CrudInsert) => true,
            (AffinityKind::CrudUpdate, AffinityKind::CrudUpdate) => true,
            (AffinityKind::CrudDelete, AffinityKind::CrudDelete) => true,
            (AffinityKind::ArgLookup { arg_name: x }, AffinityKind::ArgLookup { arg_name: y }) => {
                text_eq(x.as_str(), y.as_str())
            },
            (AffinityKind::ProducesAttribute, AffinityKind::ProducesAttribute) => true,
            (
                AffinityKind::ConsumesAttribute { arg_name: x },
                AffinityKind::ConsumesAttribute { arg_name: y },
            ) => text_eq(x.as_str(), y.as_str()),
            _ => false,
        }
    }
}

// ── Edge projections ────────────────────────────────────────────

pub open spec fn verb_affinity_of(e: AffinityEdge) -> VerbAffinity {
    VerbAffinity { verb_fqn: e.verb_fqn, affinity_kind: e.affinity_kind, provenance: e.provenance }
}

pub open spec fn data_affinity_of(e: AffinityEdge) -> DataAffinity {
    DataAffinity { data_ref: e.data_ref, affinity_kind: e.affinity_kind, provenance: e.provenance }
}

/// The verb side of the edges at the given positions, skipping positions
/// outside the edge list.
pub open spec fn verbs_at(edges: Seq<AffinityEdge>, idxs: Seq<usize>) -> Seq<VerbAffinity>
    decreases idxs.len(),
{
    if idxs.len() == 0 {
        Seq::empty()
    } else {
        let rest = verbs_at(edges, idxs.drop_last());
        if (idxs.last() as int) < edges.len() {
            rest.push(verb_affinity_of(edges[idxs.last() as int]))
        } else {
            rest
        }
    }
}

/// The data side of the edges at the given positions, skipping positions
/// outside the edge list.
pub open spec fn data_at(edges: Seq<AffinityEdge>, idxs: Seq<usize>) -> Seq<DataAffinity>
    decreases idxs.len(),
{
    if idxs.len() == 0 {
        Seq::empty()
    } else {
        let rest = data_at(edges, idxs.drop_last());
        if (idxs.last() as int) < edges.len() {
            rest.push(data_affinity_of(edges[idxs.last() as int]))
        } else {
            rest
        }
    }
}

impl AffinityEdge {
    pub fn verb_affinity(&self) -> (r: VerbAffinity)
        ensures
            r == verb_affinity_of(*self),
    {
        VerbAffinity {
            verb_fqn: self.verb_fqn.clone(),
            affinity_kind: self.affinity_kind.duplicate(),
            provenance: self.provenance,
        }
    }

    pub fn data_affinity(&self) -> (r: DataAffinity)
        ensures
            r == data_affinity_of(*self),
    {
        DataAffinity {
            data_ref: self.data_ref.duplicate(),
            affinity_kind: self.affinity_kind.duplicate(),
            provenance: self.provenance,
        }
    }
}

/// The verbs recorded under a data index key.
pub open spec fn verbs_for_key(g: AffinityGraph, key: Seq<char>) -> Seq<VerbAffinity> {
    if map_of(g.data_to_verb@).contains_key(key) {
        verbs_at(g.edges@, map_of(g.data_to_verb@)[key]@)
    } else {
        Seq::empty()
    }
}

/// The data assets recorded under a verb.
pub open spec fn data_for_verb_spec(g: AffinityGraph, verb: Seq<char>) -> Seq<DataAffinity> {
    if map_of(g.verb_to_data@).contains_key(verb) {
        data_at(g.edges@, map_of(g.verb_to_data@)[verb]@)
    } else {
        Seq::empty()
    }
}

fn verbs_at_positions(edges: &Vec<AffinityEdge>, idxs: &Vec<usize>) -> (r: Vec<VerbAffinity>)
    ensures
        r@ == verbs_at(edges@, idxs@),
{
    let mut r: Vec<VerbAffinity> = Vec::new();
    let mut k: usize = 0;
    while k < idxs.len()
        invariant
            k <= idxs.len(),
            r@ == verbs_at(edges@, idxs@.take(k as int)),
        decreases idxs.len() - k,
    {
        proof {
            assert(idxs@.take(k + 1).drop_last() =~= idxs@.take(k as int));
            assert(idxs@.take(k + 1).last() == idxs@[k as int]);
        }
        let idx = idxs[k];
        if idx < edges.len() {
            r.push(edges[idx].verb_affinity());
        }
        k += 1;
    }
    assert(idxs@.take(idxs.len() as int) =~= idxs@);
    r
}

fn data_at_positions(edges: &Vec<AffinityEdge>, idxs: &Vec<usize>) -> (r: Vec<DataAffinity>)
    ensures
        r@ == data_at(edges@, idxs@),
{
    let mut r: Vec<DataAffinity> = Vec::new();
    let mut k: usize = 0;
    while k < idxs.len()
        invariant
            k <= idxs.len(),
            r@ == data_at(edges@, idxs@.take(k as int)),
        decreases idxs.len() - k,
    {
        proof {
            assert(idxs@.take(k + 1).drop_last() =~= idxs@.take(k as int));
            assert(idxs@.take(k + 1).last() == idxs@[k as int]);
        }
        let idx = idxs[k];
        if idx < edges.len() {
            r.push(edges[idx].data_affinity());
        }
        k += 1;
    }
    assert(idxs@.take(idxs.len() as int) =~= idxs@);
    r
}

// ── Core queries ────────────────────────────────────────────────

impl AffinityGraph {
    /// Look up verbs for a given data index key.
    pub fn verbs_for_data_key(&self, key: &str) -> (r: Vec<VerbAffinity>)
        ensures
            r@ == verbs_for_key(*self, key@),
    {
        match find_key(&self.data_to_verb, key) {
            Some(i) => verbs_at_positions(&self.edges, &self.data_to_verb[i].1),
            None => Vec::new(),
        }
    }

    /// Find all verbs that read/write/produce/consume a given table.
    pub fn verbs_for_table(&self, schema: &str, table: &str) -> (r: Vec<VerbAffinity>)
        ensures
            r@ == verbs_for_key(*self, table_index_key(schema@, table@)),
    {
        let key = join4("table:", schema, ":", table);
        self.verbs_for_data_key(key.as_str())
    }

    /// Find all verbs that produce or consume a given attribute.
    pub fn verbs_for_attribute(&self, attr_fqn: &str) -> (r: Vec<VerbAffinity>)
        ensures
            r@ == verbs_for_key(*self, "attribute:"@ + attr_fqn@),
    {
        let key = join2("attribute:", attr_fqn);
        self.verbs_for_data_key(key.as_str())
    }

    /// Find all data assets a verb touches.
    pub fn data_for_verb(&self, verb_fqn: &str) -> (r: Vec<DataAffinity>)
        ensures
            r@ == data_for_verb_spec(*self, verb_fqn@),
    {
        match find_key(&self.verb_to_data, verb_fqn) {
            Some(i) => data_at_positions(&self.edges, &self.verb_to_data[i].1),
            None => Vec::new(),
        }
    }
}

} // verus!

verus! {

/// A verb has data when its forward index entry lists at least one edge.
pub open spec fn verb_has_data(g: AffinityGraph, v: Seq<char>) -> bool {
    map_of(g.verb_to_data@).contains_key(v) && map_of(g.verb_to_data@)[v].len() > 0
}

/// The edge records that the verb produces attribute `f`.
pub open spec fn produces_attribute(e: AffinityEdge, f: Seq<char>) -> bool {
    match e.data_ref {
        DataRef::Attribute { fqn } => fqn@ == f && e.affinity_kind is ProducesAttribute,
        _ => false,
    }
}

/// The edge records that the verb consumes attribute `f`.
pub open spec fn consumes_attribute(e: AffinityEdge, f: Seq<char>) -> bool {
    match e.data_ref {
        DataRef::Attribute { fqn } => fqn@ == f && e.affinity_kind is ConsumesAttribute,
        _ => false,
    }
}

/// Attributes that some edge produces.
pub open spec fn produced_attributes(g: AffinityGraph) -> Set<Seq<char>> {
    Set::new(|f: Seq<char>| exists|i: int| 0 <= i < g.edges@.len() && produces_attribute(#[trigger] g.edges@[i], f))
}

/// Attributes that some edge consumes.
pub open spec fn consumed_attributes(g: AffinityGraph) -> Set<Seq<char>> {
    Set::new(|f: Seq<char>| exists|i: int| 0 <= i < g.edges@.len() && consumes_attribute(#[trigger] g.edges@[i], f))
}

/// The tables of `known` that no verb touches, in their given order.
pub open spec fn orphan_tables_of(g: AffinityGraph, known: Seq<TableRef>) -> Seq<TableRef>
    decreases known.len(),
{
    if known.len() == 0 {
        Seq::empty()
    } else {
        let rest = orphan_tables_of(g, known.drop_last());
        let t = known.last();
        if map_of(g.data_to_verb@).contains_key(table_index_key(t.schema@, t.table@)) {
            rest
        } else {
            rest.push(t)
        }
    }
}

/// Two verb affinities name the same verb with the same kind.
pub open spec fn same_verb_and_kind(a: VerbAffinity, b: VerbAffinity) -> bool {
    a.verb_fqn@ == b.verb_fqn@ && same_kind(a.affinity_kind, b.affinity_kind)
}

/// Keeps the first of each group of affinities with the same verb and kind.
pub open spec fn dedup_verbs(s: Seq<VerbAffinity>) -> Seq<VerbAffinity>
    decreases s.len(),
{
    if s.len() == 0 {
        Seq::empty()
    } else {
        let d = dedup_verbs(s.drop_last());
        if exists|j: int| 0 <= j < d.len() && same_verb_and_kind(#[trigger] d[j], s.last()) {
            d
        } else {
            d.push(s.last())
        }
    }
}

/// The verbs operating on an entity type: its direct edges, then the edges of
/// its mapped table, each verb-and-kind pair once.
pub open spec fn verbs_for_entity_type_spec(g: AffinityGraph, fqn: Seq<char>) -> Seq<VerbAffinity> {
    let direct = verbs_for_key(g, "entity_type:"@ + fqn);
    let via = if map_of(g.entity_to_table@).contains_key(fqn) {
        let t = map_of(g.entity_to_table@)[fqn];
        verbs_for_key(g, table_index_key(t.schema@, t.table@))
    } else {
        Seq::empty()
    };
    dedup_verbs(direct + via)
}

fn push_unique_verbs(results: &mut Vec<VerbAffinity>, found: Vec<VerbAffinity>)
    ensures
        forall|base: Seq<VerbAffinity>| #![trigger dedup_verbs(base)]
            dedup_verbs(base) == old(results)@ ==> dedup_verbs(base + found@) == final(results)@,
{
    let ghost start = results@;
    let mut k: usize = 0;
    while k < found.len()
        invariant
            k <= found.len(),
            forall|base: Seq<VerbAffinity>| #![trigger dedup_verbs(base)]
                dedup_verbs(base) == start ==> dedup_verbs(base + found@.take(k as int)) == results@,
        decreases found.len() - k,
    {
        let va = &found[k];
        let mut seen = false;
        let mut j: usize = 0;
        while j < results.len()
            invariant
                j <= results.len(),
                !seen ==> forall|q: int| 0 <= q < j ==> !same_verb_and_kind(#[trigger] results@[q], *va),
                seen ==> exists|q: int| 0 <= q < results@.len() && same_verb_and_kind(#[trigger] results@[q], *va),
            decreases results.len() - j,
        {
            if !seen && text_eq(results[j].verb_fqn.as_str(), va.verb_fqn.as_str())
                && results[j].affinity_kind.same_as(&va.affinity_kind) {
                seen = true;
                assert(same_verb_and_kind(results@[j as int], *va));
            }
            j += 1;
        }
        let ghost before = results@;
        if !seen {
            results.push(VerbAffinity {
                verb_fqn: va.verb_fqn.clone(),
                affinity_kind: va.affinity_kind.duplicate(),
                provenance: va.provenance,
            });
        }
        proof {
            assert forall|base: Seq<VerbAffinity>| #[trigger] dedup_verbs(base) == start implies dedup_verbs(
                base + found@.take(k + 1),
            ) == results@ by {
                let s = base + found@.take(k + 1);
                assert(s.drop_last() =~= base + found@.take(k as int));
                assert(s.last() == found@[k as int]);
            }
        }
        k += 1;
    }
    proof {
        assert(found@.take(found.len() as int) =~= found@);
    }
}

impl AffinityGraph {
    /// Find all verbs operating on a given entity type (direct edges, then the
    /// edges of the entity's table), each verb-and-kind pair once.
    pub fn verbs_for_entity_type(&self, entity_fqn: &str) -> (r: Vec<VerbAffinity>)
        ensures
            r@ == verbs_for_entity_type_spec(*self, entity_fqn@),
    {
        let mut results: Vec<VerbAffinity> = Vec::new();
        let direct_key = join2("entity_type:", entity_fqn);
        let direct = self.verbs_for_data_key(direct_key.as_str());
        proof {
            assert(dedup_verbs(Seq::<VerbAffinity>::empty()) == results@);
        }
        push_unique_verbs(&mut results, direct);
        let ghost after_direct = results@;
        match find_key(&self.entity_to_table, entity_fqn) {
            Some(i) => {
                let table_ref = &self.entity_to_table[i].1;
                let via = self.verbs_for_table(table_ref.schema.as_str(), table_ref.table.as_str());
                push_unique_verbs(&mut results, via);
            },
            None => {
                proof {
                    let d = verbs_for_key(*self, "entity_type:"@ + entity_fqn@);
                    assert(d + Seq::<VerbAffinity>::empty() =~= d);
                }
            },
        }
        results
    }

    /// Tables of `known_tables` with no verb affinity (ungoverned data).
    pub fn orphan_tables(&self, known_tables: &Vec<TableRef>) -> (r: Vec<TableRef>)
        ensures
            r@ == orphan_tables_of(*self, known_tables@),
    {
        let mut r: Vec<TableRef> = Vec::new();
        let mut i: usize = 0;
        while i < known_tables.len()
            invariant
                i <= known_tables.len(),
                r@ == orphan_tables_of(*self, known_tables@.take(i as int)),
            decreases known_tables.len() - i,
        {
            proof {
                assert(known_tables@.take(i + 1).drop_last() =~= known_tables@.take(i as int));
            }
            let t = &known_tables[i];
            let key = join4("table:", t.schema.as_str(), ":", t.table.as_str());
            if find_key(&self.data_to_verb, key.as_str()).is_none() {
                r.push(t.duplicate());
            }
            i += 1;
        }
        proof {
            assert(known_tables@.take(known_tables.len() as int) =~= known_tables@);
        }
        r
    }

    /// Known verbs with no data affinity, sorted and each once.
    pub fn orphan_verbs(&self) -> (r: Vec<String>)
        ensures
            crate::order::strictly_sorted(crate::text::texts(r@)),
            crate::text::texts(r@).to_set() == crate::text::texts(self.known_verbs@).to_set().filter(
                |v: Seq<char>| !verb_has_data(*self, v),
            ),
    {
        let mut cand: Vec<String> = Vec::new();
        let mut i: usize = 0;
        let ghost known = crate::text::texts(self.known_verbs@);
        while i < self.known_verbs.len()
            invariant
                i <= self.known_verbs.len(),
                known == crate::text::texts(self.known_verbs@),
                forall|x: Seq<char>|
                    crate::text::texts(cand@).contains(x) <==> (exists|k: int|
                        0 <= k < i && #[trigger] known[k] == x && !verb_has_data(*self, x)),
            decreases self.known_verbs.len() - i,
        {
            let v = &self.known_verbs[i];
            let with_data = match find_key(&self.verb_to_data, v.as_str()) {
                Some(j) => self.verb_to_data[j].1.len() > 0,
                None => false,
            };
            let ghost before = crate::text::texts(cand@);
            if !with_data {
                cand.push(v.clone());
            }
            proof {
                let after = crate::text::texts(cand@);
                if !with_data {
                    assert(after =~= before.push(v@));
                } else {
                    assert(after =~= before);
                }
                assert forall|x: Seq<char>| after.contains(x) <==> (exists|k: int|
                    0 <= k < i + 1 && #[trigger] known[k] == x && !verb_has_data(*self, x)) by {
                    if after.contains(x) {
                        if before.contains(x) {
                        } else {
                            assert(x == v@);
                            assert(known[i as int] == x);
                        }
                    }
                    if exists|k: int| 0 <= k < i + 1 && #[trigger] known[k] == x && !verb_has_data(*self, x) {
                        let k = choose|k: int| 0 <= k < i + 1 && #[trigger] known[k] == x && !verb_has_data(*self, x);
                        if k == i {
                            assert(x == v@);
                            assert(after[after.len() - 1] == x);
                        } else {
                            assert(before.contains(x));
                            let q = choose|q: int| 0 <= q < before.len() && before[q] == x;
                            assert(after[q] == x);
                        }
                    }
                }
            }
            i += 1;
        }
        let r = crate::order::sorted_unique(&cand);
        proof {
            assert(crate::text::texts(r@).to_set() =~= known.to_set().filter(
                |v: Seq<char>| !verb_has_data(*self, v),
            ));
        }
        r
    }
}

} // verus!

verus! {

/// The attribute names that the edges produce (`produce == true`) or consume.
fn attribute_uses(edges: &Vec<AffinityEdge>, produce: bool) -> (r: Vec<String>)
    ensures
        forall|f: Seq<char>|
            crate::text::texts(r@).contains(f) <==> (exists|i: int|
                0 <= i < edges@.len() && (if produce {
                    produces_attribute(#[trigger] edges@[i], f)
                } else {
                    consumes_attribute(edges@[i], f)
                })),
{
    let mut r: Vec<String> = Vec::new();
    let mut i: usize = 0;
    while i < edges.len()
        invariant
            i <= edges.len(),
            forall|f: Seq<char>|
                crate::text::texts(r@).contains(f) <==> (exists|k: int|
                    0 <= k < i && (if produce {
                        produces_attribute(#[trigger] edges@[k], f)
                    } else {
                        consumes_attribute(edges@[k], f)
                    })),
        decreases edges.len() - i,
    {
        let e = &edges[i];
        let ghost before = crate::text::texts(r@);
        let mut added = false;
        match &e.data_ref {
            DataRef::Attribute { fqn } => {
                let hit = match &e.affinity_kind {
                    AffinityKind::ProducesAttribute => produce,
                    AffinityKind::ConsumesAttribute { .. } => !produce,
                    _ => false,
                };
                if hit {
                    r.push(fqn.clone());
                    added = true;
                }
            },
            _ => {},
        }
        proof {
            let after = crate::text::texts(r@);
            assert forall|f: Seq<char>| after.contains(f) <==> (exists|k: int|
                0 <= k < i + 1 && (if produce {
                    produces_attribute(#[trigger] edges@[k], f)
                } else {
                    consumes_attribute(edges@[k], f)
                })) by {
                if added {
                    assert(after =~= before.push(after.last()));
                    if after.contains(f) && !before.contains(f) {
                        assert(f == after.last());
                    }
                    if before.contains(f) {
                        let q = choose|q: int| 0 <= q < before.len() && before[q] == f;
                        assert(after[q] == f);
                    }
                    if (if produce { produces_attribute(edges@[i as int], f) } else { consumes_attribute(edges@[i as int], f) }) {
                        assert(after[after.len() - 1] == f);
                    }
                } else {
                    assert(after =~= before);
                }
            }
        }
        i += 1;
    }
    r
}

/// Keeps the texts of `a` that do not occur in `b`.
fn texts_minus(a: &Vec<String>, b: &Vec<String>) -> (r: Vec<String>)
    ensures
        forall|f: Seq<char>|
            crate::text::texts(r@).contains(f) <==> (crate::text::texts(a@).contains(f)
                && !crate::text::texts(b@).contains(f)),
{
    let mut r: Vec<String> = Vec::new();
    let mut i: usize = 0;
    while i < a.len()
        invariant
            i <= a.len(),
            forall|f: Seq<char>|
                crate::text::texts(r@).contains(f) <==> ((exists|k: int| 0 <= k < i && #[trigger] a@[k]@ == f)
                    && !crate::text::texts(b@).contains(f)),
        decreases a.len() - i,
    {
        let ghost before = crate::text::texts(r@);
        let keep = !crate::text::contains_text(b, a[i].as_str());
        if keep {
            r.push(a[i].clone());
        }
        proof {
            let after = crate::text::texts(r@);
            if keep {
                assert(after =~= before.push(a@[i as int]@));
            } else {
                assert(after =~= before);
            }
            assert forall|f: Seq<char>| after.contains(f) <==> ((exists|k: int| 0 <= k < i + 1 && #[trigger] a@[k]@ == f)
                && !crate::text::texts(b@).contains(f)) by {
                if before.contains(f) {
                    let q = choose|q: int| 0 <= q < before.len() && before[q] == f;
                    assert(after[q] == f);
                }
                if after.contains(f) && !before.contains(f) {
                    assert(f == a@[i as int]@);
                }
                if keep && f == a@[i as int]@ {
                    assert(after[after.len() - 1] == f);
                }
            }
        }
        i += 1;
    }
    proof {
        assert forall|f: Seq<char>| crate::text::texts(a@).contains(f) <==> (exists|k: int| 0 <= k < a.len() && #[trigger] a@[k]@ == f) by {
            if crate::text::texts(a@).contains(f) {
                let q = choose|q: int| 0 <= q < a.len() && crate::text::texts(a@)[q] == f;
                assert(a@[q]@ == f);
            }
            if exists|k: int| 0 <= k < a.len() && #[trigger] a@[k]@ == f {
                let k = choose|k: int| 0 <= k < a.len() && #[trigger] a@[k]@ == f;
                assert(crate::text::texts(a@)[k] == f);
            }
        }
    }
    r
}

impl AffinityGraph {
    /// Attributes with a producer but no consumer (written but never read),
    /// sorted and each once.
    pub fn write_only_attributes(&self) -> (r: Vec<String>)
        ensures
            crate::order::strictly_sorted(crate::text::texts(r@)),
            crate::text::texts(r@).to_set() == produced_attributes(*self).difference(
                consumed_attributes(*self),
            ),
    {
        let produced = attribute_uses(&self.edges, true);
        let consumed = attribute_uses(&self.edges, false);
        let diff = texts_minus(&produced, &consumed);
        let r = crate::order::sorted_unique(&diff);
        proof {
            assert(crate::text::texts(r@).to_set() =~= produced_attributes(*self).difference(
                consumed_attributes(*self),
            ));
        }
        r
    }

    /// Attributes with a consumer but no producer (read before written),
    /// sorted and each once.
    pub fn read_before_write_attributes(&self) -> (r: Vec<String>)
        ensures
            crate::order::strictly_sorted(crate::text::texts(r@)),
            crate::text::texts(r@).to_set() == consumed_attributes(*self).difference(
                produced_attributes(*self),
            ),
    {
        let produced = attribute_uses(&self.edges, true);
        let consumed = attribute_uses(&self.edges, false);
        let diff = texts_minus(&consumed, &produced);
        let r = crate::order::sorted_unique(&diff);
        proof {
            assert(crate::text::texts(r@).to_set() =~= consumed_attributes(*self).difference(
                produced_attributes(*self),
            ));
        }
        r
    }
}

} // verus!

verus! {

// ── Adjacency ───────────────────────────────────────────────────

/// Edge position `j` is listed under data key `k` in the reverse index.
pub open spec fn listed_under(g: AffinityGraph, k: Seq<char>, j: int) -> bool {
    map_of(g.data_to_verb@).contains_key(k) && map_of(g.data_to_verb@)[k]@.contains(j as usize)
}

/// The index keys of the data a verb touches.
pub open spec fn verb_data_keys(g: AffinityGraph, verb: Seq<char>) -> Seq<Seq<char>> {
    data_for_verb_spec(g, verb).map_values(|d: DataAffinity| index_key_of(d.data_ref))
}

/// Edge `j` belongs to another verb and is listed under one of the data
/// keys that `verb` touches.
pub open spec fn shares_data(g: AffinityGraph, verb: Seq<char>, j: int) -> bool {
    &&& 0 <= j < g.edges@.len()
    &&& g.edges@[j].verb_fqn@ != verb
    &&& exists|k: Seq<char>| #[trigger] verb_data_keys(g, verb).contains(k) && listed_under(g, k, j)
}

/// Verb `v` touches data `d` that `verb` also touches.
pub open spec fn shared_pair(g: AffinityGraph, verb: Seq<char>, v: Seq<char>, d: DataRef) -> bool {
    exists|j: int|
        #[trigger] shares_data(g, verb, j) && g.edges@[j].verb_fqn@ == v && g.edges@[j].data_ref == d
}

/// The verbs that share data with `verb`.
pub open spec fn neighbor_verbs(g: AffinityGraph, verb: Seq<char>) -> Set<Seq<char>> {
    Set::new(|v: Seq<char>| exists|d: DataRef| #[trigger] shared_pair(g, verb, v, d))
}

/// The shared references listed for neighbour `v`: each is shared with
/// `verb`, no two have the same index key, and every shared reference has
/// its index key among them.
pub open spec fn adjacency_entry(g: AffinityGraph, verb: Seq<char>, v: Seq<char>, refs: Seq<DataRef>) -> bool {
    &&& forall|a: int| 0 <= a < refs.len() ==> #[trigger] shared_pair(g, verb, v, refs[a])
    &&& forall|a: int, b: int|
        0 <= a < b < refs.len() ==> index_key_of(#[trigger] refs[a]) != index_key_of(#[trigger] refs[b])
    &&& forall|d: DataRef|
        #[trigger] shared_pair(g, verb, v, d) ==> exists|a: int|
            0 <= a < refs.len() && index_key_of(refs[a]) == index_key_of(d)
}

/// An adjacency list as texts.
pub open spec fn adjacency_view(r: Seq<(String, Vec<DataRef>)>) -> Seq<(Seq<char>, Seq<DataRef>)> {
    r.map_values(|e: (String, Vec<DataRef>)| (e.0@, e.1@))
}

/// `a` lists the neighbours of `verb`, ascending and each once, each with
/// its shared references.
pub open spec fn is_adjacency(g: AffinityGraph, verb: Seq<char>, a: Seq<(Seq<char>, Seq<DataRef>)>) -> bool {
    &&& crate::order::strictly_sorted(a.map_values(|e: (Seq<char>, Seq<DataRef>)| e.0))
    &&& a.map_values(|e: (Seq<char>, Seq<DataRef>)| e.0).to_set() == neighbor_verbs(g, verb)
    &&& forall|i: int| 0 <= i < a.len() ==> adjacency_entry(g, verb, (#[trigger] a[i]).0, a[i].1)
}

/// Some pair has verb `v` and a reference with index key `key`.
pub open spec fn pair_covered(ps: Seq<(String, DataRef)>, v: Seq<char>, key: Seq<char>) -> bool {
    exists|q: int| 0 <= q < ps.len() && (#[trigger] ps[q]).0@ == v && index_key_of(ps[q].1) == key
}

/// No two pairs have the same verb and the same reference key.
pub open spec fn pairs_distinct(ps: Seq<(String, DataRef)>) -> bool {
    forall|q1: int, q2: int|
        0 <= q1 < q2 < ps.len() ==> !((#[trigger] ps[q1]).0@ == (#[trigger] ps[q2]).0@
            && index_key_of(ps[q1].1) == index_key_of(ps[q2].1))
}

/// `d` is the reference of some pair with verb `v`.
pub open spec fn from_verb_pair(ps: Seq<(String, DataRef)>, v: Seq<char>, d: DataRef) -> bool {
    exists|q: int| 0 <= q < ps.len() && (#[trigger] ps[q]).0@ == v && ps[q].1 == d
}

fn data_keys(data: &Vec<DataAffinity>) -> (r: Vec<String>)
    ensures
        texts(r@) == data@.map_values(|d: DataAffinity| index_key_of(d.data_ref)),
{
    let mut r: Vec<String> = Vec::new();
    let mut i: usize = 0;
    while i < data.len()
        invariant
            i <= data.len(),
            r@.len() == i,
            forall|k: int| 0 <= k < i ==> (#[trigger] r@[k])@ == index_key_of(data@[k].data_ref),
        decreases data.len() - i,
    {
        r.push(data[i].data_ref.index_key());
        i += 1;
    }
    assert(texts(r@) =~= data@.map_values(|d: DataAffinity| index_key_of(d.data_ref)));
    r
}

fn position_listed(v: &Vec<usize>, j: usize) -> (r: bool)
    ensures
        r == v@.contains(j),
{
    let mut i: usize = 0;
    while i < v.len()
        invariant
            i <= v.len(),
            forall|k: int| 0 <= k < i ==> v@[k] != j,
        decreases v.len() - i,
    {
        if v[i] == j {
            return true;
        }
        i += 1;
    }
    false
}

fn find_pair(ps: &Vec<(String, DataRef)>, v: &str, key: &str) -> (r: bool)
    ensures
        r == pair_covered(ps@, v@, key@),
{
    let mut q: usize = 0;
    while q < ps.len()
        invariant
            q <= ps.len(),
            forall|k: int| 0 <= k < q ==> !((#[trigger] ps@[k]).0@ == v@ && index_key_of(ps@[k].1) == key@),
        decreases ps.len() - q,
    {
        let k = ps[q].1.index_key();
        if text_eq(ps[q].0.as_str(), v) && text_eq(k.as_str(), key) {
            return true;
        }
        q += 1;
    }
    false
}

impl AffinityGraph {
    fn listed_under_keys(&self, keys: &Vec<String>, j: usize) -> (r: bool)
        ensures
            r == exists|k: Seq<char>| texts(keys@).contains(k) && listed_under(*self, k, j as int),
    {
        let mut i: usize = 0;
        while i < keys.len()
            invariant
                i <= keys.len(),
                forall|k: int| 0 <= k < i ==> !listed_under(*self, #[trigger] keys@[k]@, j as int),
            decreases keys.len() - i,
        {
            match find_key(&self.data_to_verb, keys[i].as_str()) {
                Some(p) => {
                    if position_listed(&self.data_to_verb[p].1, j) {
                        assert(texts(keys@)[i as int] == keys@[i as int]@);
                        assert(texts(keys@).contains(keys@[i as int]@));
                        assert(listed_under(*self, keys@[i as int]@, j as int));
                        return true;
                    }
                },
                None => {},
            }
            i += 1;
        }
        proof {
            assert forall|k: Seq<char>| !(texts(keys@).contains(k) && listed_under(*self, k, j as int)) by {
                if texts(keys@).contains(k) {
                    let m = choose|m: int| 0 <= m < texts(keys@).len() && texts(keys@)[m] == k;
                    assert(keys@[m]@ == k);
                }
            }
        }
        false
    }

    /// Every (verb, reference) that shares data with `verb`, one per verb
    /// and reference key, in edge order.
    fn shared_pairs(&self, verb_fqn: &str) -> (ps: Vec<(String, DataRef)>)
        ensures
            forall|q: int| 0 <= q < ps@.len() ==> #[trigger] shared_pair(*self, verb_fqn@, ps@[q].0@, ps@[q].1),
            pairs_distinct(ps@),
            forall|j: int|
                #[trigger] shares_data(*self, verb_fqn@, j) ==> pair_covered(
                    ps@,
                    self.edges@[j].verb_fqn@,
                    index_key_of(self.edges@[j].data_ref),
                ),
    {
        let mine = self.data_for_verb(verb_fqn);
        let keys = data_keys(&mine);
        let ghost vk = verb_data_keys(*self, verb_fqn@);
        assert(texts(keys@) == vk);
        let mut ps: Vec<(String, DataRef)> = Vec::new();
        let mut j: usize = 0;
        while j < self.edges.len()
            invariant
                j <= self.edges.len(),
                texts(keys@) == vk,
                vk == verb_data_keys(*self, verb_fqn@),
                forall|q: int| 0 <= q < ps@.len() ==> #[trigger] shared_pair(*self, verb_fqn@, ps@[q].0@, ps@[q].1),
                pairs_distinct(ps@),
                forall|m: int|
                    0 <= m < j && #[trigger] shares_data(*self, verb_fqn@, m) ==> pair_covered(
                        ps@,
                        self.edges@[m].verb_fqn@,
                        index_key_of(self.edges@[m].data_ref),
                    ),
            decreases self.edges.len() - j,
        {
            let e = &self.edges[j];
            let ghost before = ps@;
            if !text_eq(e.verb_fqn.as_str(), verb_fqn) && self.listed_under_keys(&keys, j) {
                assert(shares_data(*self, verb_fqn@, j as int));
                let key = e.data_ref.index_key();
                if !find_pair(&ps, e.verb_fqn.as_str(), key.as_str()) {
                    ps.push((e.verb_fqn.clone(), e.data_ref.duplicate()));
                    proof {
                        let n = ps@.len() - 1;
                        assert(ps@[n].0@ == e.verb_fqn@ && ps@[n].1 == e.data_ref);
                        assert(shared_pair(*self, verb_fqn@, ps@[n].0@, ps@[n].1));
                        assert forall|q: int| 0 <= q < ps@.len() implies #[trigger] shared_pair(*self, verb_fqn@, ps@[q].0@, ps@[q].1) by {
                            if q < n {
                                assert(ps@[q] == before[q]);
                            }
                        }
                        assert forall|q1: int, q2: int|
                            0 <= q1 < q2 < ps@.len() implies !((#[trigger] ps@[q1]).0@ == (#[trigger] ps@[q2]).0@
                                && index_key_of(ps@[q1].1) == index_key_of(ps@[q2].1)) by {
                            if q2 == n {
                                assert(ps@[q1] == before[q1]);
                            } else {
                                assert(ps@[q1] == before[q1] && ps@[q2] == before[q2]);
                            }
                        }
                        assert forall|m: int|
                            0 <= m < j + 1 && #[trigger] shares_data(*self, verb_fqn@, m) implies pair_covered(
                                ps@,
                                self.edges@[m].verb_fqn@,
                                index_key_of(self.edges@[m].data_ref),
                            ) by {
                            if m < j {
                                let q = choose|q: int| 0 <= q < before.len() && (#[trigger] before[q]).0@ == self.edges@[m].verb_fqn@ && index_key_of(before[q].1) == index_key_of(self.edges@[m].data_ref);
                                assert(ps@[q] == before[q]);
                            } else {
                                assert(ps@[n].0@ == self.edges@[m].verb_fqn@);
                            }
                        }
                    }
                }
            }
            j += 1;
        }
        ps
    }

    /// The references of the pairs with verb `v`, in pair order.
    fn refs_of_verb(ps: &Vec<(String, DataRef)>, v: &str) -> (r: Vec<DataRef>)
        requires
            pairs_distinct(ps@),
        ensures
            forall|a: int| 0 <= a < r@.len() ==> #[trigger] from_verb_pair(ps@, v@, r@[a]),
            forall|q: int| #![trigger ps@[q]] 0 <= q < ps@.len() && ps@[q].0@ == v@ ==> exists|a: int| 0 <= a < r@.len() && r@[a] == ps@[q].1,
            forall|a: int, b: int|
                0 <= a < b < r@.len() ==> index_key_of(#[trigger] r@[a]) != index_key_of(#[trigger] r@[b]),
    {
        let mut r: Vec<DataRef> = Vec::new();
        let ghost mut src: Seq<int> = Seq::empty();
        let mut q: usize = 0;
        while q < ps.len()
            invariant
                q <= ps.len(),
                pairs_distinct(ps@),
                src.len() == r@.len(),
                forall|a: int| 0 <= a < src.len() ==> 0 <= #[trigger] src[a] < q && ps@[src[a]].0@ == v@ && ps@[src[a]].1 == r@[a],
                forall|a: int, b: int| 0 <= a < b < src.len() ==> #[trigger] src[a] < #[trigger] src[b],
                forall|m: int| #![trigger ps@[m]] 0 <= m < q && ps@[m].0@ == v@ ==> exists|a: int| 0 <= a < r@.len() && r@[a] == ps@[m].1,
            decreases ps.len() - q,
        {
            if text_eq(ps[q].0.as_str(), v) {
                let ghost before = r@;
                r.push(ps[q].1.duplicate());
                proof {
                    src = src.push(q as int);
                    assert forall|m: int| #![trigger ps@[m]] 0 <= m < q + 1 && ps@[m].0@ == v@ implies exists|a: int| 0 <= a < r@.len() && r@[a] == ps@[m].1 by {
                        if m < q {
                            let a = choose|a: int| 0 <= a < before.len() && before[a] == ps@[m].1;
                            assert(r@[a] == before[a]);
                        } else {
                            assert(r@[r@.len() - 1] == ps@[m].1);
                        }
                    }
                }
            }
            q += 1;
        }
        proof {
            assert forall|a: int| 0 <= a < r@.len() implies #[trigger] from_verb_pair(ps@, v@, r@[a]) by {
                let q = src[a];
                assert(0 <= q < ps@.len());
                assert(ps@[q].0@ == v@ && ps@[q].1 == r@[a]);
            }
            assert forall|a: int, b: int| 0 <= a < b < r@.len() implies index_key_of(#[trigger] r@[a]) != index_key_of(#[trigger] r@[b]) by {
                assert(src[a] < src[b]);
                assert(ps@[src[a]].0@ == ps@[src[b]].0@);
            }
        }
        r
    }

    /// Verbs sharing data (same index key) with the given verb: each
    /// neighbour once, in ascending order, with the references it shares,
    /// one per index key.
    pub fn adjacent_verbs(&self, verb_fqn: &str) -> (r: Vec<(String, Vec<DataRef>)>)
        ensures
            crate::order::strictly_sorted(r@.map_values(|e: (String, Vec<DataRef>)| e.0@)),
            r@.map_values(|e: (String, Vec<DataRef>)| e.0@).to_set() == neighbor_verbs(*self, verb_fqn@),
            forall|i: int| 0 <= i < r@.len() ==> adjacency_entry(*self, verb_fqn@, (#[trigger] r@[i]).0@, r@[i].1@),
            is_adjacency(*self, verb_fqn@, adjacency_view(r@)),
    {
        let ps = self.shared_pairs(verb_fqn);
        let mut names: Vec<String> = Vec::new();
        let mut i: usize = 0;
        while i < ps.len()
            invariant
                i <= ps.len(),
                names@.len() == i,
                forall|k: int| 0 <= k < i ==> (#[trigger] names@[k])@ == ps@[k].0@,
            decreases ps.len() - i,
        {
            names.push(ps[i].0.clone());
            i += 1;
        }
        let verbs = crate::order::sorted_unique(&names);
        let ghost pv = ps@.map_values(|p: (String, DataRef)| p.0@);
        proof {
            assert(texts(names@) =~= pv);
            assert forall|v: Seq<char>| pv.to_set().contains(v) <==> neighbor_verbs(*self, verb_fqn@).contains(v) by {
                if pv.to_set().contains(v) {
                    let q = choose|q: int| 0 <= q < pv.len() && pv[q] == v;
                    assert(shared_pair(*self, verb_fqn@, ps@[q].0@, ps@[q].1));
                }
                if neighbor_verbs(*self, verb_fqn@).contains(v) {
                    let d = choose|d: DataRef| #[trigger] shared_pair(*self, verb_fqn@, v, d);
                    let j = choose|j: int| #[trigger] shares_data(*self, verb_fqn@, j) && self.edges@[j].verb_fqn@ == v && self.edges@[j].data_ref == d;
                    let q = choose|q: int| 0 <= q < ps@.len() && (#[trigger] ps@[q]).0@ == self.edges@[j].verb_fqn@ && index_key_of(ps@[q].1) == index_key_of(self.edges@[j].data_ref);
                    assert(pv[q] == v);
                }
            }
            assert(pv.to_set() =~= neighbor_verbs(*self, verb_fqn@));
        }
        let mut r: Vec<(String, Vec<DataRef>)> = Vec::new();
        let mut k: usize = 0;
        while k < verbs.len()
            invariant
                k <= verbs.len(),
                r@.len() == k,
                pairs_distinct(ps@),
                forall|q: int| 0 <= q < ps@.len() ==> #[trigger] shared_pair(*self, verb_fqn@, ps@[q].0@, ps@[q].1),
                forall|j: int|
                    #[trigger] shares_data(*self, verb_fqn@, j) ==> pair_covered(
                        ps@,
                        self.edges@[j].verb_fqn@,
                        index_key_of(self.edges@[j].data_ref),
                    ),
                forall|m: int| 0 <= m < k ==> (#[trigger] r@[m]).0@ == verbs@[m]@,
                forall|m: int| 0 <= m < k ==> adjacency_entry(*self, verb_fqn@, (#[trigger] r@[m]).0@, r@[m].1@),
            decreases verbs.len() - k,
        {
            let v = verbs[k].as_str();
            let refs = Self::refs_of_verb(&ps, v);
            proof {
                assert forall|a: int| 0 <= a < refs@.len() implies #[trigger] shared_pair(*self, verb_fqn@, v@, refs@[a]) by {
                    assert(from_verb_pair(ps@, v@, refs@[a]));
                    let q = choose|q: int| 0 <= q < ps@.len() && (#[trigger] ps@[q]).0@ == v@ && ps@[q].1 == refs@[a];
                }
                assert forall|d: DataRef| #[trigger] shared_pair(*self, verb_fqn@, v@, d) implies exists|a: int|
                    0 <= a < refs@.len() && index_key_of(refs@[a]) == index_key_of(d) by {
                    let j = choose|j: int| #[trigger] shares_data(*self, verb_fqn@, j) && self.edges@[j].verb_fqn@ == v@ && self.edges@[j].data_ref == d;
                    let q = choose|q: int| 0 <= q < ps@.len() && (#[trigger] ps@[q]).0@ == self.edges@[j].verb_fqn@ && index_key_of(ps@[q].1) == index_key_of(self.edges@[j].data_ref);
                    let a = choose|a: int| 0 <= a < refs@.len() && refs@[a] == ps@[q].1;
                }
            }
            r.push((verbs[k].clone(), refs));
            k += 1;
        }
        proof {
            assert(r@.map_values(|e: (String, Vec<DataRef>)| e.0@) =~= texts(verbs@));
            assert(texts(names@) =~= pv);
            let av = adjacency_view(r@);
            assert(av.map_values(|e: (Seq<char>, Seq<DataRef>)| e.0) =~= r@.map_values(|e: (String, Vec<DataRef>)| e.0@));
            assert forall|i: int| 0 <= i < av.len() implies adjacency_entry(*self, verb_fqn@, (#[trigger] av[i]).0, av[i].1) by {
                assert(adjacency_entry(*self, verb_fqn@, r@[i].0@, r@[i].1@));
            }
        }
        r
    }
}

} // verus!
