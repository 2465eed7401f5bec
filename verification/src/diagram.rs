//! Diagram model, enrichment and Mermaid rendering: physical schema
//! metadata merged with the affinity graph, and the text of three diagrams.

use vstd::prelude::*;
use vstd::string::*;

use crate::affinity::{AffinityGraph, AffinityKind, VerbAffinity, table_index_key, table_key, verbs_for_key};
use crate::assoc::{find_key, map_of};
use crate::order::{is_stable_order, stable_order};
use crate::text::{contains_text, copy_strings, join2, join3, owned, text_eq, texts};

verus! {

broadcast use vstd::string::group_string_axioms;

// ── Input types ─────────────────────────────────────────────────

/// Physical table metadata provided by the caller.
#[derive(Debug, Clone)]
pub struct TableInput {
    pub schema: String,
    pub table_name: String,
    pub columns: Vec<ColumnInput>,
    pub primary_keys: Vec<String>,
    pub foreign_keys: Vec<ForeignKeyInput>,
}

/// Physical column metadata.
#[derive(Debug, Clone)]
pub struct ColumnInput {
    pub name: String,
    pub sql_type: String,
    pub is_nullable: bool,
}

/// Foreign key relationship from the physical schema.
#[derive(Debug, Clone)]
pub struct ForeignKeyInput {
    pub from_column: String,
    pub target_schema: String,
    pub target_table: String,
    pub target_column: String,
}

// ── Enriched model ──────────────────────────────────────────────

/// Enriched diagram model: entities, relationships and metadata.
#[derive(Debug, Clone)]
pub struct DiagramModel {
    pub entities: Vec<DiagramEntity>,
    pub relationships: Vec<DiagramRelationship>,
    pub metadata: DiagramMetadata,
}

/// Metadata about the generated diagram.
#[derive(Debug, Clone, Copy)]
pub struct DiagramMetadata {
    pub total_tables: usize,
    pub included_tables: usize,
    pub filtered: bool,
}

/// A physical table with its entity type and verb surface.
#[derive(Debug, Clone)]
pub struct DiagramEntity {
    pub schema: String,
    pub table_name: String,
    pub entity_type_fqn: Option<String>,
    pub attributes: Vec<DiagramAttribute>,
    pub primary_keys: Vec<String>,
    pub verb_surface: Vec<VerbSurfaceEntry>,
    pub governance_level: GovernanceLevel,
}

/// An enriched column.
#[derive(Debug, Clone)]
pub struct DiagramAttribute {
    pub name: String,
    pub sql_type: String,
    pub is_nullable: bool,
    pub is_pk: bool,
    pub is_fk: bool,
    pub attribute_fqn: Option<String>,
    pub producing_verbs: Vec<String>,
    pub consuming_verbs: Vec<String>,
}

/// A verb that operates on a table.
#[derive(Debug, Clone)]
pub struct VerbSurfaceEntry {
    pub verb_fqn: String,
    pub relation: String,
}

/// A relationship between two entities.
#[derive(Debug, Clone)]
pub struct DiagramRelationship {
    pub from_entity: String,
    pub to_entity: String,
    pub kind: RelationshipKind,
    pub cardinality: Option<String>,
    pub fk_column: Option<String>,
}

/// How two entities are related.
#[derive(Debug, Clone, Copy, PartialEq, Eq, Structural)]
pub enum RelationshipKind {
    ForeignKey,
    EntityRelationship,
}

/// Governance classification based on registry coverage.
#[derive(Debug, Clone, Copy, PartialEq, Eq, Structural)]
pub enum GovernanceLevel {
    Full,
    Partial,
    Ungoverned,
}

/// Options controlling diagram rendering.
#[derive(Debug, Clone)]
pub struct RenderOptions {
    pub schema_filter: Option<Vec<String>>,
    pub domain_filter: Option<String>,
    pub include_columns: bool,
    pub show_governance: bool,
    pub max_tables: Option<usize>,
    pub format: Option<String>,
    pub show_verb_surface: bool,
    pub show_affinity_kind: bool,
}

impl Default for RenderOptions {
    fn default() -> (r: Self)
        ensures
            r.schema_filter is None,
            r.domain_filter is None,
            !r.include_columns,
            !r.show_governance,
            r.max_tables is None,
            r.format is None,
            !r.show_verb_surface,
            !r.show_affinity_kind,
    {
        RenderOptions {
            schema_filter: None,
            domain_filter: None,
            include_columns: false,
            show_governance: false,
            max_tables: None,
            format: None,
            show_verb_surface: false,
            show_affinity_kind: false,
        }
    }
}

// ── Views ───────────────────────────────────────────────────────

pub open spec fn opt_text(o: Option<String>) -> Option<Seq<char>> {
    match o {
        Some(s) => Some(s@),
        None => None,
    }
}

pub struct AttributeView {
    pub name: Seq<char>,
    pub sql_type: Seq<char>,
    pub is_nullable: bool,
    pub is_pk: bool,
    pub is_fk: bool,
    pub attribute_fqn: Option<Seq<char>>,
    pub producing_verbs: Seq<Seq<char>>,
    pub consuming_verbs: Seq<Seq<char>>,
}

pub struct VerbSurfaceView {
    pub verb_fqn: Seq<char>,
    pub relation: Seq<char>,
}

pub struct EntityView {
    pub schema: Seq<char>,
    pub table_name: Seq<char>,
    pub entity_type_fqn: Option<Seq<char>>,
    pub attributes: Seq<AttributeView>,
    pub primary_keys: Seq<Seq<char>>,
    pub verb_surface: Seq<VerbSurfaceView>,
    pub governance_level: GovernanceLevel,
}

pub struct RelationshipView {
    pub from_entity: Seq<char>,
    pub to_entity: Seq<char>,
    pub kind: RelationshipKind,
    pub cardinality: Option<Seq<char>>,
    pub fk_column: Option<Seq<char>>,
}

impl View for DiagramAttribute {
    type V = AttributeView;

    open spec fn view(&self) -> AttributeView {
        AttributeView {
            name: self.name@,
            sql_type: self.sql_type@,
            is_nullable: self.is_nullable,
            is_pk: self.is_pk,
            is_fk: self.is_fk,
            attribute_fqn: opt_text(self.attribute_fqn),
            producing_verbs: texts(self.producing_verbs@),
            consuming_verbs: texts(self.consuming_verbs@),
        }
    }
}

impl View for VerbSurfaceEntry {
    type V = VerbSurfaceView;

    open spec fn view(&self) -> VerbSurfaceView {
        VerbSurfaceView { verb_fqn: self.verb_fqn@, relation: self.relation@ }
    }
}

impl View for DiagramEntity {
    type V = EntityView;

    open spec fn view(&self) -> EntityView {
        EntityView {
            schema: self.schema@,
            table_name: self.table_name@,
            entity_type_fqn: opt_text(self.entity_type_fqn),
            attributes: self.attributes@.map_values(|a: DiagramAttribute| a@),
            primary_keys: texts(self.primary_keys@),
            verb_surface: self.verb_surface@.map_values(|v: VerbSurfaceEntry| v@),
            governance_level: self.governance_level,
        }
    }
}

impl View for DiagramRelationship {
    type V = RelationshipView;

    open spec fn view(&self) -> RelationshipView {
        RelationshipView {
            from_entity: self.from_entity@,
            to_entity: self.to_entity@,
            kind: self.kind,
            cardinality: opt_text(self.cardinality),
            fk_column: opt_text(self.fk_column),
        }
    }
}

// ── Convenience constructors ────────────────────────────────────

impl DiagramModel {
    /// An empty diagram model.
    pub fn empty() -> (r: Self)
        ensures
            r.entities@.len() == 0,
            r.relationships@.len() == 0,
            r.metadata.total_tables == 0,
            r.metadata.included_tables == 0,
            !r.metadata.filtered,
    {
        DiagramModel {
            entities: Vec::new(),
            relationships: Vec::new(),
            metadata: DiagramMetadata { total_tables: 0, included_tables: 0, filtered: false },
        }
    }
}

/// `schema:table`, the stable sort key of an entity.
pub open spec fn entity_key(schema: Seq<char>, table: Seq<char>) -> Seq<char> {
    schema + ":"@ + table
}

impl DiagramEntity {
    /// Stable sort key for deterministic output: `schema:table_name`.
    pub fn sort_key(&self) -> (r: String)
        ensures
            r@ == entity_key(self.schema@, self.table_name@),
    {
        join3(self.schema.as_str(), ":", self.table_name.as_str())
    }
}

// ── Labels ──────────────────────────────────────────────────────

/// Human-readable label of an affinity kind.
pub open spec fn kind_label(k: AffinityKind) -> Seq<char> {
    match k {
        AffinityKind::Produces => "produces"@,
        AffinityKind::Consumes => "consumes"@,
        AffinityKind::CrudRead => "crud_read"@,
        AffinityKind::CrudInsert => "crud_insert"@,
        AffinityKind::CrudUpdate => "crud_update"@,
        AffinityKind::CrudDelete => "crud_delete"@,
        AffinityKind::ArgLookup { arg_name } => "arg_lookup:"@ + arg_name@,
        AffinityKind::ProducesAttribute => "produces_attribute"@,
        AffinityKind::ConsumesAttribute { arg_name } => "consumes_attribute:"@ + arg_name@,
    }
}

/// Human-readable label for an affinity kind.
pub fn affinity_kind_label(kind: &AffinityKind) -> (r: String)
    ensures
        r@ == kind_label(*kind),
{
    match kind {
        AffinityKind::Produces => owned("produces"),
        AffinityKind::Consumes => owned("consumes"),
        AffinityKind::CrudRead => owned("crud_read"),
        AffinityKind::CrudInsert => owned("crud_insert"),
        AffinityKind::CrudUpdate => owned("crud_update"),
        AffinityKind::CrudDelete => owned("crud_delete"),
        AffinityKind::ArgLookup { arg_name } => join2("arg_lookup:", arg_name.as_str()),
        AffinityKind::ProducesAttribute => owned("produces_attribute"),
        AffinityKind::ConsumesAttribute { arg_name } => join2("consumes_attribute:", arg_name.as_str()),
    }
}

} // verus!

verus! {

// ── Enrichment specification ────────────────────────────────────

/// The attribute mapped to a column key (`schema:table:column`): the first
/// mapping whose column has that key.
pub open spec fn column_attribute(list: Seq<(String, crate::affinity::ColumnRef)>, key: Seq<char>) -> Option<Seq<char>>
    decreases list.len(),
{
    if list.len() == 0 {
        None
    } else if crate::affinity::column_key(list[0].1) == key {
        Some(list[0].0@)
    } else {
        column_attribute(list.drop_first(), key)
    }
}

/// The verbs of `vs` that produce (`produce`) or consume an attribute.
pub open spec fn verbs_with_kind(vs: Seq<VerbAffinity>, produce: bool) -> Seq<Seq<char>>
    decreases vs.len(),
{
    if vs.len() == 0 {
        Seq::empty()
    } else {
        let rest = verbs_with_kind(vs.drop_last(), produce);
        let v = vs.last();
        if (produce && v.affinity_kind is ProducesAttribute) || (!produce
            && v.affinity_kind is ConsumesAttribute) {
            rest.push(v.verb_fqn@)
        } else {
            rest
        }
    }
}

pub open spec fn fk_columns(fks: Seq<ForeignKeyInput>) -> Seq<Seq<char>> {
    fks.map_values(|fk: ForeignKeyInput| fk.from_column@)
}

/// The enriched view of one column of a table.
pub open spec fn attribute_spec(g: AffinityGraph, t: TableInput, c: ColumnInput) -> AttributeView {
    let fqn = column_attribute(
        g.attribute_to_column@,
        t.schema@ + ":"@ + t.table_name@ + ":"@ + c.name@,
    );
    let verbs = match fqn {
        Some(f) => verbs_for_key(g, "attribute:"@ + f),
        None => Seq::empty(),
    };
    AttributeView {
        name: c.name@,
        sql_type: c.sql_type@,
        is_nullable: c.is_nullable,
        is_pk: texts(t.primary_keys@).contains(c.name@),
        is_fk: fk_columns(t.foreign_keys@).contains(c.name@),
        attribute_fqn: fqn,
        producing_verbs: verbs_with_kind(verbs, true),
        consuming_verbs: verbs_with_kind(verbs, false),
    }
}

pub open spec fn surface_of(vs: Seq<VerbAffinity>) -> Seq<VerbSurfaceView> {
    vs.map_values(|va: VerbAffinity| VerbSurfaceView { verb_fqn: va.verb_fqn@, relation: kind_label(va.affinity_kind) })
}

/// Full with an entity type and verbs, partial with one of them, none without.
pub open spec fn level_of(has_entity: bool, has_verbs: bool) -> GovernanceLevel {
    if has_entity && has_verbs {
        GovernanceLevel::Full
    } else if has_entity || has_verbs {
        GovernanceLevel::Partial
    } else {
        GovernanceLevel::Ungoverned
    }
}

/// The entity type registered for a table, if any.
pub open spec fn entity_type_of(g: AffinityGraph, t: TableInput) -> Option<Seq<char>> {
    let k = entity_key(t.schema@, t.table_name@);
    if map_of(g.table_to_entity@).contains_key(k) {
        Some(map_of(g.table_to_entity@)[k]@)
    } else {
        None
    }
}

/// The enriched entity of a table.
pub open spec fn entity_spec(g: AffinityGraph, t: TableInput) -> EntityView {
    let vs = surface_of(verbs_for_key(g, table_index_key(t.schema@, t.table_name@)));
    let ef = entity_type_of(g, t);
    EntityView {
        schema: t.schema@,
        table_name: t.table_name@,
        entity_type_fqn: ef,
        attributes: t.columns@.map_values(|c: ColumnInput| attribute_spec(g, t, c)),
        primary_keys: texts(t.primary_keys@),
        verb_surface: vs,
        governance_level: level_of(ef is Some, vs.len() > 0),
    }
}

// ── Enrichment steps ────────────────────────────────────────────

fn column_attribute_of(list: &Vec<(String, crate::affinity::ColumnRef)>, key: &str) -> (r: Option<String>)
    ensures
        opt_text(r) == column_attribute(list@, key@),
{
    let mut i: usize = 0;
    assert(list@.skip(0) =~= list@);
    while i < list.len()
        invariant
            i <= list.len(),
            column_attribute(list@, key@) == column_attribute(list@.skip(i as int), key@),
        decreases list.len() - i,
    {
        let c = &list[i].1;
        let mut ck = join3(c.schema.as_str(), ":", c.table.as_str());
        ck.append(":");
        ck.append(c.column.as_str());
        proof {
            assert(list@.skip(i as int)[0] == list@[i as int]);
            assert(list@.skip(i as int).drop_first() =~= list@.skip(i + 1));
        }
        if text_eq(ck.as_str(), key) {
            return Some(list[i].0.clone());
        }
        i += 1;
    }
    None
}

fn verbs_with_kind_of(vs: &Vec<VerbAffinity>, produce: bool) -> (r: Vec<String>)
    ensures
        texts(r@) == verbs_with_kind(vs@, produce),
{
    let mut r: Vec<String> = Vec::new();
    let mut k: usize = 0;
    while k < vs.len()
        invariant
            k <= vs.len(),
            texts(r@) == verbs_with_kind(vs@.take(k as int), produce),
        decreases vs.len() - k,
    {
        proof {
            assert(vs@.take(k + 1).drop_last() =~= vs@.take(k as int));
            assert(vs@.take(k + 1).last() == vs@[k as int]);
        }
        let hit = match &vs[k].affinity_kind {
            AffinityKind::ProducesAttribute => produce,
            AffinityKind::ConsumesAttribute { .. } => !produce,
            _ => false,
        };
        let ghost before = r@;
        if hit {
            r.push(vs[k].verb_fqn.clone());
            assert(texts(r@) =~= texts(before).push(vs@[k as int].verb_fqn@));
        }
        k += 1;
    }
    assert(vs@.take(vs.len() as int) =~= vs@);
    r
}

fn fk_columns_contain(fks: &Vec<ForeignKeyInput>, name: &str) -> (r: bool)
    ensures
        r == fk_columns(fks@).contains(name@),
{
    let mut i: usize = 0;
    while i < fks.len()
        invariant
            i <= fks.len(),
            forall|j: int| 0 <= j < i ==> fks@[j].from_column@ != name@,
        decreases fks.len() - i,
    {
        if text_eq(fks[i].from_column.as_str(), name) {
            assert(fk_columns(fks@)[i as int] == name@);
            return true;
        }
        i += 1;
    }
    proof {
        if fk_columns(fks@).contains(name@) {
            let q = choose|q: int| 0 <= q < fk_columns(fks@).len() && fk_columns(fks@)[q] == name@;
            assert(fks@[q].from_column@ == name@);
        }
    }
    false
}

fn attribute_for_column(g: &AffinityGraph, t: &TableInput, c: &ColumnInput) -> (r: DiagramAttribute)
    ensures
        r@ == attribute_spec(*g, *t, *c),
{
    let mut key = join3(t.schema.as_str(), ":", t.table_name.as_str());
    key.append(":");
    key.append(c.name.as_str());
    let attribute_fqn = column_attribute_of(&g.attribute_to_column, key.as_str());
    let (producing_verbs, consuming_verbs) = match &attribute_fqn {
        Some(fqn) => {
            let attr_verbs = g.verbs_for_attribute(fqn.as_str());
            (verbs_with_kind_of(&attr_verbs, true), verbs_with_kind_of(&attr_verbs, false))
        },
        None => {
            let empty: Vec<VerbAffinity> = Vec::new();
            (verbs_with_kind_of(&empty, true), verbs_with_kind_of(&empty, false))
        },
    };
    let is_pk = contains_text(&t.primary_keys, c.name.as_str());
    let is_fk = fk_columns_contain(&t.foreign_keys, c.name.as_str());
    let r = DiagramAttribute {
        name: c.name.clone(),
        sql_type: c.sql_type.clone(),
        is_nullable: c.is_nullable,
        is_pk,
        is_fk,
        attribute_fqn,
        producing_verbs,
        consuming_verbs,
    };
    proof {
        let s = attribute_spec(*g, *t, *c);
        assert(r@.producing_verbs =~= s.producing_verbs);
        assert(r@.consuming_verbs =~= s.consuming_verbs);
    }
    r
}

/// The enriched entity of one physical table.
fn entity_for_table(g: &AffinityGraph, t: &TableInput) -> (r: DiagramEntity)
    ensures
        r@ == entity_spec(*g, *t),
{
    let table_key_text = join3(t.schema.as_str(), ":", t.table_name.as_str());
    let entity_type_fqn = match find_key(&g.table_to_entity, table_key_text.as_str()) {
        Some(i) => Some(g.table_to_entity[i].1.clone()),
        None => None,
    };
    let verb_affinities = g.verbs_for_table(t.schema.as_str(), t.table_name.as_str());
    let mut verb_surface: Vec<VerbSurfaceEntry> = Vec::new();
    let mut k: usize = 0;
    while k < verb_affinities.len()
        invariant
            k <= verb_affinities.len(),
            verb_surface@.map_values(|v: VerbSurfaceEntry| v@) == surface_of(verb_affinities@.take(k as int)),
        decreases verb_affinities.len() - k,
    {
        let va = &verb_affinities[k];
        let entry = VerbSurfaceEntry {
            verb_fqn: va.verb_fqn.clone(),
            relation: affinity_kind_label(&va.affinity_kind),
        };
        let ghost before = verb_surface@;
        let ghost ev = entry@;
        verb_surface.push(entry);
        proof {
            assert(verb_surface@.map_values(|v: VerbSurfaceEntry| v@) =~= before.map_values(|v: VerbSurfaceEntry| v@).push(ev));
            assert(verb_affinities@.take(k + 1) =~= verb_affinities@.take(k as int).push(verb_affinities@[k as int]));
            assert(surface_of(verb_affinities@.take(k + 1)) =~= surface_of(verb_affinities@.take(k as int)).push(ev));
        }
        k += 1;
    }
    assert(verb_affinities@.take(verb_affinities.len() as int) =~= verb_affinities@);
    let mut attributes: Vec<DiagramAttribute> = Vec::new();
    let mut j: usize = 0;
    while j < t.columns.len()
        invariant
            j <= t.columns.len(),
            attributes@.map_values(|a: DiagramAttribute| a@) == t.columns@.take(j as int).map_values(
                |c: ColumnInput| attribute_spec(*g, *t, c),
            ),
        decreases t.columns.len() - j,
    {
        let a = attribute_for_column(g, t, &t.columns[j]);
        let ghost before = attributes@;
        let ghost av = a@;
        attributes.push(a);
        proof {
            assert(attributes@.map_values(|a: DiagramAttribute| a@) =~= before.map_values(|a: DiagramAttribute| a@).push(av));
            assert(t.columns@.take(j + 1) =~= t.columns@.take(j as int).push(t.columns@[j as int]));
            assert(t.columns@.take(j + 1).map_values(|c: ColumnInput| attribute_spec(*g, *t, c)) =~= t.columns@.take(j as int).map_values(
                |c: ColumnInput| attribute_spec(*g, *t, c)).push(av));
        }
        j += 1;
    }
    assert(t.columns@.take(t.columns.len() as int) =~= t.columns@);
    let has_entity = entity_type_fqn.is_some();
    let has_verbs = verb_surface.len() > 0;
    let governance_level = if has_entity && has_verbs {
        GovernanceLevel::Full
    } else if has_entity || has_verbs {
        GovernanceLevel::Partial
    } else {
        GovernanceLevel::Ungoverned
    };
    let r = DiagramEntity {
        schema: t.schema.clone(),
        table_name: t.table_name.clone(),
        entity_type_fqn,
        attributes,
        primary_keys: copy_strings(&t.primary_keys),
        verb_surface,
        governance_level,
    };
    proof {
        let s = entity_spec(*g, *t);
        assert(r@.attributes =~= s.attributes);
        assert(r@.verb_surface =~= s.verb_surface);
        assert(r@.primary_keys =~= s.primary_keys);
    }
    r
}

} // verus!

verus! {

// ── Relationships and filters ───────────────────────────────────

/// The foreign-key relationships of one table, in declaration order.
pub open spec fn table_fk_rels(t: TableInput) -> Seq<RelationshipView> {
    t.foreign_keys@.map_values(
        |fk: ForeignKeyInput|
            RelationshipView {
                from_entity: entity_key(t.schema@, t.table_name@),
                to_entity: entity_key(fk.target_schema@, fk.target_table@),
                kind: RelationshipKind::ForeignKey,
                cardinality: Some("N:1"@),
                fk_column: Some(fk.from_column@),
            },
    )
}

/// The foreign-key relationships of all tables, table by table.
pub open spec fn fk_rels(tables: Seq<TableInput>) -> Seq<RelationshipView>
    decreases tables.len(),
{
    if tables.len() == 0 {
        Seq::empty()
    } else {
        fk_rels(tables.drop_last()) + table_fk_rels(tables.last())
    }
}

/// The entity types that some table of the input resolves to.
pub open spec fn included_entities(g: AffinityGraph, tables: Seq<TableInput>) -> Set<Seq<char>> {
    Set::new(
        |f: Seq<char>| exists|i: int| 0 <= i < tables.len() && entity_type_of(g, #[trigger] tables[i]) == Some(f),
    )
}

/// An entity type's table key when it has a table, else the entity type itself.
pub open spec fn rel_endpoint(g: AffinityGraph, e: Seq<char>) -> Seq<char> {
    if map_of(g.entity_to_table@).contains_key(e) {
        table_key(map_of(g.entity_to_table@)[e])
    } else {
        e
    }
}

/// The entity-level relationships whose both ends are included entity types.
pub open spec fn entity_rels(
    g: AffinityGraph,
    inc: Set<Seq<char>>,
    rels: Seq<crate::affinity::EntityRelationship>,
) -> Seq<RelationshipView>
    decreases rels.len(),
{
    if rels.len() == 0 {
        Seq::empty()
    } else {
        let rest = entity_rels(g, inc, rels.drop_last());
        let r = rels.last();
        if inc.contains(r.source_entity_type_fqn@) && inc.contains(r.target_entity_type_fqn@) {
            rest.push(
                RelationshipView {
                    from_entity: rel_endpoint(g, r.source_entity_type_fqn@),
                    to_entity: rel_endpoint(g, r.target_entity_type_fqn@),
                    kind: RelationshipKind::EntityRelationship,
                    cardinality: Some(r.cardinality@),
                    fk_column: None,
                },
            )
        } else {
            rest
        }
    }
}

/// `t` passes the schema filter and the domain (table-name prefix) filter.
pub open spec fn passes_filters(t: TableInput, o: RenderOptions) -> bool {
    &&& match o.schema_filter {
        Some(f) => texts(f@).contains(t.schema@),
        None => true,
    }
    &&& match o.domain_filter {
        Some(d) => t.table_name@.len() >= d@.len() && t.table_name@.take(d@.len() as int) == d@,
        None => true,
    }
}

/// The tables that pass the filters, in input order.
pub open spec fn filtered_tables(tables: Seq<TableInput>, o: RenderOptions) -> Seq<TableInput>
    decreases tables.len(),
{
    if tables.len() == 0 {
        Seq::empty()
    } else {
        let rest = filtered_tables(tables.drop_last(), o);
        if passes_filters(tables.last(), o) {
            rest.push(tables.last())
        } else {
            rest
        }
    }
}

/// The tables kept in the diagram: filtered, then cut to `max_tables`.
pub open spec fn kept_tables(tables: Seq<TableInput>, o: RenderOptions) -> Seq<TableInput> {
    let f = filtered_tables(tables, o);
    match o.max_tables {
        Some(m) => if (m as int) < f.len() {
            f.take(m as int)
        } else {
            f
        },
        None => f,
    }
}

pub open spec fn kept_keys(kept: Seq<TableInput>) -> Set<Seq<char>> {
    Set::new(
        |k: Seq<char>| exists|i: int| 0 <= i < kept.len() && entity_key(#[trigger] kept[i].schema@, kept[i].table_name@) == k,
    )
}

/// The relationships whose both ends are kept entities.
pub open spec fn retained_rels(rels: Seq<RelationshipView>, keys: Set<Seq<char>>) -> Seq<RelationshipView>
    decreases rels.len(),
{
    if rels.len() == 0 {
        Seq::empty()
    } else {
        let rest = retained_rels(rels.drop_last(), keys);
        let r = rels.last();
        if keys.contains(r.from_entity) && keys.contains(r.to_entity) {
            rest.push(r)
        } else {
            rest
        }
    }
}

pub open spec fn entity_sort_keys(kept: Seq<TableInput>) -> Seq<Seq<Seq<char>>> {
    kept.map_values(|t: TableInput| seq![entity_key(t.schema@, t.table_name@)])
}

pub open spec fn rel_sort_keys(rels: Seq<RelationshipView>) -> Seq<Seq<Seq<char>>> {
    rels.map_values(|r: RelationshipView| seq![r.from_entity, r.to_entity])
}

/// All relationship candidates of the model before the kept-entity filter.
pub open spec fn candidate_rels(g: AffinityGraph, tables: Seq<TableInput>) -> Seq<RelationshipView> {
    fk_rels(tables) + entity_rels(g, included_entities(g, tables), g.entity_relationships@)
}

impl DiagramRelationship {
    fn duplicate(&self) -> (r: Self)
        ensures
            r@ == self@,
    {
        DiagramRelationship {
            from_entity: self.from_entity.clone(),
            to_entity: self.to_entity.clone(),
            kind: self.kind,
            cardinality: crate::text::copy_opt(&self.cardinality),
            fk_column: crate::text::copy_opt(&self.fk_column),
        }
    }
}

fn entity_type_text(g: &AffinityGraph, t: &TableInput) -> (r: Option<String>)
    ensures
        opt_text(r) == entity_type_of(*g, *t),
{
    let k = join3(t.schema.as_str(), ":", t.table_name.as_str());
    match find_key(&g.table_to_entity, k.as_str()) {
        Some(i) => Some(g.table_to_entity[i].1.clone()),
        None => None,
    }
}

fn rel_endpoint_text(g: &AffinityGraph, e: &String) -> (r: String)
    ensures
        r@ == rel_endpoint(*g, e@),
{
    match find_key(&g.entity_to_table, e.as_str()) {
        Some(i) => g.entity_to_table[i].1.key(),
        None => e.clone(),
    }
}

fn foreign_key_relationships(tables: &Vec<TableInput>) -> (r: Vec<DiagramRelationship>)
    ensures
        r@.map_values(|x: DiagramRelationship| x@) == fk_rels(tables@),
{
    let mut r: Vec<DiagramRelationship> = Vec::new();
    let mut i: usize = 0;
    while i < tables.len()
        invariant
            i <= tables.len(),
            r@.map_values(|x: DiagramRelationship| x@) == fk_rels(tables@.take(i as int)),
        decreases tables.len() - i,
    {
        let t = &tables[i];
        let from_entity = join3(t.schema.as_str(), ":", t.table_name.as_str());
        let ghost base = r@.map_values(|x: DiagramRelationship| x@);
        let mut j: usize = 0;
        while j < t.foreign_keys.len()
            invariant
                j <= t.foreign_keys.len(),
                from_entity@ == entity_key(t.schema@, t.table_name@),
                r@.map_values(|x: DiagramRelationship| x@) == base + table_fk_rels(*t).take(j as int),
            decreases t.foreign_keys.len() - j,
        {
            let fk = &t.foreign_keys[j];
            let rel = DiagramRelationship {
                from_entity: from_entity.clone(),
                to_entity: join3(fk.target_schema.as_str(), ":", fk.target_table.as_str()),
                kind: RelationshipKind::ForeignKey,
                cardinality: Some(owned("N:1")),
                fk_column: Some(fk.from_column.clone()),
            };
            let ghost before = r@;
            let ghost rv = rel@;
            r.push(rel);
            proof {
                assert(r@.map_values(|x: DiagramRelationship| x@) =~= before.map_values(|x: DiagramRelationship| x@).push(rv));
                assert(table_fk_rels(*t).take(j + 1) =~= table_fk_rels(*t).take(j as int).push(rv));
                assert(base + table_fk_rels(*t).take(j + 1) =~= (base + table_fk_rels(*t).take(j as int)).push(rv));
            }
            j += 1;
        }
        proof {
            assert(table_fk_rels(*t).take(t.foreign_keys.len() as int) =~= table_fk_rels(*t));
            assert(tables@.take(i + 1).drop_last() =~= tables@.take(i as int));
            assert(tables@.take(i + 1).last() == *t);
        }
        i += 1;
    }
    assert(tables@.take(tables.len() as int) =~= tables@);
    r
}

fn included_entity_texts(g: &AffinityGraph, tables: &Vec<TableInput>) -> (r: Vec<String>)
    ensures
        forall|f: Seq<char>| texts(r@).contains(f) <==> included_entities(*g, tables@).contains(f),
{
    let mut r: Vec<String> = Vec::new();
    let mut i: usize = 0;
    while i < tables.len()
        invariant
            i <= tables.len(),
            forall|f: Seq<char>|
                texts(r@).contains(f) <==> (exists|k: int|
                    0 <= k < i && entity_type_of(*g, #[trigger] tables@[k]) == Some(f)),
        decreases tables.len() - i,
    {
        let et = entity_type_text(g, &tables[i]);
        let ghost before = texts(r@);
        match et {
            Some(f) => {
                r.push(f);
            },
            None => {},
        }
        proof {
            let after = texts(r@);
            assert forall|f: Seq<char>| after.contains(f) <==> (exists|k: int|
                0 <= k < i + 1 && entity_type_of(*g, #[trigger] tables@[k]) == Some(f)) by {
                if entity_type_of(*g, tables@[i as int]) is Some {
                    assert(after =~= before.push(entity_type_of(*g, tables@[i as int])->0));
                } else {
                    assert(after =~= before);
                }
                if before.contains(f) {
                    let q = choose|q: int| 0 <= q < before.len() && before[q] == f;
                    assert(after[q] == f);
                }
                if entity_type_of(*g, tables@[i as int]) == Some(f) {
                    assert(after[after.len() - 1] == f);
                }
            }
        }
        i += 1;
    }
    r
}

fn entity_relationships_of(g: &AffinityGraph, tables: &Vec<TableInput>) -> (r: Vec<DiagramRelationship>)
    ensures
        r@.map_values(|x: DiagramRelationship| x@) == entity_rels(
            *g,
            included_entities(*g, tables@),
            g.entity_relationships@,
        ),
{
    let inc = included_entity_texts(g, tables);
    let ghost incs = included_entities(*g, tables@);
    let rels = &g.entity_relationships;
    let mut r: Vec<DiagramRelationship> = Vec::new();
    let mut i: usize = 0;
    while i < rels.len()
        invariant
            i <= rels.len(),
            rels == &g.entity_relationships,
            incs == included_entities(*g, tables@),
            forall|f: Seq<char>| texts(inc@).contains(f) <==> incs.contains(f),
            r@.map_values(|x: DiagramRelationship| x@) == entity_rels(*g, incs, rels@.take(i as int)),
        decreases rels.len() - i,
    {
        proof {
            assert(rels@.take(i + 1).drop_last() =~= rels@.take(i as int));
            assert(rels@.take(i + 1).last() == rels@[i as int]);
        }
        let rel = &rels[i];
        if contains_text(&inc, rel.source_entity_type_fqn.as_str()) && contains_text(
            &inc,
            rel.target_entity_type_fqn.as_str(),
        ) {
            let d = DiagramRelationship {
                from_entity: rel_endpoint_text(g, &rel.source_entity_type_fqn),
                to_entity: rel_endpoint_text(g, &rel.target_entity_type_fqn),
                kind: RelationshipKind::EntityRelationship,
                cardinality: Some(rel.cardinality.clone()),
                fk_column: None,
            };
            let ghost before = r@;
            let ghost dv = d@;
            r.push(d);
            assert(r@.map_values(|x: DiagramRelationship| x@) =~= before.map_values(|x: DiagramRelationship| x@).push(dv));
        }
        i += 1;
    }
    assert(rels@.take(rels.len() as int) =~= rels@);
    r
}

} // verus!

verus! {

fn passes_filters_exec(t: &TableInput, o: &RenderOptions) -> (r: bool)
    ensures
        r == passes_filters(*t, *o),
{
    let schema_ok = match &o.schema_filter {
        Some(f) => contains_text(f, t.schema.as_str()),
        None => true,
    };
    let domain_ok = match &o.domain_filter {
        Some(d) => crate::text::starts_with_text(t.table_name.as_str(), d.as_str()),
        None => true,
    };
    schema_ok && domain_ok
}

/// Build an enriched diagram model from physical tables and an affinity graph:
/// one entity per kept table (entity type, verb surface, annotated columns,
/// governance level), foreign-key and entity-level relationships between kept
/// entities, both sorted stably by their keys.
pub fn build_diagram_model(
    tables: &Vec<TableInput>,
    graph: &AffinityGraph,
    options: &RenderOptions,
) -> (model: DiagramModel)
    ensures
        ({
            let kept = kept_tables(tables@, *options);
            let rels = retained_rels(candidate_rels(*graph, tables@), kept_keys(kept));
            &&& model.metadata.total_tables == tables@.len()
            &&& model.metadata.included_tables == kept.len()
            &&& model.metadata.filtered == (kept.len() < tables@.len())
            &&& model.entities@.len() == kept.len()
            &&& exists|p: Seq<usize>|
                is_stable_order(entity_sort_keys(kept), p) && forall|i: int|
                    0 <= i < kept.len() ==> (#[trigger] model.entities@[i])@ == entity_spec(*graph, kept[p[i] as int])
            &&& model.relationships@.len() == rels.len()
            &&& exists|q: Seq<usize>|
                is_stable_order(rel_sort_keys(rels), q) && forall|i: int|
                    0 <= i < rels.len() ==> (#[trigger] model.relationships@[i])@ == rels[q[i] as int]
        }),
{
    let total_tables = tables.len();
    let ghost kept_spec = kept_tables(tables@, *options);
    // Relationship candidates.
    let mut cands = foreign_key_relationships(tables);
    let mut ents = entity_relationships_of(graph, tables);
    let ghost fk_part = cands@;
    let ghost ent_part = ents@;
    cands.append(&mut ents);
    proof {
        assert(cands@ == fk_part + ent_part);
        assert(cands@.map_values(|x: DiagramRelationship| x@) =~= fk_part.map_values(|x: DiagramRelationship| x@)
            + ent_part.map_values(|x: DiagramRelationship| x@));
    }
    let ghost cand_spec = candidate_rels(*graph, tables@);
    // Filters.
    let mut kept_idx: Vec<usize> = Vec::new();
    let mut k: usize = 0;
    while k < tables.len()
        invariant
            k <= tables.len(),
            forall|j: int| 0 <= j < kept_idx.len() ==> #[trigger] kept_idx@[j] < tables.len(),
            kept_idx@.map_values(|j: usize| tables@[j as int]) == filtered_tables(tables@.take(k as int), *options),
        decreases tables.len() - k,
    {
        proof {
            assert(tables@.take(k + 1).drop_last() =~= tables@.take(k as int));
            assert(tables@.take(k + 1).last() == tables@[k as int]);
        }
        if passes_filters_exec(&tables[k], options) {
            let ghost before = kept_idx@;
            kept_idx.push(k);
            assert(kept_idx@.map_values(|j: usize| tables@[j as int]) =~= before.map_values(
                |j: usize| tables@[j as int],
            ).push(tables@[k as int]));
        }
        k += 1;
    }
    assert(tables@.take(tables.len() as int) =~= tables@);
    match options.max_tables {
        Some(m) => {
            if m < kept_idx.len() {
                let ghost before = kept_idx@;
                kept_idx.truncate(m);
                assert(kept_idx@.map_values(|j: usize| tables@[j as int]) =~= before.map_values(
                    |j: usize| tables@[j as int],
                ).take(m as int));
            }
        },
        None => {},
    }
    let ghost kept_view = kept_idx@.map_values(|j: usize| tables@[j as int]);
    assert(kept_view == kept_spec);
    // Sort keys of the kept entities.
    let mut keys: Vec<Vec<String>> = Vec::new();
    let mut key_texts: Vec<String> = Vec::new();
    let mut i: usize = 0;
    while i < kept_idx.len()
        invariant
            i <= kept_idx.len(),
            forall|j: int| 0 <= j < kept_idx.len() ==> #[trigger] kept_idx@[j] < tables.len(),
            kept_view == kept_idx@.map_values(|j: usize| tables@[j as int]),
            keys.len() == i,
            key_texts.len() == i,
            forall|j: int| 0 <= j < i ==> #[trigger] keys@[j].deep_view() == entity_sort_keys(kept_view)[j],
            forall|j: int| 0 <= j < i ==> #[trigger] key_texts@[j]@ == entity_sort_keys(kept_view)[j][0],
        decreases kept_idx.len() - i,
    {
        let t = &tables[kept_idx[i]];
        let kt = join3(t.schema.as_str(), ":", t.table_name.as_str());
        let mut one: Vec<String> = Vec::new();
        one.push(kt.clone());
        proof {
            assert(one.deep_view() =~= seq![kt@]);
        }
        keys.push(one);
        key_texts.push(kt);
        i += 1;
    }
    let ghost ek = entity_sort_keys(kept_view);
    assert(keys.deep_view() =~= ek) by {
        assert forall|j: int| 0 <= j < ek.len() implies keys.deep_view()[j] == ek[j] by {
            assert(keys.deep_view()[j] == keys@[j].deep_view());
        }
    }
    let p = stable_order(&keys);
    let mut entities: Vec<DiagramEntity> = Vec::new();
    let mut e: usize = 0;
    while e < p.len()
        invariant
            e <= p.len(),
            p.len() == kept_idx.len(),
            is_stable_order(ek, p@),
            ek.len() == kept_idx.len(),
            forall|j: int| 0 <= j < kept_idx.len() ==> #[trigger] kept_idx@[j] < tables.len(),
            kept_view == kept_idx@.map_values(|j: usize| tables@[j as int]),
            entities.len() == e,
            forall|j: int| 0 <= j < e ==> (#[trigger] entities@[j])@ == entity_spec(*graph, kept_view[p@[j] as int]),
        decreases p.len() - e,
    {
        let pe = p[e];
        assert(pe < kept_idx.len());
        let ent = entity_for_table(graph, &tables[kept_idx[pe]]);
        entities.push(ent);
        e += 1;
    }
    // Keep the relationships between kept entities.
    let mut retained: Vec<DiagramRelationship> = Vec::new();
    let ghost keys_set = kept_keys(kept_view);
    proof {
        assert forall|x: Seq<char>| texts(key_texts@).contains(x) <==> keys_set.contains(x) by {
            if texts(key_texts@).contains(x) {
                let q = choose|q: int| 0 <= q < texts(key_texts@).len() && texts(key_texts@)[q] == x;
                assert(key_texts@[q]@ == x);
                assert(entity_key(kept_view[q].schema@, kept_view[q].table_name@) == x);
            }
            if keys_set.contains(x) {
                let q = choose|q: int| 0 <= q < kept_view.len() && entity_key(#[trigger] kept_view[q].schema@, kept_view[q].table_name@) == x;
                assert(texts(key_texts@)[q] == x);
            }
        }
    }
    let mut c: usize = 0;
    while c < cands.len()
        invariant
            c <= cands.len(),
            cands@.map_values(|x: DiagramRelationship| x@) == cand_spec,
            forall|x: Seq<char>| texts(key_texts@).contains(x) <==> keys_set.contains(x),
            retained@.map_values(|x: DiagramRelationship| x@) == retained_rels(cand_spec.take(c as int), keys_set),
        decreases cands.len() - c,
    {
        proof {
            assert(cand_spec.take(c + 1).drop_last() =~= cand_spec.take(c as int));
            assert(cand_spec.take(c + 1).last() == cands@[c as int]@);
        }
        let r = &cands[c];
        if contains_text(&key_texts, r.from_entity.as_str()) && contains_text(&key_texts, r.to_entity.as_str()) {
            let d = r.duplicate();
            let ghost before = retained@;
            let ghost dv = d@;
            retained.push(d);
            assert(retained@.map_values(|x: DiagramRelationship| x@) =~= before.map_values(|x: DiagramRelationship| x@).push(dv));
        }
        c += 1;
    }
    assert(cand_spec.take(cands.len() as int) =~= cand_spec);
    let ghost rels_spec = retained_rels(cand_spec, keys_set);
    // Sort relationships by (from, to).
    let mut rkeys: Vec<Vec<String>> = Vec::new();
    let mut x: usize = 0;
    while x < retained.len()
        invariant
            x <= retained.len(),
            retained@.map_values(|y: DiagramRelationship| y@) == rels_spec,
            rkeys.len() == x,
            forall|j: int| 0 <= j < x ==> #[trigger] rkeys@[j].deep_view() == rel_sort_keys(rels_spec)[j],
        decreases retained.len() - x,
    {
        let mut two: Vec<String> = Vec::new();
        two.push(retained[x].from_entity.clone());
        two.push(retained[x].to_entity.clone());
        proof {
            assert(retained@[x as int]@ == rels_spec[x as int]);
            assert(two.deep_view() =~= seq![rels_spec[x as int].from_entity, rels_spec[x as int].to_entity]);
        }
        rkeys.push(two);
        x += 1;
    }
    let ghost rk = rel_sort_keys(rels_spec);
    assert(rkeys.deep_view() =~= rk) by {
        assert forall|j: int| 0 <= j < rk.len() implies rkeys.deep_view()[j] == rk[j] by {
            assert(rkeys.deep_view()[j] == rkeys@[j].deep_view());
        }
    }
    let q = stable_order(&rkeys);
    let mut relationships: Vec<DiagramRelationship> = Vec::new();
    let mut y: usize = 0;
    while y < q.len()
        invariant
            y <= q.len(),
            q.len() == retained.len(),
            is_stable_order(rk, q@),
            rk.len() == retained.len(),
            retained@.map_values(|z: DiagramRelationship| z@) == rels_spec,
            relationships.len() == y,
            forall|j: int| 0 <= j < y ==> (#[trigger] relationships@[j])@ == rels_spec[q@[j] as int],
        decreases q.len() - y,
    {
        let qy = q[y];
        assert(qy < retained.len());
        let d = retained[qy].duplicate();
        assert(retained@[qy as int]@ == rels_spec[qy as int]);
        relationships.push(d);
        y += 1;
    }
    let included_tables = entities.len();
    let filtered = included_tables < total_tables;
    DiagramModel {
        entities,
        relationships,
        metadata: DiagramMetadata { total_tables, included_tables, filtered },
    }
}

} // verus!
