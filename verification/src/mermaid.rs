//! Mermaid renderers: the text of an entity-relationship diagram, a verb
//! flow and a domain map, built from the diagram model and the affinity graph.

use vstd::prelude::*;
use vstd::string::*;

use crate::diagram::{
    AttributeView, DiagramAttribute, DiagramEntity, DiagramModel, DiagramRelationship, EntityView,
    GovernanceLevel, RelationshipKind, RelationshipView, RenderOptions, VerbSurfaceEntry,
    VerbSurfaceView,
};
use crate::affinity::{
    adjacency_view, data_for_verb_spec, index_key_of, is_adjacency, AffinityGraph, AffinityKind,
    DataAffinity, DataRef,
};
use crate::diagram::entity_key;
use crate::order::{lemma_strictly_sorted_unique, sorted_unique, strictly_sorted};
use crate::text::{
    alphanumeric, char_is_alphanumeric, chars_of, concat_all, contains_text, decimal, decimal_text,
    first_index,
    first_index_of, lemma_concat_take, owned, push_char, string_of_range, text_eq, texts,
};

verus! {

broadcast use vstd::string::group_string_axioms;

/// A character kept in a node identifier, or `_` in its place.
pub open spec fn id_char(c: char) -> char {
    if alphanumeric(c) || c == '_' {
        c
    } else {
        '_'
    }
}

/// Identifier form of a text: each character that is not alphanumeric or `_`
/// becomes `_`.
pub open spec fn sanitized(s: Seq<char>) -> Seq<char> {
    s.map_values(|c: char| id_char(c))
}

/// Sanitize a string for use as a Mermaid node identifier.
pub fn sanitize_id(name: &str) -> (r: String)
    ensures
        r@ == sanitized(name@),
{
    let cs = chars_of(name);
    let mut r = String::new();
    let mut i: usize = 0;
    while i < cs.len()
        invariant
            i <= cs.len(),
            cs@ == name@,
            r@ == sanitized(cs@.take(i as int)),
        decreases cs.len() - i,
    {
        let c = cs[i];
        let d = if char_is_alphanumeric(c) || c == '_' {
            c
        } else {
            '_'
        };
        push_char(&mut r, d);
        assert(cs@.take(i + 1) =~= cs@.take(i as int).push(c));
        assert(sanitized(cs@.take(i + 1)) =~= sanitized(cs@.take(i as int)).push(d));
        i += 1;
    }
    assert(cs@.take(cs.len() as int) =~= cs@);
    r
}

/// The table name of a `schema:table` key: the text between the first and
/// the second `:`, or the whole key when it has no `:`.
pub open spec fn table_of_key(k: Seq<char>) -> Seq<char> {
    match first_index_of(k, ':') {
        Some(i) => {
            let rest = k.skip(i + 1);
            match first_index_of(rest, ':') {
                Some(j) => rest.take(j),
                None => rest,
            }
        },
        None => k,
    }
}

/// Extract the table name from a `schema:table` key.
pub fn table_name_from_key(key: &str) -> (r: String)
    ensures
        r@ == table_of_key(key@),
{
    let cs = chars_of(key);
    match first_index(&cs, ':') {
        Some(i) => {
            let rest = string_of_range(&cs, i + 1, cs.len());
            let rc = chars_of(rest.as_str());
            assert(rc@ =~= key@.skip(i + 1));
            match first_index(&rc, ':') {
                Some(j) => {
                    let r = string_of_range(&rc, 0, j);
                    assert(r@ =~= rc@.take(j as int));
                    r
                },
                None => rest,
            }
        },
        None => owned(key),
    }
}

/// The domain of a table name: the text before the first `_`; without `_`,
/// the name minus a trailing plural `s` (when longer than one character).
pub open spec fn domain_of(t: Seq<char>) -> Seq<char> {
    match first_index_of(t, '_') {
        Some(i) => t.take(i),
        None => if t.len() > 1 && t.last() == 's' {
            t.drop_last()
        } else {
            t
        },
    }
}

/// Extract the domain prefix of a table name (`cbus` → `cbu`, `kyc_cases` → `kyc`).
pub fn extract_domain(table_name: &str) -> (r: String)
    ensures
        r@ == domain_of(table_name@),
{
    let cs = chars_of(table_name);
    match first_index(&cs, '_') {
        Some(i) => string_of_range(&cs, 0, i),
        None => {
            if cs.len() > 1 && cs[cs.len() - 1] == 's' {
                string_of_range(&cs, 0, cs.len() - 1)
            } else {
                owned(table_name)
            }
        },
    }
}

} // verus!

verus! {

// ── ERD ─────────────────────────────────────────────────────────

/// Comment name of a governance level.
pub open spec fn governance_name(l: GovernanceLevel) -> Seq<char> {
    match l {
        GovernanceLevel::Full => "FULL"@,
        GovernanceLevel::Partial => "PARTIAL"@,
        GovernanceLevel::Ungoverned => "NONE"@,
    }
}

/// The governance comments of an entity block.
pub open spec fn governance_lines(e: EntityView) -> Seq<char> {
    "    %% Governance: "@ + governance_name(e.governance_level) + "\n"@ + match e.entity_type_fqn {
        Some(f) => "    %% Entity type: "@ + f + "\n"@,
        None => Seq::empty(),
    }
}

/// One verb of the verb-surface comment.
pub open spec fn verb_item(v: VerbSurfaceView, with_kind: bool) -> Seq<char> {
    if with_kind {
        " "@ + v.verb_fqn + "("@ + v.relation + ")"@
    } else {
        " "@ + v.verb_fqn
    }
}

/// The verb-surface comment of an entity block.
pub open spec fn verb_line(e: EntityView, with_kind: bool) -> Seq<char> {
    "    %% Verbs:"@ + concat_all(e.verb_surface.map_values(|v: VerbSurfaceView| verb_item(v, with_kind)))
        + "\n"@
}

/// The key marker of a column line.
pub open spec fn key_marker(is_pk: bool, is_fk: bool) -> Seq<char> {
    if is_pk && is_fk {
        " \"PK,FK\""@
    } else if is_pk {
        " \"PK\""@
    } else if is_fk {
        " \"FK\""@
    } else {
        Seq::empty()
    }
}

/// One column line of an entity block.
pub open spec fn column_line(a: AttributeView) -> Seq<char> {
    "        "@ + sanitized(a.sql_type) + " "@ + a.name + key_marker(a.is_pk, a.is_fk) + "\n"@
}

/// The block of one entity in an ERD.
#[verifier::opaque]
pub open spec fn entity_block(
    e: EntityView,
    columns: bool,
    governance: bool,
    verbs: bool,
    kinds: bool,
) -> Seq<char> {
    (if governance {
        governance_lines(e)
    } else {
        Seq::empty()
    }) + (if verbs && e.verb_surface.len() > 0 {
        verb_line(e, kinds)
    } else {
        Seq::empty()
    }) + "    "@ + sanitized(e.table_name) + " {\n"@ + (if columns {
        concat_all(e.attributes.map_values(|a: AttributeView| column_line(a)))
    } else {
        Seq::empty()
    }) + "    }\n"@
}

/// The cardinality notation of a relationship.
pub open spec fn erd_arrow(r: RelationshipView) -> Seq<char> {
    match r.kind {
        RelationshipKind::ForeignKey => if r.cardinality == Some("1:1"@) {
            "||--||"@
        } else if r.cardinality == Some("M:N"@) {
            "}o--o{"@
        } else {
            "||--o{"@
        },
        RelationshipKind::EntityRelationship => "..|>"@,
    }
}

/// The label of a relationship: the FK column, or the cardinality of an
/// entity relationship.
pub open spec fn erd_label(r: RelationshipView) -> Seq<char> {
    match r.kind {
        RelationshipKind::ForeignKey => match r.fk_column {
            Some(c) => c,
            None => Seq::empty(),
        },
        RelationshipKind::EntityRelationship => match r.cardinality {
            Some(c) => c,
            None => Seq::empty(),
        },
    }
}

/// The line of one relationship in an ERD.
pub open spec fn erd_rel_line(r: RelationshipView) -> Seq<char> {
    "    "@ + sanitized(table_of_key(r.from_entity)) + " "@ + erd_arrow(r) + " "@ + sanitized(
        table_of_key(r.to_entity),
    ) + " : \""@ + erd_label(r) + "\"\n"@
}

/// The views of a model's entities.
pub open spec fn entity_views(es: Seq<DiagramEntity>) -> Seq<EntityView> {
    es.map_values(|e: DiagramEntity| e@)
}

/// The views of a model's relationships.
pub open spec fn relationship_views(rs: Seq<DiagramRelationship>) -> Seq<RelationshipView> {
    rs.map_values(|r: DiagramRelationship| r@)
}

/// The blocks of the entities of an ERD.
pub open spec fn erd_blocks(
    entities: Seq<EntityView>,
    columns: bool,
    governance: bool,
    verbs: bool,
    kinds: bool,
) -> Seq<Seq<char>> {
    entities.map_values(|e: EntityView| entity_block(e, columns, governance, verbs, kinds))
}

/// The relationship lines of an ERD.
pub open spec fn erd_rel_lines(rels: Seq<RelationshipView>) -> Seq<Seq<char>> {
    rels.map_values(|r: RelationshipView| erd_rel_line(r))
}

/// The full text of an ERD.
pub open spec fn erd_text(
    entities: Seq<EntityView>,
    rels: Seq<RelationshipView>,
    columns: bool,
    governance: bool,
    verbs: bool,
    kinds: bool,
) -> Seq<char> {
    "erDiagram\n"@ + concat_all(erd_blocks(entities, columns, governance, verbs, kinds))
        + concat_all(erd_rel_lines(rels))
}

fn governance_text(e: &DiagramEntity) -> (r: String)
    ensures
        r@ == governance_lines(e@),
{
    let mut out = String::new();
    out.append("    %% Governance: ");
    let name = match e.governance_level {
        GovernanceLevel::Full => "FULL",
        GovernanceLevel::Partial => "PARTIAL",
        GovernanceLevel::Ungoverned => "NONE",
    };
    out.append(name);
    out.append("\n");
    match &e.entity_type_fqn {
        Some(f) => {
            out.append("    %% Entity type: ");
            out.append(f.as_str());
            out.append("\n");
        },
        None => {},
    }
    out
}

fn verb_line_text(e: &DiagramEntity, with_kind: bool) -> (r: String)
    ensures
        r@ == verb_line(e@, with_kind),
{
    let ghost items = e@.verb_surface.map_values(|v: VerbSurfaceView| verb_item(v, with_kind));
    let mut out = String::new();
    out.append("    %% Verbs:");
    let mut i: usize = 0;
    while i < e.verb_surface.len()
        invariant
            i <= e.verb_surface.len(),
            items == e@.verb_surface.map_values(|v: VerbSurfaceView| verb_item(v, with_kind)),
            items.len() == e.verb_surface@.len(),
            out@ == "    %% Verbs:"@ + concat_all(items.take(i as int)),
        decreases e.verb_surface.len() - i,
    {
        let v = &e.verb_surface[i];
        out.append(" ");
        out.append(v.verb_fqn.as_str());
        if with_kind {
            out.append("(");
            out.append(v.relation.as_str());
            out.append(")");
        }
        proof {
            lemma_concat_take(items, i as int);
            assert(items[i as int] == verb_item(v@, with_kind));
        }
        i += 1;
    }
    assert(items.take(items.len() as int) =~= items);
    out.append("\n");
    out
}

fn column_line_text(a: &DiagramAttribute) -> (r: String)
    ensures
        r@ == column_line(a@),
{
    let mut out = String::new();
    out.append("        ");
    let t = sanitize_id(a.sql_type.as_str());
    out.append(t.as_str());
    out.append(" ");
    out.append(a.name.as_str());
    if a.is_pk && a.is_fk {
        out.append(" \"PK,FK\"");
    } else if a.is_pk {
        out.append(" \"PK\"");
    } else if a.is_fk {
        out.append(" \"FK\"");
    }
    out.append("\n");
    out
}

fn entity_block_text(e: &DiagramEntity, options: &RenderOptions) -> (r: String)
    ensures
        r@ == entity_block(
            e@,
            options.include_columns,
            options.show_governance,
            options.show_verb_surface,
            options.show_affinity_kind,
        ),
{
    reveal(entity_block);
    let mut out = String::new();
    if options.show_governance {
        let g = governance_text(e);
        out.append(g.as_str());
    }
    if options.show_verb_surface && e.verb_surface.len() > 0 {
        let v = verb_line_text(e, options.show_affinity_kind);
        out.append(v.as_str());
    }
    out.append("    ");
    let id = sanitize_id(e.table_name.as_str());
    out.append(id.as_str());
    out.append(" {\n");
    if options.include_columns {
        let ghost lines = e@.attributes.map_values(|a: AttributeView| column_line(a));
        let ghost before = out@;
        let mut i: usize = 0;
        while i < e.attributes.len()
            invariant
                i <= e.attributes.len(),
                lines == e@.attributes.map_values(|a: AttributeView| column_line(a)),
                lines.len() == e.attributes@.len(),
                out@ == before + concat_all(lines.take(i as int)),
            decreases e.attributes.len() - i,
        {
            let l = column_line_text(&e.attributes[i]);
            out.append(l.as_str());
            proof {
                lemma_concat_take(lines, i as int);
            }
            i += 1;
        }
        assert(lines.take(lines.len() as int) =~= lines);
    }
    out.append("    }\n");
    out
}

fn erd_rel_text(r: &DiagramRelationship) -> (s: String)
    ensures
        s@ == erd_rel_line(r@),
{
    let from = table_name_from_key(r.from_entity.as_str());
    let to = table_name_from_key(r.to_entity.as_str());
    let from_id = sanitize_id(from.as_str());
    let to_id = sanitize_id(to.as_str());
    let arrow = match r.kind {
        RelationshipKind::ForeignKey => match &r.cardinality {
            Some(c) => if text_eq(c.as_str(), "1:1") {
                "||--||"
            } else if text_eq(c.as_str(), "M:N") {
                "}o--o{"
            } else {
                "||--o{"
            },
            None => "||--o{",
        },
        RelationshipKind::EntityRelationship => "..|>",
    };
    let mut out = String::new();
    out.append("    ");
    out.append(from_id.as_str());
    out.append(" ");
    out.append(arrow);
    out.append(" ");
    out.append(to_id.as_str());
    out.append(" : \"");
    match r.kind {
        RelationshipKind::ForeignKey => match &r.fk_column {
            Some(c) => out.append(c.as_str()),
            None => {},
        },
        RelationshipKind::EntityRelationship => match &r.cardinality {
            Some(c) => out.append(c.as_str()),
            None => {},
        },
    }
    out.append("\"\n");
    out
}

/// Render an entity-relationship diagram in Mermaid `erDiagram` syntax:
/// one block per entity (governance and verb comments, columns with PK/FK
/// markers, as the options ask), then one line per relationship.
pub fn render_erd(model: &DiagramModel, options: &RenderOptions) -> (r: String)
    ensures
        r@ == erd_text(
            entity_views(model.entities@),
            relationship_views(model.relationships@),
            options.include_columns,
            options.show_governance,
            options.show_verb_surface,
            options.show_affinity_kind,
        ),
{
    let ghost blocks = erd_blocks(
        entity_views(model.entities@),
        options.include_columns,
        options.show_governance,
        options.show_verb_surface,
        options.show_affinity_kind,
    );
    let ghost lines = erd_rel_lines(relationship_views(model.relationships@));
    let mut out = String::new();
    out.append("erDiagram\n");
    let mut i: usize = 0;
    while i < model.entities.len()
        invariant
            i <= model.entities.len(),
            blocks == erd_blocks(
                entity_views(model.entities@),
                options.include_columns,
                options.show_governance,
                options.show_verb_surface,
                options.show_affinity_kind,
            ),
            blocks.len() == model.entities@.len(),
            out@ == "erDiagram\n"@ + concat_all(blocks.take(i as int)),
        decreases model.entities.len() - i,
    {
        let b = entity_block_text(&model.entities[i], options);
        proof {
            assert(blocks[i as int] == b@);
            lemma_concat_take(blocks, i as int);
        }
        out.append(b.as_str());
        i += 1;
    }
    assert(blocks.take(blocks.len() as int) =~= blocks);
    let ghost head = out@;
    let mut j: usize = 0;
    while j < model.relationships.len()
        invariant
            j <= model.relationships.len(),
            lines == erd_rel_lines(relationship_views(model.relationships@)),
            lines.len() == model.relationships@.len(),
            out@ == head + concat_all(lines.take(j as int)),
        decreases model.relationships.len() - j,
    {
        let l = erd_rel_text(&model.relationships[j]);
        proof {
            assert(lines[j as int] == l@);
            lemma_concat_take(lines, j as int);
        }
        out.append(l.as_str());
        j += 1;
    }
    assert(lines.take(lines.len() as int) =~= lines);
    out
}

} // verus!

verus! {

// ── Domain map ──────────────────────────────────────────────────

/// The node of one entity inside its domain subgraph, with a verb-count
/// badge when it has a verb surface.
pub open spec fn domain_node(e: EntityView) -> Seq<char> {
    "        "@ + sanitized(entity_key(e.schema, e.table_name)) + "[\""@ + e.table_name + (if e.verb_surface.len() > 0 {
        " ("@ + decimal(e.verb_surface.len()) + "v)"@
    } else {
        Seq::empty()
    }) + "\"]\n"@
}

/// The node of an entity if it belongs to domain `d`, else nothing.
pub open spec fn domain_member(d: Seq<char>, e: EntityView) -> Seq<char> {
    if domain_of(e.table_name) == d {
        domain_node(e)
    } else {
        Seq::empty()
    }
}

/// The subgraph of one domain: its entities in model order.
pub open spec fn domain_subgraph(d: Seq<char>, es: Seq<EntityView>) -> Seq<char> {
    "    subgraph "@ + sanitized(d) + "[\""@ + d + "\"]\n"@ + concat_all(
        es.map_values(|e: EntityView| domain_member(d, e)),
    ) + "    end\n"@
}

/// The edge of a foreign-key relationship; other relationships draw none.
pub open spec fn domain_edge(r: RelationshipView) -> Seq<char> {
    if r.kind == RelationshipKind::ForeignKey {
        "    "@ + sanitized(r.from_entity) + " -->|"@ + match r.fk_column {
            Some(c) => c,
            None => Seq::empty(),
        } + "| "@ + sanitized(r.to_entity) + "\n"@
    } else {
        Seq::empty()
    }
}

/// The domains of a list of entities.
pub open spec fn entity_domains(es: Seq<EntityView>) -> Set<Seq<char>> {
    es.map_values(|e: EntityView| domain_of(e.table_name)).to_set()
}

/// The domains of a list of entities in ascending order, each once.
pub open spec fn sorted_domains(es: Seq<EntityView>) -> Seq<Seq<char>> {
    choose|ds: Seq<Seq<char>>| strictly_sorted(ds) && ds.to_set() == entity_domains(es)
}

/// The subgraphs of a domain map.
pub open spec fn domain_subgraphs(ds: Seq<Seq<char>>, es: Seq<EntityView>) -> Seq<Seq<char>> {
    ds.map_values(|d: Seq<char>| domain_subgraph(d, es))
}

/// The edges of a domain map.
pub open spec fn domain_edges(rels: Seq<RelationshipView>) -> Seq<Seq<char>> {
    rels.map_values(|r: RelationshipView| domain_edge(r))
}

/// The full text of a domain map.
pub open spec fn domain_map_text(es: Seq<EntityView>, rels: Seq<RelationshipView>) -> Seq<char> {
    "graph TD\n"@ + concat_all(domain_subgraphs(sorted_domains(es), es)) + concat_all(
        domain_edges(rels),
    )
}

fn domain_node_text(e: &DiagramEntity) -> (r: String)
    ensures
        r@ == domain_node(e@),
{
    let mut out = String::new();
    out.append("        ");
    let key = e.sort_key();
    let id = sanitize_id(key.as_str());
    out.append(id.as_str());
    out.append("[\"");
    out.append(e.table_name.as_str());
    let n = e.verb_surface.len();
    if n > 0 {
        out.append(" (");
        let d = decimal_text(n);
        out.append(d.as_str());
        out.append("v)");
    }
    out.append("\"]\n");
    out
}

fn domain_subgraph_text(d: &str, entities: &Vec<DiagramEntity>) -> (r: String)
    ensures
        r@ == domain_subgraph(d@, entity_views(entities@)),
{
    let ghost members = entity_views(entities@).map_values(|e: EntityView| domain_member(d@, e));
    let mut out = String::new();
    out.append("    subgraph ");
    let id = sanitize_id(d);
    out.append(id.as_str());
    out.append("[\"");
    out.append(d);
    out.append("\"]\n");
    let ghost head = out@;
    let mut i: usize = 0;
    while i < entities.len()
        invariant
            i <= entities.len(),
            members == entity_views(entities@).map_values(|e: EntityView| domain_member(d@, e)),
            members.len() == entities@.len(),
            out@ == head + concat_all(members.take(i as int)),
        decreases entities.len() - i,
    {
        let e = &entities[i];
        let dom = extract_domain(e.table_name.as_str());
        let ghost before = out@;
        if text_eq(dom.as_str(), d) {
            let node = domain_node_text(e);
            out.append(node.as_str());
        }
        proof {
            assert(members[i as int] == domain_member(d@, e@));
            lemma_concat_take(members, i as int);
            if dom@ != d@ {
                assert(out@ =~= before + members[i as int]);
            }
        }
        i += 1;
    }
    assert(members.take(members.len() as int) =~= members);
    out.append("    end\n");
    out
}

fn domain_edge_text(r: &DiagramRelationship) -> (s: String)
    ensures
        s@ == domain_edge(r@),
{
    let mut out = String::new();
    if r.kind == RelationshipKind::ForeignKey {
        out.append("    ");
        let from = sanitize_id(r.from_entity.as_str());
        out.append(from.as_str());
        out.append(" -->|");
        match &r.fk_column {
            Some(c) => out.append(c.as_str()),
            None => {},
        }
        out.append("| ");
        let to = sanitize_id(r.to_entity.as_str());
        out.append(to.as_str());
        out.append("\n");
    }
    out
}

/// Render a domain map in Mermaid `graph TD` syntax: one subgraph per table
/// domain (ascending), holding that domain's entities in model order, then
/// one edge per foreign-key relationship.
pub fn render_domain_map(model: &DiagramModel, _options: &RenderOptions) -> (r: String)
    ensures
        r@ == domain_map_text(
            entity_views(model.entities@),
            relationship_views(model.relationships@),
        ),
{
    let ghost es = entity_views(model.entities@);
    let mut names: Vec<String> = Vec::new();
    let mut i: usize = 0;
    while i < model.entities.len()
        invariant
            i <= model.entities.len(),
            es == entity_views(model.entities@),
            names@.len() == i,
            forall|k: int| 0 <= k < i ==> #[trigger] names@[k]@ == domain_of(es[k].table_name),
        decreases model.entities.len() - i,
    {
        let dom = extract_domain(model.entities[i].table_name.as_str());
        names.push(dom);
        i += 1;
    }
    let ds = sorted_unique(&names);
    proof {
        let doms = es.map_values(|e: EntityView| domain_of(e.table_name));
        assert(texts(names@) =~= doms);
        let chosen = sorted_domains(es);
        assert(strictly_sorted(chosen) && chosen.to_set() == entity_domains(es));
        lemma_strictly_sorted_unique(texts(ds@), chosen);
    }
    let ghost subs = domain_subgraphs(texts(ds@), es);
    let mut out = String::new();
    out.append("graph TD\n");
    let mut j: usize = 0;
    while j < ds.len()
        invariant
            j <= ds.len(),
            es == entity_views(model.entities@),
            subs == domain_subgraphs(texts(ds@), es),
            subs.len() == ds@.len(),
            out@ == "graph TD\n"@ + concat_all(subs.take(j as int)),
        decreases ds.len() - j,
    {
        let sg = domain_subgraph_text(ds[j].as_str(), &model.entities);
        proof {
            assert(subs[j as int] == sg@);
            lemma_concat_take(subs, j as int);
        }
        out.append(sg.as_str());
        j += 1;
    }
    assert(subs.take(subs.len() as int) =~= subs);
    let ghost lines = domain_edges(relationship_views(model.relationships@));
    let ghost head = out@;
    let mut k: usize = 0;
    while k < model.relationships.len()
        invariant
            k <= model.relationships.len(),
            lines == domain_edges(relationship_views(model.relationships@)),
            lines.len() == model.relationships@.len(),
            out@ == head + concat_all(lines.take(k as int)),
        decreases model.relationships.len() - k,
    {
        let l = domain_edge_text(&model.relationships[k]);
        proof {
            assert(lines[k as int] == l@);
            lemma_concat_take(lines, k as int);
        }
        out.append(l.as_str());
        k += 1;
    }
    assert(lines.take(lines.len() as int) =~= lines);
    out
}

} // verus!

verus! {

// ── Verb flow ───────────────────────────────────────────────────

/// Short label of a data reference.
pub open spec fn data_label(d: DataRef) -> Seq<char> {
    match d {
        DataRef::Table(t) => t.schema@ + ":"@ + t.table@,
        DataRef::Column(c) => c.table@ + "."@ + c.column@,
        DataRef::EntityType { fqn } => "entity:"@ + fqn@,
        DataRef::Attribute { fqn } => "attr:"@ + fqn@,
    }
}

/// Short label of a data reference.
pub fn data_ref_label(data_ref: &DataRef) -> (r: String)
    ensures
        r@ == data_label(*data_ref),
{
    match data_ref {
        DataRef::Table(t) => crate::text::join3(t.schema.as_str(), ":", t.table.as_str()),
        DataRef::Column(c) => crate::text::join3(c.table.as_str(), ".", c.column.as_str()),
        DataRef::EntityType { fqn } => crate::text::join2("entity:", fqn.as_str()),
        DataRef::Attribute { fqn } => crate::text::join2("attr:", fqn.as_str()),
    }
}

/// Edge label of an affinity kind.
pub open spec fn kind_short(k: AffinityKind) -> Seq<char> {
    match k {
        AffinityKind::Produces => "produces"@,
        AffinityKind::Consumes => "consumes"@,
        AffinityKind::CrudRead => "reads"@,
        AffinityKind::CrudInsert => "inserts"@,
        AffinityKind::CrudUpdate => "updates"@,
        AffinityKind::CrudDelete => "deletes"@,
        AffinityKind::ArgLookup { .. } => "lookup"@,
        AffinityKind::ProducesAttribute => "produces_attr"@,
        AffinityKind::ConsumesAttribute { .. } => "consumes_attr"@,
    }
}

/// Short label of an affinity kind, for edge labels.
pub fn affinity_kind_short(kind: &AffinityKind) -> (r: String)
    ensures
        r@ == kind_short(*kind),
{
    let s = match kind {
        AffinityKind::Produces => "produces",
        AffinityKind::Consumes => "consumes",
        AffinityKind::CrudRead => "reads",
        AffinityKind::CrudInsert => "inserts",
        AffinityKind::CrudUpdate => "updates",
        AffinityKind::CrudDelete => "deletes",
        AffinityKind::ArgLookup { .. } => "lookup",
        AffinityKind::ProducesAttribute => "produces_attr",
        AffinityKind::ConsumesAttribute { .. } => "consumes_attr",
    };
    s.to_owned()
}

/// The node line of a data reference, drawn the first time its key appears.
pub open spec fn node_line(d: DataRef, seen: Set<Seq<char>>) -> Seq<char> {
    if seen.contains(index_key_of(d)) {
        Seq::empty()
    } else {
        "    "@ + sanitized(index_key_of(d)) + "[(\""@ + data_label(d) + "\")]\n"@
    }
}

/// The direct data assets of a verb: node (if new) and labelled edge for each.
pub open spec fn direct_text(vid: Seq<char>, data: Seq<DataAffinity>, seen: Set<Seq<char>>) -> Seq<char>
    decreases data.len(),
{
    if data.len() == 0 {
        Seq::empty()
    } else {
        node_line(data[0].data_ref, seen) + "    "@ + vid + " -->|"@ + kind_short(data[0].affinity_kind)
            + "| "@ + sanitized(index_key_of(data[0].data_ref)) + "\n"@ + direct_text(
            vid,
            data.drop_first(),
            seen.insert(index_key_of(data[0].data_ref)),
        )
    }
}

/// The references a neighbour shares: node (if new) and dotted edge for each.
pub open spec fn shared_text(aid: Seq<char>, refs: Seq<DataRef>, seen: Set<Seq<char>>) -> Seq<char>
    decreases refs.len(),
{
    if refs.len() == 0 {
        Seq::empty()
    } else {
        node_line(refs[0], seen) + "    "@ + aid + " -.-> "@ + sanitized(index_key_of(refs[0])) + "\n"@
            + shared_text(aid, refs.drop_first(), seen.insert(index_key_of(refs[0])))
    }
}

/// The keys of a list of references.
pub open spec fn ref_keys(refs: Seq<DataRef>) -> Set<Seq<char>> {
    refs.map_values(|d: DataRef| index_key_of(d)).to_set()
}

/// The neighbours of a verb, each with its shared references.
pub open spec fn adjacent_text(adj: Seq<(Seq<char>, Seq<DataRef>)>, seen: Set<Seq<char>>) -> Seq<char>
    decreases adj.len(),
{
    if adj.len() == 0 {
        Seq::empty()
    } else {
        "    "@ + sanitized(adj[0].0) + "[\""@ + adj[0].0 + "\"]\n"@ + shared_text(
            sanitized(adj[0].0),
            adj[0].1,
            seen,
        ) + adjacent_text(adj.drop_first(), seen.union(ref_keys(adj[0].1)))
    }
}

/// The keys of a verb's direct data.
pub open spec fn data_keys_of(data: Seq<DataAffinity>) -> Set<Seq<char>> {
    data.map_values(|d: DataAffinity| index_key_of(d.data_ref)).to_set()
}

/// The full text of a verb flow diagram.
pub open spec fn verb_flow_text(
    verb: Seq<char>,
    data: Seq<DataAffinity>,
    adj: Seq<(Seq<char>, Seq<DataRef>)>,
    depth: u32,
) -> Seq<char> {
    "graph LR\n"@ + "    "@ + sanitized(verb) + "[\""@ + verb + "\"]\n"@ + direct_text(
        sanitized(verb),
        data,
        Set::empty(),
    ) + if depth > 1 {
        adjacent_text(adj, data_keys_of(data))
    } else {
        Seq::empty()
    }
}

fn node_line_text(d: &DataRef, seen: &Vec<String>) -> (r: String)
    ensures
        r@ == node_line(*d, texts(seen@).to_set()),
{
    let key = d.index_key();
    if contains_text(seen, key.as_str()) {
        assert(texts(seen@).to_set().contains(key@));
        String::new()
    } else {
        assert(!texts(seen@).to_set().contains(key@));
        let mut out = String::new();
        out.append("    ");
        let id = sanitize_id(key.as_str());
        out.append(id.as_str());
        out.append("[(\"");
        let label = data_ref_label(d);
        out.append(label.as_str());
        out.append("\")]\n");
        out
    }
}

fn push_seen(seen: &mut Vec<String>, key: String)
    ensures
        texts(final(seen)@).to_set() == texts(old(seen)@).to_set().insert(key@),
{
    let ghost before = texts(seen@);
    seen.push(key);
    proof {
        assert(texts(seen@) =~= before.push(key@));
        before.lemma_push_to_set_commute(key@);
    }
}

/// Render a verb-centric data-flow diagram in Mermaid `graph LR` syntax: the
/// verb, its data assets with labelled edges and, when `depth > 1`, the
/// verbs sharing data with it and their dotted edges. Each data node is
/// drawn once.
pub fn render_verb_flow(verb_fqn: &str, graph: &AffinityGraph, depth: u32) -> (r: String)
    ensures
        depth <= 1 ==> r@ == verb_flow_text(
            verb_fqn@,
            data_for_verb_spec(*graph, verb_fqn@),
            Seq::empty(),
            depth,
        ),
        depth > 1 ==> exists|adj: Seq<(Seq<char>, Seq<DataRef>)>|
            is_adjacency(*graph, verb_fqn@, adj) && r@ == verb_flow_text(
                verb_fqn@,
                data_for_verb_spec(*graph, verb_fqn@),
                adj,
                depth,
            ),
{
    let mut out = String::new();
    out.append("graph LR\n");
    let vid = sanitize_id(verb_fqn);
    out.append("    ");
    out.append(vid.as_str());
    out.append("[\"");
    out.append(verb_fqn);
    out.append("\"]\n");
    let data = graph.data_for_verb(verb_fqn);
    let ghost head = out@;
    let ghost total = head + direct_text(vid@, data@, Set::empty());
    let mut seen: Vec<String> = Vec::new();
    let mut i: usize = 0;
    assert(data@.skip(0) =~= data@);
    assert(texts(seen@).to_set() =~= Set::<Seq<char>>::empty());
    while i < data.len()
        invariant
            i <= data.len(),
            out@ + direct_text(vid@, data@.skip(i as int), texts(seen@).to_set()) == total,
            texts(seen@).to_set() == data@.take(i as int).map_values(
                |d: DataAffinity| index_key_of(d.data_ref),
            ).to_set(),
        decreases data.len() - i,
    {
        let da = &data[i];
        let ghost s0 = texts(seen@).to_set();
        proof {
            let rest = data@.skip(i as int);
            assert(rest[0] == data@[i as int]);
            assert(rest.drop_first() =~= data@.skip(i + 1));
        }
        let node = node_line_text(&da.data_ref, &seen);
        out.append(node.as_str());
        let key = da.data_ref.index_key();
        let did = sanitize_id(key.as_str());
        let label = affinity_kind_short(&da.affinity_kind);
        out.append("    ");
        out.append(vid.as_str());
        out.append(" -->|");
        out.append(label.as_str());
        out.append("| ");
        out.append(did.as_str());
        out.append("\n");
        push_seen(&mut seen, key);
        proof {
            let f = |d: DataAffinity| index_key_of(d.data_ref);
            assert(data@.take(i + 1).map_values(f) =~= data@.take(i as int).map_values(f).push(
                f(data@[i as int]),
            ));
            data@.take(i as int).map_values(f).lemma_push_to_set_commute(f(data@[i as int]));
        }
        i += 1;
    }
    assert(data@.skip(i as int) =~= Seq::<DataAffinity>::empty());
    assert(data@.take(data@.len() as int) =~= data@);
    assert(out@ == total);
    if depth > 1 {
        let adjacent = graph.adjacent_verbs(verb_fqn);
        let ghost av = adjacency_view(adjacent@);
        let ghost head2 = out@;
        let ghost total2 = head2 + adjacent_text(av, texts(seen@).to_set());
        let mut k: usize = 0;
        assert(av.skip(0) =~= av);
        while k < adjacent.len()
            invariant
                k <= adjacent.len(),
                av == adjacency_view(adjacent@),
                out@ + adjacent_text(av.skip(k as int), texts(seen@).to_set()) == total2,
            decreases adjacent.len() - k,
        {
            let ghost s_entry = texts(seen@).to_set();
            let (adj_verb, refs) = (&adjacent[k].0, &adjacent[k].1);
            proof {
                let rest = av.skip(k as int);
                assert(rest[0] == av[k as int]);
                assert(rest.drop_first() =~= av.skip(k + 1));
                assert(av[k as int] == (adj_verb@, refs@));
            }
            let aid = sanitize_id(adj_verb.as_str());
            out.append("    ");
            out.append(aid.as_str());
            out.append("[\"");
            out.append(adj_verb.as_str());
            out.append("\"]\n");
            let ghost mid = out@;
            let ghost after = adjacent_text(av.skip(k + 1), s_entry.union(ref_keys(refs@)));
            let mut a: usize = 0;
            assert(refs@.skip(0) =~= refs@);
            assert(s_entry.union(refs@.take(0).map_values(|d: DataRef| index_key_of(d)).to_set()) =~= s_entry);
            while a < refs.len()
                invariant
                    a <= refs.len(),
                    out@ + shared_text(aid@, refs@.skip(a as int), texts(seen@).to_set()) == mid
                        + shared_text(aid@, refs@, s_entry),
                    texts(seen@).to_set() == s_entry.union(
                        refs@.take(a as int).map_values(|d: DataRef| index_key_of(d)).to_set(),
                    ),
                decreases refs.len() - a,
            {
                let d = &refs[a];
                proof {
                    let rest = refs@.skip(a as int);
                    assert(rest[0] == refs@[a as int]);
                    assert(rest.drop_first() =~= refs@.skip(a + 1));
                }
                let node = node_line_text(d, &seen);
                out.append(node.as_str());
                let key = d.index_key();
                let did = sanitize_id(key.as_str());
                out.append("    ");
                out.append(aid.as_str());
                out.append(" -.-> ");
                out.append(did.as_str());
                out.append("\n");
                let ghost s_before = texts(seen@).to_set();
                push_seen(&mut seen, key);
                proof {
                    let f = |d: DataRef| index_key_of(d);
                    assert(refs@.take(a + 1).map_values(f) =~= refs@.take(a as int).map_values(f).push(
                        f(refs@[a as int]),
                    ));
                    refs@.take(a as int).map_values(f).lemma_push_to_set_commute(f(refs@[a as int]));
                    assert(texts(seen@).to_set() =~= s_entry.union(
                        refs@.take(a + 1).map_values(f).to_set(),
                    ));
                }
                a += 1;
            }
            assert(refs@.skip(a as int) =~= Seq::<DataRef>::empty());
            assert(refs@.take(refs@.len() as int) =~= refs@);
            assert(texts(seen@).to_set() == s_entry.union(ref_keys(refs@)));
            k += 1;
        }
        assert(av.skip(k as int) =~= Seq::<(Seq<char>, Seq<DataRef>)>::empty());
        assert(is_adjacency(*graph, verb_fqn@, av));
    }
    out
}

} // verus!
