use sem_os_policy::affinity::{
    AffinityEdge, AffinityGraph, AffinityKind, AffinityProvenance, ColumnRef, DataRef,
    EntityRelationship, TableRef,
};
use sem_os_policy::diagram::{
    build_diagram_model, ColumnInput, DiagramAttribute, DiagramEntity, DiagramMetadata,
    DiagramModel, DiagramRelationship, ForeignKeyInput, GovernanceLevel, RelationshipKind,
    RenderOptions, TableInput, VerbSurfaceEntry,
};
use sem_os_policy::mermaid::{
    extract_domain, render_domain_map, render_erd, render_verb_flow, sanitize_id,
    table_name_from_key,
};

fn sample_graph() -> AffinityGraph {
    AffinityGraph {
        edges: vec![AffinityEdge {
            verb_fqn: "cbu.create".into(),
            data_ref: DataRef::Table(TableRef::new("ob-poc", "cbus")),
            affinity_kind: AffinityKind::CrudInsert,
            provenance: AffinityProvenance::VerbCrudMapping,
        }],
        verb_to_data: vec![("cbu.create".into(), vec![0])],
        data_to_verb: vec![("table:ob-poc:cbus".into(), vec![0])],
        entity_to_table: vec![("cbu".into(), TableRef::new("ob-poc", "cbus"))],
        table_to_entity: vec![("ob-poc:cbus".into(), "cbu".into())],
        attribute_to_column: vec![("cbu.name".into(), ColumnRef::new("ob-poc", "cbus", "name"))],
        derivation_edges: vec![],
        entity_relationships: vec![],
        known_verbs: vec!["cbu.create".into()],
    }
}

fn column(name: &str, sql_type: &str, is_nullable: bool) -> ColumnInput {
    ColumnInput {
        name: name.into(),
        sql_type: sql_type.into(),
        is_nullable,
    }
}

fn sample_tables() -> Vec<TableInput> {
    vec![
        TableInput {
            schema: "ob-poc".into(),
            table_name: "cbus".into(),
            columns: vec![
                column("cbu_id", "uuid", false),
                column("name", "text", false),
                column("apex_entity_id", "uuid", true),
            ],
            primary_keys: vec!["cbu_id".into()],
            foreign_keys: vec![ForeignKeyInput {
                from_column: "apex_entity_id".into(),
                target_schema: "ob-poc".into(),
                target_table: "entities".into(),
                target_column: "entity_id".into(),
            }],
        },
        TableInput {
            schema: "ob-poc".into(),
            table_name: "entities".into(),
            columns: vec![column("entity_id", "uuid", false)],
            primary_keys: vec!["entity_id".into()],
            foreign_keys: vec![],
        },
    ]
}

fn sample_model() -> DiagramModel {
    DiagramModel {
        entities: vec![
            DiagramEntity {
                schema: "ob-poc".into(),
                table_name: "cbus".into(),
                entity_type_fqn: Some("cbu".into()),
                attributes: vec![
                    DiagramAttribute {
                        name: "cbu_id".into(),
                        sql_type: "uuid".into(),
                        is_nullable: false,
                        is_pk: true,
                        is_fk: false,
                        attribute_fqn: None,
                        producing_verbs: vec![],
                        consuming_verbs: vec![],
                    },
                    DiagramAttribute {
                        name: "name".into(),
                        sql_type: "text".into(),
                        is_nullable: false,
                        is_pk: false,
                        is_fk: false,
                        attribute_fqn: Some("cbu.name".into()),
                        producing_verbs: vec!["cbu.create".into()],
                        consuming_verbs: vec![],
                    },
                ],
                primary_keys: vec!["cbu_id".into()],
                verb_surface: vec![VerbSurfaceEntry {
                    verb_fqn: "cbu.create".into(),
                    relation: "crud_insert".into(),
                }],
                governance_level: GovernanceLevel::Full,
            },
            DiagramEntity {
                schema: "ob-poc".into(),
                table_name: "entities".into(),
                entity_type_fqn: None,
                attributes: vec![],
                primary_keys: vec!["entity_id".into()],
                verb_surface: vec![],
                governance_level: GovernanceLevel::Ungoverned,
            },
        ],
        relationships: vec![DiagramRelationship {
            from_entity: "ob-poc:cbus".into(),
            to_entity: "ob-poc:entities".into(),
            kind: RelationshipKind::ForeignKey,
            cardinality: Some("N:1".into()),
            fk_column: Some("apex_entity_id".into()),
        }],
        metadata: DiagramMetadata {
            total_tables: 2,
            included_tables: 2,
            filtered: false,
        },
    }
}

fn find_entity<'a>(model: &'a DiagramModel, table: &str) -> &'a DiagramEntity {
    model
        .entities
        .iter()
        .find(|e| e.table_name == table)
        .expect("entity")
}

// ── Model ───────────────────────────────────────────────────────

#[test]
fn diagram_model_empty() {
    let model = DiagramModel::empty();
    assert!(model.entities.is_empty());
    assert!(model.relationships.is_empty());
    assert_eq!(model.metadata.total_tables, 0);
}

#[test]
fn diagram_entity_sort_key() {
    let entity = DiagramEntity {
        schema: "ob-poc".into(),
        table_name: "cbus".into(),
        entity_type_fqn: None,
        attributes: vec![],
        primary_keys: vec![],
        verb_surface: vec![],
        governance_level: GovernanceLevel::Ungoverned,
    };
    assert_eq!(entity.sort_key(), "ob-poc:cbus");
}

#[test]
fn render_options_default() {
    let opts = RenderOptions::default();
    assert!(opts.schema_filter.is_none());
    assert!(opts.domain_filter.is_none());
    assert!(!opts.include_columns);
    assert!(!opts.show_governance);
    assert!(opts.max_tables.is_none());
}

// ── Enrichment ──────────────────────────────────────────────────

#[test]
fn enrichment_registered_entity() {
    let model = build_diagram_model(&sample_tables(), &sample_graph(), &RenderOptions::default());
    let cbu_entity = find_entity(&model, "cbus");
    assert_eq!(cbu_entity.entity_type_fqn, Some("cbu".into()));
    assert_eq!(cbu_entity.governance_level, GovernanceLevel::Full);
    assert!(!cbu_entity.verb_surface.is_empty());
}

#[test]
fn enrichment_unregistered_table() {
    let model = build_diagram_model(&sample_tables(), &sample_graph(), &RenderOptions::default());
    let entity_table = find_entity(&model, "entities");
    assert_eq!(entity_table.entity_type_fqn, None);
    assert_eq!(entity_table.governance_level, GovernanceLevel::Ungoverned);
    assert!(entity_table.verb_surface.is_empty());
}

#[test]
fn enrichment_verb_surface_populated() {
    let model = build_diagram_model(&sample_tables(), &sample_graph(), &RenderOptions::default());
    let cbu_entity = find_entity(&model, "cbus");
    assert!(cbu_entity
        .verb_surface
        .iter()
        .any(|v| v.verb_fqn == "cbu.create"));
}

#[test]
fn enrichment_verb_surface_relation_is_kind_label() {
    let model = build_diagram_model(&sample_tables(), &sample_graph(), &RenderOptions::default());
    let cbu_entity = find_entity(&model, "cbus");
    assert_eq!(cbu_entity.verb_surface.len(), 1);
    assert_eq!(cbu_entity.verb_surface[0].relation, "crud_insert");
}

#[test]
fn enrichment_attribute_fqn_populated() {
    let model = build_diagram_model(&sample_tables(), &sample_graph(), &RenderOptions::default());
    let cbu_entity = find_entity(&model, "cbus");
    let name_attr = cbu_entity
        .attributes
        .iter()
        .find(|a| a.name == "name")
        .expect("name attribute");
    assert_eq!(name_attr.attribute_fqn, Some("cbu.name".into()));
}

#[test]
fn enrichment_pk_fk_flags() {
    let model = build_diagram_model(&sample_tables(), &sample_graph(), &RenderOptions::default());
    let cbu_entity = find_entity(&model, "cbus");
    let pk_col = cbu_entity
        .attributes
        .iter()
        .find(|a| a.name == "cbu_id")
        .expect("cbu_id");
    assert!(pk_col.is_pk);
    assert!(!pk_col.is_fk);

    let fk_col = cbu_entity
        .attributes
        .iter()
        .find(|a| a.name == "apex_entity_id")
        .expect("apex_entity_id");
    assert!(!fk_col.is_pk);
    assert!(fk_col.is_fk);
}

#[test]
fn enrichment_fk_relationships() {
    let model = build_diagram_model(&sample_tables(), &sample_graph(), &RenderOptions::default());
    assert!(!model.relationships.is_empty());
    let fk_rel = model
        .relationships
        .iter()
        .find(|r| r.kind == RelationshipKind::ForeignKey)
        .expect("FK relationship");
    assert_eq!(fk_rel.from_entity, "ob-poc:cbus");
    assert_eq!(fk_rel.to_entity, "ob-poc:entities");
    assert_eq!(fk_rel.fk_column, Some("apex_entity_id".into()));
}

#[test]
fn enrichment_entity_relationships() {
    let mut graph = sample_graph();
    graph
        .table_to_entity
        .push(("ob-poc:entities".into(), "entity".into()));
    graph
        .entity_to_table
        .push(("entity".into(), TableRef::new("ob-poc", "entities")));
    graph.entity_relationships.push(EntityRelationship {
        fqn: "rel.cbu_apex".into(),
        source_entity_type_fqn: "cbu".into(),
        target_entity_type_fqn: "entity".into(),
        cardinality: "many_to_one".into(),
        edge_class: Some("ownership".into()),
        directionality: Some("forward".into()),
    });

    let model = build_diagram_model(&sample_tables(), &graph, &RenderOptions::default());

    let entity_rel = model
        .relationships
        .iter()
        .find(|r| r.kind == RelationshipKind::EntityRelationship)
        .expect("Entity relationship");
    assert_eq!(entity_rel.from_entity, "ob-poc:cbus");
    assert_eq!(entity_rel.to_entity, "ob-poc:entities");
}

#[test]
fn enrichment_schema_filter() {
    let options = RenderOptions {
        schema_filter: Some(vec!["other-schema".into()]),
        ..RenderOptions::default()
    };
    let model = build_diagram_model(&sample_tables(), &sample_graph(), &options);
    assert!(model.entities.is_empty());
    assert!(model.metadata.filtered);
    assert_eq!(model.metadata.total_tables, 2);
    assert_eq!(model.metadata.included_tables, 0);
}

#[test]
fn enrichment_max_tables() {
    let options = RenderOptions {
        max_tables: Some(1),
        ..RenderOptions::default()
    };
    let model = build_diagram_model(&sample_tables(), &sample_graph(), &options);
    assert_eq!(model.entities.len(), 1);
    assert!(model.metadata.filtered);
}

#[test]
fn enrichment_deterministic_sort() {
    let tables = sample_tables();
    let graph = sample_graph();
    let options = RenderOptions::default();
    let model1 = build_diagram_model(&tables, &graph, &options);
    let model2 = build_diagram_model(&tables, &graph, &options);
    let keys1: Vec<_> = model1.entities.iter().map(|e| e.sort_key()).collect();
    let keys2: Vec<_> = model2.entities.iter().map(|e| e.sort_key()).collect();
    assert_eq!(keys1, keys2);
}

#[test]
fn enrichment_entities_sorted_by_key() {
    let mut tables = sample_tables();
    tables.reverse();
    let model = build_diagram_model(&tables, &sample_graph(), &RenderOptions::default());
    let keys: Vec<String> = model.entities.iter().map(|e| e.sort_key()).collect();
    assert_eq!(keys, vec!["ob-poc:cbus".to_string(), "ob-poc:entities".to_string()]);
}

#[test]
fn enrichment_empty_input() {
    let tables: Vec<TableInput> = vec![];
    let model = build_diagram_model(&tables, &sample_graph(), &RenderOptions::default());
    assert!(model.entities.is_empty());
    assert!(model.relationships.is_empty());
    assert_eq!(model.metadata.total_tables, 0);
    assert!(!model.metadata.filtered);
}

#[test]
fn governance_level_classification() {
    let mut graph = sample_graph();
    graph
        .table_to_entity
        .push(("ob-poc:entities".into(), "entity".into()));

    let model = build_diagram_model(&sample_tables(), &graph, &RenderOptions::default());
    assert_eq!(find_entity(&model, "cbus").governance_level, GovernanceLevel::Full);
    assert_eq!(find_entity(&model, "entities").governance_level, GovernanceLevel::Partial);
}

// ── Mermaid ─────────────────────────────────────────────────────

#[test]
fn sanitize_names() {
    assert_eq!(sanitize_id("ob-poc"), "ob_poc");
    assert_eq!(sanitize_id("schema:table"), "schema_table");
    assert_eq!(sanitize_id("simple"), "simple");
    assert_eq!(sanitize_id("has.dot"), "has_dot");
}

#[test]
fn erd_basic() {
    let options = RenderOptions {
        include_columns: true,
        ..RenderOptions::default()
    };
    let output = render_erd(&sample_model(), &options);
    assert!(output.starts_with("erDiagram\n"));
    assert!(output.contains("cbus {"));
    assert!(output.contains("entities {"));
    assert!(output.contains("uuid cbu_id \"PK\""));
    assert!(output.contains("text name"));
}

#[test]
fn erd_with_governance() {
    let options = RenderOptions {
        show_governance: true,
        ..RenderOptions::default()
    };
    let output = render_erd(&sample_model(), &options);
    assert!(output.contains("Governance: FULL"));
    assert!(output.contains("Entity type: cbu"));
    assert!(output.contains("Governance: NONE"));
}

#[test]
fn erd_with_verbs() {
    let options = RenderOptions {
        show_verb_surface: true,
        ..RenderOptions::default()
    };
    let output = render_erd(&sample_model(), &options);
    assert!(output.contains("Verbs: cbu.create"));
}

#[test]
fn erd_relationships() {
    let output = render_erd(&sample_model(), &RenderOptions::default());
    assert!(output.contains("cbus ||--o{ entities"));
    assert!(output.contains("apex_entity_id"));
}

#[test]
fn verb_flow_basic() {
    let output = render_verb_flow("cbu.create", &sample_graph(), 1);
    assert!(output.starts_with("graph LR\n"));
    assert!(output.contains("cbu_create[\"cbu.create\"]"));
    assert!(output.contains("inserts"));
}

#[test]
fn domain_map_basic() {
    let output = render_domain_map(&sample_model(), &RenderOptions::default());
    assert!(output.starts_with("graph TD\n"));
    assert!(output.contains("subgraph"));
    assert!(output.contains("end"));
}

#[test]
fn deterministic_output() {
    let options = RenderOptions {
        include_columns: true,
        show_governance: true,
        show_verb_surface: true,
        ..RenderOptions::default()
    };
    let output1 = render_erd(&sample_model(), &options);
    let output2 = render_erd(&sample_model(), &options);
    assert_eq!(output1, output2);
}

#[test]
fn empty_model() {
    let model = DiagramModel::empty();
    let options = RenderOptions::default();
    let erd = render_erd(&model, &options);
    assert!(erd.starts_with("erDiagram\n"));
    assert_eq!(erd.trim(), "erDiagram");
    let dm = render_domain_map(&model, &options);
    assert!(dm.starts_with("graph TD\n"));
}

#[test]
fn extract_domain_works() {
    assert_eq!(extract_domain("cbus"), "cbu");
    assert_eq!(extract_domain("kyc_cases"), "kyc");
    assert_eq!(extract_domain("entities"), "entitie");
    assert_eq!(extract_domain("trading_profiles"), "trading");
}

#[test]
fn table_name_from_key_works() {
    assert_eq!(table_name_from_key("ob-poc:cbus"), "cbus");
    assert_eq!(table_name_from_key("schema:table"), "table");
    assert_eq!(table_name_from_key("nodelim"), "nodelim");
}
