use sem_os_policy::abac::EvidenceGrade;
use sem_os_policy::affinity::builder::{group_positions, RegistryDefinitions};
use sem_os_policy::affinity::{AffinityGraph, AffinityKind, AffinityProvenance, DataRef, TableRef};
use sem_os_policy::gates::{DerivationInput, DerivationSpecBody};
use sem_os_policy::ontology::{
    AttributeDefBody, AttributeSink, AttributeSource, DbTableMapping, Directionality,
    EntityTypeDefBody, RelationshipCardinality, RelationshipTypeDefBody, VerbArgDef,
    VerbArgLookup, VerbContractBody, VerbCrudMapping, VerbProducesSpec,
};

fn verb(fqn: &str) -> VerbContractBody {
    let (domain, action) = fqn.split_once('.').unwrap();
    VerbContractBody {
        fqn: fqn.into(),
        domain: domain.into(),
        action: action.into(),
        description: String::new(),
        args: vec![],
        produces: None,
        consumes: vec![],
        invocation_phrases: vec![],
        subject_kinds: vec![],
        requires_subject: true,
        crud_mapping: None,
        reads_from: vec![],
        writes_to: vec![],
    }
}

fn crud(op: &str, table: &str) -> Option<VerbCrudMapping> {
    Some(VerbCrudMapping {
        operation: op.into(),
        table: Some(table.into()),
        schema: Some("ob-poc".into()),
    })
}

fn defs() -> RegistryDefinitions {
    RegistryDefinitions {
        verb_contracts: vec![],
        entity_types: vec![],
        attributes: vec![],
        derivations: vec![],
        relationships: vec![],
    }
}

fn index_get<'a>(index: &'a [(String, Vec<usize>)], key: &str) -> &'a Vec<usize> {
    &index.iter().find(|(k, _)| k == key).unwrap().1
}

fn cbu_entity() -> EntityTypeDefBody {
    EntityTypeDefBody {
        fqn: "cbu".into(),
        db_table: Some(DbTableMapping {
            schema: "ob-poc".into(),
            table: "cbus".into(),
        }),
    }
}

fn attribute(fqn: &str, producer: &str, column: &str, sinks: Vec<AttributeSink>) -> AttributeDefBody {
    AttributeDefBody {
        fqn: fqn.into(),
        source: Some(AttributeSource {
            producing_verb: Some(producer.into()),
            schema: Some("ob-poc".into()),
            table: Some("cbus".into()),
            column: Some(column.into()),
        }),
        sinks,
    }
}

#[test]
fn test_build_empty_snapshots() {
    let graph = AffinityGraph::build(&defs());
    assert!(graph.edges.is_empty());
    assert!(graph.verb_to_data.is_empty());
    assert!(graph.data_to_verb.is_empty());
    assert!(graph.entity_to_table.is_empty());
    assert!(graph.derivation_edges.is_empty());
    assert!(graph.entity_relationships.is_empty());
}

#[test]
fn test_pass1_verb_produces() {
    let mut v = verb("cbu.create");
    v.produces = Some(VerbProducesSpec {
        entity_type: "cbu".into(),
    });
    let mut d = defs();
    d.verb_contracts.push(v);
    let graph = AffinityGraph::build(&d);
    assert_eq!(graph.edges.len(), 1);
    assert_eq!(graph.edges[0].verb_fqn, "cbu.create");
    assert_eq!(graph.edges[0].affinity_kind, AffinityKind::Produces);
    assert_eq!(graph.edges[0].data_ref, DataRef::EntityType { fqn: "cbu".into() });
    assert_eq!(graph.edges[0].provenance, AffinityProvenance::VerbProduces);
    assert_eq!(index_get(&graph.verb_to_data, "cbu.create"), &vec![0]);
    assert_eq!(graph.known_verbs, vec!["cbu.create".to_string()]);
}

#[test]
fn test_pass1_crud_mapping() {
    let mut v = verb("cbu.list");
    v.crud_mapping = crud("select", "cbus");
    let mut d = defs();
    d.verb_contracts.push(v);
    let graph = AffinityGraph::build(&d);
    assert_eq!(graph.edges.len(), 1);
    assert_eq!(graph.edges[0].affinity_kind, AffinityKind::CrudRead);
    assert_eq!(graph.edges[0].data_ref, DataRef::Table(TableRef::new("ob-poc", "cbus")));
    assert_eq!(graph.edges[0].provenance, AffinityProvenance::VerbCrudMapping);
}

#[test]
fn crud_mapping_with_unknown_operation_gives_no_edge() {
    let mut v = verb("cbu.merge");
    v.crud_mapping = crud("upsert", "cbus");
    let mut d = defs();
    d.verb_contracts.push(v);
    assert!(AffinityGraph::build(&d).edges.is_empty());
}

#[test]
fn test_pass1_arg_lookup() {
    let mut v = verb("isda.create");
    v.args.push(VerbArgDef {
        name: "counterparty".into(),
        required: true,
        lookup: Some(VerbArgLookup {
            table: "entities".into(),
            entity_type: "entity".into(),
            schema: Some("ob-poc".into()),
        }),
        valid_values: None,
        default: None,
    });
    let mut d = defs();
    d.verb_contracts.push(v);
    let graph = AffinityGraph::build(&d);
    assert_eq!(graph.edges.len(), 1);
    assert_eq!(
        graph.edges[0].affinity_kind,
        AffinityKind::ArgLookup {
            arg_name: "counterparty".into()
        }
    );
    assert_eq!(graph.edges[0].data_ref, DataRef::Table(TableRef::new("ob-poc", "entities")));
}

#[test]
fn test_pass1_reads_from_writes_to() {
    let mut v = verb("cbu.create");
    v.reads_from = vec!["entities".into()];
    v.writes_to = vec!["cbus".into()];
    let mut d = defs();
    d.verb_contracts.push(v);
    let graph = AffinityGraph::build(&d);
    assert_eq!(graph.edges.len(), 2);
    assert_eq!(graph.edges[0].affinity_kind, AffinityKind::CrudRead);
    assert_eq!(graph.edges[0].provenance, AffinityProvenance::VerbDataFootprint);
    assert_eq!(graph.edges[0].data_ref, DataRef::Table(TableRef::new("", "entities")));
    assert_eq!(graph.edges[1].affinity_kind, AffinityKind::CrudInsert);
    assert_eq!(graph.edges[1].provenance, AffinityProvenance::VerbDataFootprint);
}

#[test]
fn test_pass2_entity_table_bimap() {
    let mut d = defs();
    d.entity_types.push(cbu_entity());
    let graph = AffinityGraph::build(&d);
    let (_, table_ref) = graph.entity_to_table.iter().find(|(k, _)| k == "cbu").unwrap();
    assert_eq!(table_ref.schema, "ob-poc");
    assert_eq!(table_ref.table, "cbus");
    let (_, entity) = graph.table_to_entity.iter().find(|(k, _)| k == "ob-poc:cbus").unwrap();
    assert_eq!(entity, "cbu");
}

#[test]
fn later_entity_definition_replaces_earlier() {
    let mut d = defs();
    d.entity_types.push(cbu_entity());
    let mut again = cbu_entity();
    again.db_table = Some(DbTableMapping {
        schema: "ob-poc".into(),
        table: "cbus_v2".into(),
    });
    d.entity_types.push(again);
    let graph = AffinityGraph::build(&d);
    assert_eq!(graph.entity_to_table.len(), 1);
    assert_eq!(graph.entity_to_table[0].1.table, "cbus_v2");
    assert_eq!(graph.table_to_entity.len(), 2);
}

#[test]
fn test_pass3_attribute_source_sink() {
    let mut d = defs();
    d.attributes.push(attribute(
        "cbu.jurisdiction_code",
        "cbu.create",
        "jurisdiction_code",
        vec![AttributeSink {
            consuming_verb: "session.load-jurisdiction".into(),
            arg_name: "code".into(),
        }],
    ));
    let graph = AffinityGraph::build(&d);
    assert_eq!(graph.edges.len(), 2);
    assert_eq!(graph.edges[0].verb_fqn, "cbu.create");
    assert_eq!(graph.edges[0].affinity_kind, AffinityKind::ProducesAttribute);
    assert_eq!(graph.edges[0].provenance, AffinityProvenance::AttributeSource);
    assert_eq!(graph.edges[1].verb_fqn, "session.load-jurisdiction");
    assert_eq!(
        graph.edges[1].affinity_kind,
        AffinityKind::ConsumesAttribute {
            arg_name: "code".into()
        }
    );
    let (_, col) = graph
        .attribute_to_column
        .iter()
        .find(|(k, _)| k == "cbu.jurisdiction_code")
        .unwrap();
    assert_eq!(col.schema, "ob-poc");
    assert_eq!(col.table, "cbus");
    assert_eq!(col.column, "jurisdiction_code");
}

fn derivation(fqn: &str, output: &str, inputs: &[&str]) -> DerivationSpecBody {
    DerivationSpecBody {
        fqn: fqn.into(),
        output_attribute_fqn: output.into(),
        inputs: inputs
            .iter()
            .map(|i| DerivationInput {
                attribute_fqn: i.to_string(),
            })
            .collect(),
        evidence_grade: EvidenceGrade::Ungraded,
    }
}

#[test]
fn test_pass4_derivation_lineage() {
    let mut d = defs();
    d.derivations.push(derivation(
        "derived.total_aum",
        "cbu.total_aum",
        &["holding.amount", "holding.currency"],
    ));
    let graph = AffinityGraph::build(&d);
    assert_eq!(graph.derivation_edges.len(), 2);
    assert_eq!(graph.derivation_edges[0].from_attribute, "holding.amount");
    assert_eq!(graph.derivation_edges[0].to_attribute, "cbu.total_aum");
    assert_eq!(graph.derivation_edges[0].spec_fqn, "derived.total_aum");
    assert_eq!(graph.derivation_edges[1].from_attribute, "holding.currency");
}

fn relationship(edge_class: Option<&str>, directionality: Option<Directionality>) -> RelationshipTypeDefBody {
    RelationshipTypeDefBody {
        fqn: "rel.parent_child".into(),
        name: "Parent-Child".into(),
        domain: "entity".into(),
        source_entity_type_fqn: "entity.organization".into(),
        target_entity_type_fqn: "entity.organization".into(),
        cardinality: RelationshipCardinality::OneToMany,
        edge_class: edge_class.map(|s| s.to_string()),
        directionality,
        description: "Corporate hierarchy".into(),
        inverse_fqn: None,
    }
}

#[test]
fn test_pass5_relationship() {
    let mut d = defs();
    d.relationships.push(relationship(Some("ownership"), Some(Directionality::Forward)));
    let graph = AffinityGraph::build(&d);
    assert_eq!(graph.entity_relationships.len(), 1);
    let er = &graph.entity_relationships[0];
    assert_eq!(er.fqn, "rel.parent_child");
    assert_eq!(er.source_entity_type_fqn, "entity.organization");
    assert_eq!(er.target_entity_type_fqn, "entity.organization");
    assert_eq!(er.edge_class.as_deref(), Some("ownership"));
    assert_eq!(er.directionality.as_deref(), Some("forward"));
    assert_eq!(er.cardinality, "onetomany");
}

#[test]
fn test_bidirectional_index() {
    let mut v1 = verb("cbu.create");
    v1.crud_mapping = crud("insert", "cbus");
    let mut v2 = verb("cbu.list");
    v2.crud_mapping = crud("select", "cbus");
    let mut d = defs();
    d.verb_contracts.push(v1);
    d.verb_contracts.push(v2);
    let graph = AffinityGraph::build(&d);
    assert_eq!(graph.edges.len(), 2);
    assert_eq!(index_get(&graph.verb_to_data, "cbu.create").len(), 1);
    assert_eq!(index_get(&graph.verb_to_data, "cbu.list").len(), 1);
    let table_key = DataRef::Table(TableRef::new("ob-poc", "cbus")).index_key();
    assert_eq!(index_get(&graph.data_to_verb, &table_key), &vec![0, 1]);
}

#[test]
fn test_multi_pass_integration() {
    let mut v = verb("cbu.create");
    v.produces = Some(VerbProducesSpec {
        entity_type: "cbu".into(),
    });
    v.crud_mapping = crud("insert", "cbus");
    let mut d = defs();
    d.verb_contracts.push(v);
    d.entity_types.push(cbu_entity());
    d.attributes.push(attribute("cbu.name", "cbu.create", "name", vec![]));
    d.derivations.push(derivation("derived.total_aum", "cbu.total_aum", &["holding.amount"]));
    d.relationships.push(relationship(None, None));
    let graph = AffinityGraph::build(&d);
    assert_eq!(graph.edges.len(), 3);
    assert!(graph.entity_to_table.iter().any(|(k, _)| k == "cbu"));
    assert!(graph.table_to_entity.iter().any(|(k, _)| k == "ob-poc:cbus"));
    assert!(graph.attribute_to_column.iter().any(|(k, _)| k == "cbu.name"));
    assert_eq!(graph.derivation_edges.len(), 1);
    assert_eq!(graph.entity_relationships.len(), 1);
    assert_eq!(index_get(&graph.verb_to_data, "cbu.create").len(), 3);
    // The built graph answers queries.
    let verbs = graph.verbs_for_table("ob-poc", "cbus");
    assert_eq!(verbs.len(), 1);
    assert_eq!(verbs[0].verb_fqn, "cbu.create");
}

#[test]
fn grouping_keeps_first_appearance_order() {
    let keys: Vec<String> = vec!["b".into(), "a".into(), "b".into(), "c".into(), "a".into()];
    let g = group_positions(&keys);
    assert_eq!(
        g,
        vec![
            ("b".to_string(), vec![0, 2]),
            ("a".to_string(), vec![1, 4]),
            ("c".to_string(), vec![3]),
        ]
    );
}
