use sem_os_policy::affinity::footprint::DataFootprint;
use sem_os_policy::affinity::{
    AffinityEdge, AffinityGraph, AffinityKind, AffinityProvenance, ColumnRef, DataRef, TableRef,
};

fn index_push(index: &mut Vec<(String, Vec<usize>)>, key: String, idx: usize) {
    match index.iter_mut().find(|(k, _)| *k == key) {
        Some((_, v)) => v.push(idx),
        None => index.push((key, vec![idx])),
    }
}

/// A test graph with known edges.
fn test_graph() -> AffinityGraph {
    let edges = vec![
        AffinityEdge {
            verb_fqn: "cbu.create".into(),
            data_ref: DataRef::EntityType { fqn: "cbu".into() },
            affinity_kind: AffinityKind::Produces,
            provenance: AffinityProvenance::VerbProduces,
        },
        AffinityEdge {
            verb_fqn: "cbu.create".into(),
            data_ref: DataRef::Table(TableRef::new("ob-poc", "cbus")),
            affinity_kind: AffinityKind::CrudInsert,
            provenance: AffinityProvenance::VerbCrudMapping,
        },
        AffinityEdge {
            verb_fqn: "cbu.list".into(),
            data_ref: DataRef::Table(TableRef::new("ob-poc", "cbus")),
            affinity_kind: AffinityKind::CrudRead,
            provenance: AffinityProvenance::VerbCrudMapping,
        },
        AffinityEdge {
            verb_fqn: "cbu.create".into(),
            data_ref: DataRef::Table(TableRef::new("ob-poc", "entities")),
            affinity_kind: AffinityKind::ArgLookup {
                arg_name: "depositary".into(),
            },
            provenance: AffinityProvenance::VerbArgLookup,
        },
        AffinityEdge {
            verb_fqn: "entity.create".into(),
            data_ref: DataRef::Table(TableRef::new("ob-poc", "entities")),
            affinity_kind: AffinityKind::CrudInsert,
            provenance: AffinityProvenance::VerbCrudMapping,
        },
        AffinityEdge {
            verb_fqn: "cbu.create".into(),
            data_ref: DataRef::Attribute {
                fqn: "cbu.name".into(),
            },
            affinity_kind: AffinityKind::ProducesAttribute,
            provenance: AffinityProvenance::AttributeSource,
        },
        AffinityEdge {
            verb_fqn: "cbu.list".into(),
            data_ref: DataRef::Attribute {
                fqn: "cbu.name".into(),
            },
            affinity_kind: AffinityKind::ConsumesAttribute {
                arg_name: "filter".into(),
            },
            provenance: AffinityProvenance::AttributeSink,
        },
        AffinityEdge {
            verb_fqn: "cbu.create".into(),
            data_ref: DataRef::Attribute {
                fqn: "cbu.jurisdiction_code".into(),
            },
            affinity_kind: AffinityKind::ProducesAttribute,
            provenance: AffinityProvenance::AttributeSource,
        },
        AffinityEdge {
            verb_fqn: "cbu.read".into(),
            data_ref: DataRef::Attribute {
                fqn: "cbu.client_label".into(),
            },
            affinity_kind: AffinityKind::ConsumesAttribute {
                arg_name: "label".into(),
            },
            provenance: AffinityProvenance::AttributeSink,
        },
    ];

    let mut verb_to_data: Vec<(String, Vec<usize>)> = Vec::new();
    let mut data_to_verb: Vec<(String, Vec<usize>)> = Vec::new();
    for (idx, edge) in edges.iter().enumerate() {
        index_push(&mut verb_to_data, edge.verb_fqn.clone(), idx);
        index_push(&mut data_to_verb, edge.data_ref.index_key(), idx);
    }

    AffinityGraph {
        edges,
        verb_to_data,
        data_to_verb,
        entity_to_table: vec![("cbu".to_string(), TableRef::new("ob-poc", "cbus"))],
        table_to_entity: vec![("ob-poc:cbus".to_string(), "cbu".to_string())],
        attribute_to_column: vec![],
        derivation_edges: vec![],
        entity_relationships: vec![],
        known_verbs: vec![],
    }
}

fn empty_graph() -> AffinityGraph {
    AffinityGraph {
        edges: vec![],
        verb_to_data: vec![],
        data_to_verb: vec![],
        entity_to_table: vec![],
        table_to_entity: vec![],
        attribute_to_column: vec![],
        derivation_edges: vec![],
        entity_relationships: vec![],
        known_verbs: vec![],
    }
}

fn has_table(fp: &DataFootprint, key: &str) -> bool {
    fp.tables.iter().any(|(k, _)| k == key)
}

#[test]
fn test_verbs_for_table_finds_crud() {
    let graph = test_graph();
    let verbs = graph.verbs_for_table("ob-poc", "cbus");
    let fqns: Vec<&str> = verbs.iter().map(|v| v.verb_fqn.as_str()).collect();
    assert!(fqns.contains(&"cbu.create"), "should find insert verb");
    assert!(fqns.contains(&"cbu.list"), "should find read verb");
}

#[test]
fn test_verbs_for_table_finds_lookup() {
    let graph = test_graph();
    let verbs = graph.verbs_for_table("ob-poc", "entities");
    let fqns: Vec<&str> = verbs.iter().map(|v| v.verb_fqn.as_str()).collect();
    assert!(fqns.contains(&"cbu.create"), "should find arg lookup verb");
    assert!(fqns.contains(&"entity.create"), "should find insert verb");
}

#[test]
fn test_verbs_for_attribute_both_directions() {
    let graph = test_graph();
    let verbs = graph.verbs_for_attribute("cbu.name");
    let fqns: Vec<&str> = verbs.iter().map(|v| v.verb_fqn.as_str()).collect();
    assert!(fqns.contains(&"cbu.create"), "should find producer");
    assert!(fqns.contains(&"cbu.list"), "should find consumer");
}

#[test]
fn test_verbs_for_entity_type_via_table() {
    let graph = test_graph();
    let verbs = graph.verbs_for_entity_type("cbu");
    let fqns: Vec<&str> = verbs.iter().map(|v| v.verb_fqn.as_str()).collect();
    assert!(fqns.contains(&"cbu.create"), "via Produces + CrudInsert");
    assert!(fqns.contains(&"cbu.list"), "via CrudRead on cbus table");
}

#[test]
fn verbs_for_entity_type_keeps_each_verb_and_kind_once() {
    let graph = test_graph();
    let verbs = graph.verbs_for_entity_type("cbu");
    // cbu.create/Produces (direct), cbu.create/CrudInsert and cbu.list/CrudRead (via table)
    assert_eq!(verbs.len(), 3);
    assert_eq!(verbs[0].verb_fqn, "cbu.create");
    assert_eq!(verbs[0].affinity_kind, AffinityKind::Produces);
    assert_eq!(verbs[1].affinity_kind, AffinityKind::CrudInsert);
    assert_eq!(verbs[2].verb_fqn, "cbu.list");
}

#[test]
fn test_data_for_verb() {
    let graph = test_graph();
    let data = graph.data_for_verb("cbu.create");
    assert!(
        data.len() >= 3,
        "cbu.create touches entity, table, lookup, attrs"
    );

    let has_entity = data
        .iter()
        .any(|d| matches!(&d.data_ref, DataRef::EntityType { fqn } if fqn == "cbu"));
    assert!(has_entity, "should include entity type");

    let has_table = data.iter().any(|d| {
        matches!(&d.data_ref, DataRef::Table(t) if t.schema == "ob-poc" && t.table == "cbus")
    });
    assert!(has_table, "should include table");
}

#[test]
fn data_for_verb_lists_edges_in_index_order() {
    let graph = test_graph();
    let data = graph.data_for_verb("cbu.create");
    assert_eq!(data.len(), 5);
    assert_eq!(data[0].data_ref, DataRef::EntityType { fqn: "cbu".into() });
    assert_eq!(data[2].affinity_kind, AffinityKind::ArgLookup { arg_name: "depositary".into() });
}

#[test]
fn test_data_footprint_depth_1() {
    let graph = test_graph();
    let fp = graph.data_footprint("cbu.create", 1);
    assert!(has_table(&fp, "ob-poc:cbus"));
    assert!(has_table(&fp, "ob-poc:entities"));
    assert!(fp.entity_types.contains(&"cbu".to_string()));
    assert!(fp.attributes.contains(&"cbu.name".to_string()));
}

#[test]
fn test_data_footprint_depth_2() {
    let graph = test_graph();
    let fp = graph.data_footprint("cbu.create", 2);
    assert!(has_table(&fp, "ob-poc:entities"));
    assert!(has_table(&fp, "ob-poc:cbus"));
}

#[test]
fn data_footprint_tables_in_key_order_once_each() {
    let graph = test_graph();
    let fp = graph.data_footprint("cbu.create", 3);
    let keys: Vec<&str> = fp.tables.iter().map(|(k, _)| k.as_str()).collect();
    assert_eq!(keys, vec!["ob-poc:cbus", "ob-poc:entities"]);
    assert_eq!(fp.attributes.len(), 2);
    assert_eq!(fp.entity_types, vec!["cbu".to_string()]);
}

#[test]
fn data_footprint_follows_lookup_to_writer_columns() {
    let mut graph = test_graph();
    graph.edges.push(AffinityEdge {
        verb_fqn: "entity.create".into(),
        data_ref: DataRef::Column(ColumnRef::new("ob-poc", "entities", "name")),
        affinity_kind: AffinityKind::CrudInsert,
        provenance: AffinityProvenance::VerbCrudMapping,
    });
    let idx = graph.edges.len() - 1;
    graph.verb_to_data.iter_mut().find(|(k, _)| k == "entity.create").unwrap().1.push(idx);
    // At depth 1 the lookup is not followed.
    let fp1 = graph.data_footprint("cbu.create", 1);
    assert!(fp1.columns.is_empty());
    // At depth 2 entity.create is walked and its column is taken in.
    let fp2 = graph.data_footprint("cbu.create", 2);
    assert_eq!(fp2.columns.len(), 1);
    assert_eq!(fp2.columns[0].0, "ob-poc:entities:name");
}

#[test]
fn data_footprint_unknown_verb_is_empty() {
    let graph = test_graph();
    let fp = graph.data_footprint("nonexistent.verb", 3);
    assert!(fp.tables.is_empty() && fp.columns.is_empty());
    assert!(fp.attributes.is_empty() && fp.entity_types.is_empty());
}

#[test]
fn test_adjacent_verbs_shared_table() {
    let graph = test_graph();
    let adjacent = graph.adjacent_verbs("cbu.create");
    let neighbor_fqns: Vec<&str> = adjacent.iter().map(|(v, _)| v.as_str()).collect();

    assert!(
        neighbor_fqns.contains(&"cbu.list"),
        "cbu.list shares cbus table"
    );
    assert!(
        neighbor_fqns.contains(&"entity.create"),
        "entity.create shares entities table"
    );

    let cbu_list_entry = adjacent.iter().find(|(v, _)| v == "cbu.list").unwrap();
    let shared_refs: Vec<String> = cbu_list_entry.1.iter().map(|r| r.index_key()).collect();
    assert!(shared_refs.contains(&"table:ob-poc:cbus".to_string()));
}

#[test]
fn adjacent_verbs_sorted_by_verb() {
    let graph = test_graph();
    let adjacent = graph.adjacent_verbs("cbu.create");
    let names: Vec<&str> = adjacent.iter().map(|(v, _)| v.as_str()).collect();
    assert_eq!(names, vec!["cbu.list", "entity.create"]);
    // cbu.list shares the cbus table and the cbu.name attribute, each once.
    assert_eq!(adjacent[0].1.len(), 2);
}

#[test]
fn test_orphan_tables() {
    let graph = test_graph();
    let known = vec![
        TableRef::new("ob-poc", "cbus"),
        TableRef::new("ob-poc", "entities"),
        TableRef::new("ob-poc", "holdings"),
    ];
    let orphans = graph.orphan_tables(&known);
    assert_eq!(orphans.len(), 1);
    assert_eq!(orphans[0].table, "holdings");
}

#[test]
fn test_write_only_attributes() {
    let graph = test_graph();
    let write_only = graph.write_only_attributes();
    assert!(
        write_only.contains(&"cbu.jurisdiction_code".to_string()),
        "jurisdiction_code is produced but never consumed"
    );
    assert!(
        !write_only.contains(&"cbu.name".to_string()),
        "cbu.name has both producer and consumer"
    );
}

#[test]
fn test_read_before_write_attributes() {
    let graph = test_graph();
    let rbw = graph.read_before_write_attributes();
    assert!(
        rbw.contains(&"cbu.client_label".to_string()),
        "client_label is consumed but never produced"
    );
    assert!(
        !rbw.contains(&"cbu.name".to_string()),
        "cbu.name has a producer"
    );
}

#[test]
fn test_verbs_for_nonexistent_table() {
    let graph = test_graph();
    let verbs = graph.verbs_for_table("unknown", "table");
    assert!(verbs.is_empty());
}

#[test]
fn test_data_for_nonexistent_verb() {
    let graph = test_graph();
    let data = graph.data_for_verb("nonexistent.verb");
    assert!(data.is_empty());
}

#[test]
fn test_adjacent_verbs_nonexistent() {
    let graph = test_graph();
    let adj = graph.adjacent_verbs("nonexistent.verb");
    assert!(adj.is_empty());
}

#[test]
fn test_orphan_verbs_empty_graph() {
    let graph = empty_graph();
    assert!(graph.orphan_verbs().is_empty());
}

#[test]
fn orphan_verbs_sorted_and_without_data() {
    let mut graph = test_graph();
    graph.known_verbs = vec!["z.verb".into(), "cbu.create".into(), "a.verb".into(), "z.verb".into()];
    assert_eq!(graph.orphan_verbs(), vec!["a.verb".to_string(), "z.verb".to_string()]);
}

#[test]
fn table_ref_hash_eq() {
    let a = TableRef::new("ob-poc", "cbus");
    let b = TableRef::new("ob-poc", "cbus");
    let c = TableRef::new("ob-poc", "entities");
    assert_eq!(a, b);
    assert_ne!(a, c);

    let mut set = std::collections::HashSet::new();
    set.insert(a.clone());
    set.insert(b);
    assert_eq!(set.len(), 1);
    set.insert(c);
    assert_eq!(set.len(), 2);
}

#[test]
fn column_ref_hash_eq() {
    let a = ColumnRef::new("ob-poc", "cbus", "name");
    let b = ColumnRef::new("ob-poc", "cbus", "name");
    let c = ColumnRef::new("ob-poc", "cbus", "jurisdiction_code");
    assert_eq!(a, b);
    assert_ne!(a, c);
}

#[test]
fn data_ref_hash_eq() {
    let t1 = DataRef::Table(TableRef::new("ob-poc", "cbus"));
    let t2 = DataRef::Table(TableRef::new("ob-poc", "cbus"));
    let e1 = DataRef::EntityType { fqn: "cbu".into() };
    let e2 = DataRef::EntityType { fqn: "cbu".into() };
    let a1 = DataRef::Attribute {
        fqn: "cbu.name".into(),
    };
    assert_eq!(t1, t2);
    assert_eq!(e1, e2);
    assert_ne!(t1, e1);
    assert_ne!(e1, a1);
}

#[test]
fn data_ref_index_key() {
    assert_eq!(
        DataRef::Table(TableRef::new("ob-poc", "cbus")).index_key(),
        "table:ob-poc:cbus"
    );
    assert_eq!(
        DataRef::Column(ColumnRef::new("ob-poc", "cbus", "name")).index_key(),
        "column:ob-poc:cbus:name"
    );
    assert_eq!(
        DataRef::EntityType { fqn: "cbu".into() }.index_key(),
        "entity_type:cbu"
    );
    assert_eq!(
        DataRef::Attribute {
            fqn: "cbu.name".into()
        }
        .index_key(),
        "attribute:cbu.name"
    );
}

#[test]
fn table_ref_key_joins_schema_and_table() {
    assert_eq!(TableRef::new("ob-poc", "cbus").key(), "ob-poc:cbus");
}

#[test]
fn data_footprint_default() {
    let fp = DataFootprint::default();
    assert!(fp.tables.is_empty());
    assert!(fp.columns.is_empty());
    assert!(fp.attributes.is_empty());
    assert!(fp.entity_types.is_empty());
}

#[test]
fn affinity_graph_empty() {
    let graph = empty_graph();
    assert!(graph.edges.is_empty());
    assert!(graph.verbs_for_attribute("cbu.name").is_empty());
    assert!(graph.write_only_attributes().is_empty());
}
