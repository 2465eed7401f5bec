use sem_os_policy::affinity::builder::RegistryDefinitions;
use sem_os_policy::affinity::discovery::{discovery_edges, generate_disambiguation, normalize};
use sem_os_policy::affinity::AffinityGraph;
use sem_os_policy::ontology::{VerbArgDef, VerbArgLookup, VerbContractBody, VerbCrudMapping};

fn verb(fqn: &str, table: &str) -> VerbContractBody {
    let (domain, action) = fqn.split_once('.').unwrap();
    VerbContractBody {
        fqn: fqn.into(),
        domain: domain.into(),
        action: action.into(),
        description: String::new(),
        args: vec![],
        produces: None,
        consumes: vec![],
        invocation_phrases: vec![],
        subject_kinds: vec![],
        requires_subject: true,
        crud_mapping: Some(VerbCrudMapping {
            operation: "select".into(),
            table: Some(table.into()),
            schema: Some("ob-poc".into()),
        }),
        reads_from: vec![],
        writes_to: vec![],
    }
}

fn graph() -> AffinityGraph {
    AffinityGraph::build(&RegistryDefinitions {
        verb_contracts: vec![verb("cbu.list", "cbus"), verb("role.list", "roles")],
        entity_types: vec![],
        attributes: vec![],
        derivations: vec![],
        relationships: vec![],
    })
}

#[test]
fn normalize_lowercases_and_collapses_punctuation() {
    assert_eq!(normalize("  Assign, the ROLE!!  to\tCBU-42 "), "assign the role to cbu 42");
    assert_eq!(normalize("?!"), "");
    assert_eq!(normalize(""), "");
}

#[test]
fn discovery_edges_with_no_matches_is_empty() {
    let g = AffinityGraph::build(&RegistryDefinitions {
        verb_contracts: vec![],
        entity_types: vec![],
        attributes: vec![],
        derivations: vec![],
        relationships: vec![],
    });
    assert!(discovery_edges("hello", &g, &vec![]).is_empty());
}

#[test]
fn discovery_edges_link_utterance_verbs_and_data() {
    let g = graph();
    let edges = discovery_edges("List the CBUs!", &g, &vec!["cbu.list".to_string(), "role.list".to_string()]);
    let expected = vec![
        ("utterance:list the cbus".to_string(), "verb:cbu.list".to_string()),
        ("verb:cbu.list".to_string(), "data:ob-poc:cbus".to_string()),
        ("utterance:list the cbus".to_string(), "verb:role.list".to_string()),
        ("verb:role.list".to_string(), "data:ob-poc:roles".to_string()),
    ];
    assert_eq!(edges, expected);
}

#[test]
fn generate_disambiguation_for_required_args_and_subject() {
    let mut v = verb("cbu-role.assign", "cbus");
    v.crud_mapping = None;
    v.invocation_phrases = vec!["set up depositary".to_string()];
    v.requires_subject = true;
    v.args.push(VerbArgDef {
        name: "entity-id".to_owned(),
        required: true,
        lookup: Some(VerbArgLookup {
            table: "entities".to_owned(),
            entity_type: "entity".to_owned(),
            schema: Some("ob-poc".to_owned()),
        }),
        valid_values: None,
        default: None,
    });
    let prompts = generate_disambiguation(&v, None);
    assert!(prompts.len() >= 2);
}
