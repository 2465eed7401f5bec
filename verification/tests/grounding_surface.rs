use sem_os_policy::grounding::{
    compute_slot_action_surface, ConstellationMapDefBody, ConstellationModel, DependencyEntry, ResolvedSlot, SlotDef,
    SlotTree, StateMachineDefBody, VerbPaletteEntry,
};

fn model() -> ConstellationModel {
    let cbu = ResolvedSlot {
        name: "cbu".to_string(),
        def: SlotDef {
            state_machine: None,
            depends_on: vec![],
            verbs: vec![("show".to_string(), VerbPaletteEntry::Simple("cbu.read".to_string()))],
        },
    };
    let case = ResolvedSlot {
        name: "case".to_string(),
        def: SlotDef {
            state_machine: Some("case_machine".to_string()),
            depends_on: vec![DependencyEntry { slot: "cbu".to_string(), min_state: "filled".to_string() }],
            verbs: vec![
                (
                    "open".to_string(),
                    VerbPaletteEntry::Gated { verb: "case.open".to_string(), when: vec!["intake".to_string()] },
                ),
                ("show".to_string(), VerbPaletteEntry::Simple("case.read".to_string())),
                ("view".to_string(), VerbPaletteEntry::Simple("case.read".to_string())),
            ],
        },
    };
    ConstellationModel {
        constellation: "demo".to_string(),
        slots: vec![("case".to_string(), case), ("cbu".to_string(), cbu)],
        state_machines: vec![(
            "case_machine".to_string(),
            StateMachineDefBody {
                state_machine: "case_machine".to_string(),
                states: vec!["intake".to_string(), "review".to_string()],
                initial: "intake".to_string(),
            },
        )],
    }
}

#[test]
fn each_valid_action_is_offered_once() {
    let states = vec![("cbu".to_string(), "filled".to_string()), ("case".to_string(), "intake".to_string())];
    let surface = compute_slot_action_surface(&model(), &states, "case").unwrap();
    let ids: Vec<&str> = surface.valid_actions.iter().map(|a| a.action_id.as_str()).collect();
    assert_eq!(ids, vec!["case.open", "case.read"]);
    assert!(surface.blocked_actions.is_empty());
}

#[test]
fn a_blocking_dependency_blocks_every_entry() {
    let states = vec![("case".to_string(), "intake".to_string())];
    let surface = compute_slot_action_surface(&model(), &states, "case").unwrap();
    assert!(surface.valid_actions.is_empty());
    assert_eq!(surface.blocked_actions.len(), 3);
    assert!(!surface.constraint_signals.is_empty());
}

#[test]
fn an_unknown_slot_is_refused() {
    assert_eq!(compute_slot_action_surface(&model(), &vec![], "nope"), Err("unknown slot 'nope'".to_string()));
}

#[test]
fn computes_valid_action_for_slot_with_satisfied_dependencies() {
    let mut m = model();
    // the case slot offers only its gated `open` verb here
    m.slots[0].1.def.verbs.truncate(1);
    let states = vec![("cbu".to_string(), "filled".to_string()), ("case".to_string(), "intake".to_string())];
    let surface = compute_slot_action_surface(&m, &states, "case").unwrap();
    assert_eq!(surface.valid_actions.len(), 1);
    assert!(surface.blocked_actions.is_empty());
    assert_eq!(surface.valid_actions[0].action_id, "case.open");
}

#[test]
fn blocks_action_when_dependency_is_missing() {
    let mandate = ResolvedSlot {
        name: "mandate".to_string(),
        def: SlotDef {
            state_machine: None,
            depends_on: vec![DependencyEntry { slot: "case".to_string(), min_state: "intake".to_string() }],
            verbs: vec![("create".to_string(), VerbPaletteEntry::Simple("mandate.create".to_string()))],
        },
    };
    let cbu = ResolvedSlot {
        name: "cbu".to_string(),
        def: SlotDef { state_machine: None, depends_on: vec![], verbs: vec![] },
    };
    let m = ConstellationModel {
        constellation: "demo".to_string(),
        slots: vec![("cbu".to_string(), cbu), ("mandate".to_string(), mandate)],
        state_machines: vec![],
    };
    let surface = compute_slot_action_surface(&m, &vec![], "mandate").unwrap();
    assert!(surface.valid_actions.is_empty());
    assert_eq!(surface.blocked_actions.len(), 1);
    assert!(surface.blocked_actions[0].reasons[0].contains("dependency 'case'"));
    assert_eq!(surface.constraint_signals.len(), 1);
    assert_eq!(surface.constraint_signals[0].kind, "dependency_block");
    assert_eq!(surface.constraint_signals[0].related_slot.as_deref(), Some("case"));
}

fn leaf(verbs: Vec<(String, VerbPaletteEntry)>) -> SlotTree {
    SlotTree { def: SlotDef { state_machine: None, depends_on: vec![], verbs }, children: vec![] }
}

#[test]
fn from_parts_flattens_nested_slots_under_dotted_paths() {
    let mut case = leaf(vec![("open".to_string(), VerbPaletteEntry::Simple("case.open".to_string()))]);
    case.children.push((
        "mandate".to_string(),
        leaf(vec![("create".to_string(), VerbPaletteEntry::Simple("mandate.create".to_string()))]),
    ));
    let map = ConstellationMapDefBody {
        constellation: "demo".to_string(),
        slots: vec![("case".to_string(), case), ("cbu".to_string(), leaf(vec![]))],
    };
    let model = ConstellationModel::from_parts(map, vec![]);
    assert_eq!(model.constellation, "demo");
    let names: Vec<&str> = model.slots.iter().map(|(k, s)| {
        assert_eq!(k, &s.name);
        k.as_str()
    }).collect();
    assert_eq!(names, vec!["case", "case.mandate", "cbu"]);
    let surface = compute_slot_action_surface(&model, &vec![], "case.mandate").unwrap();
    assert_eq!(surface.valid_actions[0].action_id, "mandate.create");
}
