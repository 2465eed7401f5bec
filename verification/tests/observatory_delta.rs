use sem_os_policy::observatory::{
    compute_delta, scope_from_level, FocusIdentity, FocusKind, LensState, OrientationContract, OverlayState,
    ViewLevel,
};

fn contract(level: ViewLevel, mode: &str) -> OrientationContract {
    OrientationContract {
        session_mode: mode.to_string(),
        view_level: level,
        focus_kind: FocusKind::Constellation,
        focus_identity: FocusIdentity {
            canonical_id: "7f1c0d9e-3a52-4a8e-9b1e-2f4d6c8a0b13".to_string(),
            business_label: "Session".to_string(),
            object_type: None,
        },
        scope: scope_from_level(level),
        lens: LensState {
            overlay: OverlayState::ActiveOnly,
            depth_probe: None,
            cluster_mode: "Jurisdiction".to_string(),
            active_filters: vec![],
        },
        available_actions: vec![],
    }
}

#[test]
fn test_compute_delta_no_change() {
    let c1 = contract(ViewLevel::Universe, "governed");
    let c2 = contract(ViewLevel::Universe, "governed");
    let delta = compute_delta(&c1, &c2);
    assert!(delta.mode_changed.is_none());
    assert!(delta.level_changed.is_none());
    assert!(delta.focus_changed.is_none());
    assert!(delta.lens_changed.is_none());
}

#[test]
fn test_compute_delta_level_change() {
    let c1 = contract(ViewLevel::Universe, "governed");
    let c2 = contract(ViewLevel::Cluster, "governed");
    let delta = compute_delta(&c1, &c2);
    assert!(delta.level_changed.is_some());
    let lc = delta.level_changed.unwrap();
    assert_eq!(lc.from, ViewLevel::Universe);
    assert_eq!(lc.to, ViewLevel::Cluster);
}

#[test]
fn test_compute_delta_mode_change() {
    let c1 = contract(ViewLevel::Surface, "governed");
    let c2 = contract(ViewLevel::Surface, "maintenance");
    let delta = compute_delta(&c1, &c2);
    assert!(delta.mode_changed.is_some());
    assert!(delta.summary.contains("Mode"));
}

#[test]
fn delta_summary_and_counts() {
    let c1 = contract(ViewLevel::Universe, "governed");
    assert_eq!(compute_delta(&c1, &c1).summary, "No significant changes");
    let mut c2 = contract(ViewLevel::Core, "research");
    c2.focus_kind = FocusKind::Other("fund".to_string());
    c2.focus_identity.canonical_id = "fund-1".to_string();
    c2.focus_identity.business_label = "Fund One".to_string();
    c2.lens.active_filters = vec!["lux".to_string()];
    let mut c1 = c1;
    c1.available_actions = vec!["a".to_string(), "b".to_string(), "b".to_string()];
    c2.available_actions = vec!["b".to_string(), "c".to_string(), "d".to_string(), "c".to_string()];
    let delta = compute_delta(&c1, &c2);
    assert_eq!(
        delta.summary,
        "Mode: governed → research; Level: Universe → Core; Focus: Session → Fund One"
    );
    assert!(delta.scope_changed);
    assert_eq!(delta.actions_added, 2);
    assert_eq!(delta.actions_removed, 1);
    let lens = delta.lens_changed.unwrap();
    assert!(lens.filters_changed && !lens.overlay_changed && !lens.depth_changed && !lens.cluster_changed);
}
