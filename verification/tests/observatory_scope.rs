use sem_os_policy::observatory::{scope_from_level, ObservatoryScope, ViewLevel};

#[test]
fn every_level_has_its_scope() {
    assert_eq!(scope_from_level(ViewLevel::Universe), ObservatoryScope::Universe);
    assert_eq!(scope_from_level(ViewLevel::Cluster), ObservatoryScope::Cluster);
    assert_eq!(scope_from_level(ViewLevel::System), ObservatoryScope::Constellation);
    assert_eq!(scope_from_level(ViewLevel::Planet), ObservatoryScope::SingleObject);
    assert_eq!(scope_from_level(ViewLevel::Surface), ObservatoryScope::SingleObject);
    assert_eq!(scope_from_level(ViewLevel::Core), ObservatoryScope::GraphNeighbourhood);
}
