use nizaam_core::control_plane::dependency::{
    ConditionReference, ConditionReferenceError, DependencyKind,
};

#[test]
fn condition_reference_preserves_value() {
    let condition = ConditionReference::new("creed-sensitive").unwrap();
    assert_eq!(condition.as_str(), "creed-sensitive");
}

#[test]
fn empty_condition_reference_is_rejected() {
    assert_eq!(
        ConditionReference::new(""),
        Err(ConditionReferenceError::Empty)
    );
}

#[test]
fn whitespace_condition_reference_is_rejected() {
    assert_eq!(
        ConditionReference::new("   \t\n"),
        Err(ConditionReferenceError::Empty)
    );
}

#[test]
fn dependency_kind_variants_are_distinct() {
    assert_ne!(DependencyKind::Blocking, DependencyKind::NonBlocking);
    assert_ne!(DependencyKind::NonBlocking, DependencyKind::Conditional);
    assert_ne!(DependencyKind::Blocking, DependencyKind::Conditional);
}


