use rouge_software::reactive::vnode::vprops::{PropsError, VProps};

#[test]
fn single_extraction_of_the_held_type_succeeds() {
    let mut props = VProps::new(7, 42);
    assert!(props.valid());
    assert_eq!(props.type_id(), 7);
    assert_eq!(props.try_unwrap(7), Ok(42));
    assert!(!props.valid());
}

#[test]
fn second_extraction_is_refused() {
    let mut props = VProps::new(7, 42);
    assert_eq!(props.try_unwrap(7), Ok(42));
    assert_eq!(props.try_unwrap(7), Err(PropsError::Consumed));
    assert_eq!(props.try_unwrap(8), Err(PropsError::Consumed));
}

#[test]
fn extraction_as_another_type_is_refused_and_spends_the_container() {
    let mut props = VProps::new(7, 42);
    assert_eq!(props.try_unwrap(8), Err(PropsError::TypeMismatch { held: 7, expected: 8 }));
    assert!(!props.valid());
    assert_eq!(props.try_unwrap(7), Err(PropsError::Consumed));
}

#[test]
fn unwrap_hands_out_the_handle_once() {
    let mut props = VProps::new(3, 9);
    assert_eq!(props.unwrap(3), 9);
    assert!(!props.valid());
    assert_eq!(props.type_id(), 3);
}

#[test]
fn the_container_moves_with_its_value() {
    let props = VProps::new(3, 9);
    let mut moved = props;
    assert_eq!(moved.try_unwrap(3), Ok(9));
    assert_eq!(moved.try_unwrap(3), Err(PropsError::Consumed));
}
