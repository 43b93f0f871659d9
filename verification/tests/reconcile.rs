use rouge_software::reactive::host::{Effect, HostClass, HostObject, ObjectType, Placement, Plan, Removal};
use rouge_software::reactive::vnode::vcomponent::VComponent;
use rouge_software::reactive::vnode::vobject::{VObject, VObjectBuilder};
use rouge_software::reactive::vnode::vprops::VProps;
use rouge_software::reactive::vnode::VNode;
use rouge_software::reactive::vstate::vobject_state::VObjectState;
use rouge_software::reactive::vstate::VState;

fn ty(id: u64, class: HostClass) -> ObjectType {
    ObjectType { id, class }
}

fn boxed(children: Vec<VNode>) -> VNode {
    ty(1, HostClass::GenericBox).c(10).children(children)
}

fn leaf(id: u64) -> VNode {
    ty(id, HostClass::Widget).c(id)
}

fn window(children: Vec<VNode>) -> VNode {
    ty(2, HostClass::WindowLike).c(20).children(children)
}

fn handle_of(state: &VState) -> u64 {
    state.object().handle
}

fn child_handles(state: &VState) -> Vec<u64> {
    match state {
        VState::Object(s) => s.children.iter().map(handle_of).collect(),
        VState::Component(_) => vec![],
    }
}

fn build(node: VNode, plan: &mut Plan) -> VState {
    assert!(VState::can_build_within(&node, plan));
    VState::build(node, plan)
}

#[test]
fn build_numbers_parents_before_children() {
    let tree = || boxed(vec![boxed(vec![leaf(5)]), leaf(6)]);
    let mut plan = Plan::new();
    let state = build(tree(), &mut plan);
    assert_eq!(plan.next_handle, 4);
    assert_eq!(handle_of(&state), 0);
    assert_eq!(child_handles(&state), vec![1, 3]);
    match &state {
        VState::Object(s) => assert_eq!(child_handles(&s.children[0]), vec![2]),
        VState::Component(_) => panic!("the root is an object"),
    }
}

#[test]
fn build_plans_each_step_in_order() {
    let tree = || boxed(vec![leaf(5)]);
    let mut plan = Plan::new();
    let _ = build(tree(), &mut plan);
    let box_type = ty(1, HostClass::GenericBox);
    let leaf_type = ty(5, HostClass::Widget);
    assert_eq!(
        plan.effects,
        vec![
            Effect::Instantiate { object: 0, object_type: box_type },
            Effect::Patch { object: 0, patcher: Some(10) },
            Effect::Snapshot { object: 0 },
            Effect::Instantiate { object: 1, object_type: leaf_type },
            Effect::Patch { object: 1, patcher: Some(5) },
            Effect::Snapshot { object: 1 },
            Effect::Show { object: 1 },
            Effect::Attach { parent: 0, child: 1, placement: Placement::Append },
            Effect::Show { object: 0 },
        ]
    );
}

#[test]
fn custom_constructor_is_asked_for() {
    let node = || VNode::Object(VObject {
        object_type: ty(7, HostClass::Widget),
        constructor: Some(99),
        patcher: None,
        children: vec![],
    });
    let mut plan = Plan::new();
    let _ = build(node(), &mut plan);
    assert_eq!(
        plan.effects[0],
        Effect::Construct { object: 0, object_type: ty(7, HostClass::Widget), constructor: 99 }
    );
    assert_eq!(plan.effects[1], Effect::Patch { object: 0, patcher: None });
}

#[test]
fn patch_with_the_same_tree_keeps_every_object() {
    let tree = || boxed(vec![boxed(vec![leaf(5)]), leaf(6)]);
    let mut plan = Plan::new();
    let mut state = build(tree(), &mut plan);
    let before = child_handles(&state);
    let _ = plan.take_effects();
    assert!(state.patch(tree(), &mut plan));
    assert_eq!(plan.next_handle, 4);
    assert_eq!(handle_of(&state), 0);
    assert_eq!(child_handles(&state), before);
    assert_eq!(
        plan.effects,
        vec![
            Effect::Restore { object: 2 },
            Effect::DetachHandlers { object: 2 },
            Effect::Patch { object: 2, patcher: Some(5) },
            Effect::Restore { object: 1 },
            Effect::DetachHandlers { object: 1 },
            Effect::Patch { object: 1, patcher: Some(10) },
            Effect::Restore { object: 3 },
            Effect::DetachHandlers { object: 3 },
            Effect::Patch { object: 3, patcher: Some(6) },
            Effect::Restore { object: 0 },
            Effect::DetachHandlers { object: 0 },
            Effect::Patch { object: 0, patcher: Some(10) },
        ]
    );
}

#[test]
fn retyped_last_child_is_rebuilt_and_siblings_stay() {
    // [A(X), B(Y), C(Z)] -> [A(X), B(Y), D(W)]
    let before = || boxed(vec![leaf(11), leaf(12), leaf(13)]);
    let after = || boxed(vec![leaf(11), leaf(12), leaf(14)]);
    let mut plan = Plan::new();
    let mut state = build(before(), &mut plan);
    assert_eq!(child_handles(&state), vec![1, 2, 3]);
    let _ = plan.take_effects();
    assert!(state.patch(after(), &mut plan));
    assert_eq!(child_handles(&state), vec![1, 2, 4]);
    assert_eq!(plan.next_handle, 5);
    let detach = Effect::Detach { parent: 0, child: 3, removal: Removal::Take };
    let release = Effect::Release { object: 3 };
    let create = Effect::Instantiate { object: 4, object_type: ty(14, HostClass::Widget) };
    let attach = Effect::Attach { parent: 0, child: 4, placement: Placement::Append };
    let at = |e: &Effect| plan.effects.iter().position(|x| x == e).expect("planned");
    assert!(at(&detach) < at(&release));
    assert!(at(&release) < at(&create));
    assert!(at(&create) < at(&attach));
    assert!(!plan.effects.contains(&Effect::Release { object: 1 }));
    assert!(!plan.effects.contains(&Effect::Release { object: 2 }));
    assert!(plan.effects.contains(&Effect::Patch { object: 1, patcher: Some(11) }));
    assert!(plan.effects.contains(&Effect::Patch { object: 2, patcher: Some(12) }));
}

#[test]
fn a_type_change_rebuilds_every_later_sibling_too() {
    let before = || boxed(vec![leaf(11), leaf(12), leaf(13)]);
    let after = || boxed(vec![leaf(11), leaf(99), leaf(13)]);
    let mut plan = Plan::new();
    let mut state = build(before(), &mut plan);
    let _ = plan.take_effects();
    assert!(state.patch(after(), &mut plan));
    assert_eq!(child_handles(&state), vec![1, 4, 5]);
    assert!(plan.effects.contains(&Effect::Release { object: 2 }));
    assert!(plan.effects.contains(&Effect::Release { object: 3 }));
}

#[test]
fn appended_children_are_the_only_ones_built() {
    let before = || boxed(vec![leaf(11)]);
    let after = || boxed(vec![leaf(11), leaf(12), leaf(13)]);
    let mut plan = Plan::new();
    let mut state = build(before(), &mut plan);
    let _ = plan.take_effects();
    assert!(state.patch(after(), &mut plan));
    assert_eq!(child_handles(&state), vec![1, 2, 3]);
    let built = plan
        .effects
        .iter()
        .filter(|e| matches!(e, Effect::Instantiate { .. }))
        .count();
    assert_eq!(built, 2);
    let attached = plan.effects.iter().filter(|e| matches!(e, Effect::Attach { .. })).count();
    assert_eq!(attached, 2);
    assert!(!plan.effects.iter().any(|e| matches!(e, Effect::Detach { .. } | Effect::Release { .. })));
}

#[test]
fn removed_children_are_the_only_ones_unmounted() {
    let before = || boxed(vec![leaf(11), leaf(12), leaf(13)]);
    let after = || boxed(vec![leaf(11)]);
    let mut plan = Plan::new();
    let mut state = build(before(), &mut plan);
    let _ = plan.take_effects();
    assert!(state.patch(after(), &mut plan));
    assert_eq!(child_handles(&state), vec![1]);
    assert_eq!(plan.next_handle, 4);
    let released: Vec<&Effect> =
        plan.effects.iter().filter(|e| matches!(e, Effect::Release { .. })).collect();
    assert_eq!(released, vec![&Effect::Release { object: 2 }, &Effect::Release { object: 3 }]);
    assert!(!plan.effects.iter().any(|e| matches!(e, Effect::Instantiate { .. })));
}

#[test]
fn window_with_chrome_and_content_cannot_go_down_to_one_child() {
    let before = || window(vec![leaf(11), leaf(12)]);
    let after = || window(vec![leaf(11)]);
    let mut plan = Plan::new();
    let mut state = build(before(), &mut plan);
    let effects = plan.take_effects();
    assert!(effects.contains(&Effect::Attach { parent: 0, child: 1, placement: Placement::Chrome }));
    assert!(effects.contains(&Effect::Attach { parent: 0, child: 2, placement: Placement::Content }));
    assert!(!state.can_patch(&after()));
    assert!(!state.try_patch(after(), &mut plan));
    assert!(plan.effects.is_empty());
    assert_eq!(child_handles(&state), vec![1, 2]);
    // Nor with a chrome of another type.
    let retyped = || window(vec![leaf(99)]);
    assert!(!state.try_patch(retyped(), &mut plan));
    assert!(plan.effects.is_empty());
}

#[test]
fn window_with_one_child_cannot_gain_a_chrome() {
    let before = || window(vec![leaf(11)]);
    let after = || window(vec![leaf(11), leaf(12)]);
    let mut plan = Plan::new();
    let mut state = build(before(), &mut plan);
    let effects = plan.take_effects();
    assert!(effects.contains(&Effect::Attach { parent: 0, child: 1, placement: Placement::Content }));
    assert!(!state.try_patch(after(), &mut plan));
}

#[test]
fn window_with_one_child_cannot_go_to_two_even_where_the_child_is_replaced() {
    let before = || window(vec![leaf(11)]);
    let after = || window(vec![leaf(99), leaf(12)]);
    let mut plan = Plan::new();
    let mut state = build(before(), &mut plan);
    let _ = plan.take_effects();
    assert!(!state.can_patch(&after()));
    assert!(!state.try_patch(after(), &mut plan));
    assert!(plan.effects.is_empty());
    assert_eq!(child_handles(&state), vec![1]);
    // One child of another type, or three, is a rebuild like any other.
    assert!(state.can_patch(&window(vec![leaf(99)])));
    assert!(state.can_patch(&window(vec![leaf(99), leaf(12), leaf(13)])));
}

#[test]
fn window_that_loses_both_children_clears_both_slots() {
    let before = || window(vec![leaf(11), leaf(12)]);
    let after = || window(vec![]);
    let mut plan = Plan::new();
    let mut state = build(before(), &mut plan);
    let _ = plan.take_effects();
    assert!(state.patch(after(), &mut plan));
    assert!(child_handles(&state).is_empty());
    assert_eq!(
        plan.effects[..4],
        [
            Effect::Detach { parent: 0, child: 1, removal: Removal::Chrome },
            Effect::Release { object: 1 },
            Effect::Detach { parent: 0, child: 2, removal: Removal::Content },
            Effect::Release { object: 2 },
        ]
    );
}

#[test]
fn window_content_can_be_replaced() {
    let before = || window(vec![leaf(11), leaf(12)]);
    let after = || window(vec![leaf(11), leaf(13)]);
    let mut plan = Plan::new();
    let mut state = build(before(), &mut plan);
    let _ = plan.take_effects();
    assert!(state.patch(after(), &mut plan));
    assert_eq!(child_handles(&state), vec![1, 3]);
    assert!(plan.effects.contains(&Effect::Detach { parent: 0, child: 2, removal: Removal::Content }));
}

#[test]
fn root_of_another_type_is_never_patched() {
    let before = || boxed(vec![]);
    let after = || ty(3, HostClass::GenericBox).c(10);
    let mut plan = Plan::new();
    let mut state = build(before(), &mut plan);
    let _ = plan.take_effects();
    assert!(!state.compatible(&after()));
    assert!(!state.try_patch(after(), &mut plan));
    assert!(plan.effects.is_empty());
}

#[test]
fn child_without_a_place_cannot_be_built() {
    let action = ty(8, HostClass::Action).cs();
    assert!(!VState::can_build(&boxed(vec![action])));
    let under_leaf = || ty(9, HostClass::Widget).c(1).children(vec![leaf(5)]);
    assert!(!VState::can_build(&under_leaf()));
    let app = || ty(1, HostClass::RootContainer).cs()
        .children(vec![window(vec![]), ty(8, HostClass::Action).cs()]);
    assert!(VState::can_build(&app()));
}

#[test]
fn component_children_are_spawned_forwarded_and_unmounted() {
    let counter = |model, data| VComponent::cp(model, ty(1, HostClass::GenericBox), VProps::new(70, data));
    let mut plan = Plan::new();
    let mut state = build(boxed(vec![counter(40, 1)]), &mut plan);
    assert!(plan
        .effects
        .contains(&Effect::Spawn { instance: 1, model_type: 40, props: VProps::new(70, 1) }));
    assert!(plan.effects.contains(&Effect::Attach { parent: 0, child: 1, placement: Placement::Append }));
    let _ = plan.take_effects();

    assert!(state.patch(boxed(vec![counter(40, 2)]), &mut plan));
    assert_eq!(plan.effects[0], Effect::ForwardProps { instance: 1, props: VProps::new(70, 2) });
    assert_eq!(child_handles(&state), vec![1]);
    let _ = plan.take_effects();

    assert!(state.patch(boxed(vec![counter(41, 2)]), &mut plan));
    assert_eq!(child_handles(&state), vec![2]);
    assert_eq!(
        plan.effects,
        vec![
            Effect::Detach { parent: 0, child: 1, removal: Removal::Take },
            Effect::Unmount { instance: 1 },
            Effect::Spawn { instance: 2, model_type: 41, props: VProps::new(70, 2) },
            Effect::Attach { parent: 0, child: 2, placement: Placement::Append },
            Effect::Show { object: 2 },
            Effect::Restore { object: 0 },
            Effect::DetachHandlers { object: 0 },
            Effect::Patch { object: 0, patcher: Some(10) },
        ]
    );
}

#[test]
fn forwarded_props_can_be_taken_out_once() {
    let mut plan = Plan::new();
    let node = VComponent::cp(40, ty(1, HostClass::GenericBox), VProps::new(70, 5));
    let _ = build(boxed(vec![node]), &mut plan);
    let spawned = plan.take_effects().into_iter().find(|e| matches!(e, Effect::Spawn { .. }));
    match spawned {
        Some(Effect::Spawn { mut props, .. }) => {
            assert_eq!(props.try_unwrap(70), Ok(5));
            assert!(!props.valid());
        }
        _ => panic!("the child is spawned"),
    }
}

#[test]
fn unmount_goes_children_first() {
    let tree = || boxed(vec![boxed(vec![leaf(5)]), leaf(6)]);
    let mut plan = Plan::new();
    let state = build(tree(), &mut plan);
    let _ = plan.take_effects();
    state.unmount(&mut plan);
    assert_eq!(
        plan.effects,
        vec![
            Effect::Release { object: 2 },
            Effect::Release { object: 1 },
            Effect::Release { object: 3 },
            Effect::Release { object: 0 },
        ]
    );
}

#[test]
fn patch_without_handles_left_does_nothing() {
    let before = || boxed(vec![]);
    let after = || boxed(vec![leaf(5)]);
    let mut plan = Plan::new();
    let mut state = build(before(), &mut plan);
    let _ = plan.take_effects();
    plan.next_handle = u64::MAX;
    assert!(!state.can_patch_within(&after(), &plan));
    assert!(!state.try_patch(after(), &mut plan));
    assert!(plan.effects.is_empty());
    plan.next_handle = u64::MAX - 1;
    assert!(state.patch(after(), &mut plan));
    assert_eq!(child_handles(&state), vec![u64::MAX - 1]);
    assert_eq!(plan.next_handle, u64::MAX);
}

#[test]
fn widget_is_the_object_only_for_widgets() {
    let object = HostObject { handle: 3, object_type: ty(1, HostClass::Action) };
    let state = VState::Object(VObjectState { object, children: vec![] });
    assert_eq!(state.widget(), None);
    assert_eq!(*state.object(), object);
    let shown = HostObject { handle: 4, object_type: ty(2, HostClass::Grid) };
    let state = VState::Object(VObjectState { object: shown, children: vec![] });
    assert_eq!(state.widget(), Some(&shown));
}

#[test]
fn build_needs_a_handle_for_every_node() {
    let tree = || boxed(vec![leaf(5), leaf(6)]);
    assert_eq!(tree().count_handles(), Some(3));
    let mut plan = Plan::new();
    plan.next_handle = u64::MAX - 2;
    assert!(!VState::can_build_within(&tree(), &plan));
    plan.next_handle = u64::MAX - 3;
    assert!(VState::can_build_within(&tree(), &plan));
    let state = VState::build(tree(), &mut plan);
    assert_eq!(plan.next_handle, u64::MAX);
    assert_eq!(child_handles(&state), vec![u64::MAX - 2, u64::MAX - 1]);
}

#[test]
fn new_objects_never_take_a_handle_that_the_mirror_holds() {
    let before = || boxed(vec![leaf(11)]);
    let after = || boxed(vec![leaf(11), leaf(12)]);
    let mut plan = Plan::new();
    let mut state = build(before(), &mut plan);
    assert!(state.below(plan.next_handle));
    assert!(!state.below(1));
    let _ = plan.take_effects();
    assert!(state.patch(after(), &mut plan));
    assert_eq!(child_handles(&state), vec![1, 2]);
    assert!(state.below(plan.next_handle));
    assert!(!state.below(2));
}

#[test]
fn a_patch_that_builds_nothing_needs_no_handle() {
    let tree = || boxed(vec![leaf(5), leaf(6)]);
    let mut plan = Plan::new();
    let mut state = build(tree(), &mut plan);
    let _ = plan.take_effects();
    plan.next_handle = u64::MAX;
    assert_eq!(state.count_patch_handles(&tree()), Some(0));
    assert!(state.patch(tree(), &mut plan));
    assert_eq!(plan.effects.len(), 9);
    assert_eq!(state.count_patch_handles(&boxed(vec![leaf(5), leaf(7), leaf(8)])), Some(2));
    assert!(!state.try_patch(boxed(vec![leaf(5), leaf(7)]), &mut plan));
}

#[test]
fn try_patch_does_what_patch_does_where_it_can() {
    let mut plan = Plan::new();
    let mut state = build(boxed(vec![leaf(5)]), &mut plan);
    let mut twin = build(boxed(vec![leaf(5)]), &mut Plan::new());
    let _ = plan.take_effects();
    let after = || boxed(vec![leaf(5), leaf(6)]);
    assert!(state.can_patch_within(&after(), &plan));
    assert!(state.try_patch(after(), &mut plan));
    let mut other = Plan::new();
    other.next_handle = 2;
    assert!(twin.patch(after(), &mut other));
    assert_eq!(plan.effects, other.effects);
    assert_eq!(child_handles(&state), child_handles(&twin));
}
