use rouge_software::reactive::host::{HostClass, HostObject, ObjectType};
use rouge_software::reactive::vstate::vobject_state::{
    add_child, in_snapshot, is_ignored_prop, placement_for, remove_child, removal_for, same_text,
    should_save_prop, snapshot_keys, Attribute, ParamFlags,
};
use rouge_software::reactive::host::{Effect, Placement, Removal};

fn object(handle: u64, class: HostClass) -> HostObject {
    HostObject { handle, object_type: ObjectType { id: 1, class } }
}

const PLAIN: ParamFlags = ParamFlags { readable: true, writable: true, construct_only: false };

fn attribute(name: &str, flags: ParamFlags) -> Attribute {
    Attribute { name: name.to_string(), flags }
}

#[test]
fn ignored_attributes_are_never_recorded() {
    let label = object(1, HostClass::Widget);
    for name in [
        "parent",
        "root",
        "child",
        "accessible-role",
        "layout-manager",
        "flags",
        "icon-name",
        "version",
    ] {
        assert!(is_ignored_prop(name));
        assert!(!should_save_prop(&label, name));
        assert!(!in_snapshot(&label, name, &PLAIN));
    }
    assert!(!is_ignored_prop("label"));
    assert!(!is_ignored_prop("Parent"));
    assert!(!is_ignored_prop(""));
    assert!(should_save_prop(&label, "label"));
}

#[test]
fn nothing_is_recorded_for_the_application_or_a_window() {
    assert!(!should_save_prop(&object(1, HostClass::RootContainer), "title"));
    assert!(!should_save_prop(&object(1, HostClass::WindowLike), "title"));
    assert!(!in_snapshot(&object(1, HostClass::WindowLike), "content", &PLAIN));
    assert!(should_save_prop(&object(1, HostClass::GenericBox), "spacing"));
    assert!(should_save_prop(&object(1, HostClass::Action), "enabled"));
    let listed = vec![attribute("content", PLAIN), attribute("title", PLAIN)];
    assert!(snapshot_keys(&object(1, HostClass::WindowLike), &listed).is_empty());
    assert!(snapshot_keys(&object(1, HostClass::RootContainer), &listed).is_empty());
    assert_eq!(snapshot_keys(&object(1, HostClass::Scrollable), &listed), vec!["content", "title"]);
}

#[test]
fn only_restorable_attributes_go_into_the_snapshot() {
    let label = object(1, HostClass::Widget);
    assert!(in_snapshot(&label, "label", &PLAIN));
    assert!(!in_snapshot(&label, "label", &ParamFlags { readable: false, ..PLAIN }));
    assert!(!in_snapshot(&label, "label", &ParamFlags { writable: false, ..PLAIN }));
    assert!(!in_snapshot(&label, "label", &ParamFlags { construct_only: true, ..PLAIN }));
    assert!(PLAIN.can_restore());
}

#[test]
fn the_snapshot_holds_the_recorded_names_in_the_order_listed() {
    let label = object(1, HostClass::Widget);
    let listed = vec![
        attribute("label", PLAIN),
        attribute("parent", PLAIN),
        attribute("name", ParamFlags { writable: false, ..PLAIN }),
        attribute("spacing", PLAIN),
        attribute("orientation", ParamFlags { construct_only: true, ..PLAIN }),
        attribute("css-classes", PLAIN),
        attribute("cursor", ParamFlags { readable: false, ..PLAIN }),
    ];
    assert_eq!(snapshot_keys(&label, &listed), vec!["label", "spacing", "css-classes"]);
    assert!(snapshot_keys(&label, &vec![]).is_empty());
}

#[test]
fn same_text_compares_whole_strings() {
    assert!(same_text("abc", "abc"));
    assert!(!same_text("abc", "abd"));
    assert!(!same_text("abc", "ab"));
    assert!(same_text("", ""));
}

#[test]
fn every_parent_class_has_its_placement() {
    let widget = HostClass::Widget;
    assert_eq!(placement_for(HostClass::RootContainer, HostClass::WindowLike, 0, 1), Some(Placement::Window));
    assert_eq!(placement_for(HostClass::RootContainer, HostClass::Action, 0, 1), Some(Placement::Action));
    assert_eq!(placement_for(HostClass::RootContainer, widget, 0, 1), None);
    assert_eq!(placement_for(HostClass::WindowLike, widget, 0, 1), Some(Placement::Content));
    assert_eq!(placement_for(HostClass::WindowLike, widget, 0, 2), Some(Placement::Chrome));
    assert_eq!(placement_for(HostClass::WindowLike, widget, 1, 2), Some(Placement::Content));
    assert_eq!(placement_for(HostClass::WindowLike, widget, 0, 3), Some(Placement::Content));
    assert_eq!(placement_for(HostClass::WindowLike, HostClass::Action, 0, 1), None);
    assert_eq!(placement_for(HostClass::BarLike, widget, 0, 1), Some(Placement::PackEnd));
    assert_eq!(placement_for(HostClass::Scrollable, widget, 0, 1), Some(Placement::Child));
    assert_eq!(placement_for(HostClass::GenericBox, widget, 4, 9), Some(Placement::Append));
    assert_eq!(
        placement_for(HostClass::Grid, widget, 0, 1),
        Some(Placement::Cell { column: 0, row: 0, width: 1, height: 1 })
    );
    assert_eq!(placement_for(HostClass::GenericBox, HostClass::Unknown, 0, 1), None);
    assert_eq!(placement_for(HostClass::Widget, widget, 0, 1), None);
    assert_eq!(placement_for(HostClass::Action, widget, 0, 1), None);
    assert_eq!(placement_for(HostClass::Unknown, widget, 0, 1), None);
    // A window is a widget too.
    assert_eq!(placement_for(HostClass::GenericBox, HostClass::WindowLike, 0, 1), Some(Placement::Append));
}

#[test]
fn add_child_plans_the_insertion_at_the_place() {
    let parent = object(1, HostClass::WindowLike);
    let child = object(9, HostClass::Widget);
    assert_eq!(
        add_child(&parent, 0, 2, &child),
        Effect::Attach { parent: 1, child: 9, placement: Placement::Chrome }
    );
    assert_eq!(
        add_child(&object(3, HostClass::Grid), 5, 6, &child),
        Effect::Attach {
            parent: 3,
            child: 9,
            placement: Placement::Cell { column: 0, row: 0, width: 1, height: 1 }
        }
    );
}

#[test]
fn every_parent_class_has_its_removal() {
    let widget = HostClass::Widget;
    assert_eq!(removal_for(HostClass::RootContainer, HostClass::WindowLike, 0, 1), Some(Removal::Window));
    assert_eq!(removal_for(HostClass::RootContainer, HostClass::Action, 0, 1), Some(Removal::Action));
    assert_eq!(removal_for(HostClass::RootContainer, widget, 0, 1), None);
    assert_eq!(removal_for(HostClass::WindowLike, widget, 0, 1), Some(Removal::Content));
    assert_eq!(removal_for(HostClass::WindowLike, widget, 0, 2), Some(Removal::Chrome));
    assert_eq!(removal_for(HostClass::WindowLike, widget, 1, 2), Some(Removal::Content));
    assert_eq!(removal_for(HostClass::WindowLike, widget, 0, 3), Some(Removal::Content));
    assert_eq!(removal_for(HostClass::WindowLike, HostClass::Action, 0, 2), None);
    assert_eq!(removal_for(HostClass::BarLike, widget, 0, 1), Some(Removal::Unpack));
    assert_eq!(removal_for(HostClass::Scrollable, widget, 0, 1), Some(Removal::Child));
    assert_eq!(removal_for(HostClass::GenericBox, widget, 2, 3), Some(Removal::Take));
    assert_eq!(removal_for(HostClass::Grid, widget, 0, 1), Some(Removal::Clear));
    assert_eq!(removal_for(HostClass::Grid, HostClass::Action, 0, 1), None);
    assert_eq!(removal_for(HostClass::Unknown, widget, 0, 1), None);
    assert_eq!(removal_for(HostClass::Widget, widget, 0, 1), None);
}

#[test]
fn remove_child_plans_the_removal_from_the_slot() {
    let parent = object(1, HostClass::WindowLike);
    let child = object(9, HostClass::Widget);
    assert_eq!(
        remove_child(&parent, 0, 2, &child),
        Effect::Detach { parent: 1, child: 9, removal: Removal::Chrome }
    );
    assert_eq!(
        remove_child(&object(2, HostClass::BarLike), 0, 1, &child),
        Effect::Detach { parent: 2, child: 9, removal: Removal::Unpack }
    );
}
