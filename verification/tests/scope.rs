use rouge_software::reactive::scope::{AnyScope, MuteDepths, Scope};

#[test]
fn a_new_scope_lets_messages_through() {
    let mut depths = MuteDepths::new();
    let scope: Scope<u32> = Scope::new("root", 1, &mut depths);
    assert_eq!(scope.name(), "root");
    assert_eq!(scope.channel(), 1);
    assert_eq!(scope.counter(), 0);
    assert_eq!(depths.len(), 1);
    assert!(!scope.is_muted(&depths));
    assert_eq!(scope.send_message(&depths, 5), Some(5));
}

#[test]
fn muting_drops_every_message_of_the_scope_and_its_descendants() {
    let mut depths = MuteDepths::new();
    let root: Scope<u32> = Scope::new("root", 1, &mut depths);
    let child: Scope<&'static str> = root.inherit("child", 2);
    let grandchild: Scope<u8> = child.inherit("grandchild", 3);
    assert_eq!(child.counter(), root.counter());
    assert_eq!(grandchild.counter(), root.counter());
    assert_eq!(child.name(), "child");
    assert_eq!(grandchild.channel(), 3);

    root.mute(&mut depths);
    let mut queued = 0;
    for k in 0..5 {
        if root.send_message(&depths, k).is_some() {
            queued += 1;
        }
        if child.send_message(&depths, "x").is_some() {
            queued += 1;
        }
        if grandchild.send_message(&depths, 1).is_some() {
            queued += 1;
        }
    }
    assert_eq!(queued, 0);
    assert!(child.is_muted(&depths));

    root.unmute(&mut depths);
    assert_eq!(root.send_message(&depths, 9), Some(9));
    assert_eq!(child.send_message(&depths, "y"), Some("y"));
}

#[test]
fn mutes_nest() {
    let mut depths = MuteDepths::new();
    let scope: Scope<u32> = Scope::new("root", 1, &mut depths);
    scope.mute(&mut depths);
    scope.mute(&mut depths);
    assert_eq!(depths.depth(0), 2);
    scope.unmute(&mut depths);
    assert!(scope.is_muted(&depths));
    scope.unmute(&mut depths);
    assert!(!scope.is_muted(&depths));
}

#[test]
fn the_counter_wraps_both_ways() {
    let mut depths = MuteDepths::new();
    let scope: Scope<u32> = Scope::new("root", 1, &mut depths);
    scope.unmute(&mut depths);
    assert_eq!(depths.depth(0), usize::MAX);
    assert!(scope.is_muted(&depths));
    scope.mute(&mut depths);
    assert_eq!(depths.depth(0), 0);
    assert!(!scope.is_muted(&depths));
}

#[test]
fn families_do_not_share_a_counter() {
    let mut depths = MuteDepths::new();
    let first: Scope<u32> = Scope::new("first", 1, &mut depths);
    let second: Scope<u32> = Scope::new("second", 2, &mut depths);
    assert_eq!(second.counter(), 1);
    first.mute(&mut depths);
    assert!(first.is_muted(&depths));
    assert!(!second.is_muted(&depths));
    assert_eq!(second.send_message(&depths, 4), Some(4));
}

#[test]
fn a_clone_is_the_same_scope() {
    let mut depths = MuteDepths::new();
    let scope: Scope<u32> = Scope::new("root", 7, &mut depths);
    let copy = scope.clone();
    assert_eq!(copy.name(), "root");
    assert_eq!(copy.channel(), 7);
    copy.mute(&mut depths);
    assert!(scope.is_muted(&depths));
}

#[test]
fn an_erased_scope_keeps_name_counter_and_channel() {
    let mut depths = MuteDepths::new();
    let _other: Scope<u8> = Scope::new("other", 1, &mut depths);
    let scope: Scope<u32> = Scope::new("root", 7, &mut depths);
    let any = AnyScope::from(scope);
    assert_eq!(any.name(), "root");
    assert_eq!(any.counter(), 1);
    assert_eq!(any.channel(), 7);
    let back: Scope<u32> = any.typed();
    back.mute(&mut depths);
    assert_eq!(depths.depth(1), 1);
    assert_eq!(depths.depth(0), 0);
}
