use rouge_software::components::app::{row_patcher, App, AppMessage};
use rouge_software::components::counter::{Counter, CounterMessage};
use rouge_software::components::{
    application, button, header_bar, label, layout_box, scrolled_window, window,
};
use rouge_software::reactive::callback::Callback;
use rouge_software::reactive::component::{
    Component, ComponentMessage, ComponentTask, PartialComponentTask, Polled, Step, UpdateAction,
    ViewContext,
};
use rouge_software::reactive::host::{Effect, HostClass, ObjectType, Plan};
use rouge_software::reactive::scope::{MuteDepths, Scope};
use rouge_software::reactive::start;
use rouge_software::reactive::vnode::vcomponent::VComponent;
use rouge_software::reactive::vnode::vobject::{VObjectBuilder, VObjectContext};
use rouge_software::reactive::vnode::vprops::VProps;
use rouge_software::reactive::vnode::VNode;
use rouge_software::services::flatpak::FpRef;
use std::cell::RefCell;
use std::rc::Rc;

fn entry(name: &str) -> FpRef {
    FpRef::from_appdata(Some(name.to_string()), None, Some("1.0".to_string()))
}

fn running_app(refs: Vec<FpRef>, depths: &mut MuteDepths, plan: &mut Plan) -> ComponentTask<App, App> {
    let partial = start::<App>(refs, "App", 1, depths, plan).expect("the root is the application");
    partial.finalise(plan).expect("the first view can be built")
}

fn renders(effects: &[Effect]) -> usize {
    effects.iter().filter(|e| matches!(e, Effect::Mute { .. })).count()
}

#[test]
fn construction_is_in_two_phases() {
    let mut depths = MuteDepths::new();
    let mut plan = Plan::new();
    let partial = start::<App>(vec![entry("a")], "App", 1, &mut depths, &mut plan).expect("root");
    assert_eq!(partial.object().handle, 0);
    assert_eq!(partial.object().object_type, application());
    assert_eq!(partial.scope().name(), "App");
    assert_eq!(
        plan.take_effects(),
        vec![
            Effect::Instantiate { object: 0, object_type: application() },
            Effect::Patch { object: 0, patcher: None },
            Effect::Snapshot { object: 0 },
        ]
    );
    let task = partial.finalise(&mut plan).expect("children");
    let effects = plan.take_effects();
    assert_eq!(effects[0], Effect::Instantiate { object: 1, object_type: window() });
    // window, column, bar, two buttons, label, scrolled window, list, one row of four
    assert_eq!(plan.next_handle, 13);
    assert_eq!(task.object().map(|o| o.handle), Some(0));
    assert!(task.alive());
}

#[test]
fn five_updates_in_one_turn_render_once() {
    let mut depths = MuteDepths::new();
    let mut plan = Plan::new();
    let mut task = running_app(vec![], &mut depths, &mut plan);
    let _ = plan.take_effects();
    for _ in 0..5 {
        let next = Polled::Ready(ComponentMessage::Update(AppMessage::Increment));
        assert_eq!(task.process(next, &mut plan), Step::Continue);
        assert!(plan.effects.is_empty());
    }
    assert_eq!(task.process(Polled::Pending, &mut plan), Step::Suspend);
    let effects = plan.take_effects();
    assert_eq!(renders(&effects), 1);
    assert_eq!(effects.first(), Some(&Effect::Mute { cell: 0 }));
    assert_eq!(effects.last(), Some(&Effect::Unmute { cell: 0 }));
    assert_eq!(task.state().count(), 5);
    // The turn is over: nothing more to render.
    assert_eq!(task.process(Polled::Pending, &mut plan), Step::Suspend);
    assert!(plan.effects.is_empty());
}

#[test]
fn a_turn_without_a_render_request_plans_nothing() {
    let mut depths = MuteDepths::new();
    let mut plan = Plan::new();
    let mut task = running_app(vec![], &mut depths, &mut plan);
    let _ = plan.take_effects();
    assert_eq!(task.process(Polled::Ready(ComponentMessage::Mounted), &mut plan), Step::Continue);
    assert_eq!(task.process(Polled::Pending, &mut plan), Step::Suspend);
    assert!(plan.effects.is_empty());
}

#[test]
fn a_render_keeps_every_object_when_the_view_has_the_same_shape() {
    let mut depths = MuteDepths::new();
    let mut plan = Plan::new();
    let mut task = running_app(vec![entry("a"), entry("b")], &mut depths, &mut plan);
    let _ = plan.take_effects();
    let before = plan.next_handle;
    let next = Polled::Ready(ComponentMessage::Update(AppMessage::Add(-3)));
    assert_eq!(task.process(next, &mut plan), Step::Continue);
    assert_eq!(task.state().count(), 0);
    assert_eq!(task.process(Polled::Pending, &mut plan), Step::Suspend);
    assert_eq!(plan.next_handle, before);
    assert!(plan.effects.iter().all(|e| matches!(
        e,
        Effect::Mute { .. }
            | Effect::Unmute { .. }
            | Effect::Restore { .. }
            | Effect::DetachHandlers { .. }
            | Effect::Patch { .. }
    )));
}

#[test]
fn new_props_grow_the_list() {
    let mut depths = MuteDepths::new();
    let mut plan = Plan::new();
    let mut task = running_app(vec![entry("a")], &mut depths, &mut plan);
    let _ = plan.take_effects();
    let next = Polled::Ready(ComponentMessage::Props(vec![entry("a"), entry("b")]));
    assert_eq!(task.process(next, &mut plan), Step::Continue);
    assert_eq!(task.state().refs().len(), 2);
    assert_eq!(task.process(Polled::Pending, &mut plan), Step::Suspend);
    let built = plan.effects.iter().filter(|e| matches!(e, Effect::Instantiate { .. })).count();
    assert_eq!(built, 4);
}

#[test]
fn unmounted_takes_everything_down_and_ends_the_task() {
    let mut depths = MuteDepths::new();
    let mut plan = Plan::new();
    let mut task = running_app(vec![], &mut depths, &mut plan);
    let _ = plan.take_effects();
    let built = plan.next_handle as usize;
    assert_eq!(task.process(Polled::Ready(ComponentMessage::Unmounted), &mut plan), Step::Finish);
    let effects = plan.take_effects();
    assert_eq!(effects.len(), built);
    assert!(effects.iter().all(|e| matches!(e, Effect::Release { .. })));
    assert_eq!(effects.last(), Some(&Effect::Release { object: 0 }));
    assert!(!task.alive());
    assert_eq!(task.object(), None);
    // Nothing that comes later is looked at.
    let next = Polled::Ready(ComponentMessage::Update(AppMessage::Increment));
    assert_eq!(task.process(next, &mut plan), Step::Finish);
    assert_eq!(task.state().count(), 0);
    assert_eq!(task.process(Polled::Pending, &mut plan), Step::Finish);
    assert!(plan.effects.is_empty());
}

#[test]
fn a_closed_stream_ends_the_task_without_a_teardown() {
    let mut depths = MuteDepths::new();
    let mut plan = Plan::new();
    let mut task = running_app(vec![], &mut depths, &mut plan);
    let _ = plan.take_effects();
    assert_eq!(task.process(Polled::Closed, &mut plan), Step::Finish);
    assert!(plan.effects.is_empty());
    assert!(task.object().is_some());
}

#[test]
fn app_count_saturates() {
    let mut app = App::create(vec![]);
    assert_eq!(app.update(AppMessage::Decrement), UpdateAction::Render);
    assert_eq!(app.count(), 0);
    let _ = app.update(AppMessage::Add(127));
    let _ = app.update(AppMessage::Add(127));
    assert_eq!(app.count(), 254);
    let _ = app.update(AppMessage::Add(5));
    assert_eq!(app.count(), 255);
    let _ = app.update(AppMessage::Increment);
    assert_eq!(app.count(), 255);
    let _ = app.update(AppMessage::Add(-128));
    assert_eq!(app.count(), 127);
    let _ = app.update(AppMessage::Add(-128));
    assert_eq!(app.count(), 0);
}

#[derive(Default)]
struct Rootless;

impl Component for Rootless {
    type Message = ();
    type Props = ();

    fn create(_: ()) -> Self {
        Rootless
    }

    fn update(&mut self, _: ()) -> UpdateAction {
        UpdateAction::Render
    }

    fn change(&mut self, _: ()) -> UpdateAction {
        UpdateAction::Nothing
    }

    fn view(&self, _: &ViewContext<Self>) -> VNode {
        VComponent::cp(1, layout_box(), VProps::new(1, 1))
    }
}

#[test]
fn a_view_whose_root_is_a_component_cannot_start() {
    let mut depths = MuteDepths::new();
    let mut plan = Plan::new();
    let partial: Option<PartialComponentTask<Rootless, Rootless>> =
        PartialComponentTask::new((), None, "Rootless", 1, &mut depths, &mut plan);
    assert!(partial.is_none());
    assert!(plan.effects.is_empty());
    assert_eq!(plan.next_handle, 0);
}

#[derive(Default)]
struct Shifting {
    wide: bool,
}

impl Component for Shifting {
    type Message = bool;
    type Props = ();

    fn create(_: ()) -> Self {
        Shifting { wide: false }
    }

    fn update(&mut self, wide: bool) -> UpdateAction {
        self.wide = wide;
        UpdateAction::Render
    }

    fn change(&mut self, _: ()) -> UpdateAction {
        UpdateAction::Nothing
    }

    fn view(&self, _: &ViewContext<Self>) -> VNode {
        let leaf = |id| ObjectType { id, class: HostClass::Widget }.cs();
        let children = if self.wide { vec![leaf(10), leaf(11)] } else { vec![leaf(10)] };
        window().cs().children(children)
    }
}

#[test]
fn a_render_that_cannot_be_applied_fails_and_plans_nothing() {
    let mut depths = MuteDepths::new();
    let mut plan = Plan::new();
    let mut task: ComponentTask<Shifting, Shifting> =
        ComponentTask::new((), None, "Shifting", 1, &mut depths, &mut plan).expect("built");
    let _ = plan.take_effects();
    assert_eq!(task.process(Polled::Ready(ComponentMessage::Update(true)), &mut plan), Step::Continue);
    assert_eq!(task.process(Polled::Pending, &mut plan), Step::Fail);
    assert!(plan.effects.is_empty());
}

#[test]
fn a_child_task_inherits_the_mute_counter() {
    let mut depths = MuteDepths::new();
    let mut plan = Plan::new();
    let parent = running_app(vec![], &mut depths, &mut plan);
    let seen = Rc::new(RefCell::new(Vec::<i8>::new()));
    let sink = seen.clone();
    let props = Counter {
        name: "clicks".to_string(),
        count: 3,
        on_changed: Callback::new(move |d: i8| sink.borrow_mut().push(d)),
    };
    let parent_scope = parent.scope();
    let mut child: ComponentTask<Counter<_>, App> =
        ComponentTask::new(props, Some(&parent_scope), "Counter", 2, &mut depths, &mut plan)
            .expect("built");
    assert_eq!(depths.len(), 1);
    assert_eq!(child.scope().counter(), parent_scope.counter());
    assert_eq!(child.scope().channel(), 2);
    let _ = plan.take_effects();

    let next = Polled::Ready(ComponentMessage::Update(CounterMessage::Increment));
    assert_eq!(child.process(next, &mut plan), Step::Continue);
    let next = Polled::Ready(ComponentMessage::Update(CounterMessage::Decrement));
    assert_eq!(child.process(next, &mut plan), Step::Continue);
    assert_eq!(*seen.borrow(), vec![1, -1]);
    // The counter asked for no render.
    assert_eq!(child.process(Polled::Pending, &mut plan), Step::Suspend);
    assert!(plan.effects.is_empty());

    parent_scope.mute(&mut depths);
    assert_eq!(child.scope().send_message(&depths, CounterMessage::Increment), None);
}

#[test]
fn dispatch_builds_the_message_and_respects_the_mute() {
    let mut depths = MuteDepths::new();
    let scope: Scope<AppMessage> = Scope::new("App", 1, &mut depths);
    let context: ViewContext<App> = ViewContext::new(scope.clone());
    let builder = |d: i8| AppMessage::Add(d);
    assert_eq!(context.d(&depths, &builder, 4), Some(AppMessage::Add(4)));
    let object_context: VObjectContext<AppMessage> = VObjectContext::new(scope.clone());
    let clicked = |_: &u8| AppMessage::Increment;
    assert_eq!(object_context.d(&depths, &clicked, &0), Some(AppMessage::Increment));
    scope.mute(&mut depths);
    assert_eq!(context.d(&depths, &builder, 4), None);
    assert_eq!(object_context.d(&depths, &clicked, &0), None);
    assert_eq!(context.scope().name(), "App");
}

#[test]
fn start_refuses_a_root_that_is_not_the_application() {
    let mut depths = MuteDepths::new();
    let mut plan = Plan::new();
    assert!(start::<Shifting>((), "Shifting", 1, &mut depths, &mut plan).is_none());
}

#[test]
fn missing_application_data_is_empty() {
    let entry = FpRef::from_appdata(None, Some("s".to_string()), None);
    assert_eq!(entry.name, "");
    assert_eq!(entry.summary, "s");
    assert_eq!(entry.version, "");
}

#[test]
fn row_patchers_are_numbered_row_by_row() {
    assert_eq!(row_patcher(0, 0), 8);
    assert_eq!(row_patcher(0, 3), 11);
    assert_eq!(row_patcher(2, 3), 19);
    assert_eq!(row_patcher(usize::MAX, 3), u64::MAX);
    match App::row(2) {
        VNode::Object(row) => {
            assert_eq!(row.object_type, layout_box());
            assert_eq!(row.patcher, Some(16));
            assert_eq!(row.children.len(), 3);
        }
        VNode::Component(_) => panic!("a row is an object"),
    }
}

fn expect_object(node: &VNode, object_type: ObjectType, patcher: Option<u64>, count: usize) -> &[VNode] {
    match node {
        VNode::Object(o) => {
            assert_eq!(o.object_type, object_type);
            assert_eq!(o.constructor, None);
            assert_eq!(o.patcher, patcher);
            assert_eq!(o.children.len(), count);
            &o.children
        }
        VNode::Component(_) => panic!("an object was expected"),
    }
}

#[test]
fn the_application_view_has_one_row_for_each_package() {
    let mut depths = MuteDepths::new();
    let scope: Scope<AppMessage> = Scope::new("App", 1, &mut depths);
    let context: ViewContext<App> = ViewContext::new(scope);
    let app = App::create(vec![entry("a"), entry("b")]);
    let view = app.view(&context);
    let frame = expect_object(&view, application(), None, 1);
    let column = expect_object(&frame[0], window(), Some(0), 1);
    let parts = expect_object(&column[0], layout_box(), Some(1), 5);
    expect_object(&parts[0], header_bar(), Some(2), 0);
    expect_object(&parts[1], button(), Some(3), 0);
    expect_object(&parts[2], button(), Some(4), 0);
    expect_object(&parts[3], label(), Some(5), 0);
    let scrolled = expect_object(&parts[4], scrolled_window(), Some(6), 1);
    let rows = expect_object(&scrolled[0], layout_box(), Some(7), 2);
    let second = expect_object(&rows[1], layout_box(), Some(12), 3);
    expect_object(&second[0], label(), Some(13), 0);
    expect_object(&second[1], label(), Some(14), 0);
    expect_object(&second[2], label(), Some(15), 0);
    assert_eq!(view.count_handles(), Some(17));
}

#[test]
fn the_counter_view_is_a_box_with_two_buttons_and_a_label() {
    let mut depths = MuteDepths::new();
    let scope: Scope<CounterMessage> = Scope::new("Counter", 1, &mut depths);
    let context = ViewContext::new(scope);
    let counter: Counter<fn(i8)> = Counter::default();
    assert_eq!(counter.count, 0);
    assert!(counter.on_changed.is_empty());
    let view = counter.view(&context);
    let parts = expect_object(&view, layout_box(), Some(0), 3);
    expect_object(&parts[0], button(), Some(1), 0);
    expect_object(&parts[1], button(), Some(2), 0);
    expect_object(&parts[2], label(), Some(3), 0);
    let copy = counter.clone();
    assert_eq!(copy.name, "");
}

#[test]
fn a_counter_takes_its_props_whole() {
    let mut counter: Counter<fn(i8)> = Counter::create(Counter::default());
    fn ignore(_: i8) {}
    let props = Counter { name: "n".to_string(), count: 9, on_changed: Callback::new(ignore as fn(i8)) };
    assert_eq!(counter.change(props), UpdateAction::Render);
    assert_eq!(counter.name, "n");
    assert_eq!(counter.count, 9);
    assert!(!counter.on_changed.is_empty());
    assert_eq!(counter.update(CounterMessage::Increment), UpdateAction::Nothing);
    assert_eq!(counter.count, 9);
}

#[derive(Default)]
struct Plain {
    seen: u8,
}

impl Component for Plain {
    type Message = u8;
    type Props = u8;

    fn change(&mut self, props: u8) -> UpdateAction {
        self.seen = props;
        UpdateAction::Render
    }

    fn view(&self, _: &ViewContext<Self>) -> VNode {
        layout_box().cs()
    }
}

#[test]
fn a_component_that_says_nothing_starts_from_its_default_and_ignores_messages() {
    let mut plain = Plain::create(7);
    assert_eq!(plain.seen, 0);
    assert_eq!(plain.update(3), UpdateAction::Nothing);
    assert_eq!(plain.seen, 0);
    assert_eq!(plain.change(4), UpdateAction::Render);
    assert_eq!(plain.seen, 4);
}
