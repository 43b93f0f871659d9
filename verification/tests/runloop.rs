use futures::channel::mpsc::{unbounded, UnboundedReceiver, UnboundedSender};
use futures::stream::{select, Stream};
use futures::task::noop_waker_ref;
use futures::StreamExt;
use rouge_software::components::app::{App, AppMessage};
use rouge_software::components::{application, button, label, layout_box, window};
use rouge_software::reactive::component::{ComponentMessage, ComponentTask, Polled, Step};
use rouge_software::reactive::host::{Effect, ObjectType, Placement, Plan};
use rouge_software::reactive::scope::{MuteDepths, Scope};
use rouge_software::reactive::start;
use rouge_software::reactive::vnode::vobject::VObjectContext;
use rouge_software::services::flatpak::FpRef;
use std::collections::HashMap;
use std::pin::Pin;
use std::task::{Context, Poll};

/// A host without a toolkit: it keeps what the effects leave behind.
#[derive(Default)]
struct Headless {
    types: HashMap<u64, ObjectType>,
    children: HashMap<u64, Vec<u64>>,
    patched: HashMap<u64, usize>,
    handlers: HashMap<u64, bool>,
    depths_seen: Vec<usize>,
}

impl Headless {
    fn apply(&mut self, effects: Vec<Effect>, depths: &mut MuteDepths) {
        for effect in effects {
            match effect {
                Effect::Instantiate { object, object_type } => {
                    assert!(self.types.insert(object, object_type).is_none());
                    self.children.insert(object, vec![]);
                }
                Effect::Patch { object, .. } => {
                    assert!(self.types.contains_key(&object));
                    assert!(!self.handlers.get(&object).copied().unwrap_or(false));
                    *self.patched.entry(object).or_insert(0) += 1;
                    self.handlers.insert(object, true);
                    self.depths_seen.push(depths.depth(0));
                }
                Effect::DetachHandlers { object } => {
                    self.handlers.insert(object, false);
                }
                Effect::Attach { parent, child, .. } => {
                    assert!(self.types.contains_key(&child));
                    self.children.get_mut(&parent).expect("parent exists").push(child);
                }
                Effect::Detach { parent, child, .. } => {
                    self.children.get_mut(&parent).expect("parent exists").retain(|c| *c != child);
                }
                Effect::Release { object } => {
                    assert!(self.types.remove(&object).is_some());
                    self.children.remove(&object);
                }
                Effect::Mute { cell } => depths.raise(cell),
                Effect::Unmute { cell } => depths.lower(cell),
                Effect::Snapshot { .. } | Effect::Restore { .. } | Effect::Show { .. } => {}
                other => panic!("the application embeds no component: {:?}", other),
            }
        }
    }
}

type Merged = Pin<Box<dyn Stream<Item = ComponentMessage<App>>>>;

struct Program {
    task: ComponentTask<App, App>,
    stream: Merged,
    user: UnboundedSender<AppMessage>,
    system: UnboundedSender<ComponentMessage<App>>,
    host: Headless,
    depths: MuteDepths,
    plan: Plan,
    renders: usize,
}

fn entry(name: &str) -> FpRef {
    FpRef::from_appdata(Some(name.to_string()), Some("s".to_string()), None)
}

fn program(refs: Vec<FpRef>) -> Program {
    let (system, sys_recv): (UnboundedSender<ComponentMessage<App>>, UnboundedReceiver<_>) =
        unbounded();
    let (user, user_recv): (UnboundedSender<AppMessage>, UnboundedReceiver<_>) = unbounded();
    let stream: Merged = Box::pin(select(user_recv.map(ComponentMessage::Update), sys_recv));
    let mut depths = MuteDepths::new();
    let mut plan = Plan::new();
    let mut host = Headless::default();
    let partial = start::<App>(refs, "App", 0, &mut depths, &mut plan).expect("root");
    host.apply(plan.take_effects(), &mut depths);
    let task = partial.finalise(&mut plan).expect("children");
    host.apply(plan.take_effects(), &mut depths);
    Program { task, stream, user, system, host, depths, plan, renders: 0 }
}

impl Program {
    /// One wake-up of the task: it takes what is ready and then suspends or
    /// ends.
    fn turn(&mut self) -> Poll<()> {
        let mut ctx = Context::from_waker(noop_waker_ref());
        loop {
            let next = match self.stream.as_mut().poll_next(&mut ctx) {
                Poll::Ready(Some(message)) => Polled::Ready(message),
                Poll::Ready(None) => Polled::Closed,
                Poll::Pending => Polled::Pending,
            };
            let step = self.task.process(next, &mut self.plan);
            let effects = self.plan.take_effects();
            if effects.iter().any(|e| matches!(e, Effect::Mute { .. })) {
                self.renders += 1;
            }
            self.host.apply(effects, &mut self.depths);
            match step {
                Step::Continue => {}
                Step::Suspend => return Poll::Pending,
                Step::Finish => return Poll::Ready(()),
                Step::Fail => panic!("the render cannot be applied"),
            }
        }
    }

    fn send(&self, scope: &Scope<AppMessage>, message: AppMessage) -> bool {
        match scope.send_message(&self.depths, message) {
            Some(message) => {
                self.user.unbounded_send(message).expect("the task runs");
                true
            }
            None => false,
        }
    }
}

#[test]
fn the_host_tree_is_the_tree_of_the_view() {
    let program = program(vec![entry("a"), entry("b")]);
    let host = &program.host;
    assert_eq!(host.types[&0], application());
    assert_eq!(host.children[&0], vec![1]);
    assert_eq!(host.types[&1], window());
    assert_eq!(host.children[&1], vec![2]);
    assert_eq!(host.types[&2], layout_box());
    assert_eq!(host.children[&2], vec![3, 4, 5, 6, 7]);
    assert_eq!(host.types[&4], button());
    assert_eq!(host.types[&6], label());
    assert_eq!(host.children[&7], vec![8]);
    assert_eq!(host.children[&8], vec![9, 13]);
    assert_eq!(host.children[&9], vec![10, 11, 12]);
    assert_eq!(host.types.len(), 17);
    assert!(host.patched.values().all(|n| *n == 1));
}

#[test]
fn five_queued_updates_render_once() {
    let mut program = program(vec![entry("a")]);
    let scope = program.task.scope();
    for _ in 0..5 {
        assert!(program.send(&scope, AppMessage::Increment));
    }
    assert_eq!(program.turn(), Poll::Pending);
    assert_eq!(program.renders, 1);
    assert_eq!(program.task.state().count(), 5);
    assert!(program.host.patched.values().all(|n| *n == 2));
    assert_eq!(program.turn(), Poll::Pending);
    assert_eq!(program.renders, 1);
}

#[test]
fn messages_of_both_sources_are_taken_in_one_turn() {
    let mut program = program(vec![]);
    let scope = program.task.scope();
    program.system.unbounded_send(ComponentMessage::Mounted).expect("the task runs");
    assert!(program.send(&scope, AppMessage::Add(3)));
    program
        .system
        .unbounded_send(ComponentMessage::Props(vec![entry("a"), entry("b")]))
        .expect("the task runs");
    assert!(program.send(&scope, AppMessage::Decrement));
    assert_eq!(program.turn(), Poll::Pending);
    assert_eq!(program.renders, 1);
    assert_eq!(program.task.state().count(), 2);
    assert_eq!(program.task.state().refs().len(), 2);
    assert_eq!(program.host.children[&8].len(), 2);
}

#[test]
fn the_scope_is_muted_while_the_host_is_patched() {
    let mut program = program(vec![]);
    let scope = program.task.scope();
    program.host.depths_seen.clear();
    assert!(program.send(&scope, AppMessage::Increment));
    assert_eq!(program.turn(), Poll::Pending);
    assert!(!program.host.depths_seen.is_empty());
    assert!(program.host.depths_seen.iter().all(|depth| *depth == 1));
    assert!(!scope.is_muted(&program.depths));
}

#[test]
fn a_muted_scope_queues_nothing_and_an_unmuted_one_queues_each_message_once() {
    let mut depths = MuteDepths::new();
    let (sender, mut receiver): (UnboundedSender<u32>, UnboundedReceiver<u32>) = unbounded();
    let (below, mut received_below): (UnboundedSender<u8>, UnboundedReceiver<u8>) = unbounded();
    let scope: Scope<u32> = Scope::new("parent", 0, &mut depths);
    let child: Scope<u8> = scope.inherit("child", 1);
    let context = VObjectContext::new(child.clone());

    scope.mute(&mut depths);
    for k in 0..7 {
        if let Some(message) = scope.send_message(&depths, k) {
            sender.unbounded_send(message).expect("open");
        }
        if let Some(message) = context.d(&depths, &|raw: &u8| *raw, &1) {
            below.unbounded_send(message).expect("open");
        }
    }
    let mut ctx = Context::from_waker(noop_waker_ref());
    assert_eq!(Pin::new(&mut receiver).poll_next(&mut ctx), Poll::Pending);
    assert_eq!(Pin::new(&mut received_below).poll_next(&mut ctx), Poll::Pending);

    scope.unmute(&mut depths);
    if let Some(message) = scope.send_message(&depths, 41) {
        sender.unbounded_send(message).expect("open");
    }
    assert_eq!(Pin::new(&mut receiver).poll_next(&mut ctx), Poll::Ready(Some(41)));
    assert_eq!(Pin::new(&mut receiver).poll_next(&mut ctx), Poll::Pending);
}

#[test]
fn unmounted_releases_every_object_and_ends_the_task() {
    let mut program = program(vec![entry("a")]);
    program.system.unbounded_send(ComponentMessage::Unmounted).expect("the task runs");
    let scope = program.task.scope();
    assert!(program.send(&scope, AppMessage::Increment));
    assert_eq!(program.turn(), Poll::Ready(()));
    assert!(program.host.types.is_empty());
    assert_eq!(program.renders, 0);
    assert!(!program.task.alive());
}

#[test]
fn dropping_every_sender_ends_the_task() {
    let program = program(vec![]);
    let Program { task, stream, user, system, host, depths, plan, renders } = program;
    drop(user);
    drop(system);
    let mut program =
        Program { task, stream, user: unbounded().0, system: unbounded().0, host, depths, plan, renders };
    assert_eq!(program.turn(), Poll::Ready(()));
    assert!(program.task.alive());
    assert!(!program.host.types.is_empty());
}

#[test]
fn a_longer_list_appends_rows_and_a_shorter_one_drops_them() {
    let mut program = program(vec![entry("a")]);
    let rows = |program: &Program| program.host.children[&8].clone();
    let first = rows(&program);
    program
        .system
        .unbounded_send(ComponentMessage::Props(vec![entry("a"), entry("b"), entry("c")]))
        .expect("the task runs");
    assert_eq!(program.turn(), Poll::Pending);
    let grown = rows(&program);
    assert_eq!(grown.len(), 3);
    assert_eq!(grown[0], first[0]);
    program
        .system
        .unbounded_send(ComponentMessage::Props(vec![entry("z")]))
        .expect("the task runs");
    assert_eq!(program.turn(), Poll::Pending);
    assert_eq!(rows(&program), first);
    assert!(!program.host.types.contains_key(&grown[1]));
    assert!(!program.host.types.contains_key(&grown[2]));
}

#[test]
fn attach_places_follow_the_parent() {
    let mut depths = MuteDepths::new();
    let mut plan = Plan::new();
    let partial = start::<App>(vec![], "App", 0, &mut depths, &mut plan).expect("root");
    let _ = plan.take_effects();
    let _task = partial.finalise(&mut plan).expect("children");
    let places: Vec<(u64, u64, Placement)> = plan
        .effects
        .iter()
        .filter_map(|e| match e {
            Effect::Attach { parent, child, placement } => Some((*parent, *child, *placement)),
            _ => None,
        })
        .collect();
    assert!(places.contains(&(0, 1, Placement::Window)));
    assert!(places.contains(&(1, 2, Placement::Content)));
    assert!(places.contains(&(2, 3, Placement::Append)));
    assert!(places.contains(&(7, 8, Placement::Child)));
}
