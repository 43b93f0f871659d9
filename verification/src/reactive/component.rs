//! Components, and the task that runs one: it takes what the merged message
//! stream yields, one item at a time, and renders at most once per turn.

use vstd::prelude::*;

use crate::reactive::host::{Effect, HostObject, Plan};
use crate::reactive::scope::{MuteDepths, Scope};
use crate::reactive::vnode::VNode;
use crate::reactive::vstate::vobject_state::VObjectState;
use crate::reactive::vstate::{Mirror, VState};

verus! {

/// What a component asks of its task after it has handled a message.
#[derive(Clone, Copy, PartialEq, Eq, Structural, Debug)]
pub enum UpdateAction {
    /// Nothing that shows has changed.
    Nothing,
    /// The view has to be computed again and applied.
    Render,
}

/// What a view is given to build dispatchers from: the scope of the
/// component it shows.
pub struct ViewContext<C: Component> {
    scope: Scope<C::Message>,
}

impl<C: Component> ViewContext<C> {
    /// The scope that values are dispatched through.
    pub closed spec fn target(&self) -> Scope<C::Message> {
        self.scope
    }

    /// A context that dispatches through `scope`.
    pub fn new(scope: Scope<C::Message>) -> (context: ViewContext<C>)
        ensures
            context.target() == scope,
    {
        ViewContext { scope }
    }

    /// The scope that values are dispatched through.
    pub fn scope(&self) -> (scope: &Scope<C::Message>)
        ensures
            *scope == self.target(),
    {
        &self.scope
    }

    /// Turns a raw value into a message with `message_builder` and decides
    /// what becomes of it: it is dropped while the scope is muted, otherwise
    /// handed back for the scope's channel.
    pub fn d<R, MB: Fn(R) -> C::Message>(
        &self,
        depths: &MuteDepths,
        message_builder: &MB,
        value: R,
    ) -> (sent: Option<C::Message>)
        requires
            self.target().cell() < depths@.len(),
            call_requires(*message_builder, (value,)),
        ensures
            sent is None <==> Scope::<C::Message>::silenced(depths@, self.target().cell()),
            sent matches Some(message) ==> call_ensures(*message_builder, (value,), message),
    {
        let message = message_builder(value);
        self.scope.send_message(depths, message)
    }
}

/// A component: a state, the messages that change it, the props its parent
/// hands it, and the view that shows it.
pub trait Component: Sized + Default {
    /// What the component's own dispatchers send.
    type Message;

    /// What the parent hands down.
    type Props;

    /// The state for the given props. Unless a component says otherwise, the
    /// state it starts from whatever the props.
    fn create(_props: Self::Props) -> Self {
        Default::default()
    }

    /// Handles a message, and says whether the view has to be computed again.
    /// Unless a component says otherwise, a message changes nothing.
    fn update(&mut self, _message: Self::Message) -> UpdateAction {
        UpdateAction::Nothing
    }

    /// Takes new props from the parent, and says whether the view has to be
    /// computed again.
    fn change(&mut self, props: Self::Props) -> UpdateAction;

    /// Called once the component's objects are in place.
    fn mounted(&self) {
    }

    /// Called after the component's objects were taken down.
    fn unmounted(&self) {
    }

    /// The tree of host objects that shows the state.
    fn view(&self, context: &ViewContext<Self>) -> VNode;
}

/// What a task receives.
pub enum ComponentMessage<C: Component> {
    /// A message of the component's own.
    Update(C::Message),
    /// New props from the parent.
    Props(C::Props),
    /// The component's objects are in place.
    Mounted,
    /// The component has to go.
    Unmounted,
}

/// What the merged message stream yielded when it was asked for its next
/// item.
pub enum Polled<C: Component> {
    /// A message was ready.
    Ready(ComponentMessage<C>),
    /// Nothing is ready for now.
    Pending,
    /// Every sender is gone: nothing will ever be ready again.
    Closed,
}

/// What the task asks of the loop that drives it.
#[derive(Clone, Copy, PartialEq, Eq, Structural, Debug)]
pub enum Step {
    /// Ask the stream for its next item at once.
    Continue,
    /// Carry out the plan, then wait until the stream has something.
    Suspend,
    /// Carry out the plan; the task is over.
    Finish,
    /// The render cannot be applied. Nothing was planned; the program cannot
    /// go on.
    Fail,
}

/// The effects of one render of `view` over mirror `m`: the scope's counter
/// is raised, the patch is applied, the counter is lowered again.
pub open spec fn render_effects(m: Mirror, view: VNode, cell: usize, next: int) -> Seq<Effect> {
    seq![Effect::Mute { cell }] + m.patch_effects(view, next) + seq![Effect::Unmute { cell }]
}

/// The task that runs one component instance: it owns the component's state
/// and the mirror of what the component has built.
pub struct ComponentTask<C: Component, P: Component> {
    scope: Scope<C::Message>,
    parent_scope: Option<Scope<P::Message>>,
    state: C,
    ui_state: Option<VState>,
    render: bool,
    alive: bool,
}

impl<C: Component, P: Component> ComponentTask<C, P> {
    /// The mirror of what the component has built, while it is mounted.
    pub closed spec fn mirror(&self) -> Option<Mirror> {
        match self.ui_state {
            Some(ui) => Some(ui@),
            None => None,
        }
    }

    /// Whether a message of this turn has asked for a render.
    pub closed spec fn render_pending(&self) -> bool {
        self.render
    }

    /// Whether the task still takes messages.
    pub closed spec fn is_alive(&self) -> bool {
        self.alive
    }

    /// The component's state.
    pub closed spec fn model(&self) -> C {
        self.state
    }

    /// The task's scope.
    pub closed spec fn own_scope(&self) -> Scope<C::Message> {
        self.scope
    }

    /// The scope of the parent's task, if there is a parent.
    pub closed spec fn parent(&self) -> Option<Scope<P::Message>> {
        self.parent_scope
    }

    /// Whether `task` is what comes of building the component for `props`
    /// in two steps. First the component creates `state` for the props and
    /// shows it as `first`, and the task is begun with the root of that view,
    /// which gives `partial` and leaves the plan as `middle`. Then, where the
    /// task was begun, the component shows its state again as `second`, and
    /// the children of that view are built below the root. Where it was not
    /// begun there is no task, and nothing more is planned.
    pub open spec fn assembles(
        task: Option<Self>,
        props: C::Props,
        name: &'static str,
        channel: u64,
        state: C,
        context: ViewContext<C>,
        first: VNode,
        partial: Option<PartialComponentTask<C, P>>,
        middle: Plan,
        again: ViewContext<C>,
        second: VNode,
        before: Plan,
        after: Plan,
    ) -> bool {
        &&& PartialComponentTask::starts(
            partial,
            props,
            name,
            channel,
            state,
            context,
            first,
            before,
            middle,
        )
        &&& match partial {
            Some(p) => p.finishes(again, second, middle, task, after),
            None => task is None && after == middle,
        }
    }

    /// Builds the component for `props` with all its objects, ready to run:
    /// the task is started as `PartialComponentTask::new` starts it, and
    /// finished at once. `None` where the first view cannot be built: its
    /// root is not an object, the toolkit has no place for one of its nodes,
    /// or the plan has too few handles left.
    pub fn new(
        props: C::Props,
        parent_scope: Option<&Scope<P::Message>>,
        name: &'static str,
        channel: u64,
        depths: &mut MuteDepths,
        plan: &mut Plan,
    ) -> (task: Option<Self>)
        ensures
            exists|
                state: C,
                context: ViewContext<C>,
                first: VNode,
                partial: Option<PartialComponentTask<C, P>>,
                middle: Plan,
                again: ViewContext<C>,
                second: VNode,
            |
                Self::assembles(
                    task,
                    props,
                    name,
                    channel,
                    state,
                    context,
                    first,
                    partial,
                    middle,
                    again,
                    second,
                    *old(plan),
                    *final(plan),
                ),
            task matches Some(t) ==> t.is_alive() && !t.render_pending() && t.mirror() is Some
                && t.own_scope().label() == name && t.own_scope().outlet() == channel
                && t.keeps_below(*final(plan)),
            match parent_scope {
                Some(parent) => *final(depths) == *old(depths) && (task matches Some(t)
                    ==> t.own_scope().cell() == parent.cell()),
                None => final(depths)@ == old(depths)@.push(0) && (task matches Some(t)
                    ==> t.own_scope().cell() == old(depths)@.len()),
            },
    {
        let made = PartialComponentTask::new(props, parent_scope, name, channel, depths, plan);
        let ghost middle = *plan;
        let ghost (state, context, first) = choose|state: C, context: ViewContext<C>, first: VNode|
            PartialComponentTask::starts(
                made,
                props,
                name,
                channel,
                state,
                context,
                first,
                *old(plan),
                middle,
            );
        match made {
            Some(partial) => {
                let task = partial.finalise(plan);
                proof {
                    let (again, second) = choose|again: ViewContext<C>, second: VNode|
                        partial.finishes(again, second, middle, task, *plan);
                    assert(Self::assembles(
                        task,
                        props,
                        name,
                        channel,
                        state,
                        context,
                        first,
                        made,
                        middle,
                        again,
                        second,
                        *old(plan),
                        *plan,
                    ));
                }
                task
            },
            None => {
                proof {
                    assert(Self::assembles(
                        None,
                        props,
                        name,
                        channel,
                        state,
                        context,
                        first,
                        made,
                        middle,
                        context,
                        first,
                        *old(plan),
                        *plan,
                    ));
                }
                None
            },
        }
    }

    /// Takes note of what the component asked for after a message: a render
    /// asked for once in a turn stays asked for.
    pub fn note(&mut self, action: UpdateAction)
        ensures
            final(self).render_pending() == (old(self).render_pending() || action
                == UpdateAction::Render),
            final(self).mirror() == old(self).mirror(),
            final(self).is_alive() == old(self).is_alive(),
            final(self).model() == old(self).model(),
            final(self).own_scope() == old(self).own_scope(),
            final(self).parent() == old(self).parent(),
    {
        match action {
            UpdateAction::Render => {
                self.render = true;
            },
            UpdateAction::Nothing => {},
        }
    }

    /// Whether `then` is the task `self` but for the component's state and
    /// the request for a render: the mirror, the scopes and whether the task
    /// is alive are the same.
    pub open spec fn stays_but_for_answer(self, then: Self) -> bool {
        &&& then.mirror() == self.mirror()
        &&& then.is_alive() == self.is_alive()
        &&& then.own_scope() == self.own_scope()
        &&& then.parent() == self.parent()
    }

    /// Whether the handles of what the task has built have been handed out by
    /// `plan`. A task and the plan it is run with belong together in this
    /// way.
    pub open spec fn keeps_below(&self, plan: Plan) -> bool {
        self.mirror() matches Some(m) ==> m.below(plan)
    }

    /// Whether the handles of what the task has built have been handed out by
    /// `plan`, computed.
    pub fn below(&self, plan: &Plan) -> (b: bool)
        ensures
            b == self.keeps_below(*plan),
    {
        match &self.ui_state {
            Some(ui) => ui.below(plan.next_handle),
            None => true,
        }
    }

    /// Whether `step`, the task `then` and the plan `after` are what the one
    /// render of a turn leaves of the task `self` and the plan `before`, when the
    /// component shows its state as `view`. Where the view can be applied,
    /// the step is `Suspend`: the mirror is patched, the render asked
    /// for is done, and the plan gets the mute of the task's scope, the
    /// patch, and the unmute. Otherwise the step is `Fail`, and the mirror,
    /// the request and the plan stay. The component's state, the scopes and
    /// whether the task is alive stay in either case.
    pub open spec fn renders(
        self,
        view: VNode,
        before: Plan,
        step: Step,
        then: Self,
        after: Plan,
    ) -> bool {
        &&& if self.renderable(view, before) {
            let m = self.mirror()->Some_0;
            &&& step == Step::Suspend
            &&& then.mirror() == Some(m.patched(view, before.next_handle as int))
            &&& !then.render_pending()
            &&& after.next_handle == before.next_handle + m.patch_handles(view)
            &&& after.effects@ == before.effects@ + render_effects(
                m,
                view,
                self.own_scope().cell(),
                before.next_handle as int,
            )
        } else {
            &&& step == Step::Fail
            &&& then.mirror() == self.mirror()
            &&& then.render_pending() == self.render_pending()
            &&& after == before
        }
        &&& then.is_alive() == self.is_alive()
        &&& then.model() == self.model()
        &&& then.own_scope() == self.own_scope()
        &&& then.parent() == self.parent()
    }

    /// Whether `view` is what the component shows of the state held here when
    /// it is asked with `context`, a context on the task's own scope.
    pub open spec fn shows(self, context: ViewContext<C>, view: VNode) -> bool {
        &&& context.target() == self.own_scope()
        &&& call_ensures(C::view, (&self.model(), &context), view)
    }

    /// Whether `view` can be applied: there is a mirror, it can be patched to
    /// `view`, and the plan has the handles that the patch takes.
    pub open spec fn renderable(&self, view: VNode, plan: Plan) -> bool {
        self.mirror() matches Some(m) && m.patchable(view) && plan.has_room(m.patch_handles(view))
    }

    /// Whether `view` can be applied, computed.
    pub fn can_render(&self, view: &VNode, plan: &Plan) -> (b: bool)
        ensures
            b == self.renderable(*view, *plan),
    {
        match &self.ui_state {
            Some(ui) => ui.can_patch_within(view, plan),
            None => false,
        }
    }

    /// Applies `view` in the one render of a turn: the plan gets the mute of
    /// the task's scope, the patch, and the unmute; the render asked for is
    /// done, and the step is `Suspend`. The view can be applied: a render
    /// without a mirror, or with a view whose root is of another kind or type
    /// than the mirror's, is a fault of the program.
    pub fn render_view(&mut self, view: VNode, plan: &mut Plan) -> (step: Step)
        requires
            old(self).keeps_below(*old(plan)),
            old(self).renderable(view, *old(plan)),
        ensures
            step == Step::Suspend,
            final(self).keeps_below(*final(plan)),
            old(self).renders(view, *old(plan), step, *final(self), *final(plan)),
    {
        let cell = self.scope.counter();
        match &mut self.ui_state {
            Some(ui) => {
                let ghost before = plan.effects@;
                let ghost m = ui@;
                let ghost patch = m.patch_effects(view, plan.next_handle as int);
                plan.effects.push(Effect::Mute { cell });
                ui.patch(view, plan);
                plan.effects.push(Effect::Unmute { cell });
                self.render = false;
                assert(plan.effects@ == before + (seq![Effect::Mute { cell }] + patch + seq![
                    Effect::Unmute { cell },
                ]));
            },
            None => {},
        }
        Step::Suspend
    }

    /// Takes the component's objects down: the mirror is unmounted and given
    /// up, and the task takes no more messages.
    pub fn teardown(&mut self, plan: &mut Plan)
        ensures
            final(self).mirror() is None,
            !final(self).is_alive(),
            final(self).render_pending() == old(self).render_pending(),
            final(self).model() == old(self).model(),
            final(self).own_scope() == old(self).own_scope(),
            final(self).parent() == old(self).parent(),
            final(plan).next_handle == old(plan).next_handle,
            final(plan).effects@ == old(plan).effects@ + match old(self).mirror() {
                Some(m) => m.unmount_effects(),
                None => Seq::empty(),
            },
    {
        match self.ui_state.take() {
            Some(state) => {
                state.unmount(plan);
            },
            None => {
                assert(plan.effects@ + Seq::<Effect>::empty() == plan.effects@);
            },
        }
        self.alive = false;
    }

    /// Takes the next item of the merged message stream. A message goes to
    /// the component: its `update`, or for props its `change`, is called on
    /// the state held; the state is what the call left, and a render is asked
    /// for if one was asked for before or the call answered `Render`. When the stream
    /// has nothing more for now, the one render of the turn happens if any
    /// message asked for it: the component shows its state, and the step is
    /// what `render_view` gives for that view, `Fail` where there is no
    /// mirror or the mirror cannot be patched to it. `Unmounted` ends the
    /// task for good: nothing that comes after it is looked at.
    pub fn process(&mut self, next: Polled<C>, plan: &mut Plan) -> (step: Step)
        requires
            old(self).keeps_below(*old(plan)),
        ensures
            final(self).keeps_below(*final(plan)),
            !old(self).is_alive() ==> step == Step::Finish && *final(self) == *old(self)
                && *final(plan) == *old(plan),
            old(self).is_alive() ==> match next {
                Polled::Ready(ComponentMessage::Update(message)) => {
                    &&& step == Step::Continue
                    &&& *final(plan) == *old(plan)
                    &&& old(self).stays_but_for_answer(*final(self))
                    &&& exists|r: &mut C, action: UpdateAction|
                        mut_ref_current(r) == old(self).model()
                            && mut_ref_future(r) == final(self).model()
                            && #[trigger] call_ensures(C::update, (r, message), action)
                            && final(self).render_pending() == (old(self).render_pending()
                            || action == UpdateAction::Render)
                },
                Polled::Ready(ComponentMessage::Props(props)) => {
                    &&& step == Step::Continue
                    &&& *final(plan) == *old(plan)
                    &&& old(self).stays_but_for_answer(*final(self))
                    &&& exists|r: &mut C, action: UpdateAction|
                        mut_ref_current(r) == old(self).model()
                            && mut_ref_future(r) == final(self).model()
                            && #[trigger] call_ensures(C::change, (r, props), action)
                            && final(self).render_pending() == (old(self).render_pending()
                            || action == UpdateAction::Render)
                },
                Polled::Ready(ComponentMessage::Mounted) => {
                    &&& step == Step::Continue
                    &&& *final(plan) == *old(plan)
                    &&& *final(self) == *old(self)
                },
                Polled::Ready(ComponentMessage::Unmounted) => {
                    &&& step == Step::Finish
                    &&& !final(self).is_alive()
                    &&& final(self).mirror() is None
                    &&& final(plan).next_handle == old(plan).next_handle
                    &&& final(plan).effects@ == old(plan).effects@ + match old(self).mirror() {
                        Some(m) => m.unmount_effects(),
                        None => Seq::empty(),
                    }
                },
                Polled::Pending => if old(self).render_pending() {
                    exists|context: ViewContext<C>, view: VNode|
                        old(self).shows(context, view) && old(self).renders(
                            view,
                            *old(plan),
                            step,
                            *final(self),
                            *final(plan),
                        )
                } else {
                    &&& step == Step::Suspend
                    &&& *final(plan) == *old(plan)
                    &&& *final(self) == *old(self)
                },
                Polled::Closed => {
                    &&& step == Step::Finish
                    &&& *final(plan) == *old(plan)
                    &&& *final(self) == *old(self)
                },
            },
    {
        if !self.alive {
            return Step::Finish;
        }
        match next {
            Polled::Ready(message) => match message {
                ComponentMessage::Update(message) => {
                    let action = self.state.update(message);
                    self.note(action);
                    Step::Continue
                },
                ComponentMessage::Props(props) => {
                    let action = self.state.change(props);
                    self.note(action);
                    Step::Continue
                },
                ComponentMessage::Mounted => {
                    self.state.mounted();
                    Step::Continue
                },
                ComponentMessage::Unmounted => {
                    self.teardown(plan);
                    self.state.unmounted();
                    Step::Finish
                },
            },
            Polled::Pending => {
                if self.render {
                    let context = ViewContext::new(self.scope.clone());
                    let view = self.state.view(&context);
                    let ghost shown = view;
                    let step = if self.can_render(&view, plan) {
                        self.render_view(view, plan)
                    } else {
                        Step::Fail
                    };
                    proof {
                        assert(old(self).shows(context, shown));
                        assert(old(self).renders(shown, *old(plan), step, *self, *plan));
                    }
                    step
                } else {
                    Step::Suspend
                }
            },
            Polled::Closed => Step::Finish,
        }
    }

    /// The root object the component has built, while it is mounted.
    pub fn object(&self) -> (object: Option<HostObject>)
        ensures
            object == match self.mirror() {
                Some(m) => Some(m.root()),
                None => None,
            },
    {
        match &self.ui_state {
            Some(state) => Some(*state.object()),
            None => None,
        }
    }

    /// The task's scope.
    pub fn scope(&self) -> (scope: Scope<C::Message>)
        ensures
            scope == self.own_scope(),
    {
        self.scope.clone()
    }

    /// The scope of the parent's task, if there is a parent.
    pub fn parent_scope(&self) -> (scope: Option<&Scope<P::Message>>)
        ensures
            scope == match self.parent() {
                Some(p) => Some(&p),
                None => None,
            },
    {
        self.parent_scope.as_ref()
    }

    /// Whether the task still takes messages, computed.
    pub fn alive(&self) -> (b: bool)
        ensures
            b == self.is_alive(),
    {
        self.alive
    }

    /// The component's state.
    pub fn state(&self) -> (state: &C)
        ensures
            *state == self.model(),
    {
        &self.state
    }
}

/// A task whose component has its root object but not yet what is below it.
/// The root can be shown to whoever embeds the component before the children
/// are built.
pub struct PartialComponentTask<C: Component, P: Component> {
    task: ComponentTask<C, P>,
}

impl<C: Component, P: Component> PartialComponentTask<C, P> {
    #[verifier::type_invariant]
    spec fn rooted(self) -> bool {
        &&& self.task.ui_state matches Some(ui)
        &&& ui@ matches Mirror::Object { children, .. }
        &&& children.len() == 0
        &&& self.task.alive
        &&& !self.task.render
    }

    /// The root object that was made.
    pub closed spec fn root(&self) -> HostObject {
        self.task.ui_state->Some_0@.root()
    }

    /// The scope of the task.
    pub closed spec fn own_scope(&self) -> Scope<C::Message> {
        self.task.scope
    }

    /// The state of the component.
    pub closed spec fn model(&self) -> C {
        self.task.state
    }

    /// Whether `partial` and the plan `after` are what beginning a task for
    /// `state` with first view `view` leaves of the plan `before`. The task is
    /// begun exactly where `view` is an object and the plan has a handle
    /// left: the root takes the next handle and the type the view names, and
    /// the effects that make it are planned. Otherwise the plan stays.
    pub open spec fn begins(
        partial: Option<Self>,
        state: C,
        view: VNode,
        before: Plan,
        after: Plan,
    ) -> bool {
        &&& partial is Some <==> view is Object && before.has_room(1)
        &&& partial matches Some(p) ==> {
            &&& p.root() == (HostObject {
                handle: before.next_handle,
                object_type: view.root_type(),
            })
            &&& p.model() == state
            &&& after.next_handle == before.next_handle + 1
            &&& after.effects@ == before.effects@ + Mirror::root_effects(
                view->Object_0,
                before.next_handle as int,
            )
        }
        &&& partial is None ==> after == before
    }

    /// Whether `partial` is what starting a task for `props` gives, when the
    /// component creates `state` for the props and, asked with `context`,
    /// shows it as `view`: the context dispatches through a scope of the
    /// given name and channel, which is the task's, and the task is begun for
    /// that state and that view.
    pub open spec fn starts(
        partial: Option<Self>,
        props: C::Props,
        name: &'static str,
        channel: u64,
        state: C,
        context: ViewContext<C>,
        view: VNode,
        before: Plan,
        after: Plan,
    ) -> bool {
        &&& call_ensures(C::create, (props,), state)
        &&& context.target().label() == name
        &&& context.target().outlet() == channel
        &&& call_ensures(C::view, (&state, &context), view)
        &&& Self::begins(partial, state, view, before, after)
        &&& partial matches Some(p) ==> p.own_scope() == context.target()
    }

    /// Whether `task` and the plan `after` are what building the children
    /// that `view` asks for below the root leaves of the plan `before`. The
    /// task is handed over exactly where `view` is an object, the toolkit has
    /// a place below the root for each of its children, and the plan has a
    /// handle for each node below the view's root: its mirror is the root with the freshly
    /// built children, and the effects that build, insert and show them are
    /// planned. Otherwise the plan stays.
    pub open spec fn completes(
        self,
        view: VNode,
        before: Plan,
        task: Option<ComponentTask<C, P>>,
        after: Plan,
    ) -> bool {
        &&& task is Some <==> view is Object && Mirror::placeable(
            self.root().object_type.class,
            view->Object_0.children@,
            0,
            view->Object_0.children@.len() as int,
        ) && before.has_room(
            VNode::handles_range(
                view->Object_0.children@,
                0,
                view->Object_0.children@.len() as int,
            ),
        )
        &&& task matches Some(t) ==> {
            &&& t.mirror() == Some(
                Mirror::Object {
                    object: self.root(),
                    children: Mirror::built_range(
                        view->Object_0.children@,
                        0,
                        view->Object_0.children@.len() as int,
                        before.next_handle as int,
                    ),
                },
            )
            &&& t.is_alive()
            &&& !t.render_pending()
            &&& t.own_scope() == self.own_scope()
            &&& t.model() == self.model()
            &&& after.next_handle == before.next_handle + view.handles() - 1
            &&& after.effects@ == before.effects@ + Mirror::grow_effects(
                self.root(),
                view->Object_0.children@,
                0,
                view->Object_0.children@.len() as int,
                before.next_handle as int,
                false,
            ) + Mirror::show_effects(self.root())
        }
        &&& task is None ==> after == before
    }

    /// Whether `task` is what comes of finishing, when the component, asked
    /// with `context`, shows its state as `view`: the context dispatches
    /// through the scope that was made at the start, and the children of that
    /// view are built below the root.
    pub open spec fn finishes(
        self,
        context: ViewContext<C>,
        view: VNode,
        before: Plan,
        task: Option<ComponentTask<C, P>>,
        after: Plan,
    ) -> bool {
        &&& context.target() == self.own_scope()
        &&& call_ensures(C::view, (&self.model(), &context), view)
        &&& self.completes(view, before, task, after)
    }

    /// Starts a task for `state`, whose first view is `view`: the root object
    /// is made, and nothing below it. `None` where `view` is not an object or
    /// the plan has no handle left; nothing is planned then.
    pub fn begin(
        scope: Scope<C::Message>,
        parent_scope: Option<Scope<P::Message>>,
        state: C,
        view: &VNode,
        plan: &mut Plan,
    ) -> (partial: Option<Self>)
        ensures
            Self::begins(partial, state, *view, *old(plan), *final(plan)),
            partial matches Some(p) ==> p.own_scope() == scope,
    {
        if !view.is_object() || plan.next_handle == u64::MAX {
            return None;
        }
        let ui_state = VState::build_root(view, plan);
        Some(
            PartialComponentTask {
                task: ComponentTask {
                    scope,
                    parent_scope,
                    state,
                    ui_state: Some(ui_state),
                    render: false,
                    alive: true,
                },
            },
        )
    }

    /// Starts a task for the component made from `props`: its scope is
    /// inherited from the parent's where there is a parent, its state is
    /// created, and the root object of its first view is made. `None` where
    /// that view's root is not an object or the plan has no handle left.
    pub fn new(
        props: C::Props,
        parent_scope: Option<&Scope<P::Message>>,
        name: &'static str,
        channel: u64,
        depths: &mut MuteDepths,
        plan: &mut Plan,
    ) -> (partial: Option<Self>)
        ensures
            exists|state: C, context: ViewContext<C>, view: VNode|
                Self::starts(
                    partial,
                    props,
                    name,
                    channel,
                    state,
                    context,
                    view,
                    *old(plan),
                    *final(plan),
                ),
            partial matches Some(p) ==> {
                &&& p.own_scope().label() == name
                &&& p.own_scope().outlet() == channel
                &&& p.root().handle == old(plan).next_handle
                &&& final(plan).next_handle == old(plan).next_handle + 1
                &&& final(plan).effects@.len() == old(plan).effects@.len() + 3
            },
            partial is None ==> *final(plan) == *old(plan),
            match parent_scope {
                Some(parent) => *final(depths) == *old(depths) && (partial matches Some(p)
                    ==> p.own_scope().cell() == parent.cell()),
                None => final(depths)@ == old(depths)@.push(0) && (partial matches Some(p)
                    ==> p.own_scope().cell() == old(depths)@.len()),
            },
    {
        let (scope, parent) = match parent_scope {
            Some(parent) => (parent.inherit(name, channel), Some(parent.clone())),
            None => (Scope::new(name, channel, depths), None),
        };
        let state = C::create(props);
        let context = ViewContext::new(scope.clone());
        let view = state.view(&context);
        let ghost model = state;
        let partial = Self::begin(scope, parent, state, &view, plan);
        proof {
            assert(Self::starts(
                partial,
                props,
                name,
                channel,
                model,
                context,
                view,
                *old(plan),
                *plan,
            ));
        }
        partial
    }

    /// Builds what `view` asks for below the root, and hands the task over,
    /// ready to run. `None` where the children cannot be built: `view` is not
    /// an object, the toolkit has no place for one of its nodes, or the plan
    /// has fewer handles left than `view` has nodes below its root; nothing is
    /// planned then. The view is used up.
    pub fn complete(self, view: VNode, plan: &mut Plan) -> (task: Option<ComponentTask<C, P>>)
        requires
            self.root().handle < old(plan).next_handle,
        ensures
            self.completes(view, *old(plan), task, *final(plan)),
            task matches Some(t) ==> t.keeps_below(*final(plan)),
    {
        proof {
            use_type_invariant(&self);
        }
        let mut task = self.task;
        let root = match &task.ui_state {
            Some(ui) => *ui.object(),
            None => {
                return None;
            },
        };
        let fits = match &view {
            VNode::Object(vobj) => VObjectState::can_place(
                root.object_type.class,
                &vobj.children,
                0,
            ) && match vobj.count_children_handles() {
                None => false,
                Some(count) => count <= u64::MAX - plan.next_handle,
            },
            VNode::Component(_) => false,
        };
        if !fits {
            return None;
        }
        let ghost nodes = view->Object_0.children@;
        match &mut task.ui_state {
            Some(ui) => {
                ui.build_children(view, plan);
                assert(Seq::<Mirror>::empty() + Mirror::built_range(
                    nodes,
                    0,
                    nodes.len() as int,
                    old(plan).next_handle as int,
                ) == Mirror::built_range(nodes, 0, nodes.len() as int, old(plan).next_handle as int));
            },
            None => {},
        }
        Some(task)
    }

    /// Computes the component's view and builds what it asks for below the
    /// root. The task is what `complete` gives for that view: `None` where
    /// the children cannot be built. The root's handle has been handed out by
    /// the plan, and so have all handles of the task that comes of it.
    pub fn finalise(self, plan: &mut Plan) -> (task: Option<ComponentTask<C, P>>)
        requires
            self.root().handle < old(plan).next_handle,
        ensures
            task matches Some(t) ==> t.keeps_below(*final(plan)),
            exists|context: ViewContext<C>, view: VNode|
                self.finishes(context, view, *old(plan), task, *final(plan)),
            task matches Some(t) ==> t.is_alive() && !t.render_pending() && t.mirror() is Some
                && t.own_scope() == self.own_scope() && t.model() == self.model(),
            task is None ==> *final(plan) == *old(plan),
    {
        let context = ViewContext::new(self.scope());
        let view = self.task.state.view(&context);
        let ghost shown = view;
        let task = self.complete(view, plan);
        proof {
            assert(self.finishes(context, shown, *old(plan), task, *plan));
        }
        task
    }

    /// The root object that was made.
    pub fn object(&self) -> (object: HostObject)
        ensures
            object == self.root(),
    {
        proof {
            use_type_invariant(self);
        }
        match &self.task.ui_state {
            Some(state) => *state.object(),
            None => HostObject {
                handle: 0,
                object_type: crate::reactive::host::ObjectType {
                    id: 0,
                    class: crate::reactive::host::HostClass::Unknown,
                },
            },
        }
    }

    /// The scope of the task.
    pub fn scope(&self) -> (scope: Scope<C::Message>)
        ensures
            scope == self.own_scope(),
    {
        self.task.scope.clone()
    }

    /// The state of the component.
    pub fn state(&self) -> (state: &C)
        ensures
            *state == self.model(),
    {
        &self.task.state
    }
}

} // verus!
