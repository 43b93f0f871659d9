//! The runtime: view trees, their mirror, scopes, and the component scheduler.

pub mod callback;
pub mod component;
pub mod host;
pub mod scope;
pub mod vnode;
pub mod vstate;

use vstd::prelude::*;

use crate::reactive::component::{Component, PartialComponentTask, ViewContext};
use crate::reactive::host::{HostClass, Plan};
use crate::reactive::scope::MuteDepths;
use crate::reactive::vnode::VNode;

verus! {

/// What a one-shot function does when it is called again.
#[derive(Clone, Copy, PartialEq, Eq, Structural, Debug)]
pub enum AndThen {
    /// A second call is a fault of the program.
    Panic,
    /// A second call is ignored.
    DoNothing,
}

/// What a call of a one-shot function came to.
#[derive(Clone, Copy, PartialEq, Eq, Structural, Debug)]
pub enum Called {
    /// The function ran.
    Ran,
    /// The function had run before; the call was ignored.
    Ignored,
    /// The function had run before, and a second call is a fault.
    Twice,
}

/// A function that runs at most once.
pub struct Once<F> {
    f: Option<F>,
    and_then: AndThen,
}

impl<F> Once<F> {
    /// The function, while it has not run.
    pub closed spec fn pending(&self) -> Option<F> {
        self.f
    }

    /// What a later call does.
    pub closed spec fn later(&self) -> AndThen {
        self.and_then
    }

    /// Calls the function on `value` if it has not run yet. A later call
    /// runs nothing: it is ignored or reported, as was chosen.
    pub fn call<A>(&mut self, value: A) -> (called: Called) where F: FnOnce(A)
        requires
            old(self).pending() matches Some(f) ==> call_requires(f, (value,)),
        ensures
            final(self).pending() is None,
            final(self).later() == old(self).later(),
            match old(self).pending() {
                Some(f) => called == Called::Ran && call_ensures(f, (value,), ()),
                None => called == match old(self).later() {
                    AndThen::Panic => Called::Twice,
                    AndThen::DoNothing => Called::Ignored,
                },
            },
    {
        match self.f.take() {
            Some(f) => {
                f(value);
                Called::Ran
            },
            None => match self.and_then {
                AndThen::Panic => Called::Twice,
                AndThen::DoNothing => Called::Ignored,
            },
        }
    }
}

/// Makes `f` a function that runs at most once.
pub fn once<F>(and_then: AndThen, f: F) -> (wrapped: Once<F>)
    ensures
        wrapped.pending() == Some(f),
        wrapped.later() == and_then,
{
    Once { f: Some(f), and_then }
}

/// Whether `partial` is what starting the root component for `props` gives,
/// when the component creates `state` for the props and, asked with
/// `context`, shows it as `view`. The task is started as any task is, which
/// gives `made` and plans the root where there is one. It is handed on only
/// where the root is the application object: otherwise there is no task,
/// though the root has been planned.
pub open spec fn launches<C: Component>(
    partial: Option<PartialComponentTask<C, C>>,
    props: C::Props,
    name: &'static str,
    channel: u64,
    state: C,
    context: ViewContext<C>,
    view: VNode,
    made: Option<PartialComponentTask<C, C>>,
    before: Plan,
    after: Plan,
) -> bool {
    &&& PartialComponentTask::starts(made, props, name, channel, state, context, view, before, after)
    &&& partial == match made {
        Some(p) => if p.root().object_type.class == HostClass::RootContainer {
            Some(p)
        } else {
            None
        },
        None => None,
    }
}

/// Starts the root component of a program: its task is begun with a scope of
/// its own family, and the root object of its view is made. The children are
/// built when the application has been activated. `None` where the root
/// cannot be made or is not the application object.
pub fn start<C: Component>(
    props: C::Props,
    name: &'static str,
    channel: u64,
    depths: &mut MuteDepths,
    plan: &mut Plan,
) -> (partial: Option<PartialComponentTask<C, C>>)
    ensures
        exists|
            state: C,
            context: ViewContext<C>,
            view: VNode,
            made: Option<PartialComponentTask<C, C>>,
        |
            launches(
                partial,
                props,
                name,
                channel,
                state,
                context,
                view,
                made,
                *old(plan),
                *final(plan),
            ),
        final(depths)@ == old(depths)@.push(0),
        partial matches Some(p) ==> {
            &&& p.root().object_type.class == HostClass::RootContainer
            &&& p.root().handle == old(plan).next_handle
            &&& p.own_scope().cell() == old(depths)@.len()
            &&& p.own_scope().label() == name
            &&& p.own_scope().outlet() == channel
            &&& final(plan).next_handle == old(plan).next_handle + 1
        },
{
    let made = PartialComponentTask::<C, C>::new(props, None, name, channel, depths, plan);
    let ghost (state, context, view) = choose|state: C, context: ViewContext<C>, view: VNode|
        PartialComponentTask::starts(
            made,
            props,
            name,
            channel,
            state,
            context,
            view,
            *old(plan),
            *plan,
        );
    let partial = match made {
        Some(partial) => {
            if partial.object().object_type.class == HostClass::RootContainer {
                Some(partial)
            } else {
                None
            }
        },
        None => None,
    };
    proof {
        assert(launches(
            partial,
            props,
            name,
            channel,
            state,
            context,
            view,
            made,
            *old(plan),
            *plan,
        ));
    }
    partial
}

} // verus!
