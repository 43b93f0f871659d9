//! A counter that reports every change upward and keeps no count of its own.

use vstd::prelude::*;

use crate::components::{button, label, layout_box};
use crate::reactive::callback::Callback;
use crate::reactive::component::{Component, UpdateAction, ViewContext};
use crate::reactive::vnode::vobject::VObjectBuilder;
use crate::reactive::vnode::VNode;
use crate::reactive::vstate::Mirror;

verus! {

/// The state of a counter, which is also what its parent hands it: a name, the
/// count to show, and where to report a change.
pub struct Counter<F: Fn(i8)> {
    pub name: String,
    pub count: u8,
    pub on_changed: Callback<i8, F>,
}

/// What the counter's buttons send.
#[derive(Clone, Copy, PartialEq, Eq, Structural, Debug)]
pub enum CounterMessage {
    Increment,
    Decrement,
}

impl CounterMessage {
    /// The change that the message stands for.
    pub open spec fn delta(self) -> i8 {
        match self {
            CounterMessage::Increment => 1i8,
            CounterMessage::Decrement => (-1i8) as i8,
        }
    }
}

impl<F: Fn(i8)> Default for Counter<F> {
    fn default() -> (counter: Self)
        ensures
            counter.name@ == Seq::<char>::empty(),
            counter.count == 0,
            counter.on_changed.function() is None,
    {
        Counter { name: String::new(), count: 0, on_changed: Callback::empty() }
    }
}

impl<F: Fn(i8)> Clone for Counter<F> {
    fn clone(&self) -> (counter: Self)
        ensures
            counter.name@ == self.name@,
            counter.count == self.count,
            counter.on_changed.function() == self.on_changed.function(),
    {
        Counter {
            name: self.name.clone(),
            count: self.count,
            on_changed: self.on_changed.clone(),
        }
    }
}

impl<F: Fn(i8)> Component for Counter<F> {
    type Message = CounterMessage;

    type Props = Counter<F>;

    fn create(props: Self::Props) -> (counter: Self)
        ensures
            counter == props,
    {
        props
    }

    fn change(&mut self, props: Self::Props) -> (action: UpdateAction)
        ensures
            *final(self) == props,
            action == UpdateAction::Render,
    {
        *self = props;
        UpdateAction::Render
    }

    fn update(&mut self, message: Self::Message) -> (action: UpdateAction)
        ensures
            *final(self) == *old(self),
            action == UpdateAction::Nothing,
            old(self).on_changed.function() matches Some(f) ==> call_ensures(
                f,
                (message.delta(),),
                (),
            ),
    {
        match message {
            CounterMessage::Increment => {
                self.on_changed.send(1);
            },
            CounterMessage::Decrement => {
                self.on_changed.send(-1);
            },
        }
        UpdateAction::Nothing
    }

    fn view(&self, context: &ViewContext<Self>) -> (node: VNode)
        ensures
            node.is_object_of(layout_box(), Some(0), 3),
            node.child(0).is_object_of(button(), Some(1), 0),
            node.child(1).is_object_of(button(), Some(2), 0),
            node.child(2).is_object_of(label(), Some(3), 0),
            node.handles() == 4,
            Mirror::buildable(node),
    {
        let increment = button().ce(1);
        let decrement = button().ce(2);
        let shown = label().c(3);
        let node = layout_box().c(0).children(vec![increment, decrement, shown]);
        proof {
            let nodes = node->Object_0.children@;
            assert(Mirror::buildable(nodes[0]));
            assert(Mirror::buildable(nodes[1]));
            assert(Mirror::buildable(nodes[2]));
            assert(VNode::handles_range(nodes, 0, 3) == 3) by {
                reveal_with_fuel(VNode::handles_range, 4);
            }
        }
        node
    }
}

} // verus!
