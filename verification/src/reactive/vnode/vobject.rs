//! The node that asks for one host object.

use vstd::prelude::*;

use crate::reactive::host::ObjectType;
use crate::reactive::scope::{MuteDepths, Scope};
use crate::reactive::vnode::VNode;

verus! {

/// What a patch procedure is given to build handlers from: the scope of the
/// component whose view the object belongs to.
pub struct VObjectContext<M> {
    scope: Scope<M>,
}

impl<M> VObjectContext<M> {
    /// The scope that values are dispatched through.
    pub closed spec fn target(&self) -> Scope<M> {
        self.scope
    }

    /// A context that dispatches through `scope`.
    pub fn new(scope: Scope<M>) -> (context: VObjectContext<M>)
        ensures
            context.target() == scope,
    {
        VObjectContext { scope }
    }

    /// Turns what a host event handler was called with into a message with
    /// `message_builder` and decides what becomes of it: it is dropped while
    /// the scope is muted, otherwise handed back for the scope's channel.
    pub fn d<W, MB: Fn(&W) -> M>(&self, depths: &MuteDepths, message_builder: &MB, object: &W) -> (sent:
        Option<M>)
        requires
            self.target().cell() < depths@.len(),
            call_requires(*message_builder, (object,)),
        ensures
            sent is None <==> Scope::<M>::silenced(depths@, self.target().cell()),
            sent matches Some(message) ==> call_ensures(*message_builder, (object,), message),
    {
        let message = message_builder(object);
        self.scope.send_message(depths, message)
    }
}

/// The description of one host object: its runtime type, how it is made, how it
/// is brought up to date, and the children it holds, in order.
pub struct VObject {
    /// The runtime type the object has once it is made.
    pub object_type: ObjectType,
    /// The constructor kept by the embedding program, when the object is not
    /// made by its type name.
    pub constructor: Option<u64>,
    /// The patch procedure kept by the embedding program, when there is one.
    pub patcher: Option<u64>,
    /// The children, matched by position on every render.
    pub children: Vec<VNode>,
}

/// The ways to ask for an object of a given runtime type.
pub trait VObjectBuilder: Sized {
    /// An object brought up to date by the patch procedure kept under
    /// `patcher`, which may connect handlers.
    fn ce(self, patcher: u64) -> VNode;

    /// An object brought up to date by the patch procedure kept under
    /// `patcher`.
    fn c(self, patcher: u64) -> VNode;

    /// A bare object: nothing to patch.
    fn cs(self) -> VNode;
}

impl VObjectBuilder for ObjectType {
    fn ce(self, patcher: u64) -> (node: VNode)
        ensures
            node is Object,
            node->Object_0.object_type == self,
            node->Object_0.constructor is None,
            node->Object_0.patcher == Some(patcher),
            node->Object_0.children@ == Seq::<VNode>::empty(),
    {
        VNode::Object(
            VObject { object_type: self, constructor: None, patcher: Some(patcher), children: Vec::new() },
        )
    }

    fn c(self, patcher: u64) -> (node: VNode)
        ensures
            node is Object,
            node->Object_0.object_type == self,
            node->Object_0.constructor is None,
            node->Object_0.patcher == Some(patcher),
            node->Object_0.children@ == Seq::<VNode>::empty(),
    {
        VNode::Object(
            VObject { object_type: self, constructor: None, patcher: Some(patcher), children: Vec::new() },
        )
    }

    fn cs(self) -> (node: VNode)
        ensures
            node is Object,
            node->Object_0.object_type == self,
            node->Object_0.constructor is None,
            node->Object_0.patcher is None,
            node->Object_0.children@ == Seq::<VNode>::empty(),
    {
        VNode::Object(
            VObject { object_type: self, constructor: None, patcher: None, children: Vec::new() },
        )
    }
}

impl VObject {
    /// Counts the handles a build of this node's children takes. `None` when
    /// they are more than a handle can number.
    pub fn count_children_handles(&self) -> (count: Option<u64>)
        ensures
            count matches Some(n) ==> n == VNode::handles_range(
                self.children@,
                0,
                self.children@.len() as int,
            ),
            count is None ==> VNode::handles_range(self.children@, 0, self.children@.len() as int)
                > u64::MAX,
        decreases self, 0int,
    {
        let mut total: u64 = 0;
        let mut i: usize = 0;
        let len = self.children.len();
        while i < len
            invariant
                i <= len,
                len == self.children@.len(),
                total == VNode::handles_range(self.children@, 0, i as int),
            decreases len - i,
        {
            proof {
                VNode::lemma_handles_range_monotone(self.children@, 0, i + 1, len as int);
            }
            match self.children[i].count_handles() {
                None => {
                    return None;
                },
                Some(c) => {
                    if c > u64::MAX - total {
                        return None;
                    }
                    total = total + c;
                },
            }
            i += 1;
        }
        Some(total)
    }

    /// Counts the handles a build of this node and all below it takes. `None`
    /// when they are more than a handle can number.
    pub fn count_handles(&self) -> (count: Option<u64>)
        ensures
            count matches Some(n) ==> n == VNode::Object(*self).handles(),
            count is None ==> VNode::Object(*self).handles() > u64::MAX,
        decreases self, 1int,
    {
        match self.count_children_handles() {
            None => None,
            Some(below) => if below == u64::MAX {
                None
            } else {
                Some(below + 1)
            },
        }
    }

    /// This node with `children` in place of the children it had.
    pub fn children(self, children: Vec<VNode>) -> (node: VNode)
        ensures
            node == VNode::Object(
                (VObject {
                    object_type: self.object_type,
                    constructor: self.constructor,
                    patcher: self.patcher,
                    children,
                }),
            ),
    {
        VNode::Object(
            VObject {
                object_type: self.object_type,
                constructor: self.constructor,
                patcher: self.patcher,
                children,
            },
        )
    }
}

} // verus!
