//! The view tree: what a component's view asks the host to look like.

pub mod vcomponent;
pub mod vobject;
pub mod vprops;

use vstd::prelude::*;

use crate::reactive::host::ObjectType;
use crate::reactive::vnode::vcomponent::VComponent;
use crate::reactive::vnode::vobject::VObject;

verus! {

/// One node of a view tree.
pub enum VNode {
    /// A host object, with its children.
    Object(VObject),
    /// An embedded child component.
    Component(VComponent),
}

impl VNode {
    /// The runtime type of the object this node stands for: for a component
    /// node, that of the root object the child exposes.
    pub open spec fn root_type(self) -> ObjectType {
        match self {
            VNode::Object(o) => o.object_type,
            VNode::Component(c) => c.root_type,
        }
    }

    /// Whether this is an object node of the given type, made by its type
    /// name, with the given patch procedure and `count` children.
    pub open spec fn is_object_of(self, object_type: ObjectType, patcher: Option<u64>, count: int) -> bool {
        &&& self matches VNode::Object(o)
        &&& o.object_type == object_type
        &&& o.constructor is None
        &&& o.patcher == patcher
        &&& o.children@.len() == count
    }

    /// Child number `i` of an object node.
    pub open spec fn child(self, i: int) -> VNode {
        self->Object_0.children@[i]
    }

    /// How many object nodes this tree has.
    pub open spec fn objects(self) -> nat
        decreases self,
    {
        match self {
            VNode::Object(o) => 1 + Self::objects_upto(o.children@, o.children@.len() as int),
            VNode::Component(_) => 0,
        }
    }

    /// How many object nodes the first `n` of `nodes` have.
    pub open spec fn objects_upto(nodes: Seq<VNode>, n: int) -> nat
        decreases nodes, n,
    {
        if n <= 0 || n > nodes.len() {
            0
        } else {
            Self::objects_upto(nodes, n - 1) + nodes[n - 1].objects()
        }
    }

    /// How many handles a build of this tree takes: one for each node.
    pub open spec fn handles(self) -> nat
        decreases self,
    {
        match self {
            VNode::Object(o) => 1 + Self::handles_range(o.children@, 0, o.children@.len() as int),
            VNode::Component(_) => 1,
        }
    }

    /// How many handles a build of `nodes[from..to]` takes.
    pub open spec fn handles_range(nodes: Seq<VNode>, from: int, to: int) -> nat
        decreases nodes, to,
    {
        if from < 0 || to <= from || to > nodes.len() {
            0
        } else {
            Self::handles_range(nodes, from, to - 1) + nodes[to - 1].handles()
        }
    }

    /// A range that ends later takes at least as many handles.
    pub proof fn lemma_handles_range_monotone(nodes: Seq<VNode>, from: int, mid: int, to: int)
        requires
            0 <= from <= mid <= to <= nodes.len(),
        ensures
            Self::handles_range(nodes, from, mid) <= Self::handles_range(nodes, from, to),
        decreases to - mid,
    {
        if mid < to {
            Self::lemma_handles_range_monotone(nodes, from, mid, to - 1);
        }
    }

    /// A range splits into its two parts.
    pub proof fn lemma_handles_range_split(nodes: Seq<VNode>, from: int, mid: int, to: int)
        requires
            0 <= from <= mid <= to <= nodes.len(),
        ensures
            Self::handles_range(nodes, from, to) == Self::handles_range(nodes, from, mid)
                + Self::handles_range(nodes, mid, to),
        decreases to - mid,
    {
        if mid < to {
            Self::lemma_handles_range_split(nodes, from, mid, to - 1);
        }
    }

    /// This node with `children` in place of the children it had. Only an
    /// object node has children.
    pub fn children(self, children: Vec<VNode>) -> (node: VNode)
        requires
            self is Object,
        ensures
            node == VNode::Object(
                (VObject {
                    object_type: self->Object_0.object_type,
                    constructor: self->Object_0.constructor,
                    patcher: self->Object_0.patcher,
                    children,
                }),
            ),
    {
        match self {
            VNode::Object(node) => node.children(children),
            VNode::Component(c) => VNode::Component(c),
        }
    }

    /// The runtime type of the object this node stands for, computed.
    pub fn object_type(&self) -> (t: ObjectType)
        ensures
            t == self.root_type(),
    {
        match self {
            VNode::Object(o) => o.object_type,
            VNode::Component(c) => c.root_type,
        }
    }

    /// Whether this is an object node, computed.
    pub fn is_object(&self) -> (b: bool)
        ensures
            b == (self is Object),
    {
        match self {
            VNode::Object(_) => true,
            VNode::Component(_) => false,
        }
    }

    /// Counts the handles a build of this tree takes. `None` when they are more
    /// than a handle can number.
    pub fn count_handles(&self) -> (count: Option<u64>)
        ensures
            count matches Some(n) ==> n == self.handles(),
            count is None ==> self.handles() > u64::MAX,
        decreases self, 2int,
    {
        match self {
            VNode::Component(_) => Some(1),
            VNode::Object(o) => o.count_handles(),
        }
    }
}

} // verus!
