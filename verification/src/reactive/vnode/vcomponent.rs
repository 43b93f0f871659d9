//! The node that asks for an embedded child component.

use vstd::prelude::*;

use crate::reactive::host::ObjectType;
use crate::reactive::vnode::vprops::VProps;
use crate::reactive::vnode::VNode;

verus! {

/// The description of an embedded child component. It holds the props for
/// the child, which leave it when the node is built or patched.
#[derive(PartialEq, Eq, Structural, Debug)]
pub struct VComponent {
    /// The identity of the child's component type.
    pub model_type: u64,
    /// The props handed to the child, erased.
    pub props: VProps,
    /// The runtime type of the object the child exposes as its root.
    pub root_type: ObjectType,
}

impl VComponent {
    /// A component node of the given model type with the given props.
    pub fn cp(model_type: u64, root_type: ObjectType, props: VProps) -> (node: VNode)
        ensures
            node == VNode::Component((VComponent { model_type, props, root_type })),
    {
        VNode::Component(VComponent { model_type, props, root_type })
    }
}

} // verus!
