//! The mirror of a component node.

use vstd::prelude::*;

use crate::reactive::host::{Effect, HostObject, Plan};
use crate::reactive::vnode::vcomponent::VComponent;
use crate::reactive::vnode::vprops::VProps;
use crate::reactive::vnode::VNode;
use crate::reactive::vstate::{Mirror, VState};

verus! {

/// The parent's hold on a child component that is running.
#[derive(Clone, Copy, PartialEq, Eq, Structural, Debug)]
pub struct VSubcomponentState {
    /// The handle under which the embedding program runs the child.
    pub instance: u64,
}

impl VSubcomponentState {
    /// The effect that hands `props` to the child.
    pub fn update(&self, props: VProps) -> (effect: Effect)
        ensures
            effect == (Effect::ForwardProps { instance: self.instance, props }),
    {
        Effect::ForwardProps { instance: self.instance, props }
    }

    /// The effect that tells the child to unmount.
    pub fn unmounting(&self) -> (effect: Effect)
        ensures
            effect == (Effect::Unmount { instance: self.instance }),
    {
        Effect::Unmount { instance: self.instance }
    }
}

/// A child component that was started.
#[derive(Clone, Copy, PartialEq, Eq, Structural, Debug)]
pub struct VComponentState {
    /// The object the child exposes as its root. Its handle is the one the
    /// child runs under.
    pub object: HostObject,
    /// The identity of the child's component type.
    pub model_type: u64,
}

impl VComponentState {
    /// The hold on the running child.
    pub fn state(&self) -> (state: VSubcomponentState)
        ensures
            state.instance == self.object.handle,
    {
        VSubcomponentState { instance: self.object.handle }
    }

    /// Starts the child that `spec` asks for, under the next unused handle.
    /// The node's props go to the child with the effect that starts it.
    pub fn build(spec: VComponent, plan: &mut Plan) -> (state: VComponentState)
        requires
            old(plan).has_room(1),
        ensures
            VState::Component(state)@ == Mirror::built(
                VNode::Component(spec),
                old(plan).next_handle as int,
            ),
            final(plan).next_handle == old(plan).next_handle + 1,
            final(plan).effects@ == old(plan).effects@ + Mirror::build_effects(
                VNode::Component(spec),
                old(plan).next_handle as int,
            ),
    {
        let instance = plan.next_handle;
        let model_type = spec.model_type;
        let object = HostObject { handle: instance, object_type: spec.root_type };
        plan.next_handle = plan.next_handle + 1;
        plan.effects.push(Effect::Spawn { instance, model_type, props: spec.props });
        VComponentState { object, model_type }
    }

    /// Hands the props of `spec` to the child if `spec` asks for a component of
    /// the child's model type, and says whether it did: the props leave the
    /// node with the one effect that forwards them. Where it did not, the
    /// child has to be replaced and nothing is planned here.
    pub fn patch(&mut self, spec: VComponent, plan: &mut Plan) -> (kept: bool)
        ensures
            kept == (old(self).model_type == spec.model_type),
            *final(self) == *old(self),
            final(plan).next_handle == old(plan).next_handle,
            final(plan).effects@ == old(plan).effects@ + VState::Component(*old(self))@.patch_effects(
                VNode::Component(spec),
                old(plan).next_handle as int,
            ),
    {
        if self.model_type == spec.model_type {
            let effect = self.state().update(spec.props);
            plan.effects.push(effect);
            true
        } else {
            assert(plan.effects@ + Seq::<Effect>::empty() == plan.effects@);
            false
        }
    }

    /// Tells the child to unmount.
    pub fn unmount(self, plan: &mut Plan)
        ensures
            final(plan).next_handle == old(plan).next_handle,
            final(plan).effects@ == old(plan).effects@ + VState::Component(self)@.unmount_effects(),
    {
        let effect = self.state().unmounting();
        plan.effects.push(effect);
    }
}

} // verus!
