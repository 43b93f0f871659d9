//! The mirror: what has been built on the host, kept in the shape of the view
//! tree that was applied last.

pub mod retention;
pub mod single_writer;
pub mod vcomponent_state;
pub mod vobject_state;

use vstd::prelude::*;

use crate::reactive::host::{placement, removal, Effect, HostClass, HostObject, Plan};
use crate::reactive::vnode::vobject::VObject;
use crate::reactive::vnode::VNode;
use crate::reactive::vstate::vcomponent_state::VComponentState;
use crate::reactive::vstate::vobject_state::VObjectState;

verus! {

/// The mirror as a mathematical tree.
pub enum Mirror {
    /// A host object that was built, with the mirrors of its children.
    Object { object: HostObject, children: Seq<Mirror> },
    /// A child component that was started, and the object it exposes.
    Component { object: HostObject, model_type: u64 },
}

/// One node of the mirror.
pub enum VState {
    /// A host object that was built.
    Object(VObjectState),
    /// A child component that was started.
    Component(VComponentState),
}

impl View for VState {
    type V = Mirror;

    open spec fn view(&self) -> Mirror
        decreases self,
    {
        match self {
            VState::Object(s) => Mirror::Object {
                object: s.object,
                children: VState::views(s.children@),
            },
            VState::Component(s) => Mirror::Component { object: s.object, model_type: s.model_type },
        }
    }
}

impl VState {
    /// The mirrors of a row of nodes.
    pub open spec fn views(states: Seq<VState>) -> Seq<Mirror>
        decreases states,
    {
        Seq::new(
            states.len(),
            |i: int|
                if 0 <= i < states.len() {
                    states[i].view()
                } else {
                    arbitrary()
                },
        )
    }

    /// The host object at the root of this mirror.
    pub fn object(&self) -> (object: &HostObject)
        ensures
            *object == self@.root(),
    {
        match self {
            VState::Object(state) => &state.object,
            VState::Component(state) => &state.object,
        }
    }

    /// The host object at the root of this mirror, if it is a widget.
    pub fn widget(&self) -> (object: Option<&HostObject>)
        ensures
            object == if self@.root().object_type.class.is_widget() {
                Some(&self@.root())
            } else {
                None
            },
    {
        let object = self.object();
        if object.object_type.class.widget() {
            Some(object)
        } else {
            None
        }
    }

    /// Builds what `vnode` asks for, with all that is below it. Handles are
    /// taken from the plan, one for each node, parents before children: every
    /// handle of the new mirror is one that the plan had not handed out. The
    /// tree is used up: the props it holds go to the children they start.
    pub fn build(vnode: VNode, plan: &mut Plan) -> (state: VState)
        requires
            Mirror::buildable(vnode),
            old(plan).has_room(vnode.handles()),
        ensures
            state@ == Mirror::built(vnode, old(plan).next_handle as int),
            final(plan).next_handle == old(plan).next_handle + vnode.handles(),
            final(plan).effects@ == old(plan).effects@ + Mirror::build_effects(
                vnode,
                old(plan).next_handle as int,
            ),
            state@.fits(vnode),
            state@.handles_within(old(plan).next_handle as int, final(plan).next_handle as int),
        decreases vnode, 0int,
    {
        proof {
            Mirror::lemma_built_fits(vnode, plan.next_handle as int);
            Mirror::lemma_built_handles_fresh(vnode, plan.next_handle as int);
        }
        match vnode {
            VNode::Object(object) => VState::Object(VObjectState::build(object, plan)),
            VNode::Component(spec) => VState::Component(VComponentState::build(spec, plan)),
        }
    }

    /// Makes the root object that `vnode` asks for, without its children.
    /// Only an object can be the root of a component's view.
    pub fn build_root(vnode: &VNode, plan: &mut Plan) -> (state: VState)
        requires
            *vnode is Object,
            old(plan).has_room(1),
        ensures
            state@ == (Mirror::Object {
                object: HostObject {
                    handle: old(plan).next_handle,
                    object_type: vnode.root_type(),
                },
                children: Seq::empty(),
            }),
            final(plan).next_handle == old(plan).next_handle + 1,
            final(plan).effects@ == old(plan).effects@ + Mirror::root_effects(
                vnode->Object_0,
                old(plan).next_handle as int,
            ),
    {
        match vnode {
            VNode::Object(object) => {
                let state = VObjectState::build_root(object, plan);
                assert(VState::Object(state)@->Object_children == Seq::<Mirror>::empty());
                VState::Object(state)
            },
            VNode::Component(spec) => VState::Component(
                VComponentState {
                    object: HostObject { handle: plan.next_handle, object_type: spec.root_type },
                    model_type: spec.model_type,
                },
            ),
        }
    }

    /// Builds the children that `vnode` asks for below the root that was made
    /// for it, inserts each, and shows the root. The mirror's handles have
    /// been handed out by the plan, before and after.
    pub fn build_children(&mut self, vnode: VNode, plan: &mut Plan)
        requires
            vnode is Object,
            *old(self) is Object,
            Mirror::placeable(
                old(self)@.root().object_type.class,
                vnode->Object_0.children@,
                0,
                vnode->Object_0.children@.len() as int,
            ),
            old(plan).has_room(
                VNode::handles_range(
                    vnode->Object_0.children@,
                    0,
                    vnode->Object_0.children@.len() as int,
                ),
            ),
            old(self)@.below(*old(plan)),
        ensures
            final(self)@.below(*final(plan)),
            final(self)@ == (Mirror::Object {
                object: old(self)@.root(),
                children: old(self)@->Object_children + Mirror::built_range(
                    vnode->Object_0.children@,
                    0,
                    vnode->Object_0.children@.len() as int,
                    old(plan).next_handle as int,
                ),
            }),
            final(plan).next_handle == old(plan).next_handle + VNode::handles_range(
                vnode->Object_0.children@,
                0,
                vnode->Object_0.children@.len() as int,
            ),
            final(plan).effects@ == old(plan).effects@ + Mirror::grow_effects(
                old(self)@.root(),
                vnode->Object_0.children@,
                0,
                vnode->Object_0.children@.len() as int,
                old(plan).next_handle as int,
                false,
            ) + Mirror::show_effects(old(self)@.root()),
    {
        match vnode {
            VNode::Object(vobject) => match self {
                VState::Object(state) => {
                    assert(VState::Object(*state)@->Object_children == VState::views(state.children@));
                    assert(VState::Object(*state)@.below(*plan));
                    state.build_children(vobject, plan);
                    assert(VState::Object(*state)@->Object_children == VState::views(state.children@));
                },
                VState::Component(_) => {},
            },
            VNode::Component(_) => {},
        }
    }

    /// Whether every handle in this mirror is below `limit`, computed.
    pub fn below(&self, limit: u64) -> (b: bool)
        ensures
            b == self@.handles_within(0, limit as int),
        decreases self, 1int,
    {
        match self {
            VState::Object(state) => state.below(limit),
            VState::Component(state) => state.object.handle < limit,
        }
    }

    /// Whether this mirror can be kept for `vnode`, computed.
    pub fn compatible(&self, vnode: &VNode) -> (b: bool)
        ensures
            b == self@.compatible(*vnode),
    {
        match self {
            VState::Object(state) => match vnode {
                VNode::Object(object) => state.object.object_type == object.object_type,
                VNode::Component(_) => false,
            },
            VState::Component(state) => match vnode {
                VNode::Object(_) => false,
                VNode::Component(spec) => state.model_type == spec.model_type,
            },
        }
    }

    /// Whether `vnode` can be built, computed.
    pub fn can_build(vnode: &VNode) -> (b: bool)
        ensures
            b == Mirror::buildable(*vnode),
        decreases vnode, 0int,
    {
        match vnode {
            VNode::Object(object) => VObjectState::can_place(
                object.object_type.class,
                &object.children,
                0,
            ),
            VNode::Component(_) => true,
        }
    }

    /// Whether a build of `vnode` with `plan` goes through: `vnode` can be
    /// built, and the plan has a handle left for each of its nodes.
    pub fn can_build_within(vnode: &VNode, plan: &Plan) -> (b: bool)
        ensures
            b == (Mirror::buildable(*vnode) && plan.has_room(vnode.handles())),
    {
        if !Self::can_build(vnode) {
            return false;
        }
        match vnode.count_handles() {
            None => false,
            Some(count) => count <= u64::MAX - plan.next_handle,
        }
    }

    /// Whether this mirror can be patched to `vnode`, computed.
    pub fn can_patch(&self, vnode: &VNode) -> (b: bool)
        ensures
            b == self@.patchable(*vnode),
        decreases vnode, 1int,
    {
        match self {
            VState::Object(state) => match vnode {
                VNode::Object(object) => state.can_patch(object),
                VNode::Component(_) => false,
            },
            VState::Component(state) => match vnode {
                VNode::Object(_) => false,
                VNode::Component(spec) => state.model_type == spec.model_type,
            },
        }
    }

    /// Patches a mirror that can be patched to `vnode`. The mirror's handles
    /// have been handed out by the plan, before and after: what is built gets
    /// a handle that nothing in the mirror has.
    pub fn repatch(&mut self, vnode: VNode, plan: &mut Plan)
        requires
            old(self)@.patchable(vnode),
            old(plan).has_room(old(self)@.patch_handles(vnode)),
            old(self)@.below(*old(plan)),
        ensures
            final(self)@.below(*final(plan)),
            final(self)@ == old(self)@.patched(vnode, old(plan).next_handle as int),
            final(plan).next_handle == old(plan).next_handle + old(self)@.patch_handles(vnode),
            final(plan).effects@ == old(plan).effects@ + old(self)@.patch_effects(
                vnode,
                old(plan).next_handle as int,
            ),
        decreases vnode, 1int,
    {
        proof {
            self@.lemma_patched_handles_within(vnode, plan.next_handle as int);
        }
        match self {
            VState::Object(state) => match vnode {
                VNode::Object(object) => {
                    state.repatch(object, plan);
                },
                VNode::Component(_) => {},
            },
            VState::Component(state) => match vnode {
                VNode::Object(_) => {},
                VNode::Component(spec) => {
                    state.patch(spec, plan);
                },
            },
        }
    }

    /// Counts the handles a patch to `vnode` takes. `None` when they are more
    /// than a handle can number.
    pub fn count_patch_handles(&self, vnode: &VNode) -> (count: Option<u64>)
        ensures
            count matches Some(n) ==> n == self@.patch_handles(*vnode),
            count is None ==> self@.patch_handles(*vnode) > u64::MAX,
        decreases vnode, 1int,
    {
        match self {
            VState::Object(state) => match vnode {
                VNode::Object(object) => state.count_patch_handles(object),
                VNode::Component(_) => Some(0),
            },
            VState::Component(_) => Some(0),
        }
    }

    /// Whether a patch to `vnode` with `plan` goes through: the mirror can be
    /// patched to `vnode`, and the plan has the handles left that the patch
    /// takes.
    pub fn can_patch_within(&self, vnode: &VNode, plan: &Plan) -> (b: bool)
        ensures
            b == (self@.patchable(*vnode) && plan.has_room(self@.patch_handles(*vnode))),
    {
        if !self.can_patch(vnode) {
            return false;
        }
        match self.count_patch_handles(vnode) {
            None => false,
            Some(count) => count <= u64::MAX - plan.next_handle,
        }
    }

    /// Brings the host in line with `vnode`, keeping what can be kept, and
    /// answers `true`. The mirror can be patched to `vnode`: a root of another
    /// kind or type, a window that would lose or gain a chrome slot, a child
    /// without a place are faults of the program. The plan has the handles
    /// that the patch takes, and has handed out those of the mirror. After the
    /// patch the mirror has the shape of `vnode`, and its handles have been
    /// handed out by the plan: what is built gets a handle that nothing in the
    /// mirror has. A patch to a tree of the mirror's own shape keeps every
    /// object, takes no handle, and plans the refresh of each object, its
    /// patch procedure included. The tree is used up: the props it holds go to
    /// the children they are for.
    pub fn patch(&mut self, vnode: VNode, plan: &mut Plan) -> (done: bool)
        requires
            old(self)@.below(*old(plan)),
            old(self)@.patchable(vnode),
            old(plan).has_room(old(self)@.patch_handles(vnode)),
        ensures
            done,
            final(self)@.below(*final(plan)),
            final(self)@ == old(self)@.patched(vnode, old(plan).next_handle as int),
            final(plan).next_handle == old(plan).next_handle + old(self)@.patch_handles(vnode),
            final(plan).effects@ == old(plan).effects@ + old(self)@.patch_effects(
                vnode,
                old(plan).next_handle as int,
            ),
            final(self)@.fits(vnode),
            old(self)@.fits(vnode) ==> {
                &&& final(self)@ == old(self)@
                &&& final(plan).next_handle == old(plan).next_handle
                &&& final(plan).effects@ == old(plan).effects@ + old(self)@.refresh_effects(vnode)
            },
    {
        proof {
            if self@.fits(vnode) {
                self@.lemma_patch_fitting(vnode, plan.next_handle as int);
            }
            self@.lemma_patched_fits(vnode, plan.next_handle as int);
        }
        self.repatch(vnode, plan);
        true
    }

    /// Brings the host in line with `vnode` where that can be done, and says
    /// whether it did: it does nothing at all where the mirror cannot be
    /// patched to `vnode`, or where the plan has fewer handles left than the
    /// patch takes. Where it did, it did what `patch` does. A patch to a tree
    /// of the mirror's own shape is always done. The tree is used up either
    /// way.
    pub fn try_patch(&mut self, vnode: VNode, plan: &mut Plan) -> (done: bool)
        requires
            old(self)@.below(*old(plan)),
        ensures
            final(self)@.below(*final(plan)),
            done == (old(self)@.patchable(vnode) && old(plan).has_room(
                old(self)@.patch_handles(vnode),
            )),
            done ==> final(self)@ == old(self)@.patched(vnode, old(plan).next_handle as int),
            done ==> final(plan).next_handle == old(plan).next_handle + old(self)@.patch_handles(
                vnode,
            ),
            done ==> final(plan).effects@ == old(plan).effects@ + old(self)@.patch_effects(
                vnode,
                old(plan).next_handle as int,
            ),
            done ==> final(self)@.fits(vnode),
            !done ==> *final(self) == *old(self) && *final(plan) == *old(plan),
            old(self)@.fits(vnode) ==> done,
    {
        proof {
            if self@.fits(vnode) {
                self@.lemma_patch_fitting(vnode, plan.next_handle as int);
            }
        }
        if self.can_patch_within(&vnode, plan) {
            self.patch(vnode, plan)
        } else {
            false
        }
    }

    /// Plans the unmounting of this mirror: the children first, then the node
    /// itself.
    pub fn unmount(self, plan: &mut Plan)
        ensures
            final(plan).next_handle == old(plan).next_handle,
            final(plan).effects@ == old(plan).effects@ + self@.unmount_effects(),
    {
        self.retire(plan);
    }

    /// Plans the unmounting of this mirror, which the caller then drops.
    pub fn retire(&self, plan: &mut Plan)
        ensures
            final(plan).next_handle == old(plan).next_handle,
            final(plan).effects@ == old(plan).effects@ + self@.unmount_effects(),
        decreases self, 1int,
    {
        match self {
            VState::Object(state) => state.retire(plan),
            VState::Component(state) => state.unmount(plan),
        }
    }
}

impl Mirror {
    /// The host object at the root of this mirror.
    pub open spec fn root(self) -> HostObject {
        match self {
            Mirror::Object { object, .. } => object,
            Mirror::Component { object, .. } => object,
        }
    }

    // ---------------------------------------------------------------- build

    /// The mirror that a build of `v` leaves, when the first unused handle is
    /// `next`: each node takes the next handle, parents before children,
    /// children in order.
    pub open spec fn built(v: VNode, next: int) -> Mirror
        decreases v,
    {
        match v {
            VNode::Object(o) => Mirror::Object {
                object: HostObject { handle: next as u64, object_type: o.object_type },
                children: Self::built_range(o.children@, 0, o.children@.len() as int, next + 1),
            },
            VNode::Component(c) => Mirror::Component {
                object: HostObject { handle: next as u64, object_type: c.root_type },
                model_type: c.model_type,
            },
        }
    }

    /// The mirrors that a build of `nodes[from..to]` leaves, one after the
    /// other, when the first unused handle is `next`.
    pub open spec fn built_range(nodes: Seq<VNode>, from: int, to: int, next: int) -> Seq<Mirror>
        decreases nodes,
    {
        Seq::new(
            (to - from) as nat,
            |j: int|
                if 0 <= from && 0 <= j && from + j < to && to <= nodes.len() {
                    Self::built(nodes[from + j], next + VNode::handles_range(nodes, from, from + j))
                } else {
                    arbitrary()
                },
        )
    }

    /// The effect that makes the object of node `o` under handle `next`.
    pub open spec fn creation(o: VObject, next: int) -> Effect {
        match o.constructor {
            Some(constructor) => Effect::Construct {
                object: next as u64,
                object_type: o.object_type,
                constructor,
            },
            None => Effect::Instantiate { object: next as u64, object_type: o.object_type },
        }
    }

    /// The effects that bring the root object of `o` into being: it is made,
    /// patched once, and its restorable attributes are recorded.
    pub open spec fn root_effects(o: VObject, next: int) -> Seq<Effect> {
        seq![
            Self::creation(o, next),
            Effect::Patch { object: next as u64, patcher: o.patcher },
            Effect::Snapshot { object: next as u64 },
        ]
    }

    /// The object is shown if it is a widget.
    pub open spec fn show_effects(object: HostObject) -> Seq<Effect> {
        if object.object_type.class.is_widget() {
            seq![Effect::Show { object: object.handle }]
        } else {
            Seq::empty()
        }
    }

    /// The effects of a build of `v`, in order. An object is made, then each
    /// child is built and inserted, then the object is shown. A component is
    /// started.
    pub open spec fn build_effects(v: VNode, next: int) -> Seq<Effect>
        decreases v,
    {
        match v {
            VNode::Object(o) => {
                let object = HostObject { handle: next as u64, object_type: o.object_type };
                Self::root_effects(o, next) + Self::grow_effects(
                    object,
                    o.children@,
                    0,
                    o.children@.len() as int,
                    next + 1,
                    false,
                ) + Self::show_effects(object)
            },
            VNode::Component(c) => seq![
                Effect::Spawn { instance: next as u64, model_type: c.model_type, props: c.props },
            ],
        }
    }

    /// The effects of building `nodes[from..to]` as children of `parent`: each
    /// is built, then inserted at its position among all of `nodes`, then,
    /// where `reveal` is set, shown.
    pub open spec fn grow_effects(
        parent: HostObject,
        nodes: Seq<VNode>,
        from: int,
        to: int,
        next: int,
        reveal: bool,
    ) -> Seq<Effect>
        decreases nodes, to,
    {
        if from < 0 || to <= from || to > nodes.len() {
            Seq::empty()
        } else {
            let at = next + VNode::handles_range(nodes, from, to - 1);
            let child = HostObject { handle: at as u64, object_type: nodes[to - 1].root_type() };
            Self::grow_effects(parent, nodes, from, to - 1, next, reveal) + Self::build_effects(
                nodes[to - 1],
                at,
            ) + seq![
                Effect::Attach {
                    parent: parent.handle,
                    child: child.handle,
                    placement: placement(
                        parent.object_type.class,
                        child.object_type.class,
                        to - 1,
                        nodes.len() as int,
                    )->Some_0,
                },
            ] + (if reveal {
                Self::show_effects(child)
            } else {
                Seq::empty()
            })
        }
    }

    /// The effects of building `node` as a child of `parent` under the handle
    /// `at`: it is built, then inserted as child number `i` of `total`, then,
    /// where `reveal` is set, shown.
    pub open spec fn insert_effects(
        parent: HostObject,
        node: VNode,
        i: int,
        total: int,
        at: int,
        reveal: bool,
    ) -> Seq<Effect> {
        let child = HostObject { handle: at as u64, object_type: node.root_type() };
        Self::build_effects(node, at) + seq![
            Effect::Attach {
                parent: parent.handle,
                child: child.handle,
                placement: placement(
                    parent.object_type.class,
                    child.object_type.class,
                    i,
                    total,
                )->Some_0,
            },
        ] + (if reveal {
            Self::show_effects(child)
        } else {
            Seq::empty()
        })
    }

    /// Rows of effects put one after the other can be taken together either
    /// way.
    pub proof fn lemma_concat_assoc(a: Seq<Effect>, b: Seq<Effect>, c: Seq<Effect>)
        ensures
            (a + b) + c == a + (b + c),
    {
        assert((a + b) + c =~= a + (b + c));
    }

    /// The effects of building one more child come behind those of building
    /// the children before it.
    pub proof fn lemma_grow_step(
        prefix: Seq<Effect>,
        parent: HostObject,
        nodes: Seq<VNode>,
        from: int,
        i: int,
        next: int,
        reveal: bool,
    )
        requires
            0 <= from <= i < nodes.len(),
        ensures
            prefix + Self::grow_effects(parent, nodes, from, i + 1, next, reveal) == prefix
                + Self::grow_effects(parent, nodes, from, i, next, reveal) + Self::insert_effects(
                parent,
                nodes[i],
                i,
                nodes.len() as int,
                next + VNode::handles_range(nodes, from, i),
                reveal,
            ),
    {
        let at = next + VNode::handles_range(nodes, from, i);
        let child = HostObject { handle: at as u64, object_type: nodes[i].root_type() };
        let before = Self::grow_effects(parent, nodes, from, i, next, reveal);
        let built = Self::build_effects(nodes[i], at);
        let attached = seq![
            Effect::Attach {
                parent: parent.handle,
                child: child.handle,
                placement: placement(
                    parent.object_type.class,
                    child.object_type.class,
                    i,
                    nodes.len() as int,
                )->Some_0,
            },
        ];
        let shown = if reveal {
            Self::show_effects(child)
        } else {
            Seq::<Effect>::empty()
        };
        let one = Self::insert_effects(parent, nodes[i], i, nodes.len() as int, at, reveal);
        let grown = Self::grow_effects(parent, nodes, from, i + 1, next, reveal);
        assert(grown == before + built + attached + shown);
        assert(one == built + attached + shown);
        Self::lemma_concat_assoc(before, built, attached);
        Self::lemma_concat_assoc(before, built + attached, shown);
        assert(grown == before + one);
        Self::lemma_concat_assoc(prefix, before, one);
    }

    /// The mirror of one more child comes behind those of the children before
    /// it.
    pub proof fn lemma_built_range_step(
        prefix: Seq<Mirror>,
        nodes: Seq<VNode>,
        from: int,
        i: int,
        next: int,
    )
        requires
            0 <= from <= i < nodes.len(),
        ensures
            prefix + Self::built_range(nodes, from, i + 1, next) == (prefix + Self::built_range(
                nodes,
                from,
                i,
                next,
            )).push(Self::built(nodes[i], next + VNode::handles_range(nodes, from, i))),
    {
        let one = Self::built(nodes[i], next + VNode::handles_range(nodes, from, i));
        assert(Self::built_range(nodes, from, i + 1, next) =~= Self::built_range(
            nodes,
            from,
            i,
            next,
        ).push(one));
        assert(prefix + Self::built_range(nodes, from, i, next).push(one) =~= (prefix
            + Self::built_range(nodes, from, i, next)).push(one));
    }

    /// Whether `nodes[from..to]` can be built as children of a parent of class
    /// `parent`: the toolkit has a place for each, and each can be built.
    pub open spec fn placeable(parent: HostClass, nodes: Seq<VNode>, from: int, to: int) -> bool
        decreases nodes,
    {
        forall|i: int|
            #![trigger nodes[i]]
            0 <= from <= i < to <= nodes.len() ==> placement(
                parent,
                nodes[i].root_type().class,
                i,
                nodes.len() as int,
            ) is Some && Self::buildable(nodes[i])
    }

    /// Whether `v` can be built: the toolkit has a place for every child in
    /// its parent, all the way down.
    pub open spec fn buildable(v: VNode) -> bool
        decreases v,
    {
        match v {
            VNode::Object(o) => Self::placeable(
                o.object_type.class,
                o.children@,
                0,
                o.children@.len() as int,
            ),
            VNode::Component(_) => true,
        }
    }

    // -------------------------------------------------------------- unmount

    /// The effects of unmounting this mirror: the children first, in order,
    /// then the node itself. An object is released; a child component is told
    /// to unmount.
    pub open spec fn unmount_effects(self) -> Seq<Effect>
        decreases self,
    {
        match self {
            Mirror::Object { object, children } => Self::unmount_range(
                children,
                0,
                children.len() as int,
            ) + seq![Effect::Release { object: object.handle }],
            Mirror::Component { object, .. } => seq![Effect::Unmount { instance: object.handle }],
        }
    }

    /// The effects of unmounting `mirrors[from..to]`, one after the other.
    pub open spec fn unmount_range(mirrors: Seq<Mirror>, from: int, to: int) -> Seq<Effect>
        decreases mirrors, to,
    {
        if from < 0 || to <= from || to > mirrors.len() {
            Seq::empty()
        } else {
            Self::unmount_range(mirrors, from, to - 1) + mirrors[to - 1].unmount_effects()
        }
    }

    /// The effects of taking `mirrors[from..to]` out of `parent`, whose
    /// children are all of `mirrors`: each is detached from the slot it holds,
    /// then unmounted.
    pub open spec fn shrink_effects(parent: HostObject, mirrors: Seq<Mirror>, from: int, to: int) -> Seq<
        Effect,
    >
        decreases to,
    {
        if from < 0 || to <= from || to > mirrors.len() {
            Seq::empty()
        } else {
            Self::shrink_effects(parent, mirrors, from, to - 1) + seq![
                Effect::Detach {
                    parent: parent.handle,
                    child: mirrors[to - 1].root().handle,
                    removal: removal(
                        parent.object_type.class,
                        mirrors[to - 1].root().object_type.class,
                        to - 1,
                        mirrors.len() as int,
                    )->Some_0,
                },
            ] + mirrors[to - 1].unmount_effects()
        }
    }

    /// Whether the toolkit has a way to take each of `mirrors[from..to]` out of
    /// a parent of class `parent`.
    pub open spec fn removable(parent: HostClass, mirrors: Seq<Mirror>, from: int, to: int) -> bool {
        forall|i: int|
            #![trigger mirrors[i]]
            0 <= from <= i < to <= mirrors.len() ==> removal(
                parent,
                mirrors[i].root().object_type.class,
                i,
                mirrors.len() as int,
            ) is Some
    }

    /// Taking out a range of children depends on the mirrors in that range
    /// only.
    pub proof fn lemma_shrink_agrees(
        parent: HostObject,
        a: Seq<Mirror>,
        b: Seq<Mirror>,
        from: int,
        to: int,
    )
        requires
            a.len() == b.len(),
            forall|j: int| from <= j < to ==> #[trigger] a[j] == b[j],
        ensures
            Self::shrink_effects(parent, a, from, to) == Self::shrink_effects(parent, b, from, to),
        decreases to,
    {
        if !(from < 0 || to <= from || to > a.len()) {
            Self::lemma_shrink_agrees(parent, a, b, from, to - 1);
            assert(a[to - 1] == b[to - 1]);
        }
    }

    /// Whether a range of children can be taken out depends on the mirrors in
    /// that range only.
    pub proof fn lemma_removable_agrees(
        parent: HostClass,
        a: Seq<Mirror>,
        b: Seq<Mirror>,
        from: int,
        to: int,
    )
        requires
            a.len() == b.len(),
            forall|j: int| from <= j < to ==> #[trigger] a[j] == b[j],
        ensures
            Self::removable(parent, a, from, to) == Self::removable(parent, b, from, to),
    {
        if Self::removable(parent, a, from, to) {
            assert forall|i: int| 0 <= from <= i < to <= b.len() implies removal(
                parent,
                (#[trigger] b[i]).root().object_type.class,
                i,
                b.len() as int,
            ) is Some by {
                assert(a[i] == b[i]);
            }
        }
        if Self::removable(parent, b, from, to) {
            assert forall|i: int| 0 <= from <= i < to <= a.len() implies removal(
                parent,
                (#[trigger] a[i]).root().object_type.class,
                i,
                a.len() as int,
            ) is Some by {
                assert(a[i] == b[i]);
            }
        }
    }

    // ---------------------------------------------------------------- patch

    /// Whether this mirror can be kept for node `v`: both are objects of one
    /// runtime type, or both are components of one model type.
    pub open spec fn compatible(self, v: VNode) -> bool {
        match (self, v) {
            (Mirror::Object { object, .. }, VNode::Object(o)) => object.object_type
                == o.object_type,
            (Mirror::Component { model_type, .. }, VNode::Component(c)) => model_type
                == c.model_type,
            _ => false,
        }
    }

    /// The first position at or after `i` where `mirrors` and `nodes` stop
    /// matching: one of them ends, or the mirror there cannot be kept.
    pub open spec fn shared_from(mirrors: Seq<Mirror>, nodes: Seq<VNode>, i: int) -> int
        decreases mirrors.len() - i,
    {
        if i < 0 || i >= mirrors.len() || i >= nodes.len() || !mirrors[i].compatible(nodes[i]) {
            i
        } else {
            Self::shared_from(mirrors, nodes, i + 1)
        }
    }

    /// How many leading children are kept and patched in place.
    pub open spec fn shared(mirrors: Seq<Mirror>, nodes: Seq<VNode>) -> int {
        Self::shared_from(mirrors, nodes, 0)
    }

    /// What the number of kept children means: it is within both rows, every
    /// position before it matches, and if both rows go on, the position itself
    /// does not.
    pub proof fn lemma_shared(mirrors: Seq<Mirror>, nodes: Seq<VNode>)
        ensures
            0 <= Self::shared(mirrors, nodes) <= mirrors.len(),
            Self::shared(mirrors, nodes) <= nodes.len(),
            forall|i: int|
                0 <= i < Self::shared(mirrors, nodes) ==> (#[trigger] mirrors[i]).compatible(
                    nodes[i],
                ),
            Self::shared(mirrors, nodes) < mirrors.len() && Self::shared(mirrors, nodes)
                < nodes.len() ==> !mirrors[Self::shared(mirrors, nodes)].compatible(
                nodes[Self::shared(mirrors, nodes)],
            ),
    {
        Self::lemma_shared_from(mirrors, nodes, 0);
    }

    /// The same, for a scan that starts at `i`.
    pub proof fn lemma_shared_from(mirrors: Seq<Mirror>, nodes: Seq<VNode>, i: int)
        requires
            0 <= i <= mirrors.len(),
            i <= nodes.len(),
        ensures
            i <= Self::shared_from(mirrors, nodes, i) <= mirrors.len(),
            Self::shared_from(mirrors, nodes, i) <= nodes.len(),
            forall|j: int|
                i <= j < Self::shared_from(mirrors, nodes, i) ==> (#[trigger] mirrors[j]).compatible(
                    nodes[j],
                ),
            Self::shared_from(mirrors, nodes, i) < mirrors.len() && Self::shared_from(
                mirrors,
                nodes,
                i,
            ) < nodes.len() ==> !mirrors[Self::shared_from(mirrors, nodes, i)].compatible(
                nodes[Self::shared_from(mirrors, nodes, i)],
            ),
        decreases mirrors.len() - i,
    {
        if i < mirrors.len() && i < nodes.len() && mirrors[i].compatible(nodes[i]) {
            Self::lemma_shared_from(mirrors, nodes, i + 1);
        }
    }

    /// The cases in which a window may not change its children. A window that
    /// holds chrome and content may not lose the chrome by a rebuild from the
    /// start, nor lose the content and keep the chrome. A window that holds
    /// one child may not go to two, whatever becomes of that child, nor gain
    /// children behind the one it keeps.
    pub open spec fn chrome_at_risk(kept: int, old_len: int, new_len: int) -> bool {
        ||| kept < old_len && kept < new_len && kept == 0 && old_len == 2
        ||| kept < old_len && kept >= new_len && kept == 1 && old_len == 2
        ||| kept == old_len && kept < new_len && old_len == 1
        ||| old_len == 1 && new_len == 2
    }

    /// How many handles a patch of this mirror to `v` takes.
    pub open spec fn patch_handles(self, v: VNode) -> nat
        decreases v,
    {
        match (self, v) {
            (Mirror::Object { object, children }, VNode::Object(o)) if self.compatible(v) => {
                let kept = Self::shared(children, o.children@);
                Self::patch_handles_upto(children, o.children@, kept) + VNode::handles_range(
                    o.children@,
                    kept,
                    o.children@.len() as int,
                )
            },
            _ => 0,
        }
    }

    /// How many handles the patches of the first `n` children take.
    pub open spec fn patch_handles_upto(mirrors: Seq<Mirror>, nodes: Seq<VNode>, n: int) -> nat
        decreases nodes, n,
    {
        if n <= 0 || n > nodes.len() || n > mirrors.len() {
            0
        } else {
            Self::patch_handles_upto(mirrors, nodes, n - 1) + mirrors[n - 1].patch_handles(
                nodes[n - 1],
            )
        }
    }

    /// A patch never takes more handles than the new tree has nodes below its
    /// root.
    pub proof fn lemma_patch_handles_bound(self, v: VNode)
        ensures
            self.patch_handles(v) < v.handles(),
        decreases v,
    {
        match (self, v) {
            (Mirror::Object { object, children }, VNode::Object(o)) => {
                if self.compatible(v) {
                    let kept = Self::shared(children, o.children@);
                    Self::lemma_shared(children, o.children@);
                    Self::lemma_patch_handles_upto_bound(children, o.children@, kept);
                    VNode::lemma_handles_range_split(
                        o.children@,
                        0,
                        kept,
                        o.children@.len() as int,
                    );
                }
            },
            _ => {},
        }
    }

    /// The patches of the first `n` children take no more handles than a build
    /// of the first `n` new children would.
    pub proof fn lemma_patch_handles_upto_bound(mirrors: Seq<Mirror>, nodes: Seq<VNode>, n: int)
        requires
            0 <= n <= nodes.len(),
            n <= mirrors.len(),
        ensures
            Self::patch_handles_upto(mirrors, nodes, n) <= VNode::handles_range(nodes, 0, n),
        decreases nodes, n,
    {
        if n > 0 {
            Self::lemma_patch_handles_upto_bound(mirrors, nodes, n - 1);
            mirrors[n - 1].lemma_patch_handles_bound(nodes[n - 1]);
        }
    }

    /// The patches of more children take at least as many handles.
    pub proof fn lemma_patch_handles_upto_monotone(
        mirrors: Seq<Mirror>,
        nodes: Seq<VNode>,
        m: int,
        n: int,
    )
        requires
            0 <= m <= n <= nodes.len(),
            n <= mirrors.len(),
        ensures
            Self::patch_handles_upto(mirrors, nodes, m) <= Self::patch_handles_upto(
                mirrors,
                nodes,
                n,
            ),
        decreases n - m,
    {
        if m < n {
            Self::lemma_patch_handles_upto_monotone(mirrors, nodes, m, n - 1);
        }
    }

    /// The mirror that a patch to `v` leaves, when the first unused handle is
    /// `next`. The leading children that can be kept are patched in place;
    /// from the first that cannot, the children are those of a fresh build. A
    /// child component stays as it is, and so does a mirror that cannot be kept
    /// for `v`.
    pub open spec fn patched(self, v: VNode, next: int) -> Mirror
        decreases v,
    {
        match (self, v) {
            (Mirror::Object { object, children }, VNode::Object(o)) if self.compatible(v) => {
                let kept = Self::shared(children, o.children@);
                Mirror::Object {
                    object,
                    children: Self::patched_upto(children, o.children@, kept, next)
                        + Self::built_range(
                        o.children@,
                        kept,
                        o.children@.len() as int,
                        next + Self::patch_handles_upto(children, o.children@, kept),
                    ),
                }
            },
            _ => self,
        }
    }

    /// The mirrors that the patches of the first `n` children leave.
    pub open spec fn patched_upto(mirrors: Seq<Mirror>, nodes: Seq<VNode>, n: int, next: int) -> Seq<
        Mirror,
    >
        decreases nodes,
    {
        Seq::new(
            n as nat,
            |j: int|
                if 0 <= j < n && n <= nodes.len() && n <= mirrors.len() {
                    mirrors[j].patched(
                        nodes[j],
                        next + Self::patch_handles_upto(mirrors, nodes, j),
                    )
                } else {
                    arbitrary()
                },
        )
    }

    /// The effects of a patch to `v`, in order: the kept children are patched;
    /// the children from the first that cannot be kept are detached and
    /// unmounted; the new children from that position are built, inserted and
    /// shown; then the object's recorded attributes are written back, its
    /// handlers are disconnected and its patch procedure runs again. A child
    /// component is handed the new props. Nothing happens to a mirror that
    /// cannot be kept for `v`.
    pub open spec fn patch_effects(self, v: VNode, next: int) -> Seq<Effect>
        decreases v,
    {
        match (self, v) {
            (Mirror::Object { object, children }, VNode::Object(o)) if self.compatible(v) => {
                let kept = Self::shared(children, o.children@);
                Self::patch_effects_upto(children, o.children@, kept, next) + Self::shrink_effects(
                    object,
                    children,
                    kept,
                    children.len() as int,
                ) + Self::grow_effects(
                    object,
                    o.children@,
                    kept,
                    o.children@.len() as int,
                    next + Self::patch_handles_upto(children, o.children@, kept),
                    true,
                ) + Self::repatch_effects(object, o)
            },
            (Mirror::Component { object, .. }, VNode::Component(c)) if self.compatible(v) => seq![
                Effect::ForwardProps { instance: object.handle, props: c.props },
            ],
            _ => Seq::empty(),
        }
    }

    /// What a patch of an object that is kept for its node is made of, with
    /// `kept` the number of children kept: the handles are those of the
    /// patches of the kept children and of the build of the others, the
    /// children are the patched ones followed by the built ones, and the
    /// effects are the four parts in their order.
    pub proof fn lemma_patch_parts(object: HostObject, children: Seq<Mirror>, o: VObject, next: int)
        requires
            object.object_type == o.object_type,
        ensures
            ({
                let before = Mirror::Object { object, children };
                let node = VNode::Object(o);
                let nodes = o.children@;
                let kept = Self::shared(children, nodes);
                let base = next + Self::patch_handles_upto(children, nodes, kept);
                &&& before.patch_handles(node) == Self::patch_handles_upto(children, nodes, kept)
                    + VNode::handles_range(nodes, kept, nodes.len() as int)
                &&& before.patched(node, next) == (Mirror::Object {
                    object,
                    children: Self::patched_upto(children, nodes, kept, next) + Self::built_range(
                        nodes,
                        kept,
                        nodes.len() as int,
                        base,
                    ),
                })
                &&& before.patch_effects(node, next) == Self::patch_effects_upto(
                    children,
                    nodes,
                    kept,
                    next,
                ) + Self::shrink_effects(object, children, kept, children.len() as int)
                    + Self::grow_effects(object, nodes, kept, nodes.len() as int, base, true)
                    + Self::repatch_effects(object, o)
            }),
    {
        let before = Mirror::Object { object, children };
        assert(before.compatible(VNode::Object(o)));
    }

    /// Four rows of effects behind a first one can be taken together.
    pub proof fn lemma_behind(
        first: Seq<Effect>,
        a: Seq<Effect>,
        b: Seq<Effect>,
        c: Seq<Effect>,
        d: Seq<Effect>,
    )
        ensures
            first + a + b + c + d == first + (a + b + c + d),
    {
        Self::lemma_concat_assoc(first, a, b);
        Self::lemma_concat_assoc(first, a + b, c);
        Self::lemma_concat_assoc(first, a + b + c, d);
    }

    /// The effects that bring a kept object up to date once its children are
    /// settled.
    pub open spec fn repatch_effects(object: HostObject, o: VObject) -> Seq<Effect> {
        seq![
            Effect::Restore { object: object.handle },
            Effect::DetachHandlers { object: object.handle },
            Effect::Patch { object: object.handle, patcher: o.patcher },
        ]
    }

    /// The effects of the patches of the first `n` children.
    pub open spec fn patch_effects_upto(
        mirrors: Seq<Mirror>,
        nodes: Seq<VNode>,
        n: int,
        next: int,
    ) -> Seq<Effect>
        decreases nodes, n,
    {
        if n <= 0 || n > nodes.len() || n > mirrors.len() {
            Seq::empty()
        } else {
            Self::patch_effects_upto(mirrors, nodes, n - 1, next) + mirrors[n - 1].patch_effects(
                nodes[n - 1],
                next + Self::patch_handles_upto(mirrors, nodes, n - 1),
            )
        }
    }

    /// Whether this mirror can be patched to `v`. The root must be kept: a
    /// change of kind or type there is never a rebuild. Below it, every kept
    /// child can be patched, no window loses or gains a chrome slot, and the
    /// toolkit has a way to take out each child that leaves and a place for
    /// each child that comes.
    pub open spec fn patchable(self, v: VNode) -> bool
        decreases v,
    {
        &&& self.compatible(v)
        &&& match (self, v) {
            (Mirror::Object { object, children }, VNode::Object(o)) => {
                let kept = Self::shared(children, o.children@);
                &&& forall|i: int|
                    #![trigger children[i]]
                    0 <= i < kept && kept <= o.children@.len() ==> children[i].patchable(
                        o.children@[i],
                    )
                &&& !(object.object_type.class is WindowLike && Self::chrome_at_risk(
                    kept,
                    children.len() as int,
                    o.children@.len() as int,
                ))
                &&& Self::removable(
                    object.object_type.class,
                    children,
                    kept,
                    children.len() as int,
                )
                &&& Self::placeable(
                    object.object_type.class,
                    o.children@,
                    kept,
                    o.children@.len() as int,
                )
            },
            _ => true,
        }
    }
}

} // verus!
