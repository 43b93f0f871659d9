//! What a patch keeps: the host objects that stay the same through a render.

use vstd::prelude::*;

use crate::reactive::host::{Effect, HostObject, Plan};
use crate::reactive::vnode::vobject::VObject;
use crate::reactive::vnode::VNode;
use crate::reactive::vstate::Mirror;

verus! {

impl Effect {
    /// Whether this effect leaves the set of host objects and their places as
    /// they are: it only brings an object up to date, or hands props on.
    pub open spec fn keeps_structure(self) -> bool {
        self is Restore || self is DetachHandlers || self is Patch || self is ForwardProps
    }
}

/// Whether every effect of `effects` leaves the structure of the host as it is.
pub open spec fn all_keep_structure(effects: Seq<Effect>) -> bool {
    forall|i: int| 0 <= i < effects.len() ==> (#[trigger] effects[i]).keeps_structure()
}

/// Two rows of effects that leave the structure as it is do so together.
pub proof fn lemma_all_keep_structure_concat(a: Seq<Effect>, b: Seq<Effect>)
    requires
        all_keep_structure(a),
        all_keep_structure(b),
    ensures
        all_keep_structure(a + b),
{
    assert forall|i: int| 0 <= i < (a + b).len() implies (#[trigger] (a + b)[i]).keeps_structure() by {
        if i < a.len() {
            assert((a + b)[i] == a[i]);
        } else {
            assert((a + b)[i] == b[i - a.len()]);
        }
    }
}

impl Effect {
    /// Whether this effect brings a host object or a child component into
    /// being.
    pub open spec fn creates(self) -> bool {
        self is Instantiate || self is Construct || self is Spawn
    }
}

/// The test for effects that bring something into being.
pub open spec fn creating() -> spec_fn(Effect) -> bool {
    |effect: Effect| effect.creates()
}

/// The test for effects that run a patch procedure.
pub open spec fn patching() -> spec_fn(Effect) -> bool {
    |effect: Effect| effect is Patch
}

/// The test for effects that take a child out of its parent.
pub open spec fn detaching() -> spec_fn(Effect) -> bool {
    |effect: Effect| effect is Detach
}

/// How many of `effects` pass the test `wanted`.
pub open spec fn tally(effects: Seq<Effect>, wanted: spec_fn(Effect) -> bool) -> nat
    decreases effects.len(),
{
    if effects.len() == 0 {
        0
    } else {
        tally(effects.drop_last(), wanted) + if wanted(effects.last()) {
            1nat
        } else {
            0nat
        }
    }
}

/// The tally of two rows, one after the other, is the sum of their tallies.
pub proof fn lemma_tally_concat(a: Seq<Effect>, b: Seq<Effect>, wanted: spec_fn(Effect) -> bool)
    ensures
        tally(a + b, wanted) == tally(a, wanted) + tally(b, wanted),
    decreases b.len(),
{
    if b.len() == 0 {
        assert(a + b =~= a);
    } else {
        assert((a + b).drop_last() =~= a + b.drop_last());
        lemma_tally_concat(a, b.drop_last(), wanted);
    }
}

/// The tally of a single effect.
pub proof fn lemma_tally_one(effect: Effect, wanted: spec_fn(Effect) -> bool)
    ensures
        tally(seq![effect], wanted) == if wanted(effect) {
            1nat
        } else {
            0nat
        },
{
    assert(seq![effect].drop_last() =~= Seq::<Effect>::empty());
    assert(tally(Seq::<Effect>::empty(), wanted) == 0);
}

/// Effects that leave the structure as it is create nothing and detach
/// nothing.
pub proof fn lemma_tally_kept(effects: Seq<Effect>)
    requires
        all_keep_structure(effects),
    ensures
        tally(effects, creating()) == 0,
        tally(effects, detaching()) == 0,
    decreases effects.len(),
{
    if effects.len() > 0 {
        assert(effects.last().keeps_structure());
        assert forall|i: int| 0 <= i < effects.drop_last().len() implies (
        #[trigger] effects.drop_last()[i]).keeps_structure() by {
            assert(effects.drop_last()[i] == effects[i]);
        }
        lemma_tally_kept(effects.drop_last());
    }
}

impl Mirror {
    /// A build creates one object or component for each node of the tree, and
    /// detaches nothing.
    pub proof fn lemma_build_tally(v: VNode, next: int)
        ensures
            tally(Self::build_effects(v, next), creating()) == v.handles(),
            tally(Self::build_effects(v, next), detaching()) == 0,
        decreases v, 1int,
    {
        match v {
            VNode::Object(o) => {
                let object = HostObject { handle: next as u64, object_type: o.object_type };
                let len = o.children@.len() as int;
                let root = Self::root_effects(o, next);
                let grown = Self::grow_effects(object, o.children@, 0, len, next + 1, false);
                let shown = Self::show_effects(object);
                Self::lemma_grow_tally(object, o.children@, 0, len, next + 1, false);
                Self::lemma_show_tally(object);
                assert(tally(root, creating()) == 1 && tally(root, detaching()) == 0) by {
                    let made = seq![Self::creation(o, next)];
                    let patched = seq![Effect::Patch { object: next as u64, patcher: o.patcher }];
                    let recorded = seq![Effect::Snapshot { object: next as u64 }];
                    assert(root =~= made + patched + recorded);
                    lemma_tally_one(made[0], creating());
                    lemma_tally_one(patched[0], creating());
                    lemma_tally_one(recorded[0], creating());
                    lemma_tally_one(made[0], detaching());
                    lemma_tally_one(patched[0], detaching());
                    lemma_tally_one(recorded[0], detaching());
                    lemma_tally_concat(made, patched, creating());
                    lemma_tally_concat(made + patched, recorded, creating());
                    lemma_tally_concat(made, patched, detaching());
                    lemma_tally_concat(made + patched, recorded, detaching());
                }
                lemma_tally_concat(root, grown, creating());
                lemma_tally_concat(root + grown, shown, creating());
                lemma_tally_concat(root, grown, detaching());
                lemma_tally_concat(root + grown, shown, detaching());
            },
            VNode::Component(c) => {
                let spawned = Effect::Spawn {
                    instance: next as u64,
                    model_type: c.model_type,
                    props: c.props,
                };
                lemma_tally_one(spawned, creating());
                lemma_tally_one(spawned, detaching());
            },
        }
    }

    /// Showing an object creates nothing and detaches nothing.
    pub proof fn lemma_show_tally(object: HostObject)
        ensures
            tally(Self::show_effects(object), creating()) == 0,
            tally(Self::show_effects(object), detaching()) == 0,
    {
        if object.object_type.class.is_widget() {
            lemma_tally_one(Effect::Show { object: object.handle }, creating());
            lemma_tally_one(Effect::Show { object: object.handle }, detaching());
        }
    }

    /// Building a row of children creates one object or component for each
    /// node of their trees, and detaches nothing.
    pub proof fn lemma_grow_tally(
        parent: HostObject,
        nodes: Seq<VNode>,
        from: int,
        to: int,
        next: int,
        reveal: bool,
    )
        ensures
            tally(Self::grow_effects(parent, nodes, from, to, next, reveal), creating())
                == VNode::handles_range(nodes, from, to),
            tally(Self::grow_effects(parent, nodes, from, to, next, reveal), detaching()) == 0,
        decreases nodes, to,
    {
        if !(from < 0 || to <= from || to > nodes.len()) {
            let at = next + VNode::handles_range(nodes, from, to - 1);
            let child = HostObject { handle: at as u64, object_type: nodes[to - 1].root_type() };
            let before = Self::grow_effects(parent, nodes, from, to - 1, next, reveal);
            let built = Self::build_effects(nodes[to - 1], at);
            let attach = Effect::Attach {
                parent: parent.handle,
                child: child.handle,
                placement: crate::reactive::host::placement(
                    parent.object_type.class,
                    child.object_type.class,
                    to - 1,
                    nodes.len() as int,
                )->Some_0,
            };
            let shown = if reveal {
                Self::show_effects(child)
            } else {
                Seq::<Effect>::empty()
            };
            Self::lemma_grow_tally(parent, nodes, from, to - 1, next, reveal);
            Self::lemma_build_tally(nodes[to - 1], at);
            Self::lemma_show_tally(child);
            lemma_tally_one(attach, creating());
            lemma_tally_one(attach, detaching());
            lemma_tally_concat(before, built, creating());
            lemma_tally_concat(before + built, seq![attach], creating());
            lemma_tally_concat(before + built + seq![attach], shown, creating());
            lemma_tally_concat(before, built, detaching());
            lemma_tally_concat(before + built, seq![attach], detaching());
            lemma_tally_concat(before + built + seq![attach], shown, detaching());
        }
    }

    /// An unmount creates nothing and detaches nothing.
    pub proof fn lemma_unmount_tally(self)
        ensures
            tally(self.unmount_effects(), creating()) == 0,
            tally(self.unmount_effects(), detaching()) == 0,
        decreases self,
    {
        match self {
            Mirror::Object { object, children } => {
                let below = Self::unmount_range(children, 0, children.len() as int);
                let released = Effect::Release { object: object.handle };
                Self::lemma_unmount_range_tally(children, 0, children.len() as int);
                lemma_tally_one(released, creating());
                lemma_tally_one(released, detaching());
                lemma_tally_concat(below, seq![released], creating());
                lemma_tally_concat(below, seq![released], detaching());
            },
            Mirror::Component { object, .. } => {
                lemma_tally_one(Effect::Unmount { instance: object.handle }, creating());
                lemma_tally_one(Effect::Unmount { instance: object.handle }, detaching());
            },
        }
    }

    /// The same, for a row of mirrors.
    pub proof fn lemma_unmount_range_tally(mirrors: Seq<Mirror>, from: int, to: int)
        ensures
            tally(Self::unmount_range(mirrors, from, to), creating()) == 0,
            tally(Self::unmount_range(mirrors, from, to), detaching()) == 0,
        decreases mirrors, to,
    {
        if !(from < 0 || to <= from || to > mirrors.len()) {
            Self::lemma_unmount_range_tally(mirrors, from, to - 1);
            mirrors[to - 1].lemma_unmount_tally();
            lemma_tally_concat(
                Self::unmount_range(mirrors, from, to - 1),
                mirrors[to - 1].unmount_effects(),
                creating(),
            );
            lemma_tally_concat(
                Self::unmount_range(mirrors, from, to - 1),
                mirrors[to - 1].unmount_effects(),
                detaching(),
            );
        }
    }

    /// Taking children out detaches each of them once and creates nothing.
    pub proof fn lemma_shrink_tally(parent: HostObject, mirrors: Seq<Mirror>, from: int, to: int)
        requires
            0 <= from <= to <= mirrors.len(),
        ensures
            tally(Self::shrink_effects(parent, mirrors, from, to), detaching()) == to - from,
            tally(Self::shrink_effects(parent, mirrors, from, to), creating()) == 0,
        decreases to,
    {
        if from < to {
            let before = Self::shrink_effects(parent, mirrors, from, to - 1);
            let detach = Effect::Detach {
                parent: parent.handle,
                child: mirrors[to - 1].root().handle,
                removal: crate::reactive::host::removal(
                    parent.object_type.class,
                    mirrors[to - 1].root().object_type.class,
                    to - 1,
                    mirrors.len() as int,
                )->Some_0,
            };
            let gone = mirrors[to - 1].unmount_effects();
            Self::lemma_shrink_tally(parent, mirrors, from, to - 1);
            mirrors[to - 1].lemma_unmount_tally();
            lemma_tally_one(detach, creating());
            lemma_tally_one(detach, detaching());
            lemma_tally_concat(before, seq![detach], creating());
            lemma_tally_concat(before + seq![detach], gone, creating());
            lemma_tally_concat(before, seq![detach], detaching());
            lemma_tally_concat(before + seq![detach], gone, detaching());
        }
    }

    /// Whether this mirror has the shape of `v`: the same kind and type at
    /// the root, as many children, and each child of the shape of its node.
    pub open spec fn fits(self, v: VNode) -> bool
        decreases v,
    {
        &&& self.compatible(v)
        &&& match (self, v) {
            (Mirror::Object { object, children }, VNode::Object(o)) => {
                &&& children.len() == o.children@.len()
                &&& forall|i: int|
                    #![trigger children[i]]
                    0 <= i < children.len() ==> children[i].fits(o.children@[i])
            },
            _ => true,
        }
    }

    /// The effects that bring a mirror of the shape of `v` up to date without
    /// touching its structure: for each object, its children first, then the
    /// object is restored, its handlers are disconnected and its patch
    /// procedure runs; each child component is handed its props.
    pub open spec fn refresh_effects(self, v: VNode) -> Seq<Effect>
        decreases v,
    {
        match (self, v) {
            (Mirror::Object { object, children }, VNode::Object(o)) => Self::refresh_upto(
                children,
                o.children@,
                o.children@.len() as int,
            ) + Self::repatch_effects(object, o),
            (Mirror::Component { object, .. }, VNode::Component(c)) => seq![
                Effect::ForwardProps { instance: object.handle, props: c.props },
            ],
            _ => Seq::empty(),
        }
    }

    /// The refresh effects of the first `n` children.
    pub open spec fn refresh_upto(mirrors: Seq<Mirror>, nodes: Seq<VNode>, n: int) -> Seq<Effect>
        decreases nodes, n,
    {
        if n <= 0 || n > nodes.len() || n > mirrors.len() {
            Seq::empty()
        } else {
            Self::refresh_upto(mirrors, nodes, n - 1) + mirrors[n - 1].refresh_effects(
                nodes[n - 1],
            )
        }
    }

    /// The number of kept children is `k` as soon as the first `k` positions
    /// match and position `k` does not, or one of the rows ends there.
    pub proof fn lemma_shared_is(mirrors: Seq<Mirror>, nodes: Seq<VNode>, k: int)
        requires
            0 <= k <= mirrors.len(),
            k <= nodes.len(),
            forall|j: int| 0 <= j < k ==> (#[trigger] mirrors[j]).compatible(nodes[j]),
            k == mirrors.len() || k == nodes.len() || !mirrors[k].compatible(nodes[k]),
        ensures
            Self::shared(mirrors, nodes) == k,
    {
        Self::lemma_shared(mirrors, nodes);
        let s = Self::shared(mirrors, nodes);
        if s < k {
            assert(mirrors[s].compatible(nodes[s]));
        } else if s > k {
            assert(mirrors[k].compatible(nodes[k]));
        }
    }

    /// Whether every handle in this mirror is at least `low` and below `high`.
    pub open spec fn handles_within(self, low: int, high: int) -> bool
        decreases self,
    {
        &&& low <= self.root().handle < high
        &&& match self {
            Mirror::Object { children, .. } => forall|i: int|
                #![trigger children[i]]
                0 <= i < children.len() ==> children[i].handles_within(low, high),
            Mirror::Component { .. } => true,
        }
    }

    /// Handles that lie in a range lie in every wider range.
    pub proof fn lemma_handles_within_wider(self, low: int, high: int, lower: int, higher: int)
        requires
            self.handles_within(low, high),
            lower <= low,
            high <= higher,
        ensures
            self.handles_within(lower, higher),
        decreases self,
    {
        match self {
            Mirror::Object { children, .. } => {
                assert forall|i: int| 0 <= i < children.len() implies (
                #[trigger] children[i]).handles_within(lower, higher) by {
                    children[i].lemma_handles_within_wider(low, high, lower, higher);
                }
            },
            Mirror::Component { .. } => {},
        }
    }

    /// A build hands out fresh handles only: every object of the new mirror
    /// has a handle from `next` on, below `next` plus the number of nodes. An
    /// object that was there before, with a handle below `next`, is never
    /// taken for a new one.
    pub proof fn lemma_built_handles_fresh(v: VNode, next: int)
        requires
            0 <= next,
            next + v.handles() <= u64::MAX + 1,
        ensures
            Self::built(v, next).root().handle == next,
            Self::built(v, next).handles_within(next, next + v.handles()),
        decreases v,
    {
        match v {
            VNode::Object(o) => {
                let nodes = o.children@;
                let len = nodes.len() as int;
                let children = Self::built_range(nodes, 0, len, next + 1);
                assert forall|i: int| 0 <= i < children.len() implies (
                #[trigger] children[i]).handles_within(next, next + v.handles()) by {
                    let at = next + 1 + VNode::handles_range(nodes, 0, i);
                    VNode::lemma_handles_range_monotone(nodes, 0, i + 1, len);
                    Self::lemma_built_handles_fresh(nodes[i], at);
                    children[i].lemma_handles_within_wider(
                        at,
                        at + nodes[i].handles(),
                        next,
                        next + v.handles(),
                    );
                }
            },
            VNode::Component(_) => {},
        }
    }

    /// Whether every handle in this mirror has been handed out by `plan`: it
    /// lies below the plan's next handle. A mirror and the plan it is patched
    /// with belong together in this way.
    pub open spec fn below(self, plan: Plan) -> bool {
        self.handles_within(0, plan.next_handle as int)
    }

    /// Children that are built below an object whose handles lie below `next`
    /// get handles from `next` on: the grown mirror's handles lie below `next`
    /// plus the number of nodes built.
    pub proof fn lemma_grown_handles_within(
        object: HostObject,
        children: Seq<Mirror>,
        nodes: Seq<VNode>,
        from: int,
        next: int,
    )
        requires
            0 <= from <= nodes.len(),
            0 <= next,
            (Mirror::Object { object, children }).handles_within(0, next),
            next + VNode::handles_range(nodes, from, nodes.len() as int) <= u64::MAX + 1,
        ensures
            (Mirror::Object {
                object,
                children: children + Self::built_range(nodes, from, nodes.len() as int, next),
            }).handles_within(0, next + VNode::handles_range(nodes, from, nodes.len() as int)),
    {
        let len = nodes.len() as int;
        let high = next + VNode::handles_range(nodes, from, len);
        let grown = children + Self::built_range(nodes, from, len, next);
        assert forall|i: int| 0 <= i < grown.len() implies (#[trigger] grown[i]).handles_within(
            0,
            high,
        ) by {
            if i < children.len() {
                assert(grown[i] == children[i]);
                assert((Mirror::Object { object, children })->Object_children[i].handles_within(
                    0,
                    next,
                ));
                children[i].lemma_handles_within_wider(0, next, 0, high);
            } else {
                let k = from + (i - children.len());
                let at = next + VNode::handles_range(nodes, from, k);
                VNode::lemma_handles_range_monotone(nodes, from, k + 1, len);
                Self::lemma_built_handles_fresh(nodes[k], at);
                assert(grown[i] == Self::built(nodes[k], at));
                grown[i].lemma_handles_within_wider(at, at + nodes[k].handles(), 0, high);
            }
        }
    }

    /// A patch hands out fresh handles only: where the handles of the mirror
    /// lie below `next`, those of the patched mirror lie below `next` plus
    /// the number of handles the patch takes. What is kept keeps its handle,
    /// and what is built gets one that nothing had before.
    pub proof fn lemma_patched_handles_within(self, v: VNode, next: int)
        requires
            0 <= next,
            self.handles_within(0, next),
            next + self.patch_handles(v) <= u64::MAX + 1,
        ensures
            self.patched(v, next).handles_within(0, next + self.patch_handles(v)),
        decreases v,
    {
        match (self, v) {
            (Mirror::Object { object, children }, VNode::Object(o)) => {
                if self.compatible(v) {
                    let nodes = o.children@;
                    let len = nodes.len() as int;
                    let kept = Self::shared(children, nodes);
                    Self::lemma_shared(children, nodes);
                    let base = next + Self::patch_handles_upto(children, nodes, kept);
                    let high = next + self.patch_handles(v);
                    let prefix = Self::patched_upto(children, nodes, kept, next);
                    assert forall|i: int| 0 <= i < prefix.len() implies (
                    #[trigger] prefix[i]).handles_within(0, base) by {
                        let at = next + Self::patch_handles_upto(children, nodes, i);
                        Self::lemma_patch_handles_upto_monotone(children, nodes, i + 1, kept);
                        children[i].lemma_handles_within_wider(0, next, 0, at);
                        children[i].lemma_patched_handles_within(nodes[i], at);
                        prefix[i].lemma_handles_within_wider(
                            0,
                            at + children[i].patch_handles(nodes[i]),
                            0,
                            base,
                        );
                    }
                    Self::lemma_grown_handles_within(object, prefix, nodes, kept, base);
                }
            },
            _ => {},
        }
    }

    /// A fresh build has the shape of the tree it was built from.
    pub proof fn lemma_built_fits(v: VNode, next: int)
        ensures
            Self::built(v, next).fits(v),
        decreases v,
    {
        match v {
            VNode::Object(o) => {
                let children = Self::built_range(o.children@, 0, o.children@.len() as int, next + 1);
                assert forall|i: int| 0 <= i < children.len() implies (#[trigger] children[i]).fits(
                    o.children@[i],
                ) by {
                    Self::lemma_built_fits(
                        o.children@[i],
                        next + 1 + VNode::handles_range(o.children@, 0, i),
                    );
                }
            },
            VNode::Component(_) => {},
        }
    }

    /// Children that have the shape of their nodes are patched without a new
    /// handle, stay what they are, and see only their refresh effects.
    pub proof fn lemma_patch_fitting_upto(mirrors: Seq<Mirror>, nodes: Seq<VNode>, n: int, next: int)
        requires
            0 <= n <= mirrors.len(),
            n <= nodes.len(),
            forall|j: int| 0 <= j < n ==> (#[trigger] mirrors[j]).fits(nodes[j]),
        ensures
            Self::patch_handles_upto(mirrors, nodes, n) == 0,
            Self::patched_upto(mirrors, nodes, n, next) == mirrors.subrange(0, n),
            Self::patch_effects_upto(mirrors, nodes, n, next) == Self::refresh_upto(
                mirrors,
                nodes,
                n,
            ),
            forall|j: int| 0 <= j < n ==> (#[trigger] mirrors[j]).patchable(nodes[j]),
        decreases nodes, n,
    {
        if n > 0 {
            Self::lemma_patch_fitting_upto(mirrors, nodes, n - 1, next);
            mirrors[n - 1].lemma_patch_fitting(nodes[n - 1], next);
            assert forall|j: int| 0 <= j < n implies #[trigger] Self::patched_upto(
                mirrors,
                nodes,
                n,
                next,
            )[j] == mirrors.subrange(0, n)[j] by {
                Self::lemma_patch_fitting_upto(mirrors, nodes, j, next);
                mirrors[j].lemma_patch_fitting(nodes[j], next);
            }
            assert(Self::patched_upto(mirrors, nodes, n, next) =~= mirrors.subrange(0, n));
        } else {
            assert(Self::patched_upto(mirrors, nodes, n, next) =~= mirrors.subrange(0, n));
        }
    }

    /// Patching a mirror to a tree of its own shape keeps every host object
    /// and the whole mirror as it is, and takes no handle. Every object is
    /// still brought up to date: its patch procedure runs again.
    pub proof fn lemma_patch_fitting(self, v: VNode, next: int)
        requires
            self.fits(v),
        ensures
            self.patchable(v),
            self.patched(v, next) == self,
            self.patch_handles(v) == 0,
            self.patch_effects(v, next) == self.refresh_effects(v),
        decreases v,
    {
        match (self, v) {
            (Mirror::Object { object, children }, VNode::Object(o)) => {
                let nodes = o.children@;
                let n = nodes.len() as int;
                assert forall|j: int| 0 <= j < n implies (#[trigger] children[j]).compatible(
                    nodes[j],
                ) by {
                    assert(children[j].fits(nodes[j]));
                }
                Self::lemma_shared_is(children, nodes, n);
                Self::lemma_patch_fitting_upto(children, nodes, n, next);
                assert(children.subrange(0, n) =~= children);
                assert(Self::built_range(nodes, n, n, next) =~= Seq::<Mirror>::empty());
                assert(children + Seq::<Mirror>::empty() =~= children);
                assert(Self::refresh_upto(children, nodes, n) + Seq::<Effect>::empty()
                    =~= Self::refresh_upto(children, nodes, n));
            },
            _ => {},
        }
    }

    /// After a patch the mirror has the shape of the tree that was applied:
    /// the same kind and type at every position.
    pub proof fn lemma_patched_fits(self, v: VNode, next: int)
        requires
            self.patchable(v),
        ensures
            self.patched(v, next).fits(v),
        decreases v,
    {
        match (self, v) {
            (Mirror::Object { object, children }, VNode::Object(o)) => {
                let nodes = o.children@;
                let kept = Self::shared(children, nodes);
                Self::lemma_shared(children, nodes);
                let after = self.patched(v, next)->Object_children;
                let base = next + Self::patch_handles_upto(children, nodes, kept);
                assert(after.len() == nodes.len());
                assert forall|i: int| 0 <= i < after.len() implies (#[trigger] after[i]).fits(
                    nodes[i],
                ) by {
                    if i < kept {
                        assert(children[i].patchable(nodes[i]));
                        children[i].lemma_patched_fits(
                            nodes[i],
                            next + Self::patch_handles_upto(children, nodes, i),
                        );
                        assert(after[i] == Self::patched_upto(children, nodes, kept, next)[i]);
                    } else {
                        Self::lemma_built_fits(
                            nodes[i],
                            base + VNode::handles_range(nodes, kept, i),
                        );
                        assert(after[i] == Self::built_range(
                            nodes,
                            kept,
                            nodes.len() as int,
                            base,
                        )[i - kept]);
                    }
                }
            },
            _ => {},
        }
    }

    /// A refresh runs the patch procedure of every object of the tree once:
    /// none is left out because nothing changed.
    pub proof fn lemma_refresh_patches_each(self, v: VNode)
        requires
            self.fits(v),
        ensures
            tally(self.refresh_effects(v), patching()) == v.objects(),
        decreases v,
    {
        match (self, v) {
            (Mirror::Object { object, children }, VNode::Object(o)) => {
                let len = o.children@.len() as int;
                let below = Self::refresh_upto(children, o.children@, len);
                let restore = seq![Effect::Restore { object: object.handle }];
                let detach = seq![Effect::DetachHandlers { object: object.handle }];
                let patch = seq![Effect::Patch { object: object.handle, patcher: o.patcher }];
                Self::lemma_refresh_upto_patches_each(children, o.children@, len);
                lemma_tally_one(restore[0], patching());
                lemma_tally_one(detach[0], patching());
                lemma_tally_one(patch[0], patching());
                assert(Self::repatch_effects(object, o) =~= restore + detach + patch);
                lemma_tally_concat(restore, detach, patching());
                lemma_tally_concat(restore + detach, patch, patching());
                lemma_tally_concat(below, Self::repatch_effects(object, o), patching());
            },
            (Mirror::Component { object, .. }, VNode::Component(c)) => {
                lemma_tally_one(
                    Effect::ForwardProps { instance: object.handle, props: c.props },
                    patching(),
                );
            },
            _ => {},
        }
    }

    /// The same, for the first `n` children.
    pub proof fn lemma_refresh_upto_patches_each(mirrors: Seq<Mirror>, nodes: Seq<VNode>, n: int)
        requires
            0 <= n <= nodes.len(),
            mirrors.len() == nodes.len(),
            forall|j: int| 0 <= j < nodes.len() ==> (#[trigger] mirrors[j]).fits(nodes[j]),
        ensures
            tally(Self::refresh_upto(mirrors, nodes, n), patching()) == VNode::objects_upto(
                nodes,
                n,
            ),
        decreases nodes, n,
    {
        if n > 0 {
            Self::lemma_refresh_upto_patches_each(mirrors, nodes, n - 1);
            mirrors[n - 1].lemma_refresh_patches_each(nodes[n - 1]);
            lemma_tally_concat(
                Self::refresh_upto(mirrors, nodes, n - 1),
                mirrors[n - 1].refresh_effects(nodes[n - 1]),
                patching(),
            );
        }
    }

    /// Every refresh effect leaves the structure of the host as it is.
    pub proof fn lemma_refresh_keeps_structure(self, v: VNode)
        ensures
            all_keep_structure(self.refresh_effects(v)),
        decreases v,
    {
        match (self, v) {
            (Mirror::Object { object, children }, VNode::Object(o)) => {
                Self::lemma_refresh_upto_keeps_structure(
                    children,
                    o.children@,
                    o.children@.len() as int,
                );
                lemma_all_keep_structure_concat(
                    Self::refresh_upto(children, o.children@, o.children@.len() as int),
                    Self::repatch_effects(object, o),
                );
            },
            _ => {},
        }
    }

    /// The same, for the first `n` children.
    pub proof fn lemma_refresh_upto_keeps_structure(
        mirrors: Seq<Mirror>,
        nodes: Seq<VNode>,
        n: int,
    )
        ensures
            all_keep_structure(Self::refresh_upto(mirrors, nodes, n)),
        decreases nodes, n,
    {
        if !(n <= 0 || n > nodes.len() || n > mirrors.len()) {
            Self::lemma_refresh_upto_keeps_structure(mirrors, nodes, n - 1);
            mirrors[n - 1].lemma_refresh_keeps_structure(nodes[n - 1]);
            lemma_all_keep_structure_concat(
                Self::refresh_upto(mirrors, nodes, n - 1),
                mirrors[n - 1].refresh_effects(nodes[n - 1]),
            );
        }
    }

    /// A patch of a freshly built mirror to the tree it was built from keeps
    /// the identity of every host object and the shape of the mirror: the
    /// mirror stays as it is, no handle is taken, and every effect only brings
    /// an object up to date.
    pub proof fn lemma_patch_same_tree(v: VNode, first: int, next: int)
        ensures
            Self::built(v, first).patchable(v),
            Self::built(v, first).patched(v, next) == Self::built(v, first),
            Self::built(v, first).patch_handles(v) == 0,
            Self::built(v, first).patch_effects(v, next) == Self::built(v, first).refresh_effects(
                v,
            ),
            all_keep_structure(Self::built(v, first).patch_effects(v, next)),
    {
        Self::lemma_built_fits(v, first);
        Self::built(v, first).lemma_patch_fitting(v, next);
        Self::built(v, first).lemma_refresh_keeps_structure(v);
    }

    /// A patch never replaces the object at the root of the mirror it
    /// patches.
    pub proof fn lemma_patched_root(self, v: VNode, next: int)
        ensures
            self.patched(v, next).root() == self.root(),
    {
    }

    /// What any patch of an object that is kept for its node does to the
    /// children, with `k` the number of children kept: there are as many
    /// children afterwards as the node has; each of the first `k` still holds
    /// the host object it held; each of the others is a fresh build of its
    /// node.
    pub proof fn lemma_patch_keeps_roots(
        object: HostObject,
        children: Seq<Mirror>,
        o: VObject,
        next: int,
    )
        requires
            object.object_type == o.object_type,
        ensures
            ({
                let after = (Mirror::Object { object, children }).patched(VNode::Object(o), next);
                let nodes = o.children@;
                let k = Self::shared(children, nodes);
                let base = next + Self::patch_handles_upto(children, nodes, k);
                &&& after is Object
                &&& after.root() == object
                &&& after->Object_children.len() == nodes.len()
                &&& forall|j: int|
                    0 <= j < k ==> (#[trigger] after->Object_children[j]).root()
                        == children[j].root()
                &&& forall|j: int|
                    k <= j < nodes.len() ==> #[trigger] after->Object_children[j] == Self::built(
                        nodes[j],
                        base + VNode::handles_range(nodes, k, j),
                    )
            }),
    {
        let nodes = o.children@;
        let k = Self::shared(children, nodes);
        let base = next + Self::patch_handles_upto(children, nodes, k);
        Self::lemma_shared(children, nodes);
        Self::lemma_patch_parts(object, children, o, next);
        let after = (Mirror::Object { object, children }).patched(VNode::Object(o), next);
        let now = after->Object_children;
        assert forall|j: int| 0 <= j < k implies (#[trigger] now[j]).root() == children[j].root() by {
            let at = next + Self::patch_handles_upto(children, nodes, j);
            assert(now[j] == Self::patched_upto(children, nodes, k, next)[j]);
            children[j].lemma_patched_root(nodes[j], at);
        }
        assert forall|j: int| k <= j < nodes.len() implies #[trigger] now[j] == Self::built(
            nodes[j],
            base + VNode::handles_range(nodes, k, j),
        ) by {
            assert(now[j] == Self::built_range(nodes, k, nodes.len() as int, base)[j - k]);
        }
    }

    /// Whether nothing stands in the way of changing the children of `object`
    /// from position `k` on, from `children` to `nodes`: no chrome slot of a
    /// window is lost or gained, the toolkit has a way to take out each child
    /// that leaves, and a place for each that comes and all below it.
    pub open spec fn tail_allowed(
        object: HostObject,
        children: Seq<Mirror>,
        nodes: Seq<VNode>,
        k: int,
    ) -> bool {
        &&& !(object.object_type.class is WindowLike && Self::chrome_at_risk(
            k,
            children.len() as int,
            nodes.len() as int,
        ))
        &&& Self::removable(object.object_type.class, children, k, children.len() as int)
        &&& Self::placeable(object.object_type.class, nodes, k, nodes.len() as int)
    }

    /// What a patch does to an object whose first `k` children have the shape
    /// of their new nodes, when child `k` cannot be kept or one of the rows
    /// ends at `k`: the first `k` children stay as they are; every old child
    /// from `k` on is detached and unmounted; every new child from `k` on is
    /// built afresh, with handles from `next` on. The patch goes through
    /// exactly where nothing stands in the way of that change.
    pub proof fn lemma_patch_from_first_change(
        object: HostObject,
        children: Seq<Mirror>,
        o: VObject,
        k: int,
        next: int,
    )
        requires
            object.object_type == o.object_type,
            0 <= k <= children.len(),
            k <= o.children@.len(),
            forall|j: int| 0 <= j < k ==> (#[trigger] children[j]).fits(o.children@[j]),
            k == children.len() || k == o.children@.len() || !children[k].compatible(
                o.children@[k],
            ),
        ensures
            (Mirror::Object { object, children }).patched(VNode::Object(o), next)
                == (Mirror::Object {
                object,
                children: children.subrange(0, k) + Self::built_range(
                    o.children@,
                    k,
                    o.children@.len() as int,
                    next,
                ),
            }),
            (Mirror::Object { object, children }).patch_handles(VNode::Object(o))
                == VNode::handles_range(o.children@, k, o.children@.len() as int),
            (Mirror::Object { object, children }).patch_effects(VNode::Object(o), next)
                == Self::refresh_upto(children, o.children@, k) + Self::shrink_effects(
                object,
                children,
                k,
                children.len() as int,
            ) + Self::grow_effects(object, o.children@, k, o.children@.len() as int, next, true)
                + Self::repatch_effects(object, o),
            (Mirror::Object { object, children }).patchable(VNode::Object(o)) == Self::tail_allowed(
                object,
                children,
                o.children@,
                k,
            ),
    {
        let nodes = o.children@;
        assert forall|j: int| 0 <= j < k implies (#[trigger] children[j]).compatible(nodes[j]) by {
            assert(children[j].fits(nodes[j]));
        }
        Self::lemma_shared_is(children, nodes, k);
        Self::lemma_patch_fitting_upto(children, nodes, k, next);
        assert((Mirror::Object { object, children }).compatible(VNode::Object(o)));
    }

    /// If two trees differ only in the last child of the root, whose new node
    /// cannot be kept, a patch from the one to the other rebuilds exactly that
    /// child: every sibling before it keeps its host objects, the old last
    /// child is detached and unmounted, and the new one is built under the
    /// handle `next`. One child is detached, and one object or component is
    /// created for each node of the new child's tree.
    pub proof fn lemma_patch_retyped_last_child(
        object: HostObject,
        children: Seq<Mirror>,
        before: VObject,
        after: VObject,
        next: int,
    )
        requires
            (Mirror::Object { object, children }).fits(VNode::Object(before)),
            after.object_type == before.object_type,
            after.children@.len() == before.children@.len(),
            children.len() >= 1,
            forall|j: int|
                0 <= j < children.len() - 1 ==> #[trigger] after.children@[j]
                    == before.children@[j],
            !children[children.len() - 1].compatible(after.children@[children.len() - 1]),
        ensures
            (Mirror::Object { object, children }).patched(VNode::Object(after), next)
                == (Mirror::Object {
                object,
                children: children.update(
                    children.len() - 1,
                    Self::built(after.children@[children.len() - 1], next),
                ),
            }),
            (Mirror::Object { object, children }).patch_handles(VNode::Object(after))
                == after.children@[children.len() - 1].handles(),
            (Mirror::Object { object, children }).patch_effects(VNode::Object(after), next)
                == Self::refresh_upto(children, after.children@, children.len() - 1)
                + Self::shrink_effects(object, children, children.len() - 1, children.len() as int)
                + Self::grow_effects(
                object,
                after.children@,
                children.len() - 1,
                children.len() as int,
                next,
                true,
            ) + Self::repatch_effects(object, after),
            tally(
                (Mirror::Object { object, children }).patch_effects(VNode::Object(after), next),
                creating(),
            ) == after.children@[children.len() - 1].handles(),
            tally(
                (Mirror::Object { object, children }).patch_effects(VNode::Object(after), next),
                detaching(),
            ) == 1,
            (Mirror::Object { object, children }).patchable(VNode::Object(after))
                == Self::tail_allowed(object, children, after.children@, children.len() - 1),
    {
        let last = children.len() - 1;
        assert forall|j: int| 0 <= j < last implies (#[trigger] children[j]).fits(
            after.children@[j],
        ) by {
            assert(children[j].fits(before.children@[j]));
            assert(after.children@[j] == before.children@[j]);
        }
        Self::lemma_patch_from_first_change(object, children, after, last, next);
        assert(children.subrange(0, last) + Self::built_range(
            after.children@,
            last,
            children.len() as int,
            next,
        ) =~= children.update(last, Self::built(after.children@[last], next)));
        let len = children.len() as int;
        let refreshed = Self::refresh_upto(children, after.children@, last);
        let shrunk = Self::shrink_effects(object, children, last, len);
        let grown = Self::grow_effects(object, after.children@, last, len, next, true);
        let own = Self::repatch_effects(object, after);
        Self::lemma_refresh_upto_keeps_structure(children, after.children@, last);
        lemma_tally_kept(refreshed);
        lemma_tally_kept(own);
        Self::lemma_shrink_tally(object, children, last, len);
        Self::lemma_grow_tally(object, after.children@, last, len, next, true);
        assert(VNode::handles_range(after.children@, last, len) == after.children@[last].handles());
        lemma_tally_concat(refreshed, shrunk, creating());
        lemma_tally_concat(refreshed + shrunk, grown, creating());
        lemma_tally_concat(refreshed + shrunk + grown, own, creating());
        lemma_tally_concat(refreshed, shrunk, detaching());
        lemma_tally_concat(refreshed + shrunk, grown, detaching());
        lemma_tally_concat(refreshed + shrunk + grown, own, detaching());
    }

    /// Appending new nodes behind the children a mirror has builds exactly
    /// the appended ones and leaves every existing child as it is: the new
    /// mirrors are as many as the appended nodes, one object or component is
    /// created for each node of their trees and none else, and nothing is
    /// detached. The patch goes through unless the object is a window with
    /// one child, or the toolkit has no place for one of the new nodes.
    pub proof fn lemma_patch_appended(
        object: HostObject,
        children: Seq<Mirror>,
        o: VObject,
        next: int,
    )
        requires
            object.object_type == o.object_type,
            children.len() <= o.children@.len(),
            forall|j: int| 0 <= j < children.len() ==> (#[trigger] children[j]).fits(o.children@[j]),
        ensures
            (Mirror::Object { object, children }).patched(VNode::Object(o), next)
                == (Mirror::Object {
                object,
                children: children + Self::built_range(
                    o.children@,
                    children.len() as int,
                    o.children@.len() as int,
                    next,
                ),
            }),
            Self::built_range(
                o.children@,
                children.len() as int,
                o.children@.len() as int,
                next,
            ).len() == o.children@.len() - children.len(),
            (Mirror::Object { object, children }).patch_handles(VNode::Object(o))
                == VNode::handles_range(
                o.children@,
                children.len() as int,
                o.children@.len() as int,
            ),
            (Mirror::Object { object, children }).patch_effects(VNode::Object(o), next)
                == Self::refresh_upto(children, o.children@, children.len() as int)
                + Self::grow_effects(
                object,
                o.children@,
                children.len() as int,
                o.children@.len() as int,
                next,
                true,
            ) + Self::repatch_effects(object, o),
            tally(
                (Mirror::Object { object, children }).patch_effects(VNode::Object(o), next),
                creating(),
            ) == VNode::handles_range(
                o.children@,
                children.len() as int,
                o.children@.len() as int,
            ),
            tally(
                (Mirror::Object { object, children }).patch_effects(VNode::Object(o), next),
                detaching(),
            ) == 0,
            (Mirror::Object { object, children }).patchable(VNode::Object(o)) == (!(
            object.object_type.class is WindowLike && children.len() == 1 && o.children@.len()
                > 1) && Self::placeable(
                object.object_type.class,
                o.children@,
                children.len() as int,
                o.children@.len() as int,
            )),
    {
        let k = children.len() as int;
        Self::lemma_patch_from_first_change(object, children, o, k, next);
        assert(children.subrange(0, k) =~= children);
        let refreshed = Self::refresh_upto(children, o.children@, k);
        let grown = Self::grow_effects(object, o.children@, k, o.children@.len() as int, next, true);
        let own = Self::repatch_effects(object, o);
        assert(refreshed + Seq::<Effect>::empty() =~= refreshed);
        Self::lemma_refresh_upto_keeps_structure(children, o.children@, k);
        lemma_tally_kept(refreshed);
        lemma_tally_kept(own);
        Self::lemma_grow_tally(object, o.children@, k, o.children@.len() as int, next, true);
        lemma_tally_concat(refreshed, grown, creating());
        lemma_tally_concat(refreshed + grown, own, creating());
        lemma_tally_concat(refreshed, grown, detaching());
        lemma_tally_concat(refreshed + grown, own, detaching());
    }

    /// Dropping nodes from the end of the children a mirror has unmounts
    /// exactly the dropped ones, builds nothing, and leaves every remaining
    /// child as it is: as many children are detached as were dropped, and
    /// nothing is created. The patch goes through unless the object is a
    /// window that would keep its chrome and lose its content, or the toolkit
    /// has no way to take one of the dropped children out.
    pub proof fn lemma_patch_removed(
        object: HostObject,
        children: Seq<Mirror>,
        o: VObject,
        next: int,
    )
        requires
            object.object_type == o.object_type,
            o.children@.len() <= children.len(),
            forall|j: int|
                0 <= j < o.children@.len() ==> (#[trigger] children[j]).fits(o.children@[j]),
        ensures
            (Mirror::Object { object, children }).patched(VNode::Object(o), next)
                == (Mirror::Object {
                object,
                children: children.subrange(0, o.children@.len() as int),
            }),
            (Mirror::Object { object, children }).patch_handles(VNode::Object(o)) == 0,
            (Mirror::Object { object, children }).patch_effects(VNode::Object(o), next)
                == Self::refresh_upto(children, o.children@, o.children@.len() as int)
                + Self::shrink_effects(
                object,
                children,
                o.children@.len() as int,
                children.len() as int,
            ) + Self::repatch_effects(object, o),
            tally(
                (Mirror::Object { object, children }).patch_effects(VNode::Object(o), next),
                detaching(),
            ) == children.len() - o.children@.len(),
            tally(
                (Mirror::Object { object, children }).patch_effects(VNode::Object(o), next),
                creating(),
            ) == 0,
            (Mirror::Object { object, children }).patchable(VNode::Object(o)) == (!(
            object.object_type.class is WindowLike && children.len() == 2 && o.children@.len()
                == 1) && Self::removable(
                object.object_type.class,
                children,
                o.children@.len() as int,
                children.len() as int,
            )),
    {
        let k = o.children@.len() as int;
        Self::lemma_patch_from_first_change(object, children, o, k, next);
        assert(Self::built_range(o.children@, k, k, next) =~= Seq::<Mirror>::empty());
        assert(children.subrange(0, k) + Seq::<Mirror>::empty() =~= children.subrange(0, k));
        let refreshed = Self::refresh_upto(children, o.children@, k);
        let shrunk = Self::shrink_effects(object, children, k, children.len() as int);
        let own = Self::repatch_effects(object, o);
        assert(shrunk + Seq::<Effect>::empty() =~= shrunk);
        Self::lemma_refresh_upto_keeps_structure(children, o.children@, k);
        lemma_tally_kept(refreshed);
        lemma_tally_kept(own);
        Self::lemma_shrink_tally(object, children, k, children.len() as int);
        lemma_tally_concat(refreshed, shrunk, creating());
        lemma_tally_concat(refreshed + shrunk, own, creating());
        lemma_tally_concat(refreshed, shrunk, detaching());
        lemma_tally_concat(refreshed + shrunk, own, detaching());
    }
}

} // verus!
