//! The host is written to only between a mute and its unmute: nothing that
//! builds, patches or unmounts touches the mute counters itself.

use vstd::prelude::*;

use crate::reactive::component::render_effects;
use crate::reactive::host::{Effect, HostObject};
use crate::reactive::vnode::VNode;
use crate::reactive::vstate::Mirror;

verus! {

impl Effect {
    /// Whether this effect touches a mute counter.
    pub open spec fn mutes(self) -> bool {
        self is Mute || self is Unmute
    }
}

/// Whether none of `effects` touches a mute counter.
pub open spec fn none_mutes(effects: Seq<Effect>) -> bool {
    forall|i: int| 0 <= i < effects.len() ==> !(#[trigger] effects[i]).mutes()
}

/// Two rows of effects that touch no mute counter touch none together.
pub proof fn lemma_none_mutes_concat(a: Seq<Effect>, b: Seq<Effect>)
    requires
        none_mutes(a),
        none_mutes(b),
    ensures
        none_mutes(a + b),
{
    assert forall|i: int| 0 <= i < (a + b).len() implies !(#[trigger] (a + b)[i]).mutes() by {
        if i < a.len() {
            assert((a + b)[i] == a[i]);
        } else {
            assert((a + b)[i] == b[i - a.len()]);
        }
    }
}

impl Mirror {
    /// A build touches no mute counter.
    pub proof fn lemma_build_never_mutes(v: VNode, next: int)
        ensures
            none_mutes(Self::build_effects(v, next)),
        decreases v, 1int,
    {
        match v {
            VNode::Object(o) => {
                let object = HostObject { handle: next as u64, object_type: o.object_type };
                let len = o.children@.len() as int;
                Self::lemma_grow_never_mutes(object, o.children@, 0, len, next + 1, false);
                lemma_none_mutes_concat(
                    Self::root_effects(o, next),
                    Self::grow_effects(object, o.children@, 0, len, next + 1, false),
                );
                lemma_none_mutes_concat(
                    Self::root_effects(o, next) + Self::grow_effects(
                        object,
                        o.children@,
                        0,
                        len,
                        next + 1,
                        false,
                    ),
                    Self::show_effects(object),
                );
            },
            VNode::Component(_) => {},
        }
    }

    /// Building a row of children touches no mute counter.
    pub proof fn lemma_grow_never_mutes(
        parent: HostObject,
        nodes: Seq<VNode>,
        from: int,
        to: int,
        next: int,
        reveal: bool,
    )
        ensures
            none_mutes(Self::grow_effects(parent, nodes, from, to, next, reveal)),
        decreases nodes, to,
    {
        if !(from < 0 || to <= from || to > nodes.len()) {
            let at = next + VNode::handles_range(nodes, from, to - 1);
            let child = HostObject { handle: at as u64, object_type: nodes[to - 1].root_type() };
            let before = Self::grow_effects(parent, nodes, from, to - 1, next, reveal);
            let built = Self::build_effects(nodes[to - 1], at);
            let attach = seq![
                Effect::Attach {
                    parent: parent.handle,
                    child: child.handle,
                    placement: crate::reactive::host::placement(
                        parent.object_type.class,
                        child.object_type.class,
                        to - 1,
                        nodes.len() as int,
                    )->Some_0,
                },
            ];
            let shown = if reveal {
                Self::show_effects(child)
            } else {
                Seq::<Effect>::empty()
            };
            Self::lemma_grow_never_mutes(parent, nodes, from, to - 1, next, reveal);
            Self::lemma_build_never_mutes(nodes[to - 1], at);
            lemma_none_mutes_concat(before, built);
            lemma_none_mutes_concat(before + built, attach);
            lemma_none_mutes_concat(before + built + attach, shown);
        }
    }

    /// An unmount touches no mute counter.
    pub proof fn lemma_unmount_never_mutes(self)
        ensures
            none_mutes(self.unmount_effects()),
        decreases self,
    {
        match self {
            Mirror::Object { object, children } => {
                Self::lemma_unmount_range_never_mutes(children, 0, children.len() as int);
                lemma_none_mutes_concat(
                    Self::unmount_range(children, 0, children.len() as int),
                    seq![Effect::Release { object: object.handle }],
                );
            },
            Mirror::Component { .. } => {},
        }
    }

    /// The same, for a row of mirrors.
    pub proof fn lemma_unmount_range_never_mutes(mirrors: Seq<Mirror>, from: int, to: int)
        ensures
            none_mutes(Self::unmount_range(mirrors, from, to)),
        decreases mirrors, to,
    {
        if !(from < 0 || to <= from || to > mirrors.len()) {
            Self::lemma_unmount_range_never_mutes(mirrors, from, to - 1);
            mirrors[to - 1].lemma_unmount_never_mutes();
            lemma_none_mutes_concat(
                Self::unmount_range(mirrors, from, to - 1),
                mirrors[to - 1].unmount_effects(),
            );
        }
    }

    /// Taking children out touches no mute counter.
    pub proof fn lemma_shrink_never_mutes(
        parent: HostObject,
        mirrors: Seq<Mirror>,
        from: int,
        to: int,
    )
        ensures
            none_mutes(Self::shrink_effects(parent, mirrors, from, to)),
        decreases to,
    {
        if !(from < 0 || to <= from || to > mirrors.len()) {
            let before = Self::shrink_effects(parent, mirrors, from, to - 1);
            let detach = seq![
                Effect::Detach {
                    parent: parent.handle,
                    child: mirrors[to - 1].root().handle,
                    removal: crate::reactive::host::removal(
                        parent.object_type.class,
                        mirrors[to - 1].root().object_type.class,
                        to - 1,
                        mirrors.len() as int,
                    )->Some_0,
                },
            ];
            Self::lemma_shrink_never_mutes(parent, mirrors, from, to - 1);
            mirrors[to - 1].lemma_unmount_never_mutes();
            lemma_none_mutes_concat(before, detach);
            lemma_none_mutes_concat(before + detach, mirrors[to - 1].unmount_effects());
        }
    }

    /// A patch touches no mute counter.
    pub proof fn lemma_patch_never_mutes(self, v: VNode, next: int)
        ensures
            none_mutes(self.patch_effects(v, next)),
        decreases v, 1int,
    {
        match (self, v) {
            (Mirror::Object { object, children }, VNode::Object(o)) => {
                if self.compatible(v) {
                    let nodes = o.children@;
                    let kept = Self::shared(children, nodes);
                    let base = next + Self::patch_handles_upto(children, nodes, kept);
                    let prefix = Self::patch_effects_upto(children, nodes, kept, next);
                    let shrunk = Self::shrink_effects(object, children, kept, children.len() as int);
                    let grown = Self::grow_effects(object, nodes, kept, nodes.len() as int, base, true);
                    Self::lemma_patch_upto_never_mutes(children, nodes, kept, next);
                    Self::lemma_shrink_never_mutes(object, children, kept, children.len() as int);
                    Self::lemma_grow_never_mutes(object, nodes, kept, nodes.len() as int, base, true);
                    lemma_none_mutes_concat(prefix, shrunk);
                    lemma_none_mutes_concat(prefix + shrunk, grown);
                    lemma_none_mutes_concat(
                        prefix + shrunk + grown,
                        Self::repatch_effects(object, o),
                    );
                }
            },
            _ => {},
        }
    }

    /// The patches of the first `n` children touch no mute counter.
    pub proof fn lemma_patch_upto_never_mutes(
        mirrors: Seq<Mirror>,
        nodes: Seq<VNode>,
        n: int,
        next: int,
    )
        ensures
            none_mutes(Self::patch_effects_upto(mirrors, nodes, n, next)),
        decreases nodes, n,
    {
        if !(n <= 0 || n > nodes.len() || n > mirrors.len()) {
            Self::lemma_patch_upto_never_mutes(mirrors, nodes, n - 1, next);
            mirrors[n - 1].lemma_patch_never_mutes(
                nodes[n - 1],
                next + Self::patch_handles_upto(mirrors, nodes, n - 1),
            );
            lemma_none_mutes_concat(
                Self::patch_effects_upto(mirrors, nodes, n - 1, next),
                mirrors[n - 1].patch_effects(
                    nodes[n - 1],
                    next + Self::patch_handles_upto(mirrors, nodes, n - 1),
                ),
            );
        }
    }

    /// One render is one muted pass: its first effect mutes the scope's
    /// counter, its last unmutes it, and nothing between them touches a mute
    /// counter. Every effect on the host lies between the two.
    pub proof fn lemma_render_is_one_muted_pass(self, view: VNode, cell: usize, next: int)
        ensures
            render_effects(self, view, cell, next).len() == self.patch_effects(view, next).len()
                + 2,
            render_effects(self, view, cell, next).first() == (Effect::Mute { cell }),
            render_effects(self, view, cell, next).last() == (Effect::Unmute { cell }),
            forall|i: int|
                0 < i < render_effects(self, view, cell, next).len() - 1 ==> !(
                #[trigger] render_effects(self, view, cell, next)[i]).mutes(),
    {
        self.lemma_patch_never_mutes(view, next);
        let inner = self.patch_effects(view, next);
        let all = render_effects(self, view, cell, next);
        assert forall|i: int| 0 < i < all.len() - 1 implies !(#[trigger] all[i]).mutes() by {
            assert(all[i] == inner[i - 1]);
        }
    }
}

} // verus!
