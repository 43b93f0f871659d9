//! The mirror of an object node, and the rules by which children enter and
//! leave a host object.

use vstd::prelude::*;

use crate::reactive::host::{
    placement, removal, Effect, HostClass, HostObject, Placement, Plan, Removal,
};
use crate::reactive::vnode::vobject::VObject;
use crate::reactive::vnode::VNode;
use crate::reactive::vstate::{Mirror, VState};

verus! {

/// A host object that was built, and the mirrors of its children.
pub struct VObjectState {
    /// The object.
    pub object: HostObject,
    /// The mirrors of the children, in the order of the view tree.
    pub children: Vec<VState>,
}

/// Where a child of class `child` goes in a parent of class `parent`, as child
/// number `index` of `total`, computed. `None` where the toolkit has no place
/// for such a child in such a parent.
pub fn placement_for(parent: HostClass, child: HostClass, index: usize, total: usize) -> (slot:
    Option<Placement>)
    ensures
        slot == placement(parent, child, index as int, total as int),
{
    let widget = child.widget();
    match parent {
        HostClass::RootContainer => match child {
            HostClass::WindowLike => Some(Placement::Window),
            HostClass::Action => Some(Placement::Action),
            _ => None,
        },
        HostClass::WindowLike => if !widget {
            None
        } else if total == 2 && index == 0 {
            Some(Placement::Chrome)
        } else {
            Some(Placement::Content)
        },
        HostClass::BarLike => if widget {
            Some(Placement::PackEnd)
        } else {
            None
        },
        HostClass::Scrollable => if widget {
            Some(Placement::Child)
        } else {
            None
        },
        HostClass::GenericBox => if widget {
            Some(Placement::Append)
        } else {
            None
        },
        HostClass::Grid => if widget {
            Some(Placement::Cell { column: 0, row: 0, width: 1, height: 1 })
        } else {
            None
        },
        _ => None,
    }
}

/// How a child of class `child` leaves a parent of class `parent` in which it
/// is child number `index` of `total`, computed. `None` where the toolkit has
/// no way to take such a child out of such a parent.
pub fn removal_for(parent: HostClass, child: HostClass, index: usize, total: usize) -> (way: Option<
    Removal,
>)
    ensures
        way == removal(parent, child, index as int, total as int),
{
    let widget = child.widget();
    match parent {
        HostClass::RootContainer => match child {
            HostClass::WindowLike => Some(Removal::Window),
            HostClass::Action => Some(Removal::Action),
            _ => None,
        },
        HostClass::WindowLike => if !widget {
            None
        } else if total == 2 && index == 0 {
            Some(Removal::Chrome)
        } else {
            Some(Removal::Content)
        },
        HostClass::Scrollable => if widget {
            Some(Removal::Child)
        } else {
            None
        },
        HostClass::BarLike => if widget {
            Some(Removal::Unpack)
        } else {
            None
        },
        HostClass::GenericBox => if widget {
            Some(Removal::Take)
        } else {
            None
        },
        HostClass::Grid => if widget {
            Some(Removal::Clear)
        } else {
            None
        },
        _ => None,
    }
}

/// The effect that inserts `child` into `parent` as child number `index` of
/// `total`. The toolkit has a place for such a child in such a parent: a
/// parent without a role, or a child it cannot take, is a fault of the
/// program.
pub fn add_child(parent: &HostObject, index: usize, total: usize, child: &HostObject) -> (effect:
    Effect)
    requires
        placement(
            parent.object_type.class,
            child.object_type.class,
            index as int,
            total as int,
        ) is Some,
    ensures
        effect == (Effect::Attach {
            parent: parent.handle,
            child: child.handle,
            placement: placement(
                parent.object_type.class,
                child.object_type.class,
                index as int,
                total as int,
            )->Some_0,
        }),
{
    let slot = placement_for(parent.object_type.class, child.object_type.class, index, total);
    Effect::Attach { parent: parent.handle, child: child.handle, placement: slot.unwrap() }
}

/// The effect that takes `child`, which is child number `index` of `total`,
/// out of `parent`. The toolkit has a way to take such a child out of such a
/// parent: anything else is a fault of the program.
pub fn remove_child(parent: &HostObject, index: usize, total: usize, child: &HostObject) -> (effect:
    Effect)
    requires
        removal(
            parent.object_type.class,
            child.object_type.class,
            index as int,
            total as int,
        ) is Some,
    ensures
        effect == (Effect::Detach {
            parent: parent.handle,
            child: child.handle,
            removal: removal(
                parent.object_type.class,
                child.object_type.class,
                index as int,
                total as int,
            )->Some_0,
        }),
{
    let way = removal_for(parent.object_type.class, child.object_type.class, index, total);
    Effect::Detach { parent: parent.handle, child: child.handle, removal: way.unwrap() }
}

/// What the toolkit says of how one attribute of an object can be used.
#[derive(Clone, Copy, PartialEq, Eq, Structural, Debug)]
pub struct ParamFlags {
    pub readable: bool,
    pub writable: bool,
    pub construct_only: bool,
}

impl ParamFlags {
    /// Whether an attribute with these flags can be read now and written back
    /// later: it is readable and writable, and not set at construction only.
    pub open spec fn restorable(self) -> bool {
        self.readable && self.writable && !self.construct_only
    }

    /// Whether an attribute with these flags can be read now and written back
    /// later, computed.
    pub fn can_restore(&self) -> (b: bool)
        ensures
            b == self.restorable(),
    {
        self.readable && self.writable && !self.construct_only
    }
}

/// One attribute of a host object, as the toolkit lists it.
pub struct Attribute {
    pub name: String,
    pub flags: ParamFlags,
}

/// The attributes that are never recorded, whatever the object.
pub open spec fn ignored_props() -> Seq<Seq<char>> {
    seq![
        "parent"@,
        "root"@,
        "child"@,
        "accessible-role"@,
        "layout-manager"@,
        "flags"@,
        "icon-name"@,
        "version"@,
    ]
}

/// Whether the attribute `name` of an object of class `class` may be
/// recorded: it is not one of the ignored ones, and the object is neither the
/// application nor a window, of which every attribute is ignored.
pub open spec fn saved(class: HostClass, name: Seq<char>) -> bool {
    !ignored_props().contains(name) && !(class is RootContainer) && !(class is WindowLike)
}

/// Whether an attribute of an object of class `class` goes into the record
/// that is written back before every patch: it can be restored and is not
/// ignored.
pub open spec fn recorded(class: HostClass, attribute: Attribute) -> bool {
    attribute.flags.restorable() && saved(class, attribute.name@)
}

/// The names that the record of an object of class `class` holds, when the
/// toolkit lists the first `n` of `attributes` for it: the names of those
/// that are recorded, in the order of the list.
pub open spec fn snapshot_names(class: HostClass, attributes: Seq<Attribute>, n: int) -> Seq<
    Seq<char>,
>
    decreases n,
{
    if n <= 0 || n > attributes.len() {
        Seq::empty()
    } else if recorded(class, attributes[n - 1]) {
        snapshot_names(class, attributes, n - 1).push(attributes[n - 1].name@)
    } else {
        snapshot_names(class, attributes, n - 1)
    }
}

/// The texts of a row of strings.
pub open spec fn texts(strings: Seq<String>) -> Seq<Seq<char>> {
    Seq::new(strings.len(), |i: int| strings[i]@)
}

/// Whether two strings hold the same text.
pub fn same_text(a: &str, b: &str) -> (same: bool)
    ensures
        same == (a@ == b@),
{
    let left = a.to_owned();
    let right = b.to_owned();
    left == right
}

/// Whether `name` is one of the attributes that are never recorded.
pub fn is_ignored_prop(name: &str) -> (b: bool)
    ensures
        b == ignored_props().contains(name@),
{
    let ghost all = ignored_props();
    let found = same_text(name, "parent") || same_text(name, "root") || same_text(name, "child")
        || same_text(name, "accessible-role") || same_text(name, "layout-manager") || same_text(
        name,
        "flags",
    ) || same_text(name, "icon-name") || same_text(name, "version");
    proof {
        assert(all[0] == "parent"@ && all[1] == "root"@ && all[2] == "child"@ && all[3]
            == "accessible-role"@ && all[4] == "layout-manager"@ && all[5] == "flags"@ && all[6]
            == "icon-name"@ && all[7] == "version"@);
        assert(all.len() == 8);
    }
    found
}

/// Whether the attribute `prop_name` of `object` may be recorded when the
/// object is built.
pub fn should_save_prop(object: &HostObject, prop_name: &str) -> (b: bool)
    ensures
        b == saved(object.object_type.class, prop_name@),
{
    if is_ignored_prop(prop_name) {
        return false;
    }
    match object.object_type.class {
        HostClass::RootContainer => false,
        HostClass::WindowLike => false,
        _ => true,
    }
}

/// Whether the attribute `prop_name` of `object`, with the given flags, goes
/// into the record that is written back before every patch.
pub fn in_snapshot(object: &HostObject, prop_name: &str, flags: &ParamFlags) -> (b: bool)
    ensures
        b == (flags.restorable() && saved(object.object_type.class, prop_name@)),
{
    flags.can_restore() && should_save_prop(object, prop_name)
}

/// The names of the attributes that the record of `object` holds, when the
/// toolkit lists `attributes` for it. These are what a `Snapshot` effect
/// reads and a `Restore` effect writes back.
pub fn snapshot_keys(object: &HostObject, attributes: &Vec<Attribute>) -> (keys: Vec<String>)
    ensures
        texts(keys@) == snapshot_names(
            object.object_type.class,
            attributes@,
            attributes@.len() as int,
        ),
{
    let ghost class = object.object_type.class;
    let mut keys: Vec<String> = Vec::new();
    let len = attributes.len();
    let mut i: usize = 0;
    assert(texts(keys@) == snapshot_names(class, attributes@, 0));
    while i < len
        invariant
            i <= len,
            len == attributes@.len(),
            class == object.object_type.class,
            texts(keys@) == snapshot_names(class, attributes@, i as int),
        decreases len - i,
    {
        let ghost before = texts(keys@);
        if in_snapshot(object, attributes[i].name.as_str(), &attributes[i].flags) {
            keys.push(attributes[i].name.clone());
            assert(texts(keys@) == before.push(attributes@[i as int].name@));
        }
        i += 1;
    }
    keys
}

impl VObjectState {
    /// Makes the object that `vobj` asks for, under the next unused handle,
    /// without its children: it is made, patched once, and its restorable
    /// attributes are recorded.
    pub fn build_root(vobj: &VObject, plan: &mut Plan) -> (state: VObjectState)
        requires
            old(plan).has_room(1),
        ensures
            state.object == (HostObject {
                handle: old(plan).next_handle,
                object_type: vobj.object_type,
            }),
            state.children@ == Seq::<VState>::empty(),
            final(plan).next_handle == old(plan).next_handle + 1,
            final(plan).effects@ == old(plan).effects@ + Mirror::root_effects(
                *vobj,
                old(plan).next_handle as int,
            ),
    {
        let handle = plan.next_handle;
        let object = HostObject { handle, object_type: vobj.object_type };
        plan.next_handle = plan.next_handle + 1;
        let creation = match vobj.constructor {
            Some(constructor) => Effect::Construct {
                object: handle,
                object_type: vobj.object_type,
                constructor,
            },
            None => Effect::Instantiate { object: handle, object_type: vobj.object_type },
        };
        plan.effects.push(creation);
        plan.effects.push(Effect::Patch { object: handle, patcher: vobj.patcher });
        plan.effects.push(Effect::Snapshot { object: handle });
        assert(plan.effects@ == old(plan).effects@ + Mirror::root_effects(
            *vobj,
            old(plan).next_handle as int,
        ));
        VObjectState { object, children: Vec::new() }
    }

    /// Builds `node` as one more child of this object: it is built, inserted
    /// as child number `i` of `total` and, where `reveal` is set, shown.
    pub fn grow_one(&mut self, node: VNode, i: usize, total: usize, reveal: bool, plan: &mut Plan)
        requires
            placement(
                old(self).object.object_type.class,
                node.root_type().class,
                i as int,
                total as int,
            ) is Some,
            Mirror::buildable(node),
            old(plan).has_room(node.handles()),
        ensures
            final(self).object == old(self).object,
            VState::views(final(self).children@) == VState::views(old(self).children@).push(
                Mirror::built(node, old(plan).next_handle as int),
            ),
            final(plan).next_handle == old(plan).next_handle + node.handles(),
            final(plan).effects@ == old(plan).effects@ + Mirror::insert_effects(
                old(self).object,
                node,
                i as int,
                total as int,
                old(plan).next_handle as int,
                reveal,
            ),
        decreases node, 1int,
    {
        let ghost before = plan.effects@;
        let ghost at = plan.next_handle as int;
        let ghost mirrors_before = VState::views(self.children@);
        let ghost built = Mirror::built(node, at);
        let ghost effects = Mirror::build_effects(node, at);
        let child = VState::build(node, plan);
        let attach = add_child(&self.object, i, total, child.object());
        let ghost attached = attach;
        plan.effects.push(attach);
        if reveal && child.object().object_type.class.widget() {
            plan.effects.push(Effect::Show { object: child.object().handle });
        }
        self.children.push(child);
        proof {
            assert(VState::views(self.children@) == mirrors_before.push(built));
            let shown = if reveal {
                Mirror::show_effects(built.root())
            } else {
                Seq::<Effect>::empty()
            };
            assert(plan.effects@ == before + (effects + seq![attached] + shown));
        }
    }

    /// Builds `tail`, which holds `nodes[from..]`, as further children of this
    /// object: each is built, inserted at its position among all of `nodes`
    /// and, where `reveal` is set, shown.
    fn grow(
        &mut self,
        tail: Vec<VNode>,
        Ghost(nodes): Ghost<Seq<VNode>>,
        from: usize,
        reveal: bool,
        plan: &mut Plan,
    )
        requires
            from <= nodes.len() <= usize::MAX,
            tail@ == nodes.subrange(from as int, nodes.len() as int),
            Mirror::placeable(
                old(self).object.object_type.class,
                nodes,
                from as int,
                nodes.len() as int,
            ),
            old(plan).has_room(VNode::handles_range(nodes, from as int, nodes.len() as int)),
        ensures
            final(self).object == old(self).object,
            VState::views(final(self).children@) == VState::views(old(self).children@)
                + Mirror::built_range(
                nodes,
                from as int,
                nodes.len() as int,
                old(plan).next_handle as int,
            ),
            final(plan).next_handle == old(plan).next_handle + VNode::handles_range(
                nodes,
                from as int,
                nodes.len() as int,
            ),
            final(plan).effects@ == old(plan).effects@ + Mirror::grow_effects(
                old(self).object,
                nodes,
                from as int,
                nodes.len() as int,
                old(plan).next_handle as int,
                reveal,
            ),
        decreases nodes, 0int,
    {
        let ghost mirrors0 = VState::views(self.children@);
        let ghost next0 = plan.next_handle as int;
        let ghost effects0 = plan.effects@;
        let ghost rest = tail@;
        let total = from + tail.len();
        let mut i: usize = from;
        assert(mirrors0 + Mirror::built_range(nodes, from as int, from as int, next0) == mirrors0);
        assert(effects0 + Seq::<Effect>::empty() == effects0);
        for node in it: tail
            invariant
                it.seq() == rest,
                rest == nodes.subrange(from as int, nodes.len() as int),
                i == from + it.index(),
                from <= i <= total,
                total == nodes.len(),
                self.object == old(self).object,
                Mirror::placeable(
                    self.object.object_type.class,
                    nodes,
                    from as int,
                    total as int,
                ),
                next0 + VNode::handles_range(nodes, from as int, total as int) <= u64::MAX,
                VState::views(self.children@) == mirrors0 + Mirror::built_range(
                    nodes,
                    from as int,
                    i as int,
                    next0,
                ),
                plan.next_handle == next0 + VNode::handles_range(nodes, from as int, i as int),
                plan.effects@ == effects0 + Mirror::grow_effects(
                    self.object,
                    nodes,
                    from as int,
                    i as int,
                    next0,
                    reveal,
                ),
        {
            proof {
                assert(node == rest[i - from]);
                assert(node == nodes[i as int]);
                VNode::lemma_handles_range_monotone(nodes, from as int, i + 1, total as int);
                assert(Mirror::buildable(nodes[i as int]));
                Mirror::lemma_built_range_step(mirrors0, nodes, from as int, i as int, next0);
                Mirror::lemma_grow_step(
                    effects0,
                    self.object,
                    nodes,
                    from as int,
                    i as int,
                    next0,
                    reveal,
                );
            }
            self.grow_one(node, i, total, reveal, plan);
            i += 1;
        }
    }

    /// Builds the children that `vobj` asks for, inserts each into this
    /// object, and shows the object.
    pub fn build_children(&mut self, vobj: VObject, plan: &mut Plan)
        requires
            Mirror::placeable(
                old(self).object.object_type.class,
                vobj.children@,
                0,
                vobj.children@.len() as int,
            ),
            old(plan).has_room(
                VNode::handles_range(vobj.children@, 0, vobj.children@.len() as int),
            ),
            VState::Object(*old(self))@.below(*old(plan)),
        ensures
            VState::Object(*final(self))@.below(*final(plan)),
            final(self).object == old(self).object,
            VState::views(final(self).children@) == VState::views(old(self).children@)
                + Mirror::built_range(
                vobj.children@,
                0,
                vobj.children@.len() as int,
                old(plan).next_handle as int,
            ),
            final(plan).next_handle == old(plan).next_handle + VNode::handles_range(
                vobj.children@,
                0,
                vobj.children@.len() as int,
            ),
            final(plan).effects@ == old(plan).effects@ + Mirror::grow_effects(
                old(self).object,
                vobj.children@,
                0,
                vobj.children@.len() as int,
                old(plan).next_handle as int,
                false,
            ) + Mirror::show_effects(old(self).object),
        decreases vobj, 0int,
    {
        proof {
            Mirror::lemma_grown_handles_within(
                self.object,
                VState::views(self.children@),
                vobj.children@,
                0,
                plan.next_handle as int,
            );
        }
        let ghost nodes = vobj.children@;
        let total = vobj.children.len();
        assert(vobj.children@ == nodes.subrange(0, total as int));
        self.grow(vobj.children, Ghost(nodes), 0, false, plan);
        if self.object.object_type.class.widget() {
            plan.effects.push(Effect::Show { object: self.object.handle });
        } else {
            assert(plan.effects@ + Seq::<Effect>::empty() == plan.effects@);
        }
    }

    /// Builds the object that `vobj` asks for, with all that is below it.
    pub fn build(vobj: VObject, plan: &mut Plan) -> (state: VObjectState)
        requires
            Mirror::buildable(VNode::Object(vobj)),
            old(plan).has_room(VNode::Object(vobj).handles()),
        ensures
            VState::Object(state)@ == Mirror::built(
                VNode::Object(vobj),
                old(plan).next_handle as int,
            ),
            final(plan).next_handle == old(plan).next_handle + VNode::Object(vobj).handles(),
            final(plan).effects@ == old(plan).effects@ + Mirror::build_effects(
                VNode::Object(vobj),
                old(plan).next_handle as int,
            ),
        decreases vobj, 1int,
    {
        let ghost nodes = vobj.children@;
        let mut state = Self::build_root(&vobj, plan);
        assert(VState::views(state.children@) == Seq::<Mirror>::empty());
        assert(VState::Object(state)@.below(*plan));
        state.build_children(vobj, plan);
        proof {
            let next = old(plan).next_handle as int;
            let built = Mirror::built_range(nodes, 0, nodes.len() as int, next + 1);
            assert(VState::views(state.children@) == built);
            assert(VState::Object(state)@->Object_children == VState::views(state.children@));
        }
        state
    }

    /// Whether every handle in this object's mirror is below `limit`,
    /// computed.
    pub fn below(&self, limit: u64) -> (b: bool)
        ensures
            b == VState::Object(*self)@.handles_within(0, limit as int),
        decreases self, 0int,
    {
        if self.object.handle >= limit {
            return false;
        }
        let ghost mirrors = VState::views(self.children@);
        let len = self.children.len();
        let mut i: usize = 0;
        while i < len
            invariant
                i <= len,
                len == self.children@.len(),
                mirrors == VState::views(self.children@),
                VState::Object(*self)@->Object_children == mirrors,
                forall|j: int| 0 <= j < i ==> (#[trigger] mirrors[j]).handles_within(0, limit as int),
            decreases len - i,
        {
            if !self.children[i].below(limit) {
                assert(!mirrors[i as int].handles_within(0, limit as int));
                return false;
            }
            assert(mirrors[i as int].handles_within(0, limit as int));
            i += 1;
        }
        true
    }

    /// Whether `nodes[from..]` can be built as children of a parent of class
    /// `parent`, computed.
    pub fn can_place(parent: HostClass, nodes: &Vec<VNode>, from: usize) -> (b: bool)
        requires
            from <= nodes@.len(),
        ensures
            b == Mirror::placeable(parent, nodes@, from as int, nodes@.len() as int),
        decreases nodes, 1int,
    {
        let len = nodes.len();
        let mut i: usize = from;
        while i < len
            invariant
                from <= i <= len,
                len == nodes@.len(),
                Mirror::placeable(parent, nodes@, from as int, i as int),
            decreases len - i,
        {
            if placement_for(parent, nodes[i].object_type().class, i, len).is_none() {
                return false;
            }
            if !VState::can_build(&nodes[i]) {
                return false;
            }
            i += 1;
        }
        true
    }

    /// Whether the toolkit has a way to take each of `children[from..]` out of
    /// a parent of class `parent`, computed.
    pub fn can_remove(parent: HostClass, children: &Vec<VState>, from: usize) -> (b: bool)
        requires
            from <= children@.len(),
        ensures
            b == Mirror::removable(
                parent,
                VState::views(children@),
                from as int,
                children@.len() as int,
            ),
    {
        let len = children.len();
        let mut i: usize = from;
        while i < len
            invariant
                from <= i <= len,
                len == children@.len(),
                Mirror::removable(parent, VState::views(children@), from as int, i as int),
            decreases len - i,
        {
            if removal_for(parent, children[i].object().object_type.class, i, len).is_none() {
                assert(VState::views(children@)[i as int] == children@[i as int]@);
                return false;
            }
            i += 1;
        }
        true
    }

    /// How many leading children can be kept for `nodes`, computed.
    pub fn shared_len(children: &Vec<VState>, nodes: &Vec<VNode>) -> (kept: usize)
        ensures
            kept == Mirror::shared(VState::views(children@), nodes@),
    {
        let mut i: usize = 0;
        while i < children.len() && i < nodes.len()
            invariant
                i <= children@.len(),
                i <= nodes@.len(),
                Mirror::shared(VState::views(children@), nodes@) == Mirror::shared_from(
                    VState::views(children@),
                    nodes@,
                    i as int,
                ),
            decreases children@.len() - i,
        {
            if !children[i].compatible(&nodes[i]) {
                return i;
            }
            i += 1;
        }
        i
    }

    /// Whether a window with `old_len` children, of which `kept` are kept,
    /// may not go to `new_len` children.
    pub fn chrome_at_risk(kept: usize, old_len: usize, new_len: usize) -> (b: bool)
        ensures
            b == Mirror::chrome_at_risk(kept as int, old_len as int, new_len as int),
    {
        (kept < old_len && kept < new_len && kept == 0 && old_len == 2) || (kept < old_len && kept
            >= new_len && kept == 1 && old_len == 2) || (kept == old_len && kept < new_len
            && old_len == 1) || (old_len == 1 && new_len == 2)
    }

    /// Whether this object can be patched to `vobj`, computed.
    pub fn can_patch(&self, vobj: &VObject) -> (b: bool)
        ensures
            b == VState::Object(*self)@.patchable(VNode::Object(*vobj)),
        decreases vobj, 0int,
    {
        if self.object.object_type != vobj.object_type {
            return false;
        }
        let ghost mirrors = VState::views(self.children@);
        let kept = Self::shared_len(&self.children, &vobj.children);
        proof {
            Mirror::lemma_shared(mirrors, vobj.children@);
        }
        let mut i: usize = 0;
        while i < kept
            invariant
                i <= kept,
                kept <= self.children@.len(),
                kept <= vobj.children@.len(),
                kept == Mirror::shared(mirrors, vobj.children@),
                self.object.object_type == vobj.object_type,
                mirrors == VState::views(self.children@),
                forall|j: int|
                    #![trigger mirrors[j]]
                    0 <= j < i ==> mirrors[j].patchable(vobj.children@[j]),
            decreases kept - i,
        {
            if !self.children[i].can_patch(&vobj.children[i]) {
                assert(!mirrors[i as int].patchable(vobj.children@[i as int]));
                return false;
            }
            assert(mirrors[i as int].patchable(vobj.children@[i as int]));
            i += 1;
        }
        if self.object.object_type.class == HostClass::WindowLike && Self::chrome_at_risk(
            kept,
            self.children.len(),
            vobj.children.len(),
        ) {
            return false;
        }
        if !Self::can_remove(self.object.object_type.class, &self.children, kept) {
            return false;
        }
        Self::can_place(self.object.object_type.class, &vobj.children, kept)
    }

    /// Patches the first children in place, each to its node: `head` holds
    /// the first nodes of `nodes`, as many as are kept.
    fn patch_kept(&mut self, head: Vec<VNode>, Ghost(nodes): Ghost<Seq<VNode>>, plan: &mut Plan)
        requires
            head@.len() <= old(self).children@.len(),
            head@.len() <= nodes.len(),
            head@ == nodes.subrange(0, head@.len() as int),
            forall|j: int|
                0 <= j < head@.len() ==> (#[trigger] old(self).children@[j])@.patchable(nodes[j]),
            old(plan).has_room(
                Mirror::patch_handles_upto(
                    VState::views(old(self).children@),
                    nodes,
                    head@.len() as int,
                ),
            ),
            forall|j: int|
                0 <= j < head@.len() ==> (#[trigger] old(self).children@[j])@.below(*old(plan)),
        ensures
            final(self).object == old(self).object,
            final(self).children@.len() == old(self).children@.len(),
            forall|j: int|
                head@.len() <= j < old(self).children@.len() ==> #[trigger] final(self).children@[j]
                    == old(self).children@[j],
            forall|j: int|
                0 <= j < head@.len() ==> (#[trigger] final(self).children@[j])@ == old(
                    self,
                ).children@[j]@.patched(
                    nodes[j],
                    old(plan).next_handle + Mirror::patch_handles_upto(
                        VState::views(old(self).children@),
                        nodes,
                        j,
                    ),
                ),
            final(plan).next_handle == old(plan).next_handle + Mirror::patch_handles_upto(
                VState::views(old(self).children@),
                nodes,
                head@.len() as int,
            ),
            final(plan).effects@ == old(plan).effects@ + Mirror::patch_effects_upto(
                VState::views(old(self).children@),
                nodes,
                head@.len() as int,
                old(plan).next_handle as int,
            ),
        decreases nodes, 0int,
    {
        let ghost mirrors = VState::views(self.children@);
        let ghost next0 = plan.next_handle as int;
        let ghost effects0 = plan.effects@;
        let ghost len = self.children@.len();
        let ghost first = head@;
        let kept = head.len();
        proof {
            assert(effects0 + Seq::<Effect>::empty() == effects0);
        }
        let mut i: usize = 0;
        for node in it: head
            invariant
                it.seq() == first,
                first == nodes.subrange(0, kept as int),
                i == it.index(),
                i <= kept,
                kept <= len,
                kept <= nodes.len(),
                len == self.children@.len(),
                len == old(self).children@.len(),
                mirrors == VState::views(old(self).children@),
                self.object == old(self).object,
                next0 + Mirror::patch_handles_upto(mirrors, nodes, kept as int) <= u64::MAX,
                forall|j: int| 0 <= j < kept ==> (#[trigger] mirrors[j]).patchable(nodes[j]),
                forall|j: int| 0 <= j < kept ==> (#[trigger] mirrors[j]).handles_within(0, next0),
                0 <= next0 <= plan.next_handle,
                forall|j: int|
                    i <= j < len ==> #[trigger] self.children@[j] == old(self).children@[j],
                forall|j: int|
                    0 <= j < i ==> (#[trigger] self.children@[j])@ == mirrors[j].patched(
                        nodes[j],
                        next0 + Mirror::patch_handles_upto(mirrors, nodes, j),
                    ),
                plan.next_handle == next0 + Mirror::patch_handles_upto(mirrors, nodes, i as int),
                plan.effects@ == effects0 + Mirror::patch_effects_upto(
                    mirrors,
                    nodes,
                    i as int,
                    next0,
                ),
        {
            let ghost before = plan.effects@;
            proof {
                assert(node == first[i as int]);
                assert(node == nodes[i as int]);
                Mirror::lemma_patch_handles_upto_monotone(mirrors, nodes, i + 1, kept as int);
                assert(mirrors[i as int].patchable(nodes[i as int]));
                mirrors[i as int].lemma_handles_within_wider(
                    0,
                    next0,
                    0,
                    plan.next_handle as int,
                );
                assert(self.children@[i as int]@ == mirrors[i as int]);
            }
            let child = &mut self.children[i];
            child.repatch(node, plan);
            proof {
                assert(effects0 + Mirror::patch_effects_upto(mirrors, nodes, i + 1, next0)
                    == before + mirrors[i as int].patch_effects(
                    nodes[i as int],
                    next0 + Mirror::patch_handles_upto(mirrors, nodes, i as int),
                ));
            }
            i += 1;
        }
    }

    /// Takes the children from position `kept` on out of this object: each is
    /// detached and unmounted, and its mirror is given up.
    pub fn shrink(&mut self, kept: usize, plan: &mut Plan)
        requires
            kept <= old(self).children@.len(),
            Mirror::removable(
                old(self).object.object_type.class,
                VState::views(old(self).children@),
                kept as int,
                old(self).children@.len() as int,
            ),
        ensures
            final(self).object == old(self).object,
            final(self).children@ == old(self).children@.subrange(0, kept as int),
            final(plan).next_handle == old(plan).next_handle,
            final(plan).effects@ == old(plan).effects@ + Mirror::shrink_effects(
                old(self).object,
                VState::views(old(self).children@),
                kept as int,
                old(self).children@.len() as int,
            ),
    {
        let ghost mirrors = VState::views(self.children@);
        let ghost effects0 = plan.effects@;
        let len = self.children.len();
        let mut i: usize = kept;
        proof {
            assert(effects0 + Seq::<Effect>::empty() == effects0);
        }
        while i < len
            invariant
                kept <= i <= len,
                len == self.children@.len(),
                *self == *old(self),
                mirrors == VState::views(self.children@),
                Mirror::removable(self.object.object_type.class, mirrors, kept as int, len as int),
                plan.next_handle == old(plan).next_handle,
                plan.effects@ == effects0 + Mirror::shrink_effects(
                    self.object,
                    mirrors,
                    kept as int,
                    i as int,
                ),
            decreases len - i,
        {
            let ghost before = plan.effects@;
            proof {
                assert(self.children@[i as int]@ == mirrors[i as int]);
                assert(removal(
                    self.object.object_type.class,
                    mirrors[i as int].root().object_type.class,
                    i as int,
                    len as int,
                ) is Some);
            }
            let detach = remove_child(&self.object, i, len, self.children[i].object());
            let ghost detached = detach;
            plan.effects.push(detach);
            self.children[i].retire(plan);
            proof {
                assert(effects0 + Mirror::shrink_effects(self.object, mirrors, kept as int, i + 1)
                    == before + seq![detached] + mirrors[i as int].unmount_effects());
            }
            i += 1;
        }
        self.children.truncate(kept);
    }

    /// Patches an object that can be patched to `vobj`: the kept children are
    /// patched in place, the others leave, the new ones come, and the object
    /// itself is brought up to date last.
    pub fn repatch(&mut self, vobj: VObject, plan: &mut Plan)
        requires
            VState::Object(*old(self))@.patchable(VNode::Object(vobj)),
            old(plan).has_room(VState::Object(*old(self))@.patch_handles(VNode::Object(vobj))),
            VState::Object(*old(self))@.below(*old(plan)),
        ensures
            VState::Object(*final(self))@.below(*final(plan)),
            VState::Object(*final(self))@ == VState::Object(*old(self))@.patched(
                VNode::Object(vobj),
                old(plan).next_handle as int,
            ),
            final(plan).next_handle == old(plan).next_handle + VState::Object(
                *old(self),
            )@.patch_handles(VNode::Object(vobj)),
            final(plan).effects@ == old(plan).effects@ + VState::Object(*old(self))@.patch_effects(
                VNode::Object(vobj),
                old(plan).next_handle as int,
            ),
        decreases vobj, 0int,
    {
        let ghost mirrors = VState::views(self.children@);
        let ghost nodes = vobj.children@;
        let ghost next0 = plan.next_handle as int;
        let ghost effects0 = plan.effects@;
        let ghost object = self.object;
        let ghost before = VState::Object(*self)@;
        let ghost node = VNode::Object(vobj);
        let ghost own = Mirror::repatch_effects(object, vobj);
        let kept = Self::shared_len(&self.children, &vobj.children);
        let patcher = vobj.patcher;
        proof {
            assert(before == (Mirror::Object { object, children: mirrors }));
            Mirror::lemma_shared(mirrors, nodes);
            Mirror::lemma_patch_parts(object, mirrors, vobj, next0);
            assert forall|j: int| 0 <= j < kept implies (#[trigger] self.children@[j])@.patchable(
                nodes[j],
            ) by {
                assert(mirrors[j].patchable(nodes[j]));
            }
            assert forall|j: int| 0 <= j < kept implies (#[trigger] self.children@[j])@.below(
                *plan,
            ) by {
                assert(mirrors[j].handles_within(0, next0));
            }
            before.lemma_patched_handles_within(node, next0);
        }
        let total = vobj.children.len();
        let mut head = vobj.children;
        let tail = head.split_off(kept);
        assert(total == nodes.len());
        self.patch_kept(head, Ghost(nodes), plan);
        let ghost patched = VState::views(self.children@);
        proof {
            Mirror::lemma_removable_agrees(
                object.object_type.class,
                mirrors,
                patched,
                kept as int,
                mirrors.len() as int,
            );
            Mirror::lemma_shrink_agrees(object, mirrors, patched, kept as int, mirrors.len() as int);
        }
        let ghost effects1 = plan.effects@;
        self.shrink(kept, plan);
        proof {
            assert(plan.effects@ == effects1 + Mirror::shrink_effects(
                object,
                mirrors,
                kept as int,
                mirrors.len() as int,
            ));
            assert(VState::views(self.children@) == Mirror::patched_upto(
                mirrors,
                nodes,
                kept as int,
                next0,
            ));
        }
        let ghost effects2 = plan.effects@;
        self.grow(tail, Ghost(nodes), kept, true, plan);
        let ghost effects3 = plan.effects@;
        plan.effects.push(Effect::Restore { object: self.object.handle });
        plan.effects.push(Effect::DetachHandlers { object: self.object.handle });
        plan.effects.push(Effect::Patch { object: self.object.handle, patcher });
        proof {
            let base = next0 + Mirror::patch_handles_upto(mirrors, nodes, kept as int);
            let prefix = Mirror::patch_effects_upto(mirrors, nodes, kept as int, next0);
            let shrunk = Mirror::shrink_effects(object, mirrors, kept as int, mirrors.len() as int);
            let grown = Mirror::grow_effects(
                object,
                nodes,
                kept as int,
                nodes.len() as int,
                base,
                true,
            );
            let children = Mirror::patched_upto(mirrors, nodes, kept as int, next0)
                + Mirror::built_range(nodes, kept as int, nodes.len() as int, base);
            assert(effects2 == effects0 + prefix + shrunk);
            assert(effects3 == effects2 + grown);
            assert(plan.effects@ == effects3 + own);
            Mirror::lemma_behind(effects0, prefix, shrunk, grown, own);
            assert(VState::views(self.children@) == children);
            assert(VState::Object(*self)@ == (Mirror::Object { object, children }));
        }
    }

    /// Counts the handles a patch to `vobj` takes: those of the patches of
    /// the kept children and one for each node of the children that come.
    /// `None` when they are more than a handle can number.
    pub fn count_patch_handles(&self, vobj: &VObject) -> (count: Option<u64>)
        ensures
            count matches Some(n) ==> n == VState::Object(*self)@.patch_handles(
                VNode::Object(*vobj),
            ),
            count is None ==> VState::Object(*self)@.patch_handles(VNode::Object(*vobj))
                > u64::MAX,
        decreases vobj, 0int,
    {
        if self.object.object_type != vobj.object_type {
            return Some(0);
        }
        let ghost mirrors = VState::views(self.children@);
        let ghost nodes = vobj.children@;
        let kept = Self::shared_len(&self.children, &vobj.children);
        let len = vobj.children.len();
        let ghost whole = VState::Object(*self)@.patch_handles(VNode::Object(*vobj));
        proof {
            Mirror::lemma_shared(mirrors, nodes);
            assert(whole == Mirror::patch_handles_upto(mirrors, nodes, kept as int)
                + VNode::handles_range(nodes, kept as int, len as int));
        }
        let mut total: u64 = 0;
        let mut i: usize = 0;
        while i < kept
            invariant
                i <= kept,
                kept <= self.children@.len(),
                kept <= nodes.len(),
                nodes == vobj.children@,
                mirrors == VState::views(self.children@),
                whole == VState::Object(*self)@.patch_handles(VNode::Object(*vobj)),
                whole >= Mirror::patch_handles_upto(mirrors, nodes, kept as int),
                total == Mirror::patch_handles_upto(mirrors, nodes, i as int),
            decreases kept - i,
        {
            proof {
                Mirror::lemma_patch_handles_upto_monotone(mirrors, nodes, i + 1, kept as int);
                assert(mirrors[i as int] == self.children@[i as int]@);
            }
            match self.children[i].count_patch_handles(&vobj.children[i]) {
                None => {
                    return None;
                },
                Some(c) => {
                    if c > u64::MAX - total {
                        return None;
                    }
                    total = total + c;
                },
            }
            i += 1;
        }
        let mut j: usize = kept;
        while j < len
            invariant
                kept <= j <= len,
                len == nodes.len(),
                nodes == vobj.children@,
                whole == VState::Object(*self)@.patch_handles(VNode::Object(*vobj)),
                whole == Mirror::patch_handles_upto(mirrors, nodes, kept as int)
                    + VNode::handles_range(nodes, kept as int, len as int),
                total == Mirror::patch_handles_upto(mirrors, nodes, kept as int)
                    + VNode::handles_range(nodes, kept as int, j as int),
            decreases len - j,
        {
            proof {
                VNode::lemma_handles_range_monotone(nodes, kept as int, j + 1, len as int);
            }
            match vobj.children[j].count_handles() {
                None => {
                    return None;
                },
                Some(c) => {
                    if c > u64::MAX - total {
                        return None;
                    }
                    total = total + c;
                },
            }
            j += 1;
        }
        Some(total)
    }

    /// Whether a patch to `vobj` with `plan` goes through: this object can be
    /// patched to `vobj`, and the plan has the handles left that the patch
    /// takes.
    pub fn can_patch_within(&self, vobj: &VObject, plan: &Plan) -> (b: bool)
        ensures
            b == (VState::Object(*self)@.patchable(VNode::Object(*vobj)) && plan.has_room(
                VState::Object(*self)@.patch_handles(VNode::Object(*vobj)),
            )),
    {
        if !self.can_patch(vobj) {
            return false;
        }
        match self.count_patch_handles(vobj) {
            None => false,
            Some(count) => count <= u64::MAX - plan.next_handle,
        }
    }

    /// Brings the host in line with `vobj`, keeping what can be kept, and
    /// answers `true`. This object can be patched to `vobj`: a window that
    /// would lose or gain a chrome slot, a child without a place, a node of
    /// another type are faults of the program. The plan has the handles that
    /// the patch takes, and has handed out those of the mirror. A patch to a
    /// node of the mirror's own shape keeps every object, takes no handle, and
    /// plans the refresh of each object, its patch procedure included. The
    /// node is used up.
    pub fn patch(&mut self, vobj: VObject, plan: &mut Plan) -> (done: bool)
        requires
            VState::Object(*old(self))@.below(*old(plan)),
            VState::Object(*old(self))@.patchable(VNode::Object(vobj)),
            old(plan).has_room(VState::Object(*old(self))@.patch_handles(VNode::Object(vobj))),
        ensures
            done,
            VState::Object(*final(self))@.below(*final(plan)),
            VState::Object(*final(self))@ == VState::Object(*old(self))@.patched(
                VNode::Object(vobj),
                old(plan).next_handle as int,
            ),
            final(plan).next_handle == old(plan).next_handle + VState::Object(
                *old(self),
            )@.patch_handles(VNode::Object(vobj)),
            final(plan).effects@ == old(plan).effects@ + VState::Object(*old(self))@.patch_effects(
                VNode::Object(vobj),
                old(plan).next_handle as int,
            ),
            VState::Object(*final(self))@.fits(VNode::Object(vobj)),
            VState::Object(*old(self))@.fits(VNode::Object(vobj)) ==> {
                &&& VState::Object(*final(self))@ == VState::Object(*old(self))@
                &&& final(plan).next_handle == old(plan).next_handle
                &&& final(plan).effects@ == old(plan).effects@ + VState::Object(
                    *old(self),
                )@.refresh_effects(VNode::Object(vobj))
            },
    {
        proof {
            let before = VState::Object(*self)@;
            if before.fits(VNode::Object(vobj)) {
                before.lemma_patch_fitting(VNode::Object(vobj), plan.next_handle as int);
            }
            before.lemma_patched_fits(VNode::Object(vobj), plan.next_handle as int);
        }
        self.repatch(vobj, plan);
        true
    }

    /// Brings the host in line with `vobj` where that can be done, and says
    /// whether it did: it does nothing at all where this object cannot be
    /// patched to `vobj`, or where the plan has fewer handles left than the
    /// patch takes. Where it did, it did what `patch` does. The node is used
    /// up either way.
    pub fn try_patch(&mut self, vobj: VObject, plan: &mut Plan) -> (done: bool)
        requires
            VState::Object(*old(self))@.below(*old(plan)),
        ensures
            VState::Object(*final(self))@.below(*final(plan)),
            done == (VState::Object(*old(self))@.patchable(VNode::Object(vobj)) && old(
                plan,
            ).has_room(VState::Object(*old(self))@.patch_handles(VNode::Object(vobj)))),
            done ==> VState::Object(*final(self))@ == VState::Object(*old(self))@.patched(
                VNode::Object(vobj),
                old(plan).next_handle as int,
            ),
            done ==> final(plan).next_handle == old(plan).next_handle + VState::Object(
                *old(self),
            )@.patch_handles(VNode::Object(vobj)),
            done ==> final(plan).effects@ == old(plan).effects@ + VState::Object(
                *old(self),
            )@.patch_effects(VNode::Object(vobj), old(plan).next_handle as int),
            !done ==> *final(self) == *old(self) && *final(plan) == *old(plan),
    {
        if self.can_patch_within(&vobj, plan) {
            self.patch(vobj, plan)
        } else {
            false
        }
    }

    /// Plans the unmounting of this object: the children first, in order, then
    /// the release of the object itself.
    pub fn unmount(self, plan: &mut Plan)
        ensures
            final(plan).next_handle == old(plan).next_handle,
            final(plan).effects@ == old(plan).effects@ + VState::Object(self)@.unmount_effects(),
    {
        self.retire(plan);
    }

    /// Plans the unmounting of this object, which the caller then drops.
    pub fn retire(&self, plan: &mut Plan)
        ensures
            final(plan).next_handle == old(plan).next_handle,
            final(plan).effects@ == old(plan).effects@ + VState::Object(*self)@.unmount_effects(),
        decreases self, 0int,
    {
        let ghost effects0 = plan.effects@;
        let ghost mirrors = VState::views(self.children@);
        let len = self.children.len();
        let mut i: usize = 0;
        assert(effects0 + Seq::<Effect>::empty() == effects0);
        while i < len
            invariant
                i <= len,
                len == self.children@.len(),
                mirrors == VState::views(self.children@),
                plan.next_handle == old(plan).next_handle,
                plan.effects@ == effects0 + Mirror::unmount_range(mirrors, 0, i as int),
            decreases len - i,
        {
            let ghost before = plan.effects@;
            self.children[i].retire(plan);
            proof {
                assert(mirrors[i as int] == self.children@[i as int]@);
                assert(effects0 + Mirror::unmount_range(mirrors, 0, i + 1) == before
                    + mirrors[i as int].unmount_effects());
            }
            i += 1;
        }
        plan.effects.push(Effect::Release { object: self.object.handle });
        proof {
            assert(VState::Object(*self)@->Object_children == mirrors);
        }
    }
}

} // verus!
