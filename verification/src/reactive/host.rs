//! The host toolkit as the runtime sees it: object handles, the classes that
//! decide where a child goes, and the effects a plan is made of.

use vstd::prelude::*;

use crate::reactive::vnode::vprops::VProps;

verus! {

/// What the toolkit's class hierarchy says of an object, as far as the runtime
/// asks. A class that descends from several of these takes the first that fits,
/// in the order written here.
#[derive(Clone, Copy, PartialEq, Eq, Structural, Debug)]
pub enum HostClass {
    /// The application object: holds windows and actions.
    RootContainer,
    /// A window with a content slot and, beside it, a chrome slot.
    WindowLike,
    /// A header bar: children are packed one after another.
    BarLike,
    /// A scrolled window: one child slot.
    Scrollable,
    /// A box: children are appended in order.
    GenericBox,
    /// A grid: children go to a cell.
    Grid,
    /// An action. Not a widget.
    Action,
    /// Any other widget.
    Widget,
    /// Anything else.
    Unknown,
}

impl HostClass {
    /// Whether an object of this class is a widget.
    pub open spec fn is_widget(self) -> bool {
        self is WindowLike || self is BarLike || self is Scrollable || self is GenericBox
            || self is Grid || self is Widget
    }

    /// Whether an object of this class is a widget, computed.
    pub fn widget(self) -> (b: bool)
        ensures
            b == self.is_widget(),
    {
        match self {
            HostClass::WindowLike
            | HostClass::BarLike
            | HostClass::Scrollable
            | HostClass::GenericBox
            | HostClass::Grid
            | HostClass::Widget => true,
            _ => false,
        }
    }
}

/// The runtime type of a host object: the toolkit's identifier for the type,
/// and the class the toolkit puts it in.
#[derive(Clone, Copy, PartialEq, Eq, Structural, Debug)]
pub struct ObjectType {
    pub id: u64,
    pub class: HostClass,
}

/// A constructed host object: the handle under which the embedding program
/// keeps it, and its runtime type.
#[derive(Clone, Copy, PartialEq, Eq, Structural, Debug)]
pub struct HostObject {
    pub handle: u64,
    pub object_type: ObjectType,
}

/// How a child enters its parent.
#[derive(Clone, Copy, PartialEq, Eq, Structural, Debug)]
pub enum Placement {
    /// Registered as a window of the application.
    Window,
    /// Registered as an action of the application.
    Action,
    /// Set as the window's chrome.
    Chrome,
    /// Set as the window's content.
    Content,
    /// Packed at the end of a bar.
    PackEnd,
    /// Set as the single child.
    Child,
    /// Appended to a box.
    Append,
    /// Attached to a grid cell.
    Cell { column: i32, row: i32, width: i32, height: i32 },
}

/// How a child leaves its parent.
#[derive(Clone, Copy, PartialEq, Eq, Structural, Debug)]
pub enum Removal {
    /// Unregistered as a window of the application.
    Window,
    /// Unregistered as an action of the application.
    Action,
    /// The window's chrome slot is cleared.
    Chrome,
    /// The window's content is cleared if this child is the content.
    Content,
    /// The single child slot is cleared.
    Child,
    /// Removed from a bar.
    Unpack,
    /// Removed from a box.
    Take,
    /// Removed from a grid.
    Clear,
}

/// One step for the embedding program to carry out on the host. An effect
/// that hands props on holds their container, and is the only holder.
#[derive(PartialEq, Eq, Structural, Debug)]
pub enum Effect {
    /// Create an object of the given type by its type name.
    Instantiate { object: u64, object_type: ObjectType },
    /// Create an object by calling the constructor kept under `constructor`.
    Construct { object: u64, object_type: ObjectType, constructor: u64 },
    /// Run the patch procedure kept under `patcher` on the object, where there
    /// is one, and keep the handler handles it returns.
    Patch { object: u64, patcher: Option<u64> },
    /// Record the value of each attribute of the object that can be restored
    /// and is not ignored. Of the application and of a window nothing is
    /// recorded.
    Snapshot { object: u64 },
    /// Write the recorded attributes back.
    Restore { object: u64 },
    /// Disconnect every handler handle kept for the object.
    DetachHandlers { object: u64 },
    /// Insert `child` into `parent`.
    Attach { parent: u64, child: u64, placement: Placement },
    /// Take `child` out of `parent`.
    Detach { parent: u64, child: u64, removal: Removal },
    /// Make the object visible.
    Show { object: u64 },
    /// Forget the object: nothing refers to its handle any more.
    Release { object: u64 },
    /// Start a child component of the given model type under `instance`.
    Spawn { instance: u64, model_type: u64, props: VProps },
    /// Hand new props to the child component running under `instance`.
    ForwardProps { instance: u64, props: VProps },
    /// Tell the child component running under `instance` to unmount.
    Unmount { instance: u64 },
    /// Raise the mute depth of the given cell before the next effect.
    Mute { cell: usize },
    /// Lower the mute depth of the given cell.
    Unmute { cell: usize },
}

/// Where a child of class `child` goes in a parent of class `parent`, as child
/// number `index` of `total`. `None` where the toolkit has no way to put such a
/// child into such a parent.
pub open spec fn placement(parent: HostClass, child: HostClass, index: int, total: int) -> Option<
    Placement,
> {
    match parent {
        HostClass::RootContainer => if child is WindowLike {
            Some(Placement::Window)
        } else if child is Action {
            Some(Placement::Action)
        } else {
            None
        },
        HostClass::WindowLike => if !child.is_widget() {
            None
        } else if total == 2 && index == 0 {
            Some(Placement::Chrome)
        } else {
            Some(Placement::Content)
        },
        HostClass::BarLike => if child.is_widget() {
            Some(Placement::PackEnd)
        } else {
            None
        },
        HostClass::Scrollable => if child.is_widget() {
            Some(Placement::Child)
        } else {
            None
        },
        HostClass::GenericBox => if child.is_widget() {
            Some(Placement::Append)
        } else {
            None
        },
        HostClass::Grid => if child.is_widget() {
            Some(Placement::Cell { column: 0, row: 0, width: 1, height: 1 })
        } else {
            None
        },
        _ => None,
    }
}

/// How a child of class `child` leaves a parent of class `parent` in which it
/// is child number `index` of `total`: it leaves the slot it was put in.
/// `None` where the toolkit has no way to take such a child out of such a
/// parent.
pub open spec fn removal(parent: HostClass, child: HostClass, index: int, total: int) -> Option<
    Removal,
> {
    match parent {
        HostClass::RootContainer => if child is WindowLike {
            Some(Removal::Window)
        } else if child is Action {
            Some(Removal::Action)
        } else {
            None
        },
        HostClass::WindowLike => if !child.is_widget() {
            None
        } else if total == 2 && index == 0 {
            Some(Removal::Chrome)
        } else {
            Some(Removal::Content)
        },
        HostClass::Scrollable => if child.is_widget() {
            Some(Removal::Child)
        } else {
            None
        },
        HostClass::BarLike => if child.is_widget() {
            Some(Removal::Unpack)
        } else {
            None
        },
        HostClass::GenericBox => if child.is_widget() {
            Some(Removal::Take)
        } else {
            None
        },
        HostClass::Grid => if child.is_widget() {
            Some(Removal::Clear)
        } else {
            None
        },
        _ => None,
    }
}

/// The effects decided so far, in order, and the next unused handle.
pub struct Plan {
    pub next_handle: u64,
    pub effects: Vec<Effect>,
}

impl Plan {
    /// An empty plan whose first handle is 0.
    pub fn new() -> (plan: Plan)
        ensures
            plan.next_handle == 0,
            plan.effects@ == Seq::<Effect>::empty(),
    {
        Plan { next_handle: 0, effects: Vec::new() }
    }

    /// Hands out the effects decided so far and leaves none behind. The next
    /// handle stays.
    pub fn take_effects(&mut self) -> (effects: Vec<Effect>)
        ensures
            effects@ == old(self).effects@,
            final(self).effects@ == Seq::<Effect>::empty(),
            final(self).next_handle == old(self).next_handle,
    {
        let mut taken: Vec<Effect> = Vec::new();
        std::mem::swap(&mut taken, &mut self.effects);
        taken
    }

    /// Whether `count` more handles can be handed out.
    pub open spec fn has_room(self, count: nat) -> bool {
        self.next_handle + count <= u64::MAX
    }
}

} // verus!
