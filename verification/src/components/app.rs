//! The application: a window with a count that two buttons change, above the
//! list of installed packages.

use vstd::prelude::*;

use crate::components::{
    application, button, header_bar, label, layout_box, scrolled_window, window,
};
use crate::reactive::component::{Component, UpdateAction, ViewContext};
use crate::reactive::vnode::vobject::VObjectBuilder;
use crate::reactive::vnode::VNode;
use crate::reactive::vstate::Mirror;
use crate::services::flatpak::FpRef;

verus! {

/// The state of the application.
pub struct App {
    count: u8,
    refs: Vec<FpRef>,
}

/// What the application's buttons, and the counters below it, send.
#[derive(Clone, Copy, PartialEq, Eq, Structural, Debug)]
pub enum AppMessage {
    Increment,
    Decrement,
    Add(i8),
}

impl AppMessage {
    /// The change that the message stands for.
    pub open spec fn delta(self) -> int {
        match self {
            AppMessage::Increment => 1,
            AppMessage::Decrement => -1,
            AppMessage::Add(delta) => delta as int,
        }
    }
}

/// `value`, kept within what a count can hold.
pub open spec fn clamped(value: int) -> u8 {
    if value < 0 {
        0
    } else if value > 255 {
        255
    } else {
        value as u8
    }
}

/// The handle of the patch procedure of part `part` of the row of package
/// number `row`: 0 for the row itself, 1 to 3 for its name, its summary and
/// its version. Rows beyond what a handle can number share the last handle.
pub open spec fn row_patcher_of(row: int, part: int) -> u64 {
    if 8 + 4 * row + part > u64::MAX {
        u64::MAX
    } else {
        (8 + 4 * row + part) as u64
    }
}

/// The handle of the patch procedure of part `part` of row `row`, computed.
pub fn row_patcher(row: usize, part: u8) -> (patcher: u64)
    requires
        part < 4,
    ensures
        patcher == row_patcher_of(row as int, part as int),
{
    let wide: u128 = 8 + 4 * (row as u128) + (part as u128);
    if wide > u64::MAX as u128 {
        u64::MAX
    } else {
        wide as u64
    }
}

impl App {
    /// The count shown.
    pub closed spec fn shown(&self) -> u8 {
        self.count
    }

    /// The packages listed.
    pub closed spec fn listed(&self) -> Seq<FpRef> {
        self.refs@
    }

    /// The count shown, computed.
    pub fn count(&self) -> (count: u8)
        ensures
            count == self.shown(),
    {
        self.count
    }

    /// The packages listed.
    pub fn refs(&self) -> (refs: &Vec<FpRef>)
        ensures
            refs@ == self.listed(),
    {
        &self.refs
    }

    /// Whether `node` is the row that shows package number `row`: a box with
    /// three labels, for the name, the summary and the version.
    pub open spec fn is_row(node: VNode, row: int) -> bool {
        &&& node.is_object_of(layout_box(), Some(row_patcher_of(row, 0)), 3)
        &&& node.child(0).is_object_of(label(), Some(row_patcher_of(row, 1)), 0)
        &&& node.child(1).is_object_of(label(), Some(row_patcher_of(row, 2)), 0)
        &&& node.child(2).is_object_of(label(), Some(row_patcher_of(row, 3)), 0)
    }

    /// Whether `node` is the application's view of `rows` packages: the
    /// application holds a window, the window a column, and the column a
    /// header bar, the two buttons, the count, and the scrolled list with one
    /// row for each package.
    pub open spec fn is_view(node: VNode, rows: int) -> bool {
        let frame = node.child(0);
        let column = frame.child(0);
        let list = column.child(4).child(0);
        &&& node.is_object_of(application(), None, 1)
        &&& frame.is_object_of(window(), Some(0), 1)
        &&& column.is_object_of(layout_box(), Some(1), 5)
        &&& column.child(0).is_object_of(header_bar(), Some(2), 0)
        &&& column.child(1).is_object_of(button(), Some(3), 0)
        &&& column.child(2).is_object_of(button(), Some(4), 0)
        &&& column.child(3).is_object_of(label(), Some(5), 0)
        &&& column.child(4).is_object_of(scrolled_window(), Some(6), 1)
        &&& list.is_object_of(layout_box(), Some(7), rows)
        &&& forall|i: int| 0 <= i < rows ==> Self::is_row(#[trigger] list.child(i), i)
    }

    /// The row that shows package number `row`: a box with three labels.
    pub fn row(row: usize) -> (node: VNode)
        ensures
            Self::is_row(node, row as int),
            Mirror::buildable(node),
    {
        let name = label().c(row_patcher(row, 1));
        let summary = label().c(row_patcher(row, 2));
        let version = label().c(row_patcher(row, 3));
        let node = layout_box().c(row_patcher(row, 0)).children(
            vec![name, summary, version],
        );
        proof {
            let nodes = node->Object_0.children@;
            assert(Mirror::buildable(nodes[0]));
            assert(Mirror::buildable(nodes[1]));
            assert(Mirror::buildable(nodes[2]));
        }
        node
    }
}

impl Default for App {
    fn default() -> (app: Self)
        ensures
            app.shown() == 0,
            app.listed() == Seq::<FpRef>::empty(),
    {
        App { count: 0, refs: Vec::new() }
    }
}

impl Component for App {
    type Message = AppMessage;

    type Props = Vec<FpRef>;

    fn create(props: Self::Props) -> (app: Self)
        ensures
            app.shown() == 0,
            app.listed() == props@,
    {
        App { count: 0, refs: props }
    }

    fn update(&mut self, message: Self::Message) -> (action: UpdateAction)
        ensures
            action == UpdateAction::Render,
            final(self).shown() == clamped(old(self).shown() + message.delta()),
            final(self).listed() == old(self).listed(),
    {
        match message {
            AppMessage::Increment => {
                if self.count < u8::MAX {
                    self.count = self.count + 1;
                }
            },
            AppMessage::Decrement => {
                if self.count > 0 {
                    self.count = self.count - 1;
                }
            },
            AppMessage::Add(delta) => {
                let sum: i16 = self.count as i16 + delta as i16;
                self.count = if sum < 0 {
                    0
                } else if sum > 255 {
                    255
                } else {
                    sum as u8
                };
            },
        }
        UpdateAction::Render
    }

    fn change(&mut self, props: Self::Props) -> (action: UpdateAction)
        ensures
            action == UpdateAction::Render,
            final(self).shown() == old(self).shown(),
            final(self).listed() == props@,
    {
        self.refs = props;
        UpdateAction::Render
    }

    fn view(&self, context: &ViewContext<Self>) -> (node: VNode)
        ensures
            App::is_view(node, self.listed().len() as int),
            Mirror::buildable(node),
    {
        let mut items: Vec<VNode> = Vec::new();
        let mut i: usize = 0;
        while i < self.refs.len()
            invariant
                i <= self.refs@.len(),
                items@.len() == i,
                forall|j: int|
                    0 <= j < i ==> App::is_row(#[trigger] items@[j], j) && Mirror::buildable(
                        items@[j],
                    ),
            decreases self.refs@.len() - i,
        {
            let item = App::row(i);
            items.push(item);
            i += 1;
        }
        let list = layout_box().c(7).children(items);
        assert(Mirror::buildable(list));
        let scrolled = scrolled_window().c(6).children(vec![list]);
        assert(Mirror::buildable(scrolled)) by {
            assert(Mirror::buildable(scrolled->Object_0.children@[0]));
        }
        let bar = header_bar().c(2);
        let add = button().ce(3);
        let remove = button().ce(4);
        let count = label().c(5);
        let column = layout_box().c(1).children(vec![bar, add, remove, count, scrolled]);
        assert(Mirror::buildable(column)) by {
            let nodes = column->Object_0.children@;
            assert(Mirror::buildable(nodes[0]));
            assert(Mirror::buildable(nodes[1]));
            assert(Mirror::buildable(nodes[2]));
            assert(Mirror::buildable(nodes[3]));
            assert(Mirror::buildable(nodes[4]));
        }
        let frame = window().c(0).children(vec![column]);
        assert(Mirror::buildable(frame)) by {
            assert(Mirror::buildable(frame->Object_0.children@[0]));
        }
        let node = application().cs().children(vec![frame]);
        assert(Mirror::buildable(node)) by {
            assert(Mirror::buildable(node->Object_0.children@[0]));
        }
        node
    }
}

} // verus!
