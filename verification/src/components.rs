//! Example components, and the toolkit types their views are made of.

pub mod app;
pub mod counter;

use vstd::prelude::*;

use crate::reactive::host::{HostClass, ObjectType};

verus! {

/// The application object.
#[verifier::allow_in_spec]
pub fn application() -> ObjectType
    returns
        (ObjectType { id: 1, class: HostClass::RootContainer }),
{
    ObjectType { id: 1, class: HostClass::RootContainer }
}

/// A top-level window.
#[verifier::allow_in_spec]
pub fn window() -> ObjectType
    returns
        (ObjectType { id: 2, class: HostClass::WindowLike }),
{
    ObjectType { id: 2, class: HostClass::WindowLike }
}

/// A header bar.
#[verifier::allow_in_spec]
pub fn header_bar() -> ObjectType
    returns
        (ObjectType { id: 3, class: HostClass::BarLike }),
{
    ObjectType { id: 3, class: HostClass::BarLike }
}

/// A scrolled window.
#[verifier::allow_in_spec]
pub fn scrolled_window() -> ObjectType
    returns
        (ObjectType { id: 4, class: HostClass::Scrollable }),
{
    ObjectType { id: 4, class: HostClass::Scrollable }
}

/// A box that lays its children out in a row or a column.
#[verifier::allow_in_spec]
pub fn layout_box() -> ObjectType
    returns
        (ObjectType { id: 5, class: HostClass::GenericBox }),
{
    ObjectType { id: 5, class: HostClass::GenericBox }
}

/// A button.
#[verifier::allow_in_spec]
pub fn button() -> ObjectType
    returns
        (ObjectType { id: 6, class: HostClass::Widget }),
{
    ObjectType { id: 6, class: HostClass::Widget }
}

/// A label.
#[verifier::allow_in_spec]
pub fn label() -> ObjectType
    returns
        (ObjectType { id: 7, class: HostClass::Widget }),
{
    ObjectType { id: 7, class: HostClass::Widget }
}

} // verus!
