//! A function handed down into a view, so that what happens below can be
//! reported upward.

use std::marker::PhantomData;
use std::rc::Rc;
use vstd::prelude::*;

verus! {

/// A shared function that takes values of type `A`, or nothing. It is handed
/// to a descendant, which reports through it without knowing who listens. The
/// function accepts every value of `A`.
#[verifier::reject_recursive_types(A)]
pub struct Callback<A, F: Fn(A)> {
    target: Option<Rc<F>>,
    marker: PhantomData<A>,
}

impl<A, F: Fn(A)> Callback<A, F> {
    #[verifier::type_invariant]
    spec fn accepts_all(self) -> bool {
        self.target matches Some(f) ==> forall|value: A| call_requires(*f, (value,))
    }

    /// The function held, if any.
    pub closed spec fn function(self) -> Option<F> {
        match self.target {
            Some(f) => Some(*f),
            None => None,
        }
    }

    /// A callback that holds nothing: sending to it does nothing.
    pub fn empty() -> (callback: Self)
        ensures
            callback.function() is None,
    {
        Callback { target: None, marker: PhantomData }
    }

    /// A callback that holds `f`.
    pub fn new(f: F) -> (callback: Self)
        requires
            forall|value: A| call_requires(f, (value,)),
        ensures
            callback.function() == Some(f),
    {
        Callback { target: Some(Rc::new(f)), marker: PhantomData }
    }

    /// Calls the function held, if any, on `value`.
    pub fn send(&self, value: A)
        ensures
            self.function() matches Some(f) ==> call_ensures(f, (value,), ()),
    {
        proof {
            use_type_invariant(self);
        }
        if let Some(callback) = &self.target {
            callback(value)
        }
    }

    /// Whether nothing is held.
    pub fn is_empty(&self) -> (b: bool)
        ensures
            b == (self.function() is None),
    {
        self.target.is_none()
    }
}

impl<A, F: Fn(A)> Default for Callback<A, F> {
    fn default() -> (callback: Self)
        ensures
            callback.function() is None,
    {
        Callback::empty()
    }
}

impl<A, F: Fn(A)> Clone for Callback<A, F> {
    fn clone(&self) -> (callback: Self)
        ensures
            callback.function() == self.function(),
    {
        proof {
            use_type_invariant(self);
        }
        match &self.target {
            Some(f) => Callback { target: Some(Rc::clone(f)), marker: PhantomData },
            None => Callback { target: None, marker: PhantomData },
        }
    }
}

} // verus!
