//! The single-use container that carries props across a type-erased boundary.

use vstd::prelude::*;

verus! {

/// Why an extraction was refused.
#[derive(Clone, Copy, PartialEq, Eq, Structural, Debug)]
pub enum PropsError {
    /// The value has been taken out before.
    Consumed,
    /// The value is of another type than the one asked for.
    TypeMismatch { held: u64, expected: u64 },
}

/// A value of some props type, erased: the identity of its type, the handle
/// under which the embedding program keeps the value, and whether it is still
/// there to be taken. A container is never copied: whoever holds it is the
/// only one who can take the value out.
#[derive(PartialEq, Eq, Structural, Debug)]
pub struct VProps {
    valid: bool,
    type_id: u64,
    data: u64,
}

impl VProps {
    /// Whether the value is still there to be taken.
    pub closed spec fn is_valid(self) -> bool {
        self.valid
    }

    /// The identity of the value's type.
    pub closed spec fn held_type(self) -> u64 {
        self.type_id
    }

    /// The handle of the value.
    pub closed spec fn payload(self) -> u64 {
        self.data
    }

    /// This container after any attempt to take the value out.
    pub closed spec fn spent(self) -> VProps {
        VProps { valid: false, type_id: self.type_id, data: self.data }
    }

    /// What an attempt to take the value out as type `expected` gives. A spent
    /// container is refused before the type is looked at.
    pub open spec fn extraction(self, expected: u64) -> Result<u64, PropsError> {
        if !self.is_valid() {
            Err(PropsError::Consumed)
        } else if self.held_type() != expected {
            Err(PropsError::TypeMismatch { held: self.held_type(), expected })
        } else {
            Ok(self.payload())
        }
    }

    /// Wraps the value kept under `data`, whose type is `type_id`.
    pub fn new(type_id: u64, data: u64) -> (props: VProps)
        ensures
            props.is_valid(),
            props.held_type() == type_id,
            props.payload() == data,
    {
        VProps { valid: true, type_id, data }
    }

    /// Whether the value is still there to be taken, computed.
    pub fn valid(&self) -> (b: bool)
        ensures
            b == self.is_valid(),
    {
        self.valid
    }

    /// The identity of the value's type, computed.
    pub fn type_id(&self) -> (id: u64)
        ensures
            id == self.held_type(),
    {
        self.type_id
    }

    /// Takes the value out as type `expected`. The container is spent
    /// afterwards whatever the answer, so a second attempt is always refused.
    pub fn try_unwrap(&mut self, expected: u64) -> (taken: Result<u64, PropsError>)
        ensures
            taken == old(self).extraction(expected),
            *final(self) == old(self).spent(),
    {
        let was_valid = self.valid;
        self.valid = false;
        if !was_valid {
            Err(PropsError::Consumed)
        } else if self.type_id != expected {
            Err(PropsError::TypeMismatch { held: self.type_id, expected })
        } else {
            Ok(self.data)
        }
    }

    /// Takes the value out of a container that still holds it, as its own type.
    pub fn unwrap(&mut self, expected: u64) -> (data: u64)
        requires
            old(self).is_valid(),
            old(self).held_type() == expected,
        ensures
            data == old(self).payload(),
            *final(self) == old(self).spent(),
    {
        self.valid = false;
        self.data
    }

    /// A spent container is spent for good, and keeps its type and handle.
    pub proof fn lemma_spent(self)
        ensures
            !self.spent().is_valid(),
            self.spent().held_type() == self.held_type(),
            self.spent().payload() == self.payload(),
            self.spent().spent() == self.spent(),
    {
    }

    /// Taking a value out twice is always refused the second time, whatever
    /// types are asked for.
    pub proof fn lemma_second_extraction_refused(self, second: u64)
        ensures
            self.spent().extraction(second) == Err::<u64, PropsError>(PropsError::Consumed),
    {
    }

    /// Asking for another type than the one held is always refused.
    pub proof fn lemma_mismatch_refused(self, expected: u64)
        requires
            self.held_type() != expected,
        ensures
            self.extraction(expected) is Err,
    {
    }

    /// One extraction of a fresh container under its own type always succeeds
    /// and gives back the handle it was made with.
    pub proof fn lemma_single_extraction_succeeds(self)
        requires
            self.is_valid(),
        ensures
            self.extraction(self.held_type()) == Ok::<u64, PropsError>(self.payload()),
    {
    }
}

} // verus!
