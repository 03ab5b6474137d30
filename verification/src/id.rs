//! Typed 64-bit identifiers for resources.

use core::marker::PhantomData;
use vstd::prelude::*;

verus! {

/// A typed 64-bit identifier for a resource.
///
/// The type parameter tags the identifier with the entity kind it names;
/// at run time an `Id<T>` is nothing but its 64-bit value, and equality
/// is equality of that value.
#[derive(Debug)]
pub struct Id<T> {
    id: u64,
    _tag: PhantomData<T>,
}

impl<T> Id<T> {
    /// The raw 64-bit value, the mathematical meaning of an `Id`.
    pub closed spec fn view(&self) -> u64 {
        self.id
    }

    /// Generate a new `Id` with the specified value.
    pub fn new(id: u64) -> (r: Self)
        ensures
            r@ == id,
    {
        Self { id, _tag: PhantomData }
    }

    /// Generate a new random `Id`.
    ///
    /// Relies on `rand::random`: the quality of the identifier (collision
    /// resistance) rests on the generator; nothing is assumed of the value.
    #[verifier::external_body]
    pub fn new_random() -> Self {
        Self { id: rand::random::<u64>(), _tag: PhantomData }
    }

    /// Produce an identical `Id` for a different entity kind.
    pub fn transmute<U>(self) -> (r: Id<U>)
        ensures
            r@ == self@,
    {
        Id { id: self.id, _tag: PhantomData }
    }

    /// The raw value, for hand-off to a storage or wire boundary.
    pub fn value(self) -> (r: u64)
        ensures
            r == self@,
    {
        self.id
    }
}

impl<T> Clone for Id<T> {
    fn clone(&self) -> (r: Self)
        ensures
            r == *self,
    {
        Id { id: self.id, _tag: PhantomData }
    }
}

impl<T> Copy for Id<T> {}

impl<T> PartialEq for Id<T> {
    fn eq(&self, other: &Self) -> (r: bool) {
        self.id == other.id
    }
}

impl<T> vstd::std_specs::cmp::PartialEqSpecImpl for Id<T> {
    open spec fn obeys_eq_spec() -> bool {
        true
    }

    open spec fn eq_spec(&self, other: &Self) -> bool {
        *self == *other
    }
}

impl<T> crate::pairs::Key for Id<T> {
    fn same(&self, other: &Self) -> (r: bool) {
        self.id == other.id
    }
}

impl<T> crate::order::Ordered for Id<T> {
    open spec fn eq_spec(&self, other: &Self) -> bool {
        self == other
    }

    open spec fn le_spec(&self, other: &Self) -> bool {
        self@ <= other@
    }

    fn eq_value(&self, other: &Self) -> bool {
        self.id == other.id
    }

    fn le_value(&self, other: &Self) -> bool {
        self.id <= other.id
    }
}

/// Identifiers with equal values are the same identifier.
pub proof fn lemma_id_view_injective<T>(a: Id<T>, b: Id<T>)
    requires
        a@ == b@,
    ensures
        a == b,
{
}

/// An object paired with its identifier.
#[derive(Debug)]
pub struct WithId<T> {
    pub id: Id<T>,
    pub object: T,
}

} // verus!
