//! Opaque version tokens for optimistic-concurrency conflict detection.

use crate::id::Id;
use vstd::prelude::*;

verus! {

/// An opaque identifier for a version of a stored object.
///
/// Equality is the only meaningful relation on versions; a fresh token is
/// minted on every successful mutation of the owning object.
#[derive(Debug)]
pub struct Version {
    v: u64,
}

impl Version {
    /// The raw 64-bit token value.
    pub closed spec fn view(&self) -> u64 {
        self.v
    }

    /// A `Version` with the specified value, for round-tripping through a
    /// storage or wire boundary.
    pub fn new(v: u64) -> (r: Self)
        ensures
            r@ == v,
    {
        Self { v }
    }

    /// Generate a new random `Version`.
    ///
    /// Relies on `rand::random`: conflict detection rests on fresh tokens
    /// being unlikely to repeat; nothing is assumed of the value.
    #[verifier::external_body]
    pub fn new_random() -> Self {
        Self { v: rand::random::<u64>() }
    }

    /// The raw token value, for hand-off to a storage or wire boundary.
    pub fn value(self) -> (r: u64)
        ensures
            r == self@,
    {
        self.v
    }
}

impl Clone for Version {
    fn clone(&self) -> (r: Self)
        ensures
            r == *self,
    {
        Version { v: self.v }
    }
}

impl Copy for Version {}

impl PartialEq for Version {
    fn eq(&self, other: &Self) -> (r: bool) {
        self.v == other.v
    }
}

impl vstd::std_specs::cmp::PartialEqSpecImpl for Version {
    open spec fn obeys_eq_spec() -> bool {
        true
    }

    open spec fn eq_spec(&self, other: &Self) -> bool {
        *self == *other
    }
}

/// An object together with its identifier and current version.
#[derive(Debug)]
pub struct Versioned<T> {
    pub id: Id<T>,
    pub version: Version,
    pub object: T,
}

} // verus!
