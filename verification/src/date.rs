//! Calendar dates as Julian day numbers.

use crate::order::Ordered;
use vstd::prelude::*;

verus! {

/// A calendar date, held as its Julian day number.
///
/// The day number is the form in which a date crosses a storage boundary;
/// rendering and calendar arithmetic belong to the application around the
/// library.
#[derive(Clone, Copy, Debug, PartialEq, Eq, Structural)]
pub struct Date {
    jdn: i32,
}

impl Date {
    /// The Julian day number, the mathematical meaning of a `Date`.
    pub closed spec fn view(&self) -> int {
        self.jdn as int
    }

    /// The Julian day number, as a machine value.
    pub closed spec fn spec_jdn(&self) -> i32 {
        self.jdn
    }

    /// The machine value of the day number agrees with the mathematical
    /// one.
    pub proof fn lemma_jdn_agrees(&self)
        ensures
            self.spec_jdn() as int == self@,
    {
    }

    /// The date with the given Julian day number.
    pub fn from_julian_day(jdn: i32) -> (r: Self)
        ensures
            r@ == jdn,
    {
        Date { jdn }
    }

    /// The Julian day number, for hand-off to a storage boundary.
    pub fn to_julian_day(self) -> (r: i32)
        ensures
            r == self@,
    {
        self.jdn
    }
}

impl Ordered for Date {
    open spec fn eq_spec(&self, other: &Self) -> bool {
        self@ == other@
    }

    open spec fn le_spec(&self, other: &Self) -> bool {
        self@ <= other@
    }

    fn eq_value(&self, other: &Self) -> bool {
        self.jdn == other.jdn
    }

    fn le_value(&self, other: &Self) -> bool {
        self.jdn <= other.jdn
    }
}

} // verus!
