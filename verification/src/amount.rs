//! Monetary amounts in minor currency units.

use crate::order::Ordered;
use vstd::prelude::*;

verus! {

/// A monetary amount, held as a count of minor currency units.
///
/// Credits are negative, debits are positive.
#[derive(Clone, Copy, Debug, PartialEq, Eq, Structural)]
pub struct Amount {
    minor: i64,
}

impl Amount {
    /// The signed count of minor units, the mathematical meaning of an
    /// `Amount`.
    pub closed spec fn view(&self) -> int {
        self.minor as int
    }

    /// The signed count of minor units, as a machine value.
    pub closed spec fn spec_minor(&self) -> i64 {
        self.minor
    }

    /// The machine value of the count agrees with the mathematical one.
    pub proof fn lemma_minor_agrees(&self)
        ensures
            self.spec_minor() as int == self@,
    {
    }

    /// The zero amount, as a mathematical value.
    pub closed spec fn spec_zero() -> Amount {
        Amount { minor: 0 }
    }

    /// The zero amount.
    pub fn zero() -> (r: Self)
        ensures
            r == Self::spec_zero(),
            r@ == 0,
    {
        Amount { minor: 0 }
    }

    /// An amount of the given count of minor units.
    pub fn new(minor: i64) -> (r: Self)
        ensures
            r@ == minor,
    {
        Amount { minor }
    }

    /// The signed count of minor units, for hand-off to a storage boundary.
    pub fn value(self) -> (r: i64)
        ensures
            r == self@,
    {
        self.minor
    }

    /// Returns whether the amount is a debit amount.
    pub fn is_debit(self) -> (r: bool)
        ensures
            r == (self@ > 0),
    {
        self.minor > 0
    }

    /// Returns whether the amount is a credit amount.
    pub fn is_credit(self) -> (r: bool)
        ensures
            r == (self@ < 0),
    {
        self.minor < 0
    }

    /// Returns whether the amount is zero.
    pub fn is_zero(self) -> (r: bool)
        ensures
            r == (self@ == 0),
    {
        self.minor == 0
    }
}

impl Ordered for Amount {
    open spec fn eq_spec(&self, other: &Self) -> bool {
        self@ == other@
    }

    open spec fn le_spec(&self, other: &Self) -> bool {
        self@ <= other@
    }

    fn eq_value(&self, other: &Self) -> bool {
        self.minor == other.minor
    }

    fn le_value(&self, other: &Self) -> bool {
        self.minor <= other.minor
    }
}

} // verus!
