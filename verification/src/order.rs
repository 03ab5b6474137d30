//! A total order on query-comparable values.
//!
//! Relational comparators of a [`crate::query::SimpleQuery`] are stated over
//! this trait, so each field type says once what its order and its equality
//! mean.

use vstd::prelude::*;

verus! {

/// A totally ordered value, comparable by executable code.
pub trait Ordered: Sized {
    /// What equality of two values means.
    spec fn eq_spec(&self, other: &Self) -> bool;

    /// The (total) order on values.
    spec fn le_spec(&self, other: &Self) -> bool;

    /// Decide equality.
    fn eq_value(&self, other: &Self) -> (r: bool)
        ensures
            r == self.eq_spec(other),
    ;

    /// Decide the order.
    fn le_value(&self, other: &Self) -> (r: bool)
        ensures
            r == self.le_spec(other),
    ;
}

impl Ordered for u64 {
    open spec fn eq_spec(&self, other: &Self) -> bool {
        *self == *other
    }

    open spec fn le_spec(&self, other: &Self) -> bool {
        *self <= *other
    }

    fn eq_value(&self, other: &Self) -> bool {
        *self == *other
    }

    fn le_value(&self, other: &Self) -> bool {
        *self <= *other
    }
}

impl Ordered for i64 {
    open spec fn eq_spec(&self, other: &Self) -> bool {
        *self == *other
    }

    open spec fn le_spec(&self, other: &Self) -> bool {
        *self <= *other
    }

    fn eq_value(&self, other: &Self) -> bool {
        *self == *other
    }

    fn le_value(&self, other: &Self) -> bool {
        *self <= *other
    }
}

/// Lexicographic order on character sequences: the order of `String`s.
pub open spec fn lex_le(a: Seq<char>, b: Seq<char>) -> bool
    decreases a.len(),
{
    if a.len() == 0 {
        true
    } else if b.len() == 0 {
        false
    } else if a[0] == b[0] {
        lex_le(a.drop_first(), b.drop_first())
    } else {
        (a[0] as u32) < (b[0] as u32)
    }
}

impl Ordered for String {
    open spec fn eq_spec(&self, other: &Self) -> bool {
        self@ == other@
    }

    open spec fn le_spec(&self, other: &Self) -> bool {
        lex_le(self@, other@)
    }

    fn eq_value(&self, other: &Self) -> bool {
        *self == *other
    }

    fn le_value(&self, other: &Self) -> (r: bool)
        ensures
            r == self.le_spec(other),
    {
        let a = self.as_str();
        let b = other.as_str();
        let a_len = a.unicode_len();
        let b_len = b.unicode_len();
        let mut i: usize = 0;
        proof {
            assert(a@.skip(0) =~= a@);
            assert(b@.skip(0) =~= b@);
        }
        while i < a_len && i < b_len
            invariant
                a@ == self@,
                b@ == other@,
                a_len == a@.len(),
                b_len == b@.len(),
                i <= a_len,
                i <= b_len,
                lex_le(self@, other@) == lex_le(a@.skip(i as int), b@.skip(i as int)),
            decreases a_len - i,
        {
            let ca = a.get_char(i);
            let cb = b.get_char(i);
            proof {
                assert(a@.skip(i as int)[0] == a@[i as int]);
                assert(b@.skip(i as int)[0] == b@[i as int]);
            }
            if ca == cb {
                proof {
                    assert(a@.skip(i as int).drop_first() =~= a@.skip(i as int + 1));
                    assert(b@.skip(i as int).drop_first() =~= b@.skip(i as int + 1));
                }
                i = i + 1;
            } else {
                return (ca as u32) < (cb as u32);
            }
        }
        proof {
            if i == a_len {
                assert(a@.skip(i as int).len() == 0);
            } else {
                assert(b@.skip(i as int).len() == 0);
                assert(a@.skip(i as int).len() > 0);
            }
        }
        a_len <= b_len
    }
}

} // verus!
