//! Leaf predicates of the query language.
//!
//! A [`SimpleQuery`] binds values to comparators over one field; it is
//! satisfied exactly when every bound comparison holds (a conjunction), so
//! the empty query matches every value.

use crate::order::Ordered;
use vstd::prelude::*;

verus! {

/// A per-entity predicate: whether an object matches the query.
pub trait Query<T> {
    /// What matching means.
    spec fn matches_spec(&self, object: &T) -> bool;

    /// Whether the object matches this query.
    fn matches(&self, object: &T) -> (r: bool)
        ensures
            r == self.matches_spec(object),
    ;
}

/// An entity kind with an associated query type.
pub trait Queryable: Sized {
    /// The query type over this entity kind.
    type Query: Query<Self>;

    /// The name under which a storage backend files this entity kind.
    fn entity_name() -> &'static str;
}

/// Whether some element of the sequence equals the value, under the
/// type's own notion of equality.
pub open spec fn contains_value<T: Ordered>(s: Seq<T>, value: T) -> bool {
    exists|i: int| 0 <= i < s.len() && (#[trigger] s[i]).eq_spec(&value)
}

/// A conjunction of comparator-bound conditions on a single field.
///
/// Each set comparator must hold for a value to match; an empty query
/// matches everything.
#[derive(Debug, PartialEq)]
pub struct SimpleQuery<T> {
    pub eq: Option<T>,
    pub ne: Option<T>,
    pub gt: Option<T>,
    pub ge: Option<T>,
    pub lt: Option<T>,
    pub le: Option<T>,
    pub in_: Option<Vec<T>>,
    pub nin: Option<Vec<T>>,
}

impl<T: Ordered> SimpleQuery<T> {
    /// What it means for a value to satisfy every bound comparator.
    pub open spec fn matches_spec(&self, object: &T) -> bool {
        &&& (self.eq matches Some(v) ==> object.eq_spec(&v))
        &&& (self.ne matches Some(v) ==> !object.eq_spec(&v))
        &&& (self.gt matches Some(v) ==> !object.le_spec(&v))
        &&& (self.ge matches Some(v) ==> v.le_spec(object))
        &&& (self.lt matches Some(v) ==> !v.le_spec(object))
        &&& (self.le matches Some(v) ==> object.le_spec(&v))
        &&& (self.in_ matches Some(vs) ==> contains_value(vs@, *object))
        &&& (self.nin matches Some(vs) ==> !contains_value(vs@, *object))
    }

    /// The query with no conditions, matching every value.
    pub fn none() -> (r: Self)
        ensures
            r == (SimpleQuery {
                eq: None::<T>,
                ne: None::<T>,
                gt: None::<T>,
                ge: None::<T>,
                lt: None::<T>,
                le: None::<T>,
                in_: None::<Vec<T>>,
                nin: None::<Vec<T>>,
            }),
            forall|object: T| #[trigger] r.matches_spec(&object),
    {
        SimpleQuery {
            eq: None,
            ne: None,
            gt: None,
            ge: None,
            lt: None,
            le: None,
            in_: None,
            nin: None,
        }
    }

    /// The query that requires equality with the value.
    pub fn eq(value: T) -> (r: Self)
        ensures
            r.eq == Some(value),
            r.ne is None && r.gt is None && r.ge is None && r.lt is None && r.le is None
                && r.in_ is None && r.nin is None,
            forall|object: T| #[trigger] r.matches_spec(&object) == object.eq_spec(&value),
    {
        let mut r = Self::none();
        r.eq = Some(value);
        r
    }

    /// The query that requires membership in the list.
    pub fn in_(values: Vec<T>) -> (r: Self)
        ensures
            r.in_ matches Some(vs) && vs@ == values@,
            r.eq is None && r.ne is None && r.gt is None && r.ge is None && r.lt is None
                && r.le is None && r.nin is None,
            forall|object: T|
                #[trigger] r.matches_spec(&object) == contains_value(values@, object),
    {
        let mut r = Self::none();
        r.in_ = Some(values);
        r
    }

    /// Whether the value satisfies every bound comparator.
    pub fn matches(&self, object: &T) -> (r: bool)
        ensures
            r == self.matches_spec(object),
    {
        let c_eq = match &self.eq {
            Some(v) => object.eq_value(v),
            None => true,
        };
        let c_ne = match &self.ne {
            Some(v) => !object.eq_value(v),
            None => true,
        };
        let c_gt = match &self.gt {
            Some(v) => !object.le_value(v),
            None => true,
        };
        let c_ge = match &self.ge {
            Some(v) => v.le_value(object),
            None => true,
        };
        let c_lt = match &self.lt {
            Some(v) => !v.le_value(object),
            None => true,
        };
        let c_le = match &self.le {
            Some(v) => object.le_value(v),
            None => true,
        };
        let c_in = match &self.in_ {
            Some(vs) => contains_val(vs.as_slice(), object),
            None => true,
        };
        let c_nin = match &self.nin {
            Some(vs) => !contains_val(vs.as_slice(), object),
            None => true,
        };
        c_eq && c_ne && c_gt && c_ge && c_lt && c_le && c_in && c_nin
    }
}

/// How an optional bound value relates to its image under a mapping
/// function.
pub open spec fn opt_mapped_by<T, U, F: Fn(T) -> U>(f: F, a: Option<T>, b: Option<U>) -> bool {
    match (a, b) {
        (Some(t), Some(u)) => call_ensures(f, (t,), u),
        (None, None) => true,
        _ => false,
    }
}

/// How an optional bound value list relates to its elementwise image
/// under a mapping function.
pub open spec fn list_mapped_by<T, U, F: Fn(T) -> U>(
    f: F,
    a: Option<Vec<T>>,
    b: Option<Vec<U>>,
) -> bool {
    match (a, b) {
        (Some(ts), Some(us)) => us@.len() == ts@.len() && forall|i: int|
            #![trigger ts@[i], us@[i]]
            0 <= i < ts@.len() ==> call_ensures(f, (ts@[i],), us@[i]),
        (None, None) => true,
        _ => false,
    }
}

impl<T> SimpleQuery<T> {
    /// Transform every bound value of the query with a function,
    /// keeping each comparator bound or unbound as it was.
    pub fn map<U, F: Fn(T) -> U>(self, f: F) -> (r: SimpleQuery<U>)
        requires
            forall|t: T| #[trigger] f.requires((t,)),
        ensures
            opt_mapped_by(f, self.eq, r.eq),
            opt_mapped_by(f, self.ne, r.ne),
            opt_mapped_by(f, self.gt, r.gt),
            opt_mapped_by(f, self.ge, r.ge),
            opt_mapped_by(f, self.lt, r.lt),
            opt_mapped_by(f, self.le, r.le),
            list_mapped_by(f, self.in_, r.in_),
            list_mapped_by(f, self.nin, r.nin),
    {
        let SimpleQuery { eq, ne, gt, ge, lt, le, in_, nin } = self;
        SimpleQuery {
            eq: map_opt(eq, &f),
            ne: map_opt(ne, &f),
            gt: map_opt(gt, &f),
            ge: map_opt(ge, &f),
            lt: map_opt(lt, &f),
            le: map_opt(le, &f),
            in_: map_list(in_, &f),
            nin: map_list(nin, &f),
        }
    }
}

/// Transform an optional bound value.
fn map_opt<T, U, F: Fn(T) -> U>(a: Option<T>, f: &F) -> (r: Option<U>)
    requires
        forall|t: T| #[trigger] f.requires((t,)),
    ensures
        opt_mapped_by(*f, a, r),
{
    match a {
        Some(t) => Some(f(t)),
        None => None,
    }
}

/// Transform an optional bound value list, elementwise.
#[verifier::loop_isolation(false)]
fn map_list<T, U, F: Fn(T) -> U>(a: Option<Vec<T>>, f: &F) -> (r: Option<Vec<U>>)
    requires
        forall|t: T| #[trigger] f.requires((t,)),
    ensures
        list_mapped_by(*f, a, r),
{
    match a {
        None => None,
        Some(ts) => {
            let ghost ts_seq = ts@;
            let mut us: Vec<U> = Vec::new();
            let mut ts_iter = ts;
            let mut i: usize = 0;
            let n = ts_iter.len();
            proof {
                assert(ts_seq.skip(0) =~= ts_seq);
            }
            while i < n
                invariant
                    n == ts_seq.len(),
                    i <= n,
                    ts_iter@ == ts_seq.skip(i as int),
                    us@.len() == i,
                    forall|j: int|
                        #![trigger ts_seq[j], us@[j]]
                        0 <= j < i ==> call_ensures(*f, (ts_seq[j],), us@[j]),
                decreases n - i,
            {
                let t = ts_iter.remove(0);
                proof {
                    assert(t == ts_seq[i as int]);
                    assert(ts_iter@ =~= ts_seq.skip(i + 1));
                }
                us.push(f(t));
                i = i + 1;
            }
            Some(us)
        },
    }
}

/// Whether some element of the slice equals the value.
pub fn contains_val<T: Ordered>(values: &[T], value: &T) -> (r: bool)
    ensures
        r == contains_value(values@, *value),
{
    let mut i: usize = 0;
    while i < values.len()
        invariant
            i <= values@.len(),
            forall|j: int| 0 <= j < i ==> !(#[trigger] values@[j]).eq_spec(value),
        decreases values@.len() - i,
    {
        if values[i].eq_value(value) {
            return true;
        }
        i = i + 1;
    }
    false
}

} // verus!

verus! {

/// A borrowed form of a [`SimpleQuery`]: the same conjunction of
/// comparator-bound conditions, holding references into an owned query.
#[derive(Debug)]
pub struct SimpleQueryRef<'a, T> {
    pub eq: Option<&'a T>,
    pub ne: Option<&'a T>,
    pub gt: Option<&'a T>,
    pub ge: Option<&'a T>,
    pub lt: Option<&'a T>,
    pub le: Option<&'a T>,
    pub in_: Option<&'a [T]>,
    pub nin: Option<&'a [T]>,
}

impl<'a, T> Clone for SimpleQueryRef<'a, T> {
    fn clone(&self) -> (r: Self)
        ensures
            r == *self,
    {
        SimpleQueryRef {
            eq: self.eq,
            ne: self.ne,
            gt: self.gt,
            ge: self.ge,
            lt: self.lt,
            le: self.le,
            in_: self.in_,
            nin: self.nin,
        }
    }
}

impl<'a, T> Copy for SimpleQueryRef<'a, T> {}

/// The borrowed bound value, if any, refers to the owned one.
pub open spec fn opt_ref_of<T>(a: Option<T>, b: Option<&T>) -> bool {
    match (a, b) {
        (Some(x), Some(y)) => *y == x,
        (None, None) => true,
        _ => false,
    }
}

/// The borrowed bound list, if any, holds the owned values.
pub open spec fn list_ref_of<T>(a: Option<Vec<T>>, b: Option<&[T]>) -> bool {
    match (a, b) {
        (Some(xs), Some(ys)) => ys@ == xs@,
        (None, None) => true,
        _ => false,
    }
}

impl<'a, T: Ordered> SimpleQueryRef<'a, T> {
    /// What it means for a value to satisfy every bound comparator.
    pub open spec fn matches_spec(&self, object: &T) -> bool {
        &&& (self.eq matches Some(v) ==> object.eq_spec(v))
        &&& (self.ne matches Some(v) ==> !object.eq_spec(v))
        &&& (self.gt matches Some(v) ==> !object.le_spec(v))
        &&& (self.ge matches Some(v) ==> v.le_spec(object))
        &&& (self.lt matches Some(v) ==> !v.le_spec(object))
        &&& (self.le matches Some(v) ==> object.le_spec(v))
        &&& (self.in_ matches Some(vs) ==> contains_value(vs@, *object))
        &&& (self.nin matches Some(vs) ==> !contains_value(vs@, *object))
    }

    /// The borrowed query with no conditions, matching every value.
    pub fn none() -> (r: Self)
        ensures
            r.eq is None && r.ne is None && r.gt is None && r.ge is None && r.lt is None
                && r.le is None && r.in_ is None && r.nin is None,
            forall|object: T| #[trigger] r.matches_spec(&object),
    {
        SimpleQueryRef {
            eq: None,
            ne: None,
            gt: None,
            ge: None,
            lt: None,
            le: None,
            in_: None,
            nin: None,
        }
    }

    /// The borrowed query that requires equality with the value.
    pub fn eq(value: &'a T) -> (r: Self)
        ensures
            r.eq == Some(value),
            r.ne is None && r.gt is None && r.ge is None && r.lt is None && r.le is None
                && r.in_ is None && r.nin is None,
            forall|object: T| #[trigger] r.matches_spec(&object) == object.eq_spec(value),
    {
        let mut r = Self::none();
        r.eq = Some(value);
        r
    }

    /// The borrowed query that requires membership in the list.
    pub fn in_(values: &'a [T]) -> (r: Self)
        ensures
            r.in_ == Some(values),
            r.eq is None && r.ne is None && r.gt is None && r.ge is None && r.lt is None
                && r.le is None && r.nin is None,
            forall|object: T|
                #[trigger] r.matches_spec(&object) == contains_value(values@, object),
    {
        let mut r = Self::none();
        r.in_ = Some(values);
        r
    }

    /// Whether the value satisfies every bound comparator.
    pub fn matches(&self, object: &T) -> (r: bool)
        ensures
            r == self.matches_spec(object),
    {
        let c_eq = match self.eq {
            Some(v) => object.eq_value(v),
            None => true,
        };
        let c_ne = match self.ne {
            Some(v) => !object.eq_value(v),
            None => true,
        };
        let c_gt = match self.gt {
            Some(v) => !object.le_value(v),
            None => true,
        };
        let c_ge = match self.ge {
            Some(v) => v.le_value(object),
            None => true,
        };
        let c_lt = match self.lt {
            Some(v) => !v.le_value(object),
            None => true,
        };
        let c_le = match self.le {
            Some(v) => object.le_value(v),
            None => true,
        };
        let c_in = match self.in_ {
            Some(vs) => contains_val(vs, object),
            None => true,
        };
        let c_nin = match self.nin {
            Some(vs) => !contains_val(vs, object),
            None => true,
        };
        c_eq && c_ne && c_gt && c_ge && c_lt && c_le && c_in && c_nin
    }
}

impl<T: Ordered> SimpleQuery<T> {
    /// Borrow the query's bound values.
    pub fn as_ref(&self) -> (r: SimpleQueryRef<T>)
        ensures
            opt_ref_of(self.eq, r.eq),
            opt_ref_of(self.ne, r.ne),
            opt_ref_of(self.gt, r.gt),
            opt_ref_of(self.ge, r.ge),
            opt_ref_of(self.lt, r.lt),
            opt_ref_of(self.le, r.le),
            list_ref_of(self.in_, r.in_),
            list_ref_of(self.nin, r.nin),
            forall|object: T|
                #[trigger] r.matches_spec(&object) == self.matches_spec(&object),
    {
        SimpleQueryRef {
            eq: self.eq.as_ref(),
            ne: self.ne.as_ref(),
            gt: self.gt.as_ref(),
            ge: self.ge.as_ref(),
            lt: self.lt.as_ref(),
            le: self.le.as_ref(),
            in_: match &self.in_ {
                Some(vs) => Some(vs.as_slice()),
                None => None,
            },
            nin: match &self.nin {
                Some(vs) => Some(vs.as_slice()),
                None => None,
            },
        }
    }
}


/// How an optional borrowed value relates to its image under a mapping
/// function over references.
pub open spec fn opt_ref_mapped_by<'a, T, U, F: Fn(&'a T) -> U>(
    f: F,
    a: Option<&'a T>,
    b: Option<U>,
) -> bool {
    match (a, b) {
        (Some(t), Some(u)) => call_ensures(f, (t,), u),
        (None, None) => true,
        _ => false,
    }
}

/// How an optional borrowed list relates to its elementwise image under
/// a mapping function over references.
pub open spec fn list_ref_mapped_by<'a, T, U, F: Fn(&'a T) -> U>(
    f: F,
    a: Option<&'a [T]>,
    b: Option<Vec<U>>,
) -> bool {
    match (a, b) {
        (Some(ts), Some(us)) => us@.len() == ts@.len() && forall|i: int|
            #![trigger ts@[i], us@[i]]
            0 <= i < ts@.len() ==> call_ensures(f, (&ts@[i],), us@[i]),
        (None, None) => true,
        _ => false,
    }
}

impl<'a, T> SimpleQueryRef<'a, T> {
    /// Transform every bound value of the borrowed query with a
    /// function, producing an owned query with each comparator bound or
    /// unbound as it was.
    pub fn map<U, F: Fn(&'a T) -> U>(&self, f: F) -> (r: SimpleQuery<U>)
        requires
            forall|t: &'a T| #[trigger] f.requires((t,)),
        ensures
            opt_ref_mapped_by(f, self.eq, r.eq),
            opt_ref_mapped_by(f, self.ne, r.ne),
            opt_ref_mapped_by(f, self.gt, r.gt),
            opt_ref_mapped_by(f, self.ge, r.ge),
            opt_ref_mapped_by(f, self.lt, r.lt),
            opt_ref_mapped_by(f, self.le, r.le),
            list_ref_mapped_by(f, self.in_, r.in_),
            list_ref_mapped_by(f, self.nin, r.nin),
    {
        SimpleQuery {
            eq: map_ref_opt(self.eq, &f),
            ne: map_ref_opt(self.ne, &f),
            gt: map_ref_opt(self.gt, &f),
            ge: map_ref_opt(self.ge, &f),
            lt: map_ref_opt(self.lt, &f),
            le: map_ref_opt(self.le, &f),
            in_: map_ref_list(self.in_, &f),
            nin: map_ref_list(self.nin, &f),
        }
    }
}

/// Transform an optional borrowed value.
fn map_ref_opt<'a, T, U, F: Fn(&'a T) -> U>(a: Option<&'a T>, f: &F) -> (r: Option<U>)
    requires
        forall|t: &'a T| #[trigger] f.requires((t,)),
    ensures
        opt_ref_mapped_by(*f, a, r),
{
    match a {
        Some(t) => Some(f(t)),
        None => None,
    }
}

/// Transform an optional borrowed list, elementwise.
#[verifier::loop_isolation(false)]
fn map_ref_list<'a, T, U, F: Fn(&'a T) -> U>(a: Option<&'a [T]>, f: &F) -> (r: Option<Vec<U>>)
    requires
        forall|t: &'a T| #[trigger] f.requires((t,)),
    ensures
        list_ref_mapped_by(*f, a, r),
{
    match a {
        None => None,
        Some(ts) => {
            let mut us: Vec<U> = Vec::new();
            let mut i: usize = 0;
            while i < ts.len()
                invariant
                    i <= ts@.len(),
                    us@.len() == i,
                    forall|j: int|
                        #![trigger us@[j]]
                        0 <= j < i ==> call_ensures(*f, (&ts@[j],), us@[j]),
                decreases ts@.len() - i,
            {
                let t = &ts[i];
                us.push(f(t));
                proof {
                    assert(call_ensures(*f, (&ts@[i as int],), us@[i as int]));
                }
                i = i + 1;
            }
            Some(us)
        },
    }
}

} // verus!
