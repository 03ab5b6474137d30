//! A composable boolean algebra over leaf predicates.
//!
//! [`BooleanExpr`] is a recursive AND/OR/NOT tree over leaves of any type.
//! `All` is universal quantification over its children (so the empty `All`
//! matches everything) and `Any` is existential (so the empty `Any` matches
//! nothing). The smart constructors [`BooleanExpr::and`] and
//! [`BooleanExpr::or`] flatten adjacent nodes of the same kind, and
//! [`BooleanExpr::not`] collapses a double negation; each normalization
//! preserves truth under every leaf valuation.

use crate::query::Query;
use vstd::prelude::*;

verus! {

/// A recursive AND/OR/NOT tree over leaf predicates.
#[derive(Debug, PartialEq)]
pub enum BooleanExpr<T> {
    /// A leaf predicate.
    Value(T),
    /// The negation of an expression.
    Not(Box<BooleanExpr<T>>),
    /// At least one of the children holds; the empty `Any` never holds.
    Any(Vec<BooleanExpr<T>>),
    /// Every child holds; the empty `All` always holds.
    All(Vec<BooleanExpr<T>>),
}

impl<T> BooleanExpr<T> {
    /// Whether the expression holds under a valuation of its leaves.
    pub open spec fn holds(self, leaf: spec_fn(T) -> bool) -> bool
        decreases self,
    {
        match self {
            BooleanExpr::Value(value) => leaf(value),
            BooleanExpr::Not(inner) => !inner.holds(leaf),
            BooleanExpr::Any(clauses) => exists|i: int|
                0 <= i < clauses@.len() && (#[trigger] clauses@[i]).holds(leaf),
            BooleanExpr::All(clauses) => forall|i: int|
                0 <= i < clauses@.len() ==> (#[trigger] clauses@[i]).holds(leaf),
        }
    }

    /// What [`BooleanExpr::and`] returns: a single flat `All` node.
    pub open spec fn is_and_of(a: Self, b: Self, r: Self) -> bool {
        match (a, b) {
            (BooleanExpr::All(xs), BooleanExpr::All(ys)) => r matches BooleanExpr::All(zs)
                && zs@ == xs@ + ys@,
            (BooleanExpr::All(xs), y) => r matches BooleanExpr::All(zs) && zs@ == xs@.push(y),
            (x, BooleanExpr::All(ys)) => r matches BooleanExpr::All(zs) && zs@ == ys@.push(x),
            (x, y) => r matches BooleanExpr::All(zs) && zs@.len() == 2 && zs@[0] == x && zs@[1]
                == y,
        }
    }

    /// What [`BooleanExpr::or`] returns: a single flat `Any` node.
    pub open spec fn is_or_of(a: Self, b: Self, r: Self) -> bool {
        match (a, b) {
            (BooleanExpr::Any(xs), BooleanExpr::Any(ys)) => r matches BooleanExpr::Any(zs)
                && zs@ == xs@ + ys@,
            (BooleanExpr::Any(xs), y) => r matches BooleanExpr::Any(zs) && zs@ == xs@.push(y),
            (x, BooleanExpr::Any(ys)) => r matches BooleanExpr::Any(zs) && zs@ == ys@.push(x),
            (x, y) => r matches BooleanExpr::Any(zs) && zs@.len() == 2 && zs@[0] == x && zs@[1]
                == y,
        }
    }

    /// What [`BooleanExpr::not`] returns: the operand unwrapped if it was a
    /// negation, and its negation otherwise.
    pub open spec fn spec_not(a: Self) -> Self {
        match a {
            BooleanExpr::Not(inner) => *inner,
            other => BooleanExpr::Not(Box::new(other)),
        }
    }

    /// The conjunction of this expression and another, flattening adjacent
    /// `All` nodes into one.
    pub fn and(self, other: Self) -> (r: Self)
        ensures
            Self::is_and_of(self, other, r),
    {
        match (self, other) {
            (BooleanExpr::All(mut a), BooleanExpr::All(mut b)) => {
                a.append(&mut b);
                BooleanExpr::All(a)
            },
            (BooleanExpr::All(mut a), other) => {
                a.push(other);
                BooleanExpr::All(a)
            },
            (other, BooleanExpr::All(mut a)) => {
                a.push(other);
                BooleanExpr::All(a)
            },
            (a, b) => {
                let mut clauses = Vec::new();
                clauses.push(a);
                clauses.push(b);
                BooleanExpr::All(clauses)
            },
        }
    }

    /// The disjunction of this expression and another, flattening adjacent
    /// `Any` nodes into one.
    pub fn or(self, other: Self) -> (r: Self)
        ensures
            Self::is_or_of(self, other, r),
    {
        match (self, other) {
            (BooleanExpr::Any(mut a), BooleanExpr::Any(mut b)) => {
                a.append(&mut b);
                BooleanExpr::Any(a)
            },
            (BooleanExpr::Any(mut a), other) => {
                a.push(other);
                BooleanExpr::Any(a)
            },
            (other, BooleanExpr::Any(mut a)) => {
                a.push(other);
                BooleanExpr::Any(a)
            },
            (a, b) => {
                let mut clauses = Vec::new();
                clauses.push(a);
                clauses.push(b);
                BooleanExpr::Any(clauses)
            },
        }
    }

    /// The negation of this expression, collapsing a double negation.
    pub fn not(self) -> (r: Self)
        ensures
            r == Self::spec_not(self),
    {
        match self {
            BooleanExpr::Not(inner) => *inner,
            other => BooleanExpr::Not(Box::new(other)),
        }
    }
}

/// A boolean expression over leaf queries is itself a query: the object
/// matches when the expression holds under the valuation that asks each
/// leaf whether the object matches it.
impl<T, Q: Query<T>> Query<T> for BooleanExpr<Q> {
    open spec fn matches_spec(&self, object: &T) -> bool {
        self.holds(|q: Q| q.matches_spec(object))
    }

    #[verifier::loop_isolation(false)]
    fn matches(&self, object: &T) -> (r: bool)
        decreases self,
    {
        match self {
            BooleanExpr::Value(query) => query.matches(object),
            BooleanExpr::Not(inner) => !(**inner).matches(object),
            BooleanExpr::Any(clauses) => {
                let mut i: usize = 0;
                while i < clauses.len()
                    invariant
                        i <= clauses@.len(),
                        forall|j: int|
                            0 <= j < i ==> !(#[trigger] clauses@[j]).holds(
                                |q: Q| q.matches_spec(object),
                            ),
                    decreases clauses@.len() - i,
                {
                    if clauses[i].matches(object) {
                        return true;
                    }
                    i = i + 1;
                }
                false
            },
            BooleanExpr::All(clauses) => {
                let mut i: usize = 0;
                while i < clauses.len()
                    invariant
                        i <= clauses@.len(),
                        forall|j: int|
                            0 <= j < i ==> (#[trigger] clauses@[j]).holds(
                                |q: Q| q.matches_spec(object),
                            ),
                    decreases clauses@.len() - i,
                {
                    if !clauses[i].matches(object) {
                        return false;
                    }
                    i = i + 1;
                }
                true
            },
        }
    }
}

/// Flattening a conjunction preserves truth: the flat `All` node built by
/// [`BooleanExpr::and`] holds exactly when both operands hold.
pub proof fn lemma_and_preserves_truth<T>(
    a: BooleanExpr<T>,
    b: BooleanExpr<T>,
    r: BooleanExpr<T>,
    leaf: spec_fn(T) -> bool,
)
    requires
        BooleanExpr::is_and_of(a, b, r),
    ensures
        r.holds(leaf) == (a.holds(leaf) && b.holds(leaf)),
{
    match (a, b) {
        (BooleanExpr::All(xs), BooleanExpr::All(ys)) => {
            let zs = r->All_0;
            assert(forall|i: int|
                0 <= i < xs@.len() ==> #[trigger] xs@[i] == zs@[i]);
            assert(forall|i: int|
                0 <= i < ys@.len() ==> #[trigger] ys@[i] == zs@[xs@.len() + i]);
            if a.holds(leaf) && b.holds(leaf) {
                assert forall|i: int| 0 <= i < zs@.len() implies (#[trigger] zs@[i]).holds(
                    leaf,
                ) by {
                    if i < xs@.len() {
                        assert(zs@[i] == xs@[i]);
                    } else {
                        assert(zs@[i] == ys@[i - xs@.len()]);
                    }
                }
            }
        },
        (BooleanExpr::All(xs), y) => {
            let zs = r->All_0;
            assert(zs@.last() == y);
            assert(forall|i: int|
                0 <= i < xs@.len() ==> #[trigger] xs@[i] == zs@[i]);
        },
        (x, BooleanExpr::All(ys)) => {
            if !(x matches BooleanExpr::All(_)) {
                let zs = r->All_0;
                assert(zs@.last() == x);
                assert(forall|i: int|
                    0 <= i < ys@.len() ==> #[trigger] ys@[i] == zs@[i]);
            }
        },
        (x, y) => {
            let zs = r->All_0;
            assert(zs@[0] == x && zs@[1] == y);
        },
    }
}

/// Flattening a disjunction preserves truth: the flat `Any` node built by
/// [`BooleanExpr::or`] holds exactly when either operand holds.
pub proof fn lemma_or_preserves_truth<T>(
    a: BooleanExpr<T>,
    b: BooleanExpr<T>,
    r: BooleanExpr<T>,
    leaf: spec_fn(T) -> bool,
)
    requires
        BooleanExpr::is_or_of(a, b, r),
    ensures
        r.holds(leaf) == (a.holds(leaf) || b.holds(leaf)),
{
    match (a, b) {
        (BooleanExpr::Any(xs), BooleanExpr::Any(ys)) => {
            let zs = r->Any_0;
            assert(forall|i: int|
                0 <= i < xs@.len() ==> #[trigger] xs@[i] == zs@[i]);
            assert(forall|i: int|
                0 <= i < ys@.len() ==> #[trigger] ys@[i] == zs@[xs@.len() + i]);
            if r.holds(leaf) {
                let i = choose|i: int|
                    0 <= i < zs@.len() && (#[trigger] zs@[i]).holds(leaf);
                if i < xs@.len() {
                    assert(xs@[i] == zs@[i]);
                } else {
                    assert(ys@[i - xs@.len()] == zs@[i]);
                }
            }
            if a.holds(leaf) {
                let i = choose|i: int|
                    0 <= i < xs@.len() && (#[trigger] xs@[i]).holds(leaf);
                assert(zs@[i] == xs@[i]);
            } else if b.holds(leaf) {
                let i = choose|i: int|
                    0 <= i < ys@.len() && (#[trigger] ys@[i]).holds(leaf);
                assert(zs@[xs@.len() + i] == ys@[i]);
            }
        },
        (BooleanExpr::Any(xs), y) => {
            let zs = r->Any_0;
            assert(zs@.last() == y);
            assert(forall|i: int|
                0 <= i < xs@.len() ==> #[trigger] xs@[i] == zs@[i]);
            if a.holds(leaf) {
                let i = choose|i: int|
                    0 <= i < xs@.len() && (#[trigger] xs@[i]).holds(leaf);
                assert(zs@[i] == xs@[i]);
            }
            if r.holds(leaf) {
                let i = choose|i: int|
                    0 <= i < zs@.len() && (#[trigger] zs@[i]).holds(leaf);
                if i < xs@.len() {
                    assert(xs@[i] == zs@[i]);
                }
            }
        },
        (x, BooleanExpr::Any(ys)) => {
            if !(x matches BooleanExpr::Any(_)) {
                let zs = r->Any_0;
                assert(zs@.last() == x);
                assert(forall|i: int|
                    0 <= i < ys@.len() ==> #[trigger] ys@[i] == zs@[i]);
                if b.holds(leaf) {
                    let i = choose|i: int|
                        0 <= i < ys@.len() && (#[trigger] ys@[i]).holds(leaf);
                    assert(zs@[i] == ys@[i]);
                }
                if r.holds(leaf) {
                    let i = choose|i: int|
                        0 <= i < zs@.len() && (#[trigger] zs@[i]).holds(leaf);
                    if i < ys@.len() {
                        assert(ys@[i] == zs@[i]);
                    }
                }
            }
        },
        (x, y) => {
            let zs = r->Any_0;
            assert(zs@[0] == x && zs@[1] == y);
            if r.holds(leaf) {
                let i = choose|i: int|
                    0 <= i < zs@.len() && (#[trigger] zs@[i]).holds(leaf);
            }
        },
    }
}

/// How [`BooleanExpr::try_map_values`] relates its input to a successful
/// output: the structure is preserved, each leaf is replaced by a result
/// the function may return for it, and a mapped negation is rebuilt with
/// [`BooleanExpr::not`].
pub open spec fn maps_to<T, U, E, F: Fn(&T) -> Result<U, E>>(
    f: F,
    a: BooleanExpr<T>,
    b: BooleanExpr<U>,
) -> bool
    decreases a,
{
    match a {
        BooleanExpr::Value(t) => b matches BooleanExpr::Value(u) && call_ensures(
            f,
            (&t,),
            Ok(u),
        ),
        BooleanExpr::Not(inner) => (b matches BooleanExpr::Not(bi) && maps_to(f, *inner, *bi))
            || maps_to(f, *inner, BooleanExpr::Not(Box::new(b))),
        BooleanExpr::Any(clauses) => b matches BooleanExpr::Any(mapped) && mapped@.len()
            == clauses@.len() && forall|i: int|
            #![trigger clauses@[i], mapped@[i]]
            0 <= i < clauses@.len() ==> maps_to(f, clauses@[i], mapped@[i]),
        BooleanExpr::All(clauses) => b matches BooleanExpr::All(mapped) && mapped@.len()
            == clauses@.len() && forall|i: int|
            #![trigger clauses@[i], mapped@[i]]
            0 <= i < clauses@.len() ==> maps_to(f, clauses@[i], mapped@[i]),
    }
}

/// Whether the function may return the error for some leaf of the
/// expression: what a failed [`BooleanExpr::try_map_values`] reports.
pub open spec fn leaf_errs<T, U, E, F: Fn(&T) -> Result<U, E>>(
    f: F,
    a: BooleanExpr<T>,
    e: E,
) -> bool
    decreases a,
{
    match a {
        BooleanExpr::Value(t) => call_ensures(f, (&t,), Err(e)),
        BooleanExpr::Not(inner) => leaf_errs(f, *inner, e),
        BooleanExpr::Any(clauses) => exists|i: int|
            0 <= i < clauses@.len() && leaf_errs(f, #[trigger] clauses@[i], e),
        BooleanExpr::All(clauses) => exists|i: int|
            0 <= i < clauses@.len() && leaf_errs(f, #[trigger] clauses@[i], e),
    }
}

impl<T> BooleanExpr<T> {
    /// Transform every leaf of the expression with a fallible function,
    /// preserving the boolean structure and propagating the first error.
    #[verifier::loop_isolation(false)]
    pub fn try_map_values<U, E, F: Fn(&T) -> Result<U, E>>(&self, f: &F) -> (r: Result<
        BooleanExpr<U>,
        E,
    >)
        requires
            forall|t: &T| #[trigger] f.requires((t,)),
        ensures
            r matches Ok(out) ==> maps_to(*f, *self, out),
            r matches Err(e) ==> leaf_errs(*f, *self, e),
        decreases self,
    {
        match self {
            BooleanExpr::Value(value) => match f(value) {
                Ok(u) => Ok(BooleanExpr::Value(u)),
                Err(e) => Err(e),
            },
            BooleanExpr::Not(inner) => match (**inner).try_map_values(f) {
                Ok(m) => {
                    let ghost mm = m;
                    let mapped = m.not();
                    proof {
                        if mm matches BooleanExpr::Not(z) {
                            assert(BooleanExpr::Not(Box::new(mapped)) == mm);
                            assert(maps_to(*f, **inner, BooleanExpr::Not(Box::new(mapped))));
                        }
                    }
                    Ok(mapped)
                },
                Err(e) => Err(e),
            },
            BooleanExpr::Any(clauses) => {
                let mut mapped: Vec<BooleanExpr<U>> = Vec::new();
                let mut i: usize = 0;
                while i < clauses.len()
                    invariant
                        i <= clauses@.len(),
                        mapped@.len() == i,
                        forall|j: int|
                            #![trigger clauses@[j], mapped@[j]]
                            0 <= j < i ==> maps_to(*f, clauses@[j], mapped@[j]),
                    decreases clauses@.len() - i,
                {
                    match clauses[i].try_map_values(f) {
                        Ok(m) => mapped.push(m),
                        Err(e) => {
                            return Err(e);
                        },
                    }
                    i = i + 1;
                }
                Ok(BooleanExpr::Any(mapped))
            },
            BooleanExpr::All(clauses) => {
                let mut mapped: Vec<BooleanExpr<U>> = Vec::new();
                let mut i: usize = 0;
                while i < clauses.len()
                    invariant
                        i <= clauses@.len(),
                        mapped@.len() == i,
                        forall|j: int|
                            #![trigger clauses@[j], mapped@[j]]
                            0 <= j < i ==> maps_to(*f, clauses@[j], mapped@[j]),
                    decreases clauses@.len() - i,
                {
                    match clauses[i].try_map_values(f) {
                        Ok(m) => mapped.push(m),
                        Err(e) => {
                            return Err(e);
                        },
                    }
                    i = i + 1;
                }
                Ok(BooleanExpr::All(mapped))
            },
        }
    }
}

/// A bottom-up fallible fold over a [`BooleanExpr`]: one callback per node
/// kind, each specified by its own spec function.
///
/// [`BooleanExpr::try_fold`] applies the callbacks bottom-up and propagates
/// the first error; its result is pinned down by [`fold_spec`].
pub trait TryFoldBoolean<T, U, E> {
    /// What folding a conjunction of folded children yields.
    spec fn map_all_spec(&self, clauses: Seq<U>) -> Result<U, E>;

    /// What folding a disjunction of folded children yields.
    spec fn map_any_spec(&self, clauses: Seq<U>) -> Result<U, E>;

    /// What folding a negation of a folded child yields.
    spec fn map_not_spec(&self, inner: U) -> Result<U, E>;

    /// What folding a leaf yields.
    spec fn map_value_spec(&self, value: T) -> Result<U, E>;

    /// Fold a conjunction of folded children.
    fn map_all(&self, clauses: Vec<U>) -> (r: Result<U, E>)
        ensures
            r == self.map_all_spec(clauses@),
    ;

    /// Fold a disjunction of folded children.
    fn map_any(&self, clauses: Vec<U>) -> (r: Result<U, E>)
        ensures
            r == self.map_any_spec(clauses@),
    ;

    /// Fold a negation of a folded child.
    fn map_not(&self, inner: U) -> (r: Result<U, E>)
        ensures
            r == self.map_not_spec(inner),
    ;

    /// Fold a leaf.
    fn map_value(&self, value: &T) -> (r: Result<U, E>)
        ensures
            r == self.map_value_spec(*value),
    ;
}

/// What [`BooleanExpr::try_fold`] returns: the folder's callbacks applied
/// bottom-up, with the first error propagated.
pub open spec fn fold_spec<T, U, E, F: TryFoldBoolean<T, U, E>>(
    folder: F,
    expr: BooleanExpr<T>,
) -> Result<U, E>
    decreases expr,
{
    match expr {
        BooleanExpr::Value(value) => folder.map_value_spec(value),
        BooleanExpr::Not(inner) => match fold_spec(folder, *inner) {
            Ok(u) => folder.map_not_spec(u),
            Err(e) => Err(e),
        },
        BooleanExpr::Any(clauses) => match fold_children_spec(folder, clauses@) {
            Ok(us) => folder.map_any_spec(us),
            Err(e) => Err(e),
        },
        BooleanExpr::All(clauses) => match fold_children_spec(folder, clauses@) {
            Ok(us) => folder.map_all_spec(us),
            Err(e) => Err(e),
        },
    }
}

/// Fold each expression of a sequence in order, stopping at the first
/// error.
pub open spec fn fold_children_spec<T, U, E, F: TryFoldBoolean<T, U, E>>(
    folder: F,
    exprs: Seq<BooleanExpr<T>>,
) -> Result<Seq<U>, E>
    decreases exprs,
{
    if exprs.len() == 0 {
        Ok(Seq::empty())
    } else {
        match fold_spec(folder, exprs[0]) {
            Err(e) => Err(e),
            Ok(u) => match fold_children_spec(folder, exprs.drop_first()) {
                Err(e) => Err(e),
                Ok(us) => Ok(seq![u] + us),
            },
        }
    }
}

/// Folding a longer prefix extends the sequence of folded children by one.
#[verifier::spinoff_prover]
proof fn lemma_fold_children_snoc<T, U, E, F: TryFoldBoolean<T, U, E>>(
    folder: F,
    exprs: Seq<BooleanExpr<T>>,
    us: Seq<U>,
    u: U,
    i: int,
)
    requires
        0 <= i < exprs.len(),
        fold_children_spec(folder, exprs.take(i)) == Ok::<Seq<U>, E>(us),
        fold_spec(folder, exprs[i]) == Ok::<U, E>(u),
    ensures
        fold_children_spec(folder, exprs.take(i + 1)) == Ok::<Seq<U>, E>(us.push(u)),
    decreases i,
{
    let pre = exprs.take(i);
    let post = exprs.take(i + 1);
    if i == 0 {
        assert(exprs.take(0) =~= Seq::<BooleanExpr<T>>::empty());
        assert(us =~= Seq::<U>::empty());
        assert(post =~= seq![exprs[0]]);
        assert(post[0] == exprs[0]);
        assert(post.drop_first() =~= Seq::<BooleanExpr<T>>::empty());
        assert(seq![u] + Seq::<U>::empty() =~= us.push(u));
    } else {
        assert(pre[0] == exprs[0]);
        assert(post[0] == exprs[0]);
        let us0 = match fold_spec(folder, exprs[0]) {
            Ok(u0) => u0,
            Err(_) => arbitrary(),
        };
        match fold_spec(folder, exprs[0]) {
            Err(_) => {},
            Ok(u0) => {
                assert(pre.drop_first() =~= exprs.drop_first().take(i - 1));
                assert(post.drop_first() =~= exprs.drop_first().take(i));
                match fold_children_spec(folder, pre.drop_first()) {
                    Err(_) => {},
                    Ok(rest) => {
                        assert(us == seq![u0] + rest);
                        assert(exprs.drop_first()[i - 1] == exprs[i]);
                        lemma_fold_children_snoc(folder, exprs.drop_first(), rest, u, i - 1);
                        assert(seq![u0] + rest.push(u) =~= (seq![u0] + rest).push(u));
                    },
                }
            },
        }
    }
}

/// If a child fails to fold, folding the whole sequence reports that
/// child's error.
proof fn lemma_fold_children_err<T, U, E, F: TryFoldBoolean<T, U, E>>(
    folder: F,
    exprs: Seq<BooleanExpr<T>>,
    us: Seq<U>,
    e: E,
    i: int,
)
    requires
        0 <= i < exprs.len(),
        fold_children_spec(folder, exprs.take(i)) == Ok::<Seq<U>, E>(us),
        fold_spec(folder, exprs[i]) == Err::<U, E>(e),
    ensures
        fold_children_spec(folder, exprs) == Err::<Seq<U>, E>(e),
    decreases i,
{
    if i == 0 {
        assert(exprs[0] == exprs[i]);
    } else {
        let pre = exprs.take(i);
        assert(pre[0] == exprs[0]);
        match fold_spec(folder, exprs[0]) {
            Err(_) => {},
            Ok(u0) => {
                assert(pre.drop_first() =~= exprs.drop_first().take(i - 1));
                match fold_children_spec(folder, pre.drop_first()) {
                    Err(_) => {},
                    Ok(rest) => {
                        assert(exprs.drop_first()[i - 1] == exprs[i]);
                        lemma_fold_children_err(folder, exprs.drop_first(), rest, e, i - 1);
                    },
                }
            },
        }
    }
}

impl<T> BooleanExpr<T> {
    /// Fold the expression bottom-up with the folder's callbacks,
    /// propagating the first error.
    #[verifier::loop_isolation(false)]
    pub fn try_fold<U, E, F: TryFoldBoolean<T, U, E>>(&self, folder: &F) -> (r: Result<U, E>)
        ensures
            r == fold_spec(*folder, *self),
        decreases self,
    {
        match self {
            BooleanExpr::Value(value) => folder.map_value(value),
            BooleanExpr::Not(inner) => match (**inner).try_fold(folder) {
                Ok(u) => folder.map_not(u),
                Err(e) => Err(e),
            },
            BooleanExpr::Any(clauses) => {
                match Self::try_fold_children(clauses, folder) {
                    Ok(us) => folder.map_any(us),
                    Err(e) => Err(e),
                }
            },
            BooleanExpr::All(clauses) => {
                match Self::try_fold_children(clauses, folder) {
                    Ok(us) => folder.map_all(us),
                    Err(e) => Err(e),
                }
            },
        }
    }

    /// Fold each child in order, stopping at the first error.
    #[verifier::loop_isolation(false)]
    fn try_fold_children<U, E, F: TryFoldBoolean<T, U, E>>(
        clauses: &Vec<BooleanExpr<T>>,
        folder: &F,
    ) -> (r: Result<Vec<U>, E>)
        ensures
            match r {
                Ok(us) => fold_children_spec(*folder, clauses@) == Ok::<Seq<U>, E>(us@),
                Err(e) => fold_children_spec(*folder, clauses@) == Err::<Seq<U>, E>(e),
            },
        decreases clauses,
    {
        let mut outs: Vec<U> = Vec::new();
        let mut i: usize = 0;
        proof {
            assert(clauses@.take(0) =~= Seq::<BooleanExpr<T>>::empty());
        }
        while i < clauses.len()
            invariant
                i <= clauses@.len(),
                fold_children_spec(*folder, clauses@.take(i as int)) == Ok::<Seq<U>, E>(outs@),
            decreases clauses@.len() - i,
        {
            match clauses[i].try_fold(folder) {
                Ok(u) => {
                    proof {
                        lemma_fold_children_snoc(*folder, clauses@, outs@, u, i as int);
                    }
                    outs.push(u);
                },
                Err(e) => {
                    proof {
                        lemma_fold_children_err(*folder, clauses@, outs@, e, i as int);
                    }
                    return Err(e);
                },
            }
            i = i + 1;
        }
        proof {
            assert(clauses@.take(clauses@.len() as int) =~= clauses@);
        }
        Ok(outs)
    }
}

/// A folder that evaluates an expression against one object: each leaf
/// becomes whether the object matches it, a negation flips its child,
/// and `All`/`Any` conjoin and disjoin theirs. Folding with it is the
/// in-memory evaluation of a query tree.
pub struct MatchFolder<'a, T> {
    /// The object the expression is evaluated against.
    pub object: &'a T,
}

impl<'a, T, Q: Query<T>> TryFoldBoolean<Q, bool, crate::error::Error> for MatchFolder<'a, T> {
    open spec fn map_all_spec(&self, clauses: Seq<bool>) -> Result<bool, crate::error::Error> {
        Ok(forall|i: int| 0 <= i < clauses.len() ==> #[trigger] clauses[i])
    }

    open spec fn map_any_spec(&self, clauses: Seq<bool>) -> Result<bool, crate::error::Error> {
        Ok(exists|i: int| 0 <= i < clauses.len() && #[trigger] clauses[i])
    }

    open spec fn map_not_spec(&self, inner: bool) -> Result<bool, crate::error::Error> {
        Ok(!inner)
    }

    open spec fn map_value_spec(&self, value: Q) -> Result<bool, crate::error::Error> {
        Ok(value.matches_spec(self.object))
    }

    #[verifier::loop_isolation(false)]
    fn map_all(&self, clauses: Vec<bool>) -> (r: Result<bool, crate::error::Error>) {
        let mut i: usize = 0;
        while i < clauses.len()
            invariant
                i <= clauses@.len(),
                forall|j: int| 0 <= j < i ==> #[trigger] clauses@[j],
            decreases clauses@.len() - i,
        {
            if !clauses[i] {
                return Ok(false);
            }
            i = i + 1;
        }
        Ok(true)
    }

    #[verifier::loop_isolation(false)]
    fn map_any(&self, clauses: Vec<bool>) -> (r: Result<bool, crate::error::Error>) {
        let mut i: usize = 0;
        while i < clauses.len()
            invariant
                i <= clauses@.len(),
                forall|j: int| 0 <= j < i ==> !(#[trigger] clauses@[j]),
            decreases clauses@.len() - i,
        {
            if clauses[i] {
                return Ok(true);
            }
            i = i + 1;
        }
        Ok(false)
    }

    fn map_not(&self, inner: bool) -> (r: Result<bool, crate::error::Error>) {
        Ok(!inner)
    }

    fn map_value(&self, value: &Q) -> (r: Result<bool, crate::error::Error>) {
        Ok(value.matches(self.object))
    }
}

/// Folding with a [`MatchFolder`] is in-memory evaluation: it never
/// fails, and its result is whether the expression holds of the folder's
/// object.
pub proof fn lemma_match_folder_evaluates<'a, T, Q: Query<T>>(
    folder: MatchFolder<'a, T>,
    expr: BooleanExpr<Q>,
)
    ensures
        fold_spec(folder, expr) == Ok::<bool, crate::error::Error>(
            expr.holds(|q: Q| q.matches_spec(folder.object)),
        ),
    decreases expr,
{
    let leaf = |q: Q| q.matches_spec(folder.object);
    match expr {
        BooleanExpr::Value(value) => {},
        BooleanExpr::Not(inner) => {
            lemma_match_folder_evaluates(folder, *inner);
        },
        BooleanExpr::Any(clauses) => {
            lemma_match_folder_children(folder, clauses@);
            let evaluated = clauses@.map_values(|e: BooleanExpr<Q>| e.holds(leaf));
            assert(forall|i: int|
                0 <= i < clauses@.len() ==> #[trigger] evaluated[i] == clauses@[i].holds(leaf));
            if expr.holds(leaf) {
                let i = choose|i: int|
                    0 <= i < clauses@.len() && (#[trigger] clauses@[i]).holds(leaf);
                assert(evaluated[i]);
            }
            if exists|i: int| 0 <= i < evaluated.len() && #[trigger] evaluated[i] {
                let i = choose|i: int| 0 <= i < evaluated.len() && #[trigger] evaluated[i];
                assert(clauses@[i].holds(leaf));
            }
        },
        BooleanExpr::All(clauses) => {
            lemma_match_folder_children(folder, clauses@);
            let evaluated = clauses@.map_values(|e: BooleanExpr<Q>| e.holds(leaf));
            assert(forall|i: int|
                0 <= i < clauses@.len() ==> #[trigger] evaluated[i] == clauses@[i].holds(leaf));
            if expr.holds(leaf) {
                assert forall|i: int| 0 <= i < evaluated.len() implies #[trigger] evaluated[i] by {
                    assert(clauses@[i].holds(leaf));
                }
            }
            if forall|i: int| 0 <= i < evaluated.len() ==> #[trigger] evaluated[i] {
                assert forall|i: int| 0 <= i < clauses@.len() implies (
                #[trigger] clauses@[i]).holds(leaf) by {
                    assert(evaluated[i]);
                }
            }
        },
    }
}

/// Folding children with a [`MatchFolder`] yields their evaluations, in
/// order.
proof fn lemma_match_folder_children<'a, T, Q: Query<T>>(
    folder: MatchFolder<'a, T>,
    exprs: Seq<BooleanExpr<Q>>,
)
    ensures
        fold_children_spec(folder, exprs) == Ok::<Seq<bool>, crate::error::Error>(
            exprs.map_values(|e: BooleanExpr<Q>| e.holds(|q: Q| q.matches_spec(folder.object))),
        ),
    decreases exprs,
{
    let leaf = |q: Q| q.matches_spec(folder.object);
    let evaluated = exprs.map_values(|e: BooleanExpr<Q>| e.holds(leaf));
    if exprs.len() == 0 {
        assert(evaluated =~= Seq::<bool>::empty());
    } else {
        lemma_match_folder_evaluates(folder, exprs[0]);
        lemma_match_folder_children(folder, exprs.drop_first());
        assert(seq![exprs[0].holds(leaf)] + exprs.drop_first().map_values(
            |e: BooleanExpr<Q>| e.holds(leaf),
        ) =~= evaluated);
    }
}

/// A structure-preserving leaf transformation preserves truth: if the leaf
/// valuations agree across the transformation, the mapped expression holds
/// exactly when the original does.
pub proof fn lemma_maps_to_preserves_truth<T, U, E, F: Fn(&T) -> Result<U, E>>(
    f: F,
    a: BooleanExpr<T>,
    b: BooleanExpr<U>,
    leaf_t: spec_fn(T) -> bool,
    leaf_u: spec_fn(U) -> bool,
)
    requires
        maps_to(f, a, b),
        forall|t: T, u: U| call_ensures(f, (&t,), Ok(u)) ==> leaf_u(u) == leaf_t(t),
    ensures
        b.holds(leaf_u) == a.holds(leaf_t),
    decreases a,
{
    match a {
        BooleanExpr::Value(t) => {},
        BooleanExpr::Not(inner) => {
            if b matches BooleanExpr::Not(bi) && maps_to(f, *inner, *bi) {
                lemma_maps_to_preserves_truth(f, *inner, *b->Not_0, leaf_t, leaf_u);
            } else {
                lemma_maps_to_preserves_truth(
                    f,
                    *inner,
                    BooleanExpr::Not(Box::new(b)),
                    leaf_t,
                    leaf_u,
                );
            }
        },
        BooleanExpr::Any(clauses) => {
            let mapped = b->Any_0;
            assert forall|i: int| 0 <= i < clauses@.len() implies ((#[trigger] clauses@[i]).holds(
                leaf_t,
            ) == mapped@[i].holds(leaf_u)) by {
                assert(maps_to(f, clauses@[i], mapped@[i]));
                lemma_maps_to_preserves_truth(f, clauses@[i], mapped@[i], leaf_t, leaf_u);
            }
            if a.holds(leaf_t) {
                let i = choose|i: int|
                    0 <= i < clauses@.len() && (#[trigger] clauses@[i]).holds(leaf_t);
                assert(mapped@[i].holds(leaf_u));
            }
            if b.holds(leaf_u) {
                let i = choose|i: int|
                    0 <= i < mapped@.len() && (#[trigger] mapped@[i]).holds(leaf_u);
                assert(clauses@[i].holds(leaf_t));
            }
        },
        BooleanExpr::All(clauses) => {
            let mapped = b->All_0;
            assert forall|i: int| 0 <= i < clauses@.len() implies ((#[trigger] clauses@[i]).holds(
                leaf_t,
            ) == mapped@[i].holds(leaf_u)) by {
                assert(maps_to(f, clauses@[i], mapped@[i]));
                lemma_maps_to_preserves_truth(f, clauses@[i], mapped@[i], leaf_t, leaf_u);
            }
            assert(b.holds(leaf_u) == a.holds(leaf_t)) by {
                if a.holds(leaf_t) {
                    assert forall|i: int| 0 <= i < mapped@.len() implies (
                    #[trigger] mapped@[i]).holds(leaf_u) by {
                        assert(clauses@[i].holds(leaf_t));
                    }
                }
                if b.holds(leaf_u) {
                    assert forall|i: int| 0 <= i < clauses@.len() implies (
                    #[trigger] clauses@[i]).holds(leaf_t) by {
                        assert(mapped@[i].holds(leaf_u));
                    }
                }
            }
        },
    }
}

/// Collapsing a double negation preserves truth: the expression built by
/// [`BooleanExpr::not`] holds exactly when the operand does not hold.
pub proof fn lemma_not_preserves_truth<T>(a: BooleanExpr<T>, leaf: spec_fn(T) -> bool)
    ensures
        BooleanExpr::spec_not(a).holds(leaf) == !a.holds(leaf),
{
}

/// Negating twice gives the expression back unchanged, provided the
/// expression does not itself begin with a double negation (which
/// [`BooleanExpr::not`] would have collapsed at construction).
pub proof fn lemma_not_not<T>(x: BooleanExpr<T>)
    requires
        x matches BooleanExpr::Not(inner) ==> !((*inner) matches BooleanExpr::Not(_)),
    ensures
        BooleanExpr::spec_not(BooleanExpr::spec_not(x)) == x,
{
}

} // verus!
