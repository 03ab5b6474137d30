//! The backend-neutral compiled form of queries.
//!
//! A query over an entity compiles into a [`RawQuery`]: a named parameter
//! with leaf conditions over serialized [`Value`]s, either on a scalar
//! field or on the key/value parts of a record inside a collection field
//! (element-match semantics). An entity projects into a [`RawObject`]: its
//! scalar parameters and its per-parameter record lists — exactly the
//! denormalized index a storage backend maintains in side tables. A
//! backend translates both shapes into its native filters; evaluating the
//! compiled query against the projection here selects the same objects as
//! direct in-memory matching, which is what the lemmas of this module
//! establish.

use crate::boolean::BooleanExpr;
use crate::order::{lex_le, Ordered};
use crate::pairs::{assoc, Key};
use crate::query::{Query, SimpleQuery};
use vstd::prelude::*;

verus! {

/// A serialized field value: what a query leaf or an index cell holds
/// once compiled for a storage backend.
#[derive(Debug, PartialEq)]
pub enum Value {
    /// An identifier or an access-level rank.
    Unsigned(u64),
    /// A day number or an amount in minor units.
    Signed(i64),
    /// A name or a description.
    Text(String),
}

/// The position of a value's variant in the order of variants.
pub open spec fn variant_rank(v: Value) -> int {
    match v {
        Value::Unsigned(_) => 0,
        Value::Signed(_) => 1,
        Value::Text(_) => 2,
    }
}

impl Ordered for Value {
    open spec fn eq_spec(&self, other: &Self) -> bool {
        match (self, other) {
            (Value::Unsigned(a), Value::Unsigned(b)) => a == b,
            (Value::Signed(a), Value::Signed(b)) => a == b,
            (Value::Text(a), Value::Text(b)) => a@ == b@,
            _ => false,
        }
    }

    open spec fn le_spec(&self, other: &Self) -> bool {
        match (self, other) {
            (Value::Unsigned(a), Value::Unsigned(b)) => *a <= *b,
            (Value::Signed(a), Value::Signed(b)) => *a <= *b,
            (Value::Text(a), Value::Text(b)) => lex_le(a@, b@),
            _ => variant_rank(*self) <= variant_rank(*other),
        }
    }

    fn eq_value(&self, other: &Self) -> bool {
        match (self, other) {
            (Value::Unsigned(a), Value::Unsigned(b)) => *a == *b,
            (Value::Signed(a), Value::Signed(b)) => *a == *b,
            (Value::Text(a), Value::Text(b)) => *a == *b,
            _ => false,
        }
    }

    fn le_value(&self, other: &Self) -> (r: bool)
        ensures
            r == self.le_spec(other),
    {
        match (self, other) {
            (Value::Unsigned(a), Value::Unsigned(b)) => *a <= *b,
            (Value::Signed(a), Value::Signed(b)) => *a <= *b,
            (Value::Text(a), Value::Text(b)) => a.le_value(b),
            _ => {
                let ra: u8 = match self {
                    Value::Unsigned(_) => 0,
                    Value::Signed(_) => 1,
                    Value::Text(_) => 2,
                };
                let rb: u8 = match other {
                    Value::Unsigned(_) => 0,
                    Value::Signed(_) => 1,
                    Value::Text(_) => 2,
                };
                ra <= rb
            },
        }
    }
}

/// A queryable parameter: the name under which a field or a collection
/// of records is filed in the compiled form and in the index.
#[derive(Clone, Copy, Debug, PartialEq, Eq, Structural)]
pub enum Param {
    /// The owning group (scalar).
    Group,
    /// A name field (scalar).
    Name,
    /// A description field (scalar).
    Description,
    /// A date field (scalar).
    Date,
    /// The account-amount records of a transaction.
    Amounts,
    /// The user-access records of a group's permissions.
    Users,
}

impl Key for Param {
    fn same(&self, other: &Self) -> (r: bool) {
        *self == *other
    }
}

/// A field type that serializes losslessly into a [`Value`].
pub trait Serial: Ordered + Sized {
    /// The serialized form.
    spec fn val_spec(&self) -> Value;

    /// Serialize the value.
    fn to_value(&self) -> (r: Value)
        ensures
            r == self.val_spec(),
    ;

    /// Serialization preserves equality.
    proof fn val_preserves_eq(a: &Self, b: &Self)
        ensures
            a.val_spec().eq_spec(&b.val_spec()) == a.eq_spec(b),
    ;

    /// Serialization preserves the order.
    proof fn val_preserves_le(a: &Self, b: &Self)
        ensures
            a.val_spec().le_spec(&b.val_spec()) == a.le_spec(b),
    ;
}

impl<T> Serial for crate::id::Id<T> {
    open spec fn val_spec(&self) -> Value {
        Value::Unsigned(self@)
    }

    fn to_value(&self) -> Value {
        Value::Unsigned(self.value())
    }

    proof fn val_preserves_eq(a: &Self, b: &Self) {
        if a@ == b@ {
            crate::id::lemma_id_view_injective(*a, *b);
        }
    }

    proof fn val_preserves_le(a: &Self, b: &Self) {
    }
}

impl Serial for String {
    open spec fn val_spec(&self) -> Value {
        Value::Text(*self)
    }

    fn to_value(&self) -> Value {
        Value::Text(self.clone())
    }

    proof fn val_preserves_eq(a: &Self, b: &Self) {
    }

    proof fn val_preserves_le(a: &Self, b: &Self) {
    }
}

impl Serial for crate::date::Date {
    open spec fn val_spec(&self) -> Value {
        Value::Signed(self.spec_jdn() as i64)
    }

    fn to_value(&self) -> Value {
        proof {
            self.lemma_jdn_agrees();
        }
        Value::Signed(self.to_julian_day() as i64)
    }

    proof fn val_preserves_eq(a: &Self, b: &Self) {
        a.lemma_jdn_agrees();
        b.lemma_jdn_agrees();
    }

    proof fn val_preserves_le(a: &Self, b: &Self) {
        a.lemma_jdn_agrees();
        b.lemma_jdn_agrees();
    }
}

impl Serial for crate::amount::Amount {
    open spec fn val_spec(&self) -> Value {
        Value::Signed(self.spec_minor())
    }

    fn to_value(&self) -> Value {
        proof {
            self.lemma_minor_agrees();
        }
        Value::Signed(self.value())
    }

    proof fn val_preserves_eq(a: &Self, b: &Self) {
        a.lemma_minor_agrees();
        b.lemma_minor_agrees();
    }

    proof fn val_preserves_le(a: &Self, b: &Self) {
        a.lemma_minor_agrees();
        b.lemma_minor_agrees();
    }
}

impl Serial for crate::user::AccessLevel {
    open spec fn val_spec(&self) -> Value {
        Value::Unsigned(self.rank() as u64)
    }

    fn to_value(&self) -> Value {
        Value::Unsigned(self.rank_value() as u64)
    }

    proof fn val_preserves_eq(a: &Self, b: &Self) {
    }

    proof fn val_preserves_le(a: &Self, b: &Self) {
    }
}

/// How a leaf query compiles: each bound value serialized, each unbound
/// comparator left unbound.
pub open spec fn query_compiles_to<T: Serial>(q: SimpleQuery<T>, m: SimpleQuery<Value>) -> bool {
    &&& option_serializes_to(q.eq, m.eq)
    &&& option_serializes_to(q.ne, m.ne)
    &&& option_serializes_to(q.gt, m.gt)
    &&& option_serializes_to(q.ge, m.ge)
    &&& option_serializes_to(q.lt, m.lt)
    &&& option_serializes_to(q.le, m.le)
    &&& list_serializes_to(q.in_, m.in_)
    &&& list_serializes_to(q.nin, m.nin)
}

/// The bound value, if any, serialized.
pub open spec fn option_serializes_to<T: Serial>(v: Option<T>, w: Option<Value>) -> bool {
    match (v, w) {
        (Some(v), Some(w)) => w == v.val_spec(),
        (None, None) => true,
        _ => false,
    }
}

/// The bound value list, if any, serialized elementwise.
pub open spec fn list_serializes_to<T: Serial>(v: Option<Vec<T>>, w: Option<Vec<Value>>) -> bool {
    match (v, w) {
        (Some(vs), Some(ws)) => ws@ == vs@.map_values(|t: T| t.val_spec()),
        (None, None) => true,
        _ => false,
    }
}

/// Serialize a bound value.
fn compile_opt<T: Serial>(v: &Option<T>) -> (r: Option<Value>)
    ensures
        option_serializes_to(*v, r),
{
    match v {
        Some(v) => Some(v.to_value()),
        None => None,
    }
}

/// Serialize a bound value list.
#[verifier::loop_isolation(false)]
fn compile_list<T: Serial>(v: &Option<Vec<T>>) -> (r: Option<Vec<Value>>)
    ensures
        list_serializes_to(*v, r),
{
    match v {
        None => None,
        Some(vs) => {
            let mut ws: Vec<Value> = Vec::new();
            let mut i: usize = 0;
            while i < vs.len()
                invariant
                    i <= vs@.len(),
                    ws@ == vs@.take(i as int).map_values(|t: T| t.val_spec()),
                decreases vs@.len() - i,
            {
                ws.push(vs[i].to_value());
                proof {
                    assert(vs@.take(i + 1).drop_last() =~= vs@.take(i as int));
                    assert(vs@.take(i + 1).map_values(|t: T| t.val_spec()) =~= vs@.take(
                        i as int,
                    ).map_values(|t: T| t.val_spec()).push(vs@[i as int].val_spec()));
                }
                i = i + 1;
            }
            proof {
                assert(vs@.take(vs@.len() as int) =~= vs@);
            }
            Some(ws)
        },
    }
}

/// Compile a leaf query, serializing each bound value.
pub fn compile_query<T: Serial>(q: &SimpleQuery<T>) -> (m: SimpleQuery<Value>)
    ensures
        query_compiles_to(*q, m),
{
    SimpleQuery {
        eq: compile_opt(&q.eq),
        ne: compile_opt(&q.ne),
        gt: compile_opt(&q.gt),
        ge: compile_opt(&q.ge),
        lt: compile_opt(&q.lt),
        le: compile_opt(&q.le),
        in_: compile_list(&q.in_),
        nin: compile_list(&q.nin),
    }
}

/// A compiled leaf query evaluates on the serialized value exactly as
/// the original evaluates on the original value.
pub proof fn lemma_compile_query_matches<T: Serial>(q: SimpleQuery<T>, m: SimpleQuery<Value>, x: T)
    requires
        query_compiles_to(q, m),
    ensures
        m.matches_spec(&x.val_spec()) == q.matches_spec(&x),
{
    let v = x.val_spec();
    if let Some(b) = q.eq {
        T::val_preserves_eq(&x, &b);
    }
    if let Some(b) = q.ne {
        T::val_preserves_eq(&x, &b);
    }
    if let Some(b) = q.gt {
        T::val_preserves_le(&x, &b);
    }
    if let Some(b) = q.ge {
        T::val_preserves_le(&b, &x);
    }
    if let Some(b) = q.lt {
        T::val_preserves_le(&b, &x);
    }
    if let Some(b) = q.le {
        T::val_preserves_le(&x, &b);
    }
    if let Some(bs) = q.in_ {
        lemma_contains_serialized(bs@, m.in_->0@, x);
    }
    if let Some(bs) = q.nin {
        lemma_contains_serialized(bs@, m.nin->0@, x);
    }
}

/// Membership is preserved by elementwise serialization.
proof fn lemma_contains_serialized<T: Serial>(bs: Seq<T>, ws: Seq<Value>, x: T)
    requires
        ws == bs.map_values(|t: T| t.val_spec()),
    ensures
        crate::query::contains_value(ws, x.val_spec()) == crate::query::contains_value(bs, x),
{
    assert forall|i: int| 0 <= i < bs.len() implies ((#[trigger] bs[i]).eq_spec(&x) == ws[i].eq_spec(
        &x.val_spec(),
    )) by {
        T::val_preserves_eq(&bs[i], &x);
        assert(ws[i] == bs[i].val_spec());
    }
    if crate::query::contains_value(ws, x.val_spec()) {
        let i = choose|i: int| 0 <= i < ws.len() && (#[trigger] ws[i]).eq_spec(&x.val_spec());
        assert(bs[i].eq_spec(&x));
    }
    if crate::query::contains_value(bs, x) {
        let i = choose|i: int| 0 <= i < bs.len() && (#[trigger] bs[i]).eq_spec(&x);
        assert(ws[i].eq_spec(&x.val_spec()));
    }
}

/// A compiled query clause: leaf conditions bound to one parameter, on a
/// scalar field or on the key and value parts of the records of a
/// collection field.
#[derive(Debug, PartialEq)]
pub enum RawQuery {
    /// Conditions on a scalar parameter.
    Simple { param: Param, query: SimpleQuery<Value> },
    /// Element-match conditions on the records of a collection
    /// parameter: some record must satisfy both parts.
    Complex { param: Param, key: SimpleQuery<Value>, value: SimpleQuery<Value> },
}

/// The projection of one object into its queryable parameters: scalar
/// cells and per-parameter record lists. This is the denormalized index
/// a storage backend persists in side tables.
#[derive(Debug)]
pub struct RawObject {
    /// The object's scalar parameters.
    pub singular: Vec<(Param, Value)>,
    /// The object's record lists, one per collection parameter.
    pub complex: Vec<(Param, Vec<(Value, Value)>)>,
}

/// The record lists of a projection, as sequences.
pub open spec fn complex_view(obj: RawObject) -> Seq<(Param, Seq<(Value, Value)>)> {
    obj.complex@.map_values(|p: (Param, Vec<(Value, Value)>)| (p.0, p.1@))
}

/// Whether a projected object satisfies a compiled clause: a scalar
/// condition reads the parameter's cell (and an absent cell satisfies
/// nothing), an element-match condition asks for one record satisfying
/// both parts.
pub open spec fn raw_matches_spec(rq: RawQuery, obj: RawObject) -> bool {
    match rq {
        RawQuery::Simple { param, query } => match assoc(obj.singular@, param) {
            Some(v) => query.matches_spec(&v),
            None => false,
        },
        RawQuery::Complex { param, key, value } => match assoc(complex_view(obj), param) {
            Some(rows) => exists|i: int|
                0 <= i < rows.len() && key.matches_spec(&(#[trigger] rows[i]).0)
                    && value.matches_spec(&rows[i].1),
            None => false,
        },
    }
}

/// The first entry filed under the parameter, if any.
#[verifier::loop_isolation(false)]
fn find_param<X>(entries: &Vec<(Param, X)>, param: Param) -> (r: Option<&X>)
    ensures
        match r {
            Some(x) => assoc(entries@, param) == Some(*x),
            None => assoc(entries@, param) is None,
        },
{
    let mut i: usize = 0;
    proof {
        assert(entries@.skip(0) =~= entries@);
    }
    while i < entries.len()
        invariant
            i <= entries@.len(),
            assoc(entries@, param) == assoc(entries@.skip(i as int), param),
        decreases entries@.len() - i,
    {
        proof {
            assert(entries@.skip(i as int)[0] == entries@[i as int]);
            assert(entries@.skip(i as int).drop_first() =~= entries@.skip(i + 1));
        }
        if entries[i].0.same(&param) {
            return Some(&entries[i].1);
        }
        i = i + 1;
    }
    None
}

/// Whether a projected object satisfies a compiled clause.
#[verifier::loop_isolation(false)]
pub fn raw_matches(rq: &RawQuery, obj: &RawObject) -> (r: bool)
    ensures
        r == raw_matches_spec(*rq, *obj),
{
    match rq {
        RawQuery::Simple { param, query } => match find_param(&obj.singular, *param) {
            Some(v) => query.matches(v),
            None => false,
        },
        RawQuery::Complex { param, key, value } => {
            proof {
                lemma_assoc_complex(*obj, *param);
            }
            match find_param(&obj.complex, *param) {
                None => false,
                Some(rows) => {
                    let mut i: usize = 0;
                    while i < rows.len()
                        invariant
                            i <= rows@.len(),
                            forall|j: int|
                                0 <= j < i ==> !(key.matches_spec(&(#[trigger] rows@[j]).0)
                                    && value.matches_spec(&rows@[j].1)),
                        decreases rows@.len() - i,
                    {
                        if key.matches(&rows[i].0) && value.matches(&rows[i].1) {
                            proof {
                                let rows_seq = assoc(complex_view(*obj), *param)->0;
                                assert(rows_seq[i as int] == rows@[i as int]);
                                assert(key.matches_spec(&rows_seq[i as int].0)
                                    && value.matches_spec(&rows_seq[i as int].1));
                            }
                            return true;
                        }
                        i = i + 1;
                    }
                    false
                },
            }
        },
    }
}

/// A [`Serial`] type whose own equality is decided by its notion of
/// equality — what a key of a record list must satisfy, so that looking a
/// key up among serialized records finds exactly the original
/// association.
pub trait SerialKey: Serial {
    /// The type's equality notion coincides with equality.
    proof fn eq_decides(a: &Self, b: &Self)
        ensures
            a.eq_spec(b) == (a == b),
    ;
}

impl<T> SerialKey for crate::id::Id<T> {
    proof fn eq_decides(a: &Self, b: &Self) {
    }
}

/// The records of a key-value sequence, serialized cell by cell.
pub open spec fn rows_of<K: Serial, V: Serial>(s: Seq<(K, V)>) -> Seq<(Value, Value)> {
    s.map_values(|p: (K, V)| (p.0.val_spec(), p.1.val_spec()))
}

/// Element-match with an exact key over serialized records reads exactly
/// the value the original sequence associates with the key.
proof fn lemma_rows_key_lookup<K: SerialKey, V: Serial>(
    s: Seq<(K, V)>,
    key: K,
    value_q: SimpleQuery<Value>,
)
    requires
        crate::pairs::pairwise_distinct_keys(s),
    ensures
        (exists|i: int|
            0 <= i < rows_of(s).len() && (#[trigger] rows_of(s)[i]).0.eq_spec(&key.val_spec())
                && value_q.matches_spec(&rows_of(s)[i].1)) == match assoc(s, key) {
            Some(v) => value_q.matches_spec(&v.val_spec()),
            None => false,
        },
{
    crate::pairs::lemma_assoc_characterizes(s, key);
    let rows = rows_of(s);
    assert(forall|i: int| 0 <= i < s.len() ==> #[trigger] rows[i] == (
        s[i].0.val_spec(),
        s[i].1.val_spec(),
    ));
    if exists|i: int|
        0 <= i < rows.len() && (#[trigger] rows[i]).0.eq_spec(&key.val_spec())
            && value_q.matches_spec(&rows[i].1) {
        let i = choose|i: int|
            0 <= i < rows.len() && (#[trigger] rows[i]).0.eq_spec(&key.val_spec())
                && value_q.matches_spec(&rows[i].1);
        K::val_preserves_eq(&s[i].0, &key);
        K::eq_decides(&s[i].0, &key);
        assert(s[i].0 == key);
        assert(assoc(s, key) == Some(s[i].1));
    }
    if let Some(v) = assoc(s, key) {
        if value_q.matches_spec(&v.val_spec()) {
            let i = choose|i: int| 0 <= i < s.len() && #[trigger] s[i] == (key, v);
            K::eq_decides(&key, &key);
            K::val_preserves_eq(&s[i].0, &key);
            assert(rows[i].0.eq_spec(&key.val_spec()) && value_q.matches_spec(&rows[i].1));
        }
    }
}

/// Element-match with a key list over serialized records succeeds exactly
/// when some listed key occurs in the original sequence.
proof fn lemma_rows_key_membership<K: SerialKey, V: Serial>(s: Seq<(K, V)>, keys: Seq<K>)
    requires
        crate::pairs::pairwise_distinct_keys(s),
    ensures
        (exists|i: int|
            0 <= i < rows_of(s).len() && crate::query::contains_value(
                keys.map_values(|k: K| k.val_spec()),
                (#[trigger] rows_of(s)[i]).0,
            )) == exists|j: int| 0 <= j < keys.len() && assoc(s, #[trigger] keys[j]) is Some,
{
    let rows = rows_of(s);
    let mapped = keys.map_values(|k: K| k.val_spec());
    assert(forall|i: int| 0 <= i < s.len() ==> #[trigger] rows[i] == (
        s[i].0.val_spec(),
        s[i].1.val_spec(),
    ));
    assert(forall|j: int| 0 <= j < keys.len() ==> #[trigger] mapped[j] == keys[j].val_spec());
    if exists|i: int|
        0 <= i < rows.len() && crate::query::contains_value(mapped, (#[trigger] rows[i]).0) {
        let i = choose|i: int|
            0 <= i < rows.len() && crate::query::contains_value(mapped, (#[trigger] rows[i]).0);
        let j = choose|j: int| 0 <= j < mapped.len() && (#[trigger] mapped[j]).eq_spec(&rows[i].0);
        K::val_preserves_eq(&keys[j], &s[i].0);
        K::eq_decides(&keys[j], &s[i].0);
        assert(keys[j] == s[i].0);
        crate::pairs::lemma_assoc_characterizes(s, keys[j]);
        assert(assoc(s, keys[j]) is Some);
    }
    if exists|j: int| 0 <= j < keys.len() && assoc(s, #[trigger] keys[j]) is Some {
        let j = choose|j: int| 0 <= j < keys.len() && assoc(s, #[trigger] keys[j]) is Some;
        crate::pairs::lemma_assoc_characterizes(s, keys[j]);
        let v = assoc(s, keys[j])->0;
        let i = choose|i: int| 0 <= i < s.len() && #[trigger] s[i] == (keys[j], v);
        K::eq_decides(&keys[j], &keys[j]);
        K::val_preserves_eq(&keys[j], &keys[j]);
        assert(mapped[j].eq_spec(&rows[i].0));
        assert(crate::query::contains_value(mapped, rows[i].0));
    }
}

/// Serialize each value of a vector.
#[verifier::loop_isolation(false)]
pub fn serialize_vec<T: Serial>(values: &Vec<T>) -> (r: Vec<Value>)
    ensures
        r@ == values@.map_values(|t: T| t.val_spec()),
{
    let mut out: Vec<Value> = Vec::new();
    let mut i: usize = 0;
    while i < values.len()
        invariant
            i <= values@.len(),
            out@ == values@.take(i as int).map_values(|t: T| t.val_spec()),
        decreases values@.len() - i,
    {
        out.push(values[i].to_value());
        proof {
            assert(values@.take(i + 1).map_values(|t: T| t.val_spec()) =~= values@.take(
                i as int,
            ).map_values(|t: T| t.val_spec()).push(values@[i as int].val_spec()));
        }
        i = i + 1;
    }
    proof {
        assert(values@.take(values@.len() as int) =~= values@);
    }
    out
}

/// A leaf query that binds only an exact key.
pub open spec fn key_eq_only<K: Serial>(key: K, m: SimpleQuery<Value>) -> bool {
    &&& m.eq == Some(key.val_spec())
    &&& m.ne is None
    &&& m.gt is None
    &&& m.ge is None
    &&& m.lt is None
    &&& m.le is None
    &&& m.in_ is None
    &&& m.nin is None
}

/// A leaf query that binds only membership in a key list.
pub open spec fn key_in_only<K: Serial>(keys: Seq<K>, m: SimpleQuery<Value>) -> bool {
    &&& m.eq is None
    &&& m.ne is None
    &&& m.gt is None
    &&& m.ge is None
    &&& m.lt is None
    &&& m.le is None
    &&& (m.in_ matches Some(ws) && ws@ == keys.map_values(|k: K| k.val_spec()))
    &&& m.nin is None
}

/// A leaf query that binds nothing and so matches every value.
pub open spec fn matches_any(m: SimpleQuery<Value>) -> bool {
    &&& m.eq is None
    &&& m.ne is None
    &&& m.gt is None
    &&& m.ge is None
    &&& m.lt is None
    &&& m.le is None
    &&& m.in_ is None
    &&& m.nin is None
}

/// An entity kind that compiles into the backend-neutral form: its
/// objects project into parameter cells and record lists, its queries
/// into compiled clauses, and — the compilation's correctness — a
/// compiled clause evaluated against the projection selects exactly the
/// objects the query matches.
pub trait Indexable: crate::query::Queryable {
    /// The scalar parameter cells of an object owned by a group.
    spec fn singular_of(group: crate::id::Id<crate::user::Group>, object: Self) -> Seq<
        (Param, Value),
    >;

    /// The record lists of an object, one per collection parameter.
    spec fn complex_of(object: Self) -> Seq<(Param, Seq<(Value, Value)>)>;

    /// The object's own validity (record lists carry distinct keys).
    spec fn object_wf(object: Self) -> bool;

    /// The side condition under which the compiled form of the query
    /// agrees with direct matching on the object. It excludes only
    /// queries that read a collection entry's absence as a default value,
    /// which no record of the projection can witness.
    spec fn benign(query: Self::Query, object: Self) -> bool;

    /// How a query of this kind compiles.
    spec fn query_compiles(query: Self::Query, raw: RawQuery) -> bool;

    /// Project an object owned by a group into its queryable parameters.
    fn project(group: crate::id::Id<crate::user::Group>, object: &Self) -> (r: RawObject)
        ensures
            r.singular@ == Self::singular_of(group, *object),
            complex_view(r) == Self::complex_of(*object),
    ;

    /// Compile a query of this kind.
    fn compile(query: &Self::Query) -> (raw: RawQuery)
        ensures
            Self::query_compiles(*query, raw),
    ;

    /// The owning group is always filed among the scalar cells.
    proof fn group_in_singular(group: crate::id::Id<crate::user::Group>, object: Self)
        ensures
            assoc(Self::singular_of(group, object), Param::Group) == Some(
                Value::Unsigned(group@),
            ),
    ;

    /// Compiled evaluation against the projection agrees with direct
    /// matching.
    proof fn compiled_matches(
        query: Self::Query,
        raw: RawQuery,
        group: crate::id::Id<crate::user::Group>,
        object: Self,
        obj: RawObject,
    )
        requires
            Self::query_compiles(query, raw),
            obj.singular@ == Self::singular_of(group, object),
            complex_view(obj) == Self::complex_of(object),
            Self::object_wf(object),
            Self::benign(query, object),
        ensures
            raw_matches_spec(raw, obj) == query.matches_spec(&object),
    ;
}

/// Looking a parameter up among the record lists, seen as sequences,
/// finds the same list as looking it up among the vectors.
proof fn lemma_assoc_complex(obj: RawObject, param: Param)
    ensures
        match assoc(obj.complex@, param) {
            Some(rows) => assoc(complex_view(obj), param) == Some(rows@),
            None => assoc(complex_view(obj), param) is None,
        },
    decreases obj.complex@.len(),
{
    let s = obj.complex@;
    let t = complex_view(obj);
    assert(t.len() == s.len());
    if s.len() > 0 {
        assert(t[0] == (s[0].0, s[0].1@));
        if s[0].0 != param {
            assert(s.drop_first().map_values(|p: (Param, Vec<(Value, Value)>)| (p.0, p.1@))
                =~= t.drop_first());
            lemma_assoc_complex_seq(s.drop_first(), param);
        }
    }
}

impl Indexable for crate::account::Account {
    open spec fn singular_of(group: crate::id::Id<crate::user::Group>, object: Self) -> Seq<
        (Param, Value),
    > {
        seq![
            (Param::Group, Value::Unsigned(group@)),
            (Param::Name, Value::Text(object.name)),
            (Param::Description, Value::Text(object.description)),
        ]
    }

    open spec fn complex_of(object: Self) -> Seq<(Param, Seq<(Value, Value)>)> {
        Seq::empty()
    }

    open spec fn object_wf(object: Self) -> bool {
        true
    }

    open spec fn benign(query: crate::account::AccountQuery, object: Self) -> bool {
        true
    }

    open spec fn query_compiles(query: crate::account::AccountQuery, raw: RawQuery) -> bool {
        match query {
            crate::account::AccountQuery::Name(q) => raw matches RawQuery::Simple {
                param,
                query: m,
            } && param == Param::Name && query_compiles_to(q, m),
            crate::account::AccountQuery::Description(q) => raw matches RawQuery::Simple {
                param,
                query: m,
            } && param == Param::Description && query_compiles_to(q, m),
        }
    }

    fn project(group: crate::id::Id<crate::user::Group>, object: &Self) -> (r: RawObject) {
        let mut singular: Vec<(Param, Value)> = Vec::new();
        singular.push((Param::Group, Value::Unsigned(group.value())));
        singular.push((Param::Name, object.name.to_value()));
        singular.push((Param::Description, object.description.to_value()));
        let r = RawObject { singular, complex: Vec::new() };
        proof {
            assert(r.singular@ =~= Self::singular_of(group, *object));
            assert(complex_view(r) =~= Self::complex_of(*object));
        }
        r
    }

    fn compile(query: &crate::account::AccountQuery) -> (raw: RawQuery) {
        match query {
            crate::account::AccountQuery::Name(q) => RawQuery::Simple {
                param: Param::Name,
                query: compile_query(q),
            },
            crate::account::AccountQuery::Description(q) => RawQuery::Simple {
                param: Param::Description,
                query: compile_query(q),
            },
        }
    }

    proof fn group_in_singular(group: crate::id::Id<crate::user::Group>, object: Self) {
        let s = Self::singular_of(group, object);
        assert(s[0] == (Param::Group, Value::Unsigned(group@)));
    }

    proof fn compiled_matches(
        query: crate::account::AccountQuery,
        raw: RawQuery,
        group: crate::id::Id<crate::user::Group>,
        object: Self,
        obj: RawObject,
    ) {
        let s = Self::singular_of(group, object);
        assert(s.drop_first()[0] == (Param::Name, Value::Text(object.name)));
        assert(s.drop_first().drop_first()[0] == (
            Param::Description,
            Value::Text(object.description),
        ));
        match query {
            crate::account::AccountQuery::Name(q) => {
                assert(assoc(s, Param::Name) == assoc(s.drop_first(), Param::Name));
                assert(assoc(s.drop_first(), Param::Name) == Some(Value::Text(object.name)));
                lemma_compile_query_matches(q, raw->Simple_query, object.name);
            },
            crate::account::AccountQuery::Description(q) => {
                assert(assoc(s, Param::Description) == assoc(s.drop_first(), Param::Description));
                assert(assoc(s.drop_first(), Param::Description) == assoc(
                    s.drop_first().drop_first(),
                    Param::Description,
                ));
                assert(assoc(s.drop_first().drop_first(), Param::Description) == Some(
                    Value::Text(object.description),
                ));
                lemma_compile_query_matches(q, raw->Simple_query, object.description);
            },
        }
    }
}

impl Indexable for crate::user::User {
    open spec fn singular_of(group: crate::id::Id<crate::user::Group>, object: Self) -> Seq<
        (Param, Value),
    > {
        seq![(Param::Group, Value::Unsigned(group@)), (Param::Name, Value::Text(object.name))]
    }

    open spec fn complex_of(object: Self) -> Seq<(Param, Seq<(Value, Value)>)> {
        Seq::empty()
    }

    open spec fn object_wf(object: Self) -> bool {
        true
    }

    open spec fn benign(query: crate::user::UserQuery, object: Self) -> bool {
        true
    }

    open spec fn query_compiles(query: crate::user::UserQuery, raw: RawQuery) -> bool {
        match query {
            crate::user::UserQuery::Name(q) => raw matches RawQuery::Simple { param, query: m }
                && param == Param::Name && query_compiles_to(q, m),
        }
    }

    fn project(group: crate::id::Id<crate::user::Group>, object: &Self) -> (r: RawObject) {
        let mut singular: Vec<(Param, Value)> = Vec::new();
        singular.push((Param::Group, Value::Unsigned(group.value())));
        singular.push((Param::Name, object.name.to_value()));
        let r = RawObject { singular, complex: Vec::new() };
        proof {
            assert(r.singular@ =~= Self::singular_of(group, *object));
            assert(complex_view(r) =~= Self::complex_of(*object));
        }
        r
    }

    fn compile(query: &crate::user::UserQuery) -> (raw: RawQuery) {
        match query {
            crate::user::UserQuery::Name(q) => RawQuery::Simple {
                param: Param::Name,
                query: compile_query(q),
            },
        }
    }

    proof fn group_in_singular(group: crate::id::Id<crate::user::Group>, object: Self) {
        let s = Self::singular_of(group, object);
        assert(s[0] == (Param::Group, Value::Unsigned(group@)));
    }

    proof fn compiled_matches(
        query: crate::user::UserQuery,
        raw: RawQuery,
        group: crate::id::Id<crate::user::Group>,
        object: Self,
        obj: RawObject,
    ) {
        let s = Self::singular_of(group, object);
        assert(s.drop_first()[0] == (Param::Name, Value::Text(object.name)));
        match query {
            crate::user::UserQuery::Name(q) => {
                assert(assoc(s, Param::Name) == assoc(s.drop_first(), Param::Name));
                assert(assoc(s.drop_first(), Param::Name) == Some(Value::Text(object.name)));
                lemma_compile_query_matches(q, raw->Simple_query, object.name);
            },
        }
    }
}

/// Build the serialized record list of a key-value pair map.
#[verifier::loop_isolation(false)]
fn project_rows<K: Serial + crate::pairs::Key, V: Serial>(
    map: &crate::pairs::PairMap<K, V>,
) -> (r: Vec<(Value, Value)>)
    ensures
        r@ == rows_of(map@),
{
    let pairs = map.pairs();
    let mut rows: Vec<(Value, Value)> = Vec::new();
    let mut i: usize = 0;
    while i < pairs.len()
        invariant
            i <= pairs@.len(),
            pairs@ == map@,
            rows@ == rows_of(map@.take(i as int)),
        decreases pairs@.len() - i,
    {
        rows.push((pairs[i].0.to_value(), pairs[i].1.to_value()));
        proof {
            assert(rows_of(map@.take(i + 1)) =~= rows_of(map@.take(i as int)).push(
                (map@[i as int].0.val_spec(), map@[i as int].1.val_spec()),
            ));
        }
        i = i + 1;
    }
    proof {
        assert(map@.take(map@.len() as int) =~= map@);
    }
    rows
}

impl Indexable for crate::transaction::Transaction {
    open spec fn singular_of(group: crate::id::Id<crate::user::Group>, object: Self) -> Seq<
        (Param, Value),
    > {
        seq![
            (Param::Group, Value::Unsigned(group@)),
            (Param::Description, object.description.val_spec()),
            (Param::Date, object.date.val_spec()),
        ]
    }

    open spec fn complex_of(object: Self) -> Seq<(Param, Seq<(Value, Value)>)> {
        seq![(Param::Amounts, rows_of(object.amounts@))]
    }

    open spec fn object_wf(object: Self) -> bool {
        crate::pairs::pairwise_distinct_keys(object.amounts@)
    }

    open spec fn benign(query: crate::transaction::TransactionQuery, object: Self) -> bool {
        match query {
            crate::transaction::TransactionQuery::AccountAmount(account, q) => {
                object.amounts.contains_key(account) || !q.matches_spec(
                    &crate::amount::Amount::spec_zero(),
                )
            },
            _ => true,
        }
    }

    open spec fn query_compiles(
        query: crate::transaction::TransactionQuery,
        raw: RawQuery,
    ) -> bool {
        match query {
            crate::transaction::TransactionQuery::Date(q) => raw matches RawQuery::Simple {
                param,
                query: m,
            } && param == Param::Date && query_compiles_to(q, m),
            crate::transaction::TransactionQuery::Description(q) => raw
                matches RawQuery::Simple { param, query: m } && param == Param::Description
                && query_compiles_to(q, m),
            crate::transaction::TransactionQuery::Account(ids) => raw
                matches RawQuery::Complex { param, key, value } && param == Param::Amounts
                && key_in_only(ids@, key) && matches_any(value),
            crate::transaction::TransactionQuery::AccountAmount(account, q) => raw
                matches RawQuery::Complex { param, key, value } && param == Param::Amounts
                && key_eq_only(account, key) && query_compiles_to(q, value),
        }
    }

    fn project(group: crate::id::Id<crate::user::Group>, object: &Self) -> (r: RawObject) {
        let mut singular: Vec<(Param, Value)> = Vec::new();
        singular.push((Param::Group, Value::Unsigned(group.value())));
        singular.push((Param::Description, object.description.to_value()));
        singular.push((Param::Date, object.date.to_value()));
        let rows = project_rows(&object.amounts);
        let mut complex: Vec<(Param, Vec<(Value, Value)>)> = Vec::new();
        complex.push((Param::Amounts, rows));
        let r = RawObject { singular, complex };
        proof {
            assert(r.singular@ =~= Self::singular_of(group, *object));
            assert(complex_view(r) =~= Self::complex_of(*object));
        }
        r
    }

    fn compile(query: &crate::transaction::TransactionQuery) -> (raw: RawQuery) {
        match query {
            crate::transaction::TransactionQuery::Date(q) => RawQuery::Simple {
                param: Param::Date,
                query: compile_query(q),
            },
            crate::transaction::TransactionQuery::Description(q) => RawQuery::Simple {
                param: Param::Description,
                query: compile_query(q),
            },
            crate::transaction::TransactionQuery::Account(ids) => RawQuery::Complex {
                param: Param::Amounts,
                key: SimpleQuery::in_(serialize_vec(ids)),
                value: SimpleQuery::none(),
            },
            crate::transaction::TransactionQuery::AccountAmount(account, q) => {
                RawQuery::Complex {
                    param: Param::Amounts,
                    key: SimpleQuery::eq(account.to_value()),
                    value: compile_query(q),
                }
            },
        }
    }

    proof fn group_in_singular(group: crate::id::Id<crate::user::Group>, object: Self) {
        let s = Self::singular_of(group, object);
        assert(s[0] == (Param::Group, Value::Unsigned(group@)));
    }

    proof fn compiled_matches(
        query: crate::transaction::TransactionQuery,
        raw: RawQuery,
        group: crate::id::Id<crate::user::Group>,
        object: Self,
        obj: RawObject,
    ) {
        let s = Self::singular_of(group, object);
        let rows = rows_of(object.amounts@);
        assert(complex_view(obj)[0] == (Param::Amounts, rows));
        assert(assoc(complex_view(obj), Param::Amounts) == Some(rows));
        match query {
            crate::transaction::TransactionQuery::Date(q) => {
                assert(assoc(s, Param::Date) == assoc(s.drop_first(), Param::Date));
                assert(assoc(s.drop_first(), Param::Date) == assoc(
                    s.drop_first().drop_first(),
                    Param::Date,
                ));
                assert(assoc(s.drop_first().drop_first(), Param::Date) == Some(
                    object.date.val_spec(),
                ));
                lemma_compile_query_matches(q, raw->Simple_query, object.date);
            },
            crate::transaction::TransactionQuery::Description(q) => {
                assert(assoc(s, Param::Description) == assoc(s.drop_first(), Param::Description));
                assert(assoc(s.drop_first(), Param::Description) == Some(
                    object.description.val_spec(),
                ));
                lemma_compile_query_matches(q, raw->Simple_query, object.description);
            },
            crate::transaction::TransactionQuery::Account(ids) => {
                let key = raw->Complex_key;
                let value = raw->Complex_value;
                let mapped = ids@.map_values(|k: crate::id::Id<crate::account::Account>|
                    k.val_spec());
                assert(forall|i: int|
                    0 <= i < rows.len() ==> (key.matches_spec(&(#[trigger] rows[i]).0)
                        && value.matches_spec(&rows[i].1)) == crate::query::contains_value(
                        mapped,
                        rows[i].0,
                    ));
                lemma_rows_key_membership(object.amounts@, ids@);
                if raw_matches_spec(raw, obj) {
                    let i = choose|i: int|
                        0 <= i < rows.len() && key.matches_spec(&(#[trigger] rows[i]).0)
                            && value.matches_spec(&rows[i].1);
                    assert(crate::query::contains_value(mapped, rows[i].0));
                }
                if exists|i: int|
                    0 <= i < rows.len() && crate::query::contains_value(
                        mapped,
                        (#[trigger] rows[i]).0,
                    ) {
                    let i = choose|i: int|
                        0 <= i < rows.len() && crate::query::contains_value(
                            mapped,
                            (#[trigger] rows[i]).0,
                        );
                    assert(key.matches_spec(&rows[i].0) && value.matches_spec(&rows[i].1));
                }
            },
            crate::transaction::TransactionQuery::AccountAmount(account, q) => {
                let key = raw->Complex_key;
                let value = raw->Complex_value;
                assert(forall|i: int|
                    0 <= i < rows.len() ==> key.matches_spec(&(#[trigger] rows[i]).0)
                        == rows[i].0.eq_spec(&account.val_spec()));
                lemma_rows_key_lookup(object.amounts@, account, value);
                match assoc(object.amounts@, account) {
                    Some(v) => {
                        lemma_compile_query_matches(q, value, v);
                    },
                    None => {},
                }
                if raw_matches_spec(raw, obj) {
                    let i = choose|i: int|
                        0 <= i < rows.len() && key.matches_spec(&(#[trigger] rows[i]).0)
                            && value.matches_spec(&rows[i].1);
                    assert(rows[i].0.eq_spec(&account.val_spec()) && value.matches_spec(
                        &rows[i].1,
                    ));
                }
                if exists|i: int|
                    0 <= i < rows.len() && (#[trigger] rows[i]).0.eq_spec(&account.val_spec())
                        && value.matches_spec(&rows[i].1) {
                    let i = choose|i: int|
                        0 <= i < rows.len() && (#[trigger] rows[i]).0.eq_spec(
                            &account.val_spec(),
                        ) && value.matches_spec(&rows[i].1);
                    assert(key.matches_spec(&rows[i].0) && value.matches_spec(&rows[i].1));
                }
            },
        }
    }
}

impl Indexable for crate::user::Group {
    open spec fn singular_of(group: crate::id::Id<crate::user::Group>, object: Self) -> Seq<
        (Param, Value),
    > {
        seq![(Param::Group, Value::Unsigned(group@)), (Param::Name, object.name.val_spec())]
    }

    open spec fn complex_of(object: Self) -> Seq<(Param, Seq<(Value, Value)>)> {
        seq![(Param::Users, rows_of(object.permissions.users@))]
    }

    open spec fn object_wf(object: Self) -> bool {
        crate::pairs::pairwise_distinct_keys(object.permissions.users@)
    }

    open spec fn benign(query: crate::user::GroupQuery, object: Self) -> bool {
        match query {
            crate::user::GroupQuery::UserPerm(user, q) => {
                object.permissions.users.contains_key(user) || !q.matches_spec(
                    &object.permissions.default,
                )
            },
            _ => true,
        }
    }

    open spec fn query_compiles(query: crate::user::GroupQuery, raw: RawQuery) -> bool {
        match query {
            crate::user::GroupQuery::Name(q) => raw matches RawQuery::Simple { param, query: m }
                && param == Param::Name && query_compiles_to(q, m),
            crate::user::GroupQuery::UserAny(ids) => raw matches RawQuery::Complex {
                param,
                key,
                value,
            } && param == Param::Users && key_in_only(ids@, key) && matches_any(value),
            crate::user::GroupQuery::UserPerm(user, q) => raw matches RawQuery::Complex {
                param,
                key,
                value,
            } && param == Param::Users && key_eq_only(user, key) && query_compiles_to(q, value),
        }
    }

    fn project(group: crate::id::Id<crate::user::Group>, object: &Self) -> (r: RawObject) {
        let mut singular: Vec<(Param, Value)> = Vec::new();
        singular.push((Param::Group, Value::Unsigned(group.value())));
        singular.push((Param::Name, object.name.to_value()));
        let rows = project_rows(&object.permissions.users);
        let mut complex: Vec<(Param, Vec<(Value, Value)>)> = Vec::new();
        complex.push((Param::Users, rows));
        let r = RawObject { singular, complex };
        proof {
            assert(r.singular@ =~= Self::singular_of(group, *object));
            assert(complex_view(r) =~= Self::complex_of(*object));
        }
        r
    }

    fn compile(query: &crate::user::GroupQuery) -> (raw: RawQuery) {
        match query {
            crate::user::GroupQuery::Name(q) => RawQuery::Simple {
                param: Param::Name,
                query: compile_query(q),
            },
            crate::user::GroupQuery::UserAny(ids) => RawQuery::Complex {
                param: Param::Users,
                key: SimpleQuery::in_(serialize_vec(ids)),
                value: SimpleQuery::none(),
            },
            crate::user::GroupQuery::UserPerm(user, q) => RawQuery::Complex {
                param: Param::Users,
                key: SimpleQuery::eq(user.to_value()),
                value: compile_query(q),
            },
        }
    }

    proof fn group_in_singular(group: crate::id::Id<crate::user::Group>, object: Self) {
        let s = Self::singular_of(group, object);
        assert(s[0] == (Param::Group, Value::Unsigned(group@)));
    }

    proof fn compiled_matches(
        query: crate::user::GroupQuery,
        raw: RawQuery,
        group: crate::id::Id<crate::user::Group>,
        object: Self,
        obj: RawObject,
    ) {
        let s = Self::singular_of(group, object);
        let rows = rows_of(object.permissions.users@);
        assert(complex_view(obj)[0] == (Param::Users, rows));
        assert(assoc(complex_view(obj), Param::Users) == Some(rows));
        match query {
            crate::user::GroupQuery::Name(q) => {
                assert(assoc(s, Param::Name) == assoc(s.drop_first(), Param::Name));
                assert(assoc(s.drop_first(), Param::Name) == Some(object.name.val_spec()));
                lemma_compile_query_matches(q, raw->Simple_query, object.name);
            },
            crate::user::GroupQuery::UserAny(ids) => {
                let key = raw->Complex_key;
                let value = raw->Complex_value;
                let mapped = ids@.map_values(|k: crate::id::Id<crate::user::User>| k.val_spec());
                assert(forall|i: int|
                    0 <= i < rows.len() ==> (key.matches_spec(&(#[trigger] rows[i]).0)
                        && value.matches_spec(&rows[i].1)) == crate::query::contains_value(
                        mapped,
                        rows[i].0,
                    ));
                lemma_rows_key_membership(object.permissions.users@, ids@);
                if raw_matches_spec(raw, obj) {
                    let i = choose|i: int|
                        0 <= i < rows.len() && key.matches_spec(&(#[trigger] rows[i]).0)
                            && value.matches_spec(&rows[i].1);
                    assert(crate::query::contains_value(mapped, rows[i].0));
                }
                if exists|i: int|
                    0 <= i < rows.len() && crate::query::contains_value(
                        mapped,
                        (#[trigger] rows[i]).0,
                    ) {
                    let i = choose|i: int|
                        0 <= i < rows.len() && crate::query::contains_value(
                            mapped,
                            (#[trigger] rows[i]).0,
                        );
                    assert(key.matches_spec(&rows[i].0) && value.matches_spec(&rows[i].1));
                }
            },
            crate::user::GroupQuery::UserPerm(user, q) => {
                let key = raw->Complex_key;
                let value = raw->Complex_value;
                assert(forall|i: int|
                    0 <= i < rows.len() ==> key.matches_spec(&(#[trigger] rows[i]).0)
                        == rows[i].0.eq_spec(&user.val_spec()));
                lemma_rows_key_lookup(object.permissions.users@, user, value);
                match assoc(object.permissions.users@, user) {
                    Some(level) => {
                        lemma_compile_query_matches(q, value, level);
                    },
                    None => {},
                }
                if raw_matches_spec(raw, obj) {
                    let i = choose|i: int|
                        0 <= i < rows.len() && key.matches_spec(&(#[trigger] rows[i]).0)
                            && value.matches_spec(&rows[i].1);
                    assert(rows[i].0.eq_spec(&user.val_spec()) && value.matches_spec(
                        &rows[i].1,
                    ));
                }
                if exists|i: int|
                    0 <= i < rows.len() && (#[trigger] rows[i]).0.eq_spec(&user.val_spec())
                        && value.matches_spec(&rows[i].1) {
                    let i = choose|i: int|
                        0 <= i < rows.len() && (#[trigger] rows[i]).0.eq_spec(&user.val_spec())
                            && value.matches_spec(&rows[i].1);
                    assert(key.matches_spec(&rows[i].0) && value.matches_spec(&rows[i].1));
                }
            },
        }
    }
}

/// How a grouped query compiles: a query on the owning group becomes a
/// scalar membership condition on the group parameter, and an entity
/// query compiles as its kind prescribes.
pub open spec fn grouped_compiles<T: Indexable>(
    query: crate::user::WithGroupQuery<T>,
    raw: RawQuery,
) -> bool {
    match query {
        crate::user::WithGroupQuery::Group(ids) => raw matches RawQuery::Simple {
            param,
            query: m,
        } && param == Param::Group && key_in_only(ids@, m),
        crate::user::WithGroupQuery::Other(q) => T::query_compiles(q, raw),
    }
}

/// The side condition under which the compiled form of a grouped query
/// agrees with direct matching on an object.
pub open spec fn grouped_benign<T: Indexable>(
    query: crate::user::WithGroupQuery<T>,
    object: crate::user::WithGroup<T>,
) -> bool {
    match query {
        crate::user::WithGroupQuery::Group(_) => true,
        crate::user::WithGroupQuery::Other(q) => T::benign(q, object.object),
    }
}

/// Compile a grouped query.
pub fn compile_grouped<T: Indexable>(query: &crate::user::WithGroupQuery<T>) -> (raw: RawQuery)
    ensures
        grouped_compiles(*query, raw),
{
    match query {
        crate::user::WithGroupQuery::Group(ids) => RawQuery::Simple {
            param: Param::Group,
            query: SimpleQuery::in_(serialize_vec(ids)),
        },
        crate::user::WithGroupQuery::Other(q) => T::compile(q),
    }
}

/// Compiled evaluation of a grouped query against an object's projection
/// agrees with direct matching: the clause-level round trip.
pub proof fn lemma_grouped_compiled_matches<T: Indexable>(
    query: crate::user::WithGroupQuery<T>,
    raw: RawQuery,
    object: crate::user::WithGroup<T>,
    obj: RawObject,
)
    requires
        grouped_compiles(query, raw),
        obj.singular@ == T::singular_of(object.group, object.object),
        complex_view(obj) == T::complex_of(object.object),
        T::object_wf(object.object),
        grouped_benign(query, object),
    ensures
        raw_matches_spec(raw, obj) == query.matches_spec(&object),
{
    match query {
        crate::user::WithGroupQuery::Group(ids) => {
            T::group_in_singular(object.group, object.object);
            let m = raw->Simple_query;
            let mapped = ids@.map_values(|k: crate::id::Id<crate::user::Group>| k.val_spec());
            assert(raw_matches_spec(raw, obj) == m.matches_spec(
                &Value::Unsigned(object.group@),
            ));
            assert(object.group.val_spec() == Value::Unsigned(object.group@));
            lemma_contains_serialized(ids@, mapped, object.group);
        },
        crate::user::WithGroupQuery::Other(q) => {
            T::compiled_matches(q, raw, object.group, object.object, obj);
        },
    }
}

/// The set-level round trip: for any grouped query and any collection of
/// objects, evaluating the compiled form against each object's
/// projection selects exactly the objects that direct matching selects.
pub proof fn lemma_compiled_round_trip<T: Indexable>(
    query: crate::user::WithGroupQuery<T>,
    raw: RawQuery,
    objects: Seq<crate::user::WithGroup<T>>,
    projections: Seq<RawObject>,
)
    requires
        grouped_compiles(query, raw),
        projections.len() == objects.len(),
        forall|i: int|
            0 <= i < objects.len() ==> (#[trigger] projections[i]).singular@ == T::singular_of(
                objects[i].group,
                objects[i].object,
            ) && complex_view(projections[i]) == T::complex_of(objects[i].object),
        forall|i: int| 0 <= i < objects.len() ==> T::object_wf((#[trigger] objects[i]).object),
        forall|i: int| 0 <= i < objects.len() ==> grouped_benign(query, #[trigger] objects[i]),
    ensures
        forall|i: int|
            0 <= i < objects.len() ==> raw_matches_spec(raw, #[trigger] projections[i])
                == query.matches_spec(&objects[i]),
{
    assert forall|i: int| 0 <= i < objects.len() implies raw_matches_spec(
        raw,
        #[trigger] projections[i],
    ) == query.matches_spec(&objects[i]) by {
        lemma_grouped_compiled_matches(query, raw, objects[i], projections[i]);
    }
}

/// A compiled clause is a query over projected objects.
impl Query<RawObject> for RawQuery {
    open spec fn matches_spec(&self, object: &RawObject) -> bool {
        raw_matches_spec(*self, *object)
    }

    fn matches(&self, object: &RawObject) -> (r: bool) {
        raw_matches(self, object)
    }
}

/// How a whole boolean query tree compiles: the structure is preserved
/// (with a mapped negation rebuilt by [`BooleanExpr::not`]) and each leaf
/// compiles as a grouped query.
pub open spec fn expr_compiles<T: Indexable>(
    a: BooleanExpr<crate::user::WithGroupQuery<T>>,
    b: BooleanExpr<RawQuery>,
) -> bool
    decreases a,
{
    match a {
        BooleanExpr::Value(q) => b matches BooleanExpr::Value(rq) && grouped_compiles(q, rq),
        BooleanExpr::Not(inner) => (b matches BooleanExpr::Not(bi) && expr_compiles(
            *inner,
            *bi,
        )) || expr_compiles(*inner, BooleanExpr::Not(Box::new(b))),
        BooleanExpr::Any(clauses) => b matches BooleanExpr::Any(mapped) && mapped@.len()
            == clauses@.len() && forall|i: int|
            #![trigger clauses@[i], mapped@[i]]
            0 <= i < clauses@.len() ==> expr_compiles(clauses@[i], mapped@[i]),
        BooleanExpr::All(clauses) => b matches BooleanExpr::All(mapped) && mapped@.len()
            == clauses@.len() && forall|i: int|
            #![trigger clauses@[i], mapped@[i]]
            0 <= i < clauses@.len() ==> expr_compiles(clauses@[i], mapped@[i]),
    }
}

/// Whether every leaf of a query tree is benign for an object.
pub open spec fn expr_benign<T: Indexable>(
    a: BooleanExpr<crate::user::WithGroupQuery<T>>,
    object: crate::user::WithGroup<T>,
) -> bool
    decreases a,
{
    match a {
        BooleanExpr::Value(q) => grouped_benign(q, object),
        BooleanExpr::Not(inner) => expr_benign(*inner, object),
        BooleanExpr::Any(clauses) => forall|i: int|
            0 <= i < clauses@.len() ==> expr_benign(#[trigger] clauses@[i], object),
        BooleanExpr::All(clauses) => forall|i: int|
            0 <= i < clauses@.len() ==> expr_benign(#[trigger] clauses@[i], object),
    }
}

/// A compilation that always succeeds reports an error at no leaf of
/// any tree.
proof fn lemma_compile_leaf_never_errs<T: Indexable, F: Fn(
    &crate::user::WithGroupQuery<T>,
) -> Result<RawQuery, crate::error::Error>>(
    f: F,
    a: BooleanExpr<crate::user::WithGroupQuery<T>>,
    e: crate::error::Error,
)
    requires
        forall|t: crate::user::WithGroupQuery<T>, r: Result<RawQuery, crate::error::Error>|
            call_ensures(f, (&t,), r) ==> r is Ok,
    ensures
        !crate::boolean::leaf_errs(f, a, e),
    decreases a,
{
    match a {
        BooleanExpr::Value(t) => {
            if call_ensures(f, (&t,), Err::<RawQuery, crate::error::Error>(e)) {
                assert(Err::<RawQuery, crate::error::Error>(e) is Ok);
            }
        },
        BooleanExpr::Not(inner) => {
            lemma_compile_leaf_never_errs(f, *inner, e);
        },
        BooleanExpr::Any(clauses) => {
            assert forall|i: int| 0 <= i < clauses@.len() implies !crate::boolean::leaf_errs(
                f,
                #[trigger] clauses@[i],
                e,
            ) by {
                lemma_compile_leaf_never_errs(f, clauses@[i], e);
            }
        },
        BooleanExpr::All(clauses) => {
            assert forall|i: int| 0 <= i < clauses@.len() implies !crate::boolean::leaf_errs(
                f,
                #[trigger] clauses@[i],
                e,
            ) by {
                lemma_compile_leaf_never_errs(f, clauses@[i], e);
            }
        },
    }
}

/// A structure-preserving map whose leaves compile grouped queries
/// yields a compiled tree.
proof fn lemma_maps_to_expr_compiles<T: Indexable, F: Fn(
    &crate::user::WithGroupQuery<T>,
) -> Result<RawQuery, crate::error::Error>>(
    f: F,
    a: BooleanExpr<crate::user::WithGroupQuery<T>>,
    b: BooleanExpr<RawQuery>,
)
    requires
        crate::boolean::maps_to(f, a, b),
        forall|t: crate::user::WithGroupQuery<T>, r: Result<RawQuery, crate::error::Error>|
            call_ensures(f, (&t,), r) ==> (r matches Ok(rq) && grouped_compiles(t, rq)),
    ensures
        expr_compiles(a, b),
    decreases a,
{
    match a {
        BooleanExpr::Value(t) => {},
        BooleanExpr::Not(inner) => {
            if b matches BooleanExpr::Not(bi) && crate::boolean::maps_to(f, *inner, *bi) {
                lemma_maps_to_expr_compiles(f, *inner, *b->Not_0);
            } else {
                lemma_maps_to_expr_compiles(f, *inner, BooleanExpr::Not(Box::new(b)));
            }
        },
        BooleanExpr::Any(clauses) => {
            let mapped = b->Any_0;
            assert forall|i: int| 0 <= i < clauses@.len() implies expr_compiles(
                clauses@[i],
                mapped@[i],
            ) by {
                assert(crate::boolean::maps_to(f, clauses@[i], mapped@[i]));
                lemma_maps_to_expr_compiles(f, clauses@[i], mapped@[i]);
            }
        },
        BooleanExpr::All(clauses) => {
            let mapped = b->All_0;
            assert forall|i: int| 0 <= i < clauses@.len() implies expr_compiles(
                clauses@[i],
                mapped@[i],
            ) by {
                assert(crate::boolean::maps_to(f, clauses@[i], mapped@[i]));
                lemma_maps_to_expr_compiles(f, clauses@[i], mapped@[i]);
            }
        },
    }
}

/// Compile a whole boolean query tree, leaf by leaf, preserving the
/// structure.
pub fn compile_expr<T: Indexable>(expr: &BooleanExpr<crate::user::WithGroupQuery<T>>) -> (r:
    BooleanExpr<RawQuery>)
    ensures
        expr_compiles(*expr, r),
{
    let compile_leaf = |q: &crate::user::WithGroupQuery<T>| -> (r: Result<
        RawQuery,
        crate::error::Error,
    >)
        ensures
            r matches Ok(rq) && grouped_compiles(*q, rq),
        { Ok(compile_grouped(q)) };
    match expr.try_map_values(&compile_leaf) {
        Ok(compiled) => {
            proof {
                lemma_maps_to_expr_compiles(compile_leaf, *expr, compiled);
            }
            compiled
        },
        Err(e) => {
            proof {
                lemma_compile_leaf_never_errs(compile_leaf, *expr, e);
            }
            unreached()
        },
    }
}

/// The tree-level round trip: a compiled boolean query tree, evaluated
/// against an object's projection, holds exactly when the original tree
/// matches the object — for every boolean structure, provided each leaf
/// is benign for the object.
pub proof fn lemma_compiled_expr_round_trip<T: Indexable>(
    a: BooleanExpr<crate::user::WithGroupQuery<T>>,
    b: BooleanExpr<RawQuery>,
    object: crate::user::WithGroup<T>,
    proj: RawObject,
)
    requires
        expr_compiles(a, b),
        proj.singular@ == T::singular_of(object.group, object.object),
        complex_view(proj) == T::complex_of(object.object),
        T::object_wf(object.object),
        expr_benign(a, object),
    ensures
        b.holds(|rq: RawQuery| raw_matches_spec(rq, proj)) == a.holds(
            |q: crate::user::WithGroupQuery<T>| q.matches_spec(&object),
        ),
    decreases a,
{
    let leaf_raw = |rq: RawQuery| raw_matches_spec(rq, proj);
    let leaf_q = |q: crate::user::WithGroupQuery<T>| q.matches_spec(&object);
    match a {
        BooleanExpr::Value(q) => {
            lemma_grouped_compiled_matches(q, b->Value_0, object, proj);
        },
        BooleanExpr::Not(inner) => {
            if b matches BooleanExpr::Not(bi) && expr_compiles(*inner, *bi) {
                lemma_compiled_expr_round_trip(*inner, *b->Not_0, object, proj);
            } else {
                lemma_compiled_expr_round_trip(
                    *inner,
                    BooleanExpr::Not(Box::new(b)),
                    object,
                    proj,
                );
            }
        },
        BooleanExpr::Any(clauses) => {
            let mapped = b->Any_0;
            assert forall|i: int| 0 <= i < clauses@.len() implies ((#[trigger] clauses@[i]).holds(
                leaf_q,
            ) == mapped@[i].holds(leaf_raw)) by {
                assert(expr_compiles(clauses@[i], mapped@[i]));
                lemma_compiled_expr_round_trip(clauses@[i], mapped@[i], object, proj);
            }
            if a.holds(leaf_q) {
                let i = choose|i: int|
                    0 <= i < clauses@.len() && (#[trigger] clauses@[i]).holds(leaf_q);
                assert(mapped@[i].holds(leaf_raw));
            }
            if b.holds(leaf_raw) {
                let i = choose|i: int|
                    0 <= i < mapped@.len() && (#[trigger] mapped@[i]).holds(leaf_raw);
                assert(clauses@[i].holds(leaf_q));
            }
        },
        BooleanExpr::All(clauses) => {
            let mapped = b->All_0;
            assert forall|i: int| 0 <= i < clauses@.len() implies ((#[trigger] clauses@[i]).holds(
                leaf_q,
            ) == mapped@[i].holds(leaf_raw)) by {
                assert(expr_compiles(clauses@[i], mapped@[i]));
                lemma_compiled_expr_round_trip(clauses@[i], mapped@[i], object, proj);
            }
            if a.holds(leaf_q) {
                assert forall|i: int| 0 <= i < mapped@.len() implies (
                #[trigger] mapped@[i]).holds(leaf_raw) by {
                    assert(clauses@[i].holds(leaf_q));
                }
            }
            if b.holds(leaf_raw) {
                assert forall|i: int| 0 <= i < clauses@.len() implies (
                #[trigger] clauses@[i]).holds(leaf_q) by {
                    assert(mapped@[i].holds(leaf_raw));
                }
            }
        },
    }
}

/// The sequence form of [`lemma_assoc_complex`], for the induction.
proof fn lemma_assoc_complex_seq(s: Seq<(Param, Vec<(Value, Value)>)>, param: Param)
    ensures
        match assoc(s, param) {
            Some(rows) => assoc(
                s.map_values(|p: (Param, Vec<(Value, Value)>)| (p.0, p.1@)),
                param,
            ) == Some(rows@),
            None => assoc(s.map_values(|p: (Param, Vec<(Value, Value)>)| (p.0, p.1@)), param)
                is None,
        },
    decreases s.len(),
{
    let t = s.map_values(|p: (Param, Vec<(Value, Value)>)| (p.0, p.1@));
    if s.len() > 0 {
        assert(t[0] == (s[0].0, s[0].1@));
        if s[0].0 != param {
            assert(s.drop_first().map_values(|p: (Param, Vec<(Value, Value)>)| (p.0, p.1@))
                =~= t.drop_first());
            lemma_assoc_complex_seq(s.drop_first(), param);
        }
    }
}

} // verus!
