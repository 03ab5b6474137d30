//! An association map stored as a sequence of key-value pairs.
//!
//! This is the shape in which group permissions and transaction amounts are
//! held and in which they cross a storage boundary (an array of pairs).

use vstd::prelude::*;

verus! {

/// Keys of a [`PairMap`]: types whose executable equality decides
/// mathematical equality.
pub trait Key: Sized {
    /// Whether `self` and `other` are the same key.
    fn same(&self, other: &Self) -> (r: bool)
        ensures
            r == (*self == *other),
    ;
}

/// What a sequence of pairs associates with a key: the value of the first
/// pair carrying it, if any.
pub open spec fn assoc<K, V>(s: Seq<(K, V)>, key: K) -> Option<V>
    decreases s.len(),
{
    if s.len() == 0 {
        None
    } else if s[0].0 == key {
        Some(s[0].1)
    } else {
        assoc(s.drop_first(), key)
    }
}

/// A map from keys to values, stored as a vector of pairs with pairwise
/// distinct keys.
#[derive(Debug)]
pub struct PairMap<K, V> {
    entries: Vec<(K, V)>,
}

impl<K, V> PairMap<K, V> {
    /// The pairs, in storage order; the mathematical content of the map.
    pub closed spec fn view(&self) -> Seq<(K, V)> {
        self.entries@
    }

    /// The value associated with the key, if any.
    pub open spec fn spec_get(&self, key: K) -> Option<V> {
        assoc(self@, key)
    }

    /// Whether the map associates a value with the key.
    pub open spec fn contains_key(&self, key: K) -> bool {
        self.spec_get(key) is Some
    }

    #[verifier::type_invariant]
    spec fn distinct_keys(&self) -> bool {
        pairwise_distinct_keys(self.entries@)
    }
}

/// Whether the pairs of a sequence carry pairwise distinct keys.
pub open spec fn pairwise_distinct_keys<K, V>(s: Seq<(K, V)>) -> bool {
    forall|i: int, j: int|
        0 <= i < j < s.len() ==> (#[trigger] s[i]).0 != (#[trigger] s[j]).0
}

/// On a sequence of pairs with pairwise distinct keys, `assoc` returns
/// `Some` exactly for the keys that occur, with the value of the unique
/// pair carrying the key.
pub proof fn lemma_assoc_characterizes<K, V>(s: Seq<(K, V)>, key: K)
    requires
        pairwise_distinct_keys(s),
    ensures
        match assoc(s, key) {
            Some(v) => exists|i: int| 0 <= i < s.len() && #[trigger] s[i] == (key, v),
            None => forall|i: int| 0 <= i < s.len() ==> (#[trigger] s[i]).0 != key,
        },
        forall|i: int|
            0 <= i < s.len() && (#[trigger] s[i]).0 == key ==> assoc(s, key) == Some(s[i].1),
    decreases s.len(),
{
    if s.len() > 0 && s[0].0 != key {
        lemma_assoc_characterizes(s.drop_first(), key);
        assert(forall|i: int| 1 <= i < s.len() ==> #[trigger] s[i] == s.drop_first()[i - 1]);
        if let Some(v) = assoc(s, key) {
            let i = choose|i: int|
                0 <= i < s.drop_first().len() && #[trigger] s.drop_first()[i] == (key, v);
            assert(s[i + 1] == (key, v));
        }
    }
}

impl<K: Key, V> PairMap<K, V> {
    /// The empty map.
    pub fn new() -> (r: Self)
        ensures
            r@ == Seq::<(K, V)>::empty(),
    {
        PairMap { entries: Vec::new() }
    }

    /// How many keys the map holds.
    pub fn len(&self) -> (r: usize)
        ensures
            r == self@.len(),
    {
        self.entries.len()
    }

    /// The pairs in storage order, for iteration.
    pub fn pairs(&self) -> (r: &Vec<(K, V)>)
        ensures
            r@ == self@,
    {
        &self.entries
    }

    /// The position of the pair carrying the key, if any.
    fn position(&self, key: &K) -> (r: Option<usize>)
        ensures
            match r {
                Some(i) => i < self@.len() && self@[i as int].0 == *key,
                None => forall|i: int| 0 <= i < self@.len() ==> (#[trigger] self@[i]).0 != *key,
            },
    {
        let mut i: usize = 0;
        while i < self.entries.len()
            invariant
                i <= self.entries@.len(),
                forall|j: int| 0 <= j < i ==> (#[trigger] self.entries@[j]).0 != *key,
            decreases self.entries@.len() - i,
        {
            if self.entries[i].0.same(key) {
                return Some(i);
            }
            i = i + 1;
        }
        None
    }

    /// Look up the value associated with the key.
    pub fn get(&self, key: &K) -> (r: Option<&V>)
        ensures
            match r {
                Some(v) => self.spec_get(*key) == Some(*v),
                None => self.spec_get(*key) is None,
            },
    {
        proof {
            use_type_invariant(self);
            lemma_assoc_characterizes(self@, *key);
        }
        match self.position(key) {
            Some(i) => Some(&self.entries[i].1),
            None => None,
        }
    }

    /// Whether the map holds the key.
    pub fn has_key(&self, key: &K) -> (r: bool)
        ensures
            r == self.contains_key(*key),
    {
        proof {
            use_type_invariant(self);
            lemma_assoc_characterizes(self@, *key);
        }
        self.position(key).is_some()
    }

    /// Associate the key with the value, replacing any previous association.
    pub fn insert(&mut self, key: K, value: V)
        ensures
            final(self).spec_get(key) == Some(value),
            final(self)@.len() <= old(self)@.len() + 1,
            forall|k: K|
                k != key ==> #[trigger] final(self).spec_get(k) == old(self).spec_get(k),
    {
        proof {
            use_type_invariant(&*self);
        }
        let ghost pre = self@;
        let found = self.position(&key);
        let mut entries: Vec<(K, V)> = Vec::new();
        core::mem::swap(&mut entries, &mut self.entries);
        match found {
            Some(i) => {
                entries.set(i, (key, value));
                proof {
                    lemma_assoc_update(pre, entries@, key, value, i as int);
                }
            },
            None => {
                entries.push((key, value));
                proof {
                    lemma_assoc_push(pre, key, value);
                }
            },
        }
        core::mem::swap(&mut entries, &mut self.entries);
    }
}

/// Whether any of the keys has an entry in the map.
pub fn any_key_of<K: Key, V>(keys: &Vec<K>, map: &PairMap<K, V>) -> (r: bool)
    ensures
        r == exists|i: int| 0 <= i < keys@.len() && map.contains_key(#[trigger] keys@[i]),
{
    let mut i: usize = 0;
    while i < keys.len()
        invariant
            i <= keys@.len(),
            forall|j: int| 0 <= j < i ==> !map.contains_key(#[trigger] keys@[j]),
        decreases keys@.len() - i,
    {
        if map.has_key(&keys[i]) {
            proof {
                assert(map.contains_key(keys@[i as int]));
            }
            return true;
        }
        i = i + 1;
    }
    false
}

proof fn lemma_assoc_update<K, V>(pre: Seq<(K, V)>, post: Seq<(K, V)>, key: K, value: V, i: int)
    requires
        pairwise_distinct_keys(pre),
        0 <= i < pre.len(),
        pre[i].0 == key,
        post == pre.update(i, (key, value)),
    ensures
        assoc(post, key) == Some(value),
        forall|k: K| k != key ==> #[trigger] assoc(post, k) == assoc(pre, k),
        pairwise_distinct_keys(post),
    decreases pre.len(),
{
    assert(forall|j: int| 0 <= j < pre.len() && j != i ==> post[j] == #[trigger] pre[j]);
    if i == 0 {
        assert(post.drop_first() =~= pre.drop_first());
        assert forall|k: K| k != key implies #[trigger] assoc(post, k) == assoc(pre, k) by {
            assert(assoc(post, k) == assoc(post.drop_first(), k));
            assert(assoc(pre, k) == assoc(pre.drop_first(), k));
        }
    } else {
        assert(post[0] == pre[0]);
        assert(post.drop_first() =~= pre.drop_first().update(i - 1, (key, value)));
        lemma_assoc_update(pre.drop_first(), post.drop_first(), key, value, i - 1);
        assert(pre[0].0 != key);
        assert(assoc(post, key) == assoc(post.drop_first(), key));
        assert forall|k: K| k != key implies #[trigger] assoc(post, k) == assoc(pre, k) by {
            if pre[0].0 != k {
                assert(assoc(post, k) == assoc(post.drop_first(), k));
                assert(assoc(pre, k) == assoc(pre.drop_first(), k));
            }
        }
    }
}

proof fn lemma_assoc_push<K, V>(pre: Seq<(K, V)>, key: K, value: V)
    requires
        pairwise_distinct_keys(pre),
        forall|a: int| 0 <= a < pre.len() ==> (#[trigger] pre[a]).0 != key,
    ensures
        assoc(pre.push((key, value)), key) == Some(value),
        forall|k: K|
            k != key ==> #[trigger] assoc(pre.push((key, value)), k) == assoc(pre, k),
        pairwise_distinct_keys(pre.push((key, value))),
    decreases pre.len(),
{
    let post = pre.push((key, value));
    assert(forall|j: int| 0 <= j < pre.len() ==> post[j] == #[trigger] pre[j]);
    assert(post[pre.len() as int] == (key, value));
    if pre.len() == 0 {
        assert(post[0] == (key, value));
        assert forall|k: K| k != key implies #[trigger] assoc(post, k) == assoc(pre, k) by {
            assert(assoc(post, k) == assoc(post.drop_first(), k));
            assert(post.drop_first() =~= Seq::<(K, V)>::empty());
        }
    } else {
        assert(post[0] == pre[0]);
        assert(post.drop_first() =~= pre.drop_first().push((key, value)));
        lemma_assoc_push(pre.drop_first(), key, value);
        assert(pre[0].0 != key);
        assert(assoc(post, key) == assoc(post.drop_first(), key));
        assert forall|k: K| k != key implies #[trigger] assoc(post, k) == assoc(pre, k) by {
            if pre[0].0 != k {
                assert(assoc(post, k) == assoc(post.drop_first(), k));
                assert(assoc(pre, k) == assoc(pre.drop_first(), k));
            }
        }
    }
}

} // verus!
