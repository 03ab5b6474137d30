//! A verified in-memory collection of grouped, versioned records.
//!
//! `Store` realizes the storage contract that the access-controlled facade
//! delegates to: insertion under a fresh identifier, lookup, a
//! compare-and-swap update on `(id, version)`, unconditional deletion, a
//! group change that rotates the version, and counting by query. It is the
//! reference model of that contract; wire backends perform the same
//! operations against their own media.

use crate::error::Error;
use crate::id::Id;
use crate::query::Queryable;
use crate::user::{Group, WithGroup, WithGroupQuery};
use crate::version::{Version, Versioned};
use vstd::prelude::*;

verus! {

/// Whether the records of a sequence carry pairwise distinct identifiers.
pub open spec fn distinct_ids<T>(s: Seq<WithGroup<Versioned<T>>>) -> bool {
    forall|i: int, j: int|
        0 <= i < j < s.len() ==> (#[trigger] s[i]).object.id@ != (#[trigger] s[j]).object.id@
}

/// The mapping from identifier value to record that a record sequence
/// holds.
pub open spec fn entries_map<T>(s: Seq<WithGroup<Versioned<T>>>) -> Map<
    u64,
    WithGroup<Versioned<T>>,
>
    decreases s.len(),
{
    if s.len() == 0 {
        Map::empty()
    } else {
        entries_map(s.drop_last()).insert(s.last().object.id@, s.last())
    }
}

/// On a sequence with distinct identifiers, the entry map holds exactly
/// the records of the sequence, keyed by their identifiers.
proof fn lemma_entries_characterize<T>(s: Seq<WithGroup<Versioned<T>>>)
    requires
        distinct_ids(s),
    ensures
        entries_map(s).dom().finite(),
        forall|i: int|
            0 <= i < s.len() ==> entries_map(s).contains_key((#[trigger] s[i]).object.id@)
                && entries_map(s)[s[i].object.id@] == s[i],
        forall|k: u64|
            #[trigger] entries_map(s).contains_key(k) ==> exists|i: int|
                0 <= i < s.len() && (#[trigger] s[i]).object.id@ == k,
    decreases s.len(),
{
    if s.len() > 0 {
        lemma_entries_characterize(s.drop_last());
        let m = entries_map(s);
        let last = s.last();
        assert(forall|i: int| 0 <= i < s.len() - 1 ==> #[trigger] s[i] == s.drop_last()[i]);
        assert forall|i: int| 0 <= i < s.len() implies m.contains_key(
            (#[trigger] s[i]).object.id@,
        ) && m[s[i].object.id@] == s[i] by {
            if i < s.len() - 1 {
                assert(s[i].object.id@ != last.object.id@);
            }
        }
        assert forall|k: u64| #[trigger] m.contains_key(k) implies exists|i: int|
            0 <= i < s.len() && (#[trigger] s[i]).object.id@ == k by {
            if k != last.object.id@ {
                let i = choose|i: int|
                    0 <= i < s.drop_last().len() && (#[trigger] s.drop_last()[i]).object.id@
                        == k;
                assert(s[i].object.id@ == k);
            } else {
                assert(s[s.len() - 1].object.id@ == k);
            }
        }
    }
}

/// Replacing the record at a position by one with the same identifier
/// updates exactly that identifier's entry.
proof fn lemma_entries_update<T>(s: Seq<WithGroup<Versioned<T>>>, i: int, r: WithGroup<
    Versioned<T>,
>)
    requires
        distinct_ids(s),
        0 <= i < s.len(),
        r.object.id@ == s[i].object.id@,
    ensures
        entries_map(s.update(i, r)) == entries_map(s).insert(r.object.id@, r),
        distinct_ids(s.update(i, r)),
    decreases s.len(),
{
    let t = s.update(i, r);
    let k = r.object.id@;
    assert(forall|j: int| 0 <= j < s.len() && j != i ==> #[trigger] t[j] == s[j]);
    if i == s.len() - 1 {
        assert(t.drop_last() =~= s.drop_last());
        assert(t.last() == r);
        assert(entries_map(s.drop_last()).insert(k, s.last()).insert(k, r) =~= entries_map(
            s.drop_last(),
        ).insert(k, r));
    } else {
        assert(t.drop_last() =~= s.drop_last().update(i, r));
        assert(t.last() == s.last());
        lemma_entries_update(s.drop_last(), i, r);
        let kl = s.last().object.id@;
        assert(k != kl);
        assert(entries_map(s.drop_last()).insert(k, r).insert(kl, s.last()) =~= entries_map(
            s.drop_last(),
        ).insert(kl, s.last()).insert(k, r));
    }
}

/// Removing the record at a position removes exactly its identifier's
/// entry.
proof fn lemma_entries_remove<T>(s: Seq<WithGroup<Versioned<T>>>, i: int)
    requires
        distinct_ids(s),
        0 <= i < s.len(),
    ensures
        entries_map(s.remove(i)) == entries_map(s).remove(s[i].object.id@),
        distinct_ids(s.remove(i)),
    decreases s.len(),
{
    let t = s.remove(i);
    let k = s[i].object.id@;
    lemma_entries_characterize(s);
    if i == s.len() - 1 {
        assert(t =~= s.drop_last());
        assert forall|j: int| 0 <= j < s.len() - 1 implies (#[trigger] s[j]).object.id@
            != k by {}
        assert(entries_map(s.drop_last()) =~= entries_map(s.drop_last()).insert(
            k,
            s.last(),
        ).remove(k)) by {
            lemma_entries_characterize(s.drop_last());
            if entries_map(s.drop_last()).contains_key(k) {
                let j = choose|j: int|
                    0 <= j < s.drop_last().len() && (#[trigger] s.drop_last()[j]).object.id@
                        == k;
                assert(s[j].object.id@ == k);
                assert(false);
            }
        }
    } else {
        assert(t.drop_last() =~= s.drop_last().remove(i));
        assert(t.last() == s.last());
        lemma_entries_remove(s.drop_last(), i);
        let kl = s.last().object.id@;
        assert(k != kl);
        assert(entries_map(s.drop_last()).remove(k).insert(kl, s.last()) =~= entries_map(
            s.drop_last(),
        ).insert(kl, s.last()).remove(k));
    }
}

/// An in-memory collection of grouped, versioned records with pairwise
/// distinct identifiers.
#[derive(Debug)]
pub struct Store<T> {
    records: Vec<WithGroup<Versioned<T>>>,
}

impl<T> Store<T> {
    /// The mapping from identifier value to stored record: the
    /// mathematical content of the store.
    pub closed spec fn view(&self) -> Map<u64, WithGroup<Versioned<T>>> {
        entries_map(self.records@)
    }

    /// Well-formedness: the records carry pairwise distinct identifiers.
    pub closed spec fn wf(&self) -> bool {
        distinct_ids(self.records@)
    }

    /// The empty store.
    pub fn new() -> (r: Self)
        ensures
            r.wf(),
            r@ == Map::<u64, WithGroup<Versioned<T>>>::empty(),
    {
        Store { records: Vec::new() }
    }

    /// The position of the record with the identifier, if any.
    #[verifier::loop_isolation(false)]
    fn position_of(&self, id: Id<T>) -> (r: Option<usize>)
        requires
            self.wf(),
        ensures
            match r {
                Some(i) => i < self.records@.len() && self.records@[i as int].object.id@ == id@
                    && self@.contains_key(id@) && self@[id@] == self.records@[i as int],
                None => !self@.contains_key(id@),
            },
    {
        proof {
            lemma_entries_characterize(self.records@);
        }
        let mut i: usize = 0;
        while i < self.records.len()
            invariant
                i <= self.records@.len(),
                forall|j: int|
                    0 <= j < i ==> (#[trigger] self.records@[j]).object.id@ != id@,
            decreases self.records@.len() - i,
        {
            if self.records[i].object.id.value() == id.value() {
                return Some(i);
            }
            i = i + 1;
        }
        proof {
            if self@.contains_key(id@) {
                let j = choose|j: int|
                    0 <= j < self.records@.len() && (#[trigger] self.records@[j]).object.id@
                        == id@;
            }
        }
        None
    }

    /// Look up the record stored under the identifier.
    pub fn get(&self, id: Id<T>) -> (r: Option<&WithGroup<Versioned<T>>>)
        requires
            self.wf(),
        ensures
            match r {
                Some(record) => self@.contains_key(id@) && *record == self@[id@],
                None => !self@.contains_key(id@),
            },
    {
        match self.position_of(id) {
            Some(i) => Some(&self.records[i]),
            None => None,
        }
    }

    /// Insert an object under the given identifier and version.
    ///
    /// Fails with a backend error, leaving the store unchanged, exactly
    /// when the identifier is already taken.
    pub fn insert_new(&mut self, object: WithGroup<T>, id: Id<T>, version: Version) -> (r:
        Result<(), Error>)
        requires
            old(self).wf(),
        ensures
            final(self).wf(),
            match r {
                Ok(()) => !old(self)@.contains_key(id@) && final(self)@ == old(self)@.insert(
                    id@,
                    WithGroup {
                        group: object.group,
                        object: Versioned { id, version, object: object.object },
                    },
                ),
                Err(e) => old(self)@.contains_key(id@) && (e matches Error::Backend(_))
                    && *final(self) == *old(self),
            },
    {
        match self.position_of(id) {
            Some(_) => Err(Error::Backend("identifier already taken".to_owned())),
            None => {
                let record = WithGroup {
                    group: object.group,
                    object: Versioned { id, version, object: object.object },
                };
                proof {
                    lemma_entries_characterize(self.records@);
                }
                let ghost pre = self.records@;
                self.records.push(record);
                proof {
                    assert(self.records@.drop_last() =~= pre);
                    assert forall|i: int, j: int|
                        0 <= i < j < self.records@.len() implies (
                    #[trigger] self.records@[i]).object.id@ != (
                    #[trigger] self.records@[j]).object.id@ by {
                        if j == self.records@.len() - 1 {
                            assert(self.records@[i] == pre[i]);
                        }
                    }
                }
                Ok(())
            },
        }
    }

    /// Create a record: mint a random identifier and version and insert
    /// the object under them.
    ///
    /// On success the identifier was free and the object is now stored
    /// under it with the fresh version; if the minted identifier happened
    /// to be taken, the store is unchanged and a backend error reports
    /// the collision.
    pub fn create(&mut self, object: WithGroup<T>) -> (r: Result<Id<T>, Error>)
        requires
            old(self).wf(),
        ensures
            final(self).wf(),
            match r {
                Ok(id) => !old(self)@.contains_key(id@) && final(self)@.dom() == old(self)@.dom().insert(id@) && final(self)@[id@].group == object.group && final(self)@[id@].object.id@ == id@ && final(self)@[id@].object.object == object.object
                    && forall|k: u64|
                    k != id@ && old(self)@.contains_key(k) ==> final(self)@[k] == old(self)@[k],
                Err(e) => (e matches Error::Backend(_)) && *final(self) == *old(self),
            },
    {
        let id = Id::new_random();
        let version = Version::new_random();
        match self.insert_new(object, id, version) {
            Ok(()) => Ok(id),
            Err(e) => Err(e),
        }
    }

    /// Apply an update as a compare-and-swap on `(id, version)`: the
    /// record is replaced, under a fresh version, exactly when it exists
    /// and the submitted version equals the stored one.
    ///
    /// A version mismatch on an existing record fails `ConflictingEdit`;
    /// an absent record fails `NotFound`; either failure leaves the store
    /// unchanged.
    pub fn update_cas(&mut self, object: Versioned<T>, new_version: Version) -> (r: Result<
        (),
        Error,
    >)
        requires
            old(self).wf(),
        ensures
            final(self).wf(),
            match r {
                Ok(()) => old(self)@.contains_key(object.id@) && old(self)@[object.id@].object.version == object.version && final(self)@ == old(self)@.insert(
                    object.id@,
                    WithGroup {
                        group: old(self)@[object.id@].group,
                        object: Versioned {
                            id: object.id,
                            version: new_version,
                            object: object.object,
                        },
                    },
                ),
                Err(Error::ConflictingEdit) => old(self)@.contains_key(object.id@) && old(self)@[object.id@].object.version != object.version && *final(self) == *old(self),
                Err(Error::NotFound) => !old(self)@.contains_key(object.id@) && *final(self)
                    == *old(self),
                _ => false,
            },
    {
        match self.position_of(object.id) {
            None => Err(Error::NotFound),
            Some(i) => {
                if !(self.records[i].object.version == object.version) {
                    return Err(Error::ConflictingEdit);
                }
                let record = WithGroup {
                    group: self.records[i].group,
                    object: Versioned {
                        id: object.id,
                        version: new_version,
                        object: object.object,
                    },
                };
                let ghost pre = self.records@;
                let mut records: Vec<WithGroup<Versioned<T>>> = Vec::new();
                core::mem::swap(&mut records, &mut self.records);
                records.set(i, record);
                core::mem::swap(&mut records, &mut self.records);
                proof {
                    lemma_entries_update(pre, i as int, self.records@[i as int]);
                }
                Ok(())
            },
        }
    }

    /// Delete the record stored under the identifier, if any.
    ///
    /// The deletion is unconditional: no version is checked, and an
    /// absent identifier leaves the store unchanged.
    pub fn delete(&mut self, id: Id<T>)
        requires
            old(self).wf(),
        ensures
            final(self).wf(),
            final(self)@ == old(self)@.remove(id@),
    {
        let ghost pre = self.records@;
        match self.position_of(id) {
            None => {
                proof {
                    assert(self@ =~= self@.remove(id@));
                }
            },
            Some(i) => {
                let mut records: Vec<WithGroup<Versioned<T>>> = Vec::new();
                core::mem::swap(&mut records, &mut self.records);
                records.remove(i);
                core::mem::swap(&mut records, &mut self.records);
                proof {
                    lemma_entries_remove(pre, i as int);
                }
            },
        }
    }

    /// Move the record stored under the identifier to a new group,
    /// rotating its version.
    ///
    /// An absent identifier leaves the store unchanged, as a filtered
    /// update that matched nothing.
    pub fn change_group(&mut self, id: Id<T>, new_group: Id<Group>, new_version: Version)
        requires
            old(self).wf(),
        ensures
            final(self).wf(),
            old(self)@.contains_key(id@) ==> final(self)@ == old(self)@.insert(
                id@,
                WithGroup {
                    group: new_group,
                    object: Versioned {
                        id: old(self)@[id@].object.id,
                        version: new_version,
                        object: old(self)@[id@].object.object,
                    },
                },
            ),
            !old(self)@.contains_key(id@) ==> *final(self) == *old(self),
    {
        let ghost pre = self.records@;
        match self.position_of(id) {
            None => {},
            Some(i) => {
                let mut records: Vec<WithGroup<Versioned<T>>> = Vec::new();
                core::mem::swap(&mut records, &mut self.records);
                let old_record = records.remove(i);
                let record = WithGroup {
                    group: new_group,
                    object: Versioned {
                        id: old_record.object.id,
                        version: new_version,
                        object: old_record.object.object,
                    },
                };
                records.insert(i, record);
                core::mem::swap(&mut records, &mut self.records);
                proof {
                    assert(self.records@ =~= pre.update(i as int, self.records@[i as int]));
                    lemma_entries_update(pre, i as int, self.records@[i as int]);
                }
            },
        }
    }

    /// Count the stored records matching every one of the queries.
    ///
    /// The count is taken over the whole store: it is not restricted to
    /// groups the caller may read. The access layer deliberately passes
    /// this behaviour through unchanged.
    #[verifier::loop_isolation(false)]
    pub fn query_count(&self, queries: &[WithGroupQuery<T>]) -> (r: usize) where T: Queryable
        requires
            self.wf(),
        ensures
            r == count_matching(self@, queries@),
    {
        proof {
            lemma_entries_characterize(self.records@);
            lemma_count_seq_matches_map(self.records@, queries@);
            assert(self.records@.take(0) =~= Seq::<WithGroup<Versioned<T>>>::empty());
        }
        let mut count: usize = 0;
        let mut i: usize = 0;
        while i < self.records.len()
            invariant
                i <= self.records@.len(),
                count == count_seq(self.records@.take(i as int), queries@),
                count <= i,
            decreases self.records@.len() - i,
        {
            proof {
                assert(self.records@.take(i + 1).drop_last() =~= self.records@.take(i as int));
                assert(self.records@.take(i + 1).last() == self.records@[i as int]);
            }
            if record_matches(&self.records[i], queries) {
                count = count + 1;
            }
            i = i + 1;
        }
        proof {
            assert(self.records@.take(self.records@.len() as int) =~= self.records@);
        }
        count
    }
}

/// Whether a record matches every query of a sequence: the conjunction
/// that a count is taken over.
pub open spec fn all_match<T: Queryable>(
    record: WithGroup<Versioned<T>>,
    queries: Seq<WithGroupQuery<T>>,
) -> bool {
    forall|i: int|
        0 <= i < queries.len() ==> (#[trigger] queries[i]).matches_parts_spec(
            record.group,
            &record.object.object,
        )
}

/// The number of stored records matching every one of the queries.
pub open spec fn count_matching<T: Queryable>(
    m: Map<u64, WithGroup<Versioned<T>>>,
    queries: Seq<WithGroupQuery<T>>,
) -> nat {
    m.dom().filter(|k: u64| all_match(m[k], queries)).len()
}

/// The number of records of a sequence matching every query.
spec fn count_seq<T: Queryable>(
    s: Seq<WithGroup<Versioned<T>>>,
    queries: Seq<WithGroupQuery<T>>,
) -> nat
    decreases s.len(),
{
    if s.len() == 0 {
        0
    } else {
        count_seq(s.drop_last(), queries) + if all_match(s.last(), queries) {
            1nat
        } else {
            0nat
        }
    }
}

/// On a sequence with distinct identifiers, counting matching records
/// equals counting matching entries of its map.
proof fn lemma_count_seq_matches_map<T: Queryable>(
    s: Seq<WithGroup<Versioned<T>>>,
    queries: Seq<WithGroupQuery<T>>,
)
    requires
        distinct_ids(s),
    ensures
        count_seq(s, queries) == count_matching(entries_map(s), queries),
    decreases s.len(),
{
    let m = entries_map(s);
    if s.len() == 0 {
        assert(m.dom().filter(|k: u64| all_match(m[k], queries)) =~= Set::<u64>::empty());
    } else {
        let sd = s.drop_last();
        let md = entries_map(sd);
        let last = s.last();
        let k = last.object.id@;
        lemma_count_seq_matches_map(sd, queries);
        lemma_entries_characterize(sd);
        lemma_entries_characterize(s);
        assert(forall|i: int| 0 <= i < s.len() - 1 ==> #[trigger] s[i] == sd[i]);
        assert(!md.contains_key(k)) by {
            if md.contains_key(k) {
                let i = choose|i: int|
                    0 <= i < sd.len() && (#[trigger] sd[i]).object.id@ == k;
                assert(s[i].object.id@ == s[s.len() - 1].object.id@);
            }
        }
        let fd = md.dom().filter(|k2: u64| all_match(md[k2], queries));
        let f = m.dom().filter(|k2: u64| all_match(m[k2], queries));
        md.dom().lemma_len_filter(|k2: u64| all_match(md[k2], queries));
        assert(forall|k2: u64| k2 != k && md.contains_key(k2) ==> m[k2] == #[trigger] md[k2]);
        if all_match(last, queries) {
            assert(f =~= fd.insert(k));
            assert(!fd.contains(k));
            vstd::set::axiom_set_insert_len(fd, k);
        } else {
            assert(f =~= fd);
        }
    }
}

/// Whether a record matches every query of a slice.
#[verifier::loop_isolation(false)]
fn record_matches<T: Queryable>(
    record: &WithGroup<Versioned<T>>,
    queries: &[WithGroupQuery<T>],
) -> (r: bool)
    ensures
        r == all_match(*record, queries@),
{
    let mut i: usize = 0;
    while i < queries.len()
        invariant
            i <= queries@.len(),
            forall|j: int|
                0 <= j < i ==> (#[trigger] queries@[j]).matches_parts_spec(
                    record.group,
                    &record.object.object,
                ),
        decreases queries@.len() - i,
    {
        if !queries[i].matches_parts(record.group, &record.object.object) {
            return false;
        }
        i = i + 1;
    }
    true
}

} // verus!
