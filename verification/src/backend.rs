//! The access-controlled collection facade.
//!
//! Every operation resolves the caller's effective access to the relevant
//! group (failing closed: a missing group grants nothing) before it
//! touches the store; concurrent-edit safety rests on the store's
//! compare-and-swap on `(id, version)`, not on the timing of the
//! permission check.

use crate::account::Account;
use crate::error::Error;
use crate::id::Id;
use crate::query::Queryable;
use crate::store::{count_matching, Store};
use crate::transaction::Transaction;
use crate::user::{AccessLevel, ChangeGroup, Group, User, WithGroup, WithGroupQuery};
use crate::version::{Version, Versioned};
use vstd::prelude::*;

verus! {

/// The effective access a user holds on a group: the level its
/// permissions grant, and no access at all if the group does not exist
/// (authorization fails closed).
pub open spec fn access_of(
    groups: Map<u64, WithGroup<Versioned<Group>>>,
    user: Id<User>,
    group: Id<Group>,
) -> AccessLevel {
    if groups.contains_key(group@) {
        groups[group@].object.object.permissions.spec_get(user)
    } else {
        AccessLevel::NoAccess
    }
}

/// Resolve the effective access a user holds on a group.
///
/// A missing group yields no access rather than an error: authorization
/// decisions fail closed.
pub fn group_access(groups: &Store<Group>, user: Id<User>, group: Id<Group>) -> (r: AccessLevel)
    requires
        groups.wf(),
    ensures
        r == access_of(groups@, user, group),
{
    match groups.get(group) {
        Some(record) => record.object.object.permissions.get(user),
        None => AccessLevel::NoAccess,
    }
}

/// Create an object in a store, under an identifier and version the
/// caller supplies, on behalf of a user.
///
/// Requires `Write` access to the owning group, else fails
/// `Unauthorized`; an already-taken identifier surfaces as a backend
/// error. Either failure leaves the store unchanged.
pub fn create_in<T>(
    groups: &Store<Group>,
    store: &mut Store<T>,
    user: Id<User>,
    object: WithGroup<T>,
    id: Id<T>,
    version: Version,
) -> (r: Result<Id<T>, Error>)
    requires
        groups.wf(),
        old(store).wf(),
    ensures
        final(store).wf(),
        match r {
            Ok(rid) => rid == id && access_of(groups@, user, object.group).grants_spec(
                AccessLevel::Write,
            ) && !old(store)@.contains_key(id@) && final(store)@ == old(store)@.insert(
                id@,
                WithGroup {
                    group: object.group,
                    object: Versioned { id, version, object: object.object },
                },
            ),
            Err(Error::Unauthorized) => !access_of(groups@, user, object.group).grants_spec(
                AccessLevel::Write,
            ) && *final(store) == *old(store),
            Err(Error::Backend(_)) => access_of(groups@, user, object.group).grants_spec(
                AccessLevel::Write,
            ) && old(store)@.contains_key(id@) && *final(store) == *old(store),
            _ => false,
        },
{
    if !group_access(groups, user, object.group).grants(AccessLevel::Write) {
        Err(Error::Unauthorized)
    } else {
        match store.insert_new(object, id, version) {
            Ok(()) => Ok(id),
            Err(e) => Err(e),
        }
    }
}

/// Look up an object on behalf of a user.
///
/// An absent identifier is reported as `Ok(None)`; an existing record is
/// returned only with `Read` access to its owning group, else the lookup
/// fails `Unauthorized`. Reporting `Unauthorized` rather than `Ok(None)`
/// discloses that something exists under the identifier; the choice is
/// deliberate and applied uniformly.
pub fn get_in<'a, T>(
    groups: &Store<Group>,
    store: &'a Store<T>,
    user: Id<User>,
    id: Id<T>,
) -> (r: Result<Option<&'a WithGroup<Versioned<T>>>, Error>)
    requires
        groups.wf(),
        store.wf(),
    ensures
        match r {
            Ok(Some(record)) => store@.contains_key(id@) && *record == store@[id@]
                && access_of(groups@, user, store@[id@].group).grants_spec(AccessLevel::Read),
            Ok(None) => !store@.contains_key(id@),
            Err(Error::Unauthorized) => store@.contains_key(id@) && !access_of(
                groups@,
                user,
                store@[id@].group,
            ).grants_spec(AccessLevel::Read),
            _ => false,
        },
{
    match store.get(id) {
        None => Ok(None),
        Some(record) => {
            if group_access(groups, user, record.group).grants(AccessLevel::Read) {
                Ok(Some(record))
            } else {
                Err(Error::Unauthorized)
            }
        },
    }
}

/// Apply an update on behalf of a user, as a compare-and-swap on
/// `(id, version)` under a version the caller supplies.
///
/// An absent identifier fails `NotFound`; without `Write` access to the
/// record's owning group the update fails `Unauthorized`; a stale
/// version fails `ConflictingEdit`. Every failure leaves the store
/// unchanged.
pub fn update_in<T>(
    groups: &Store<Group>,
    store: &mut Store<T>,
    user: Id<User>,
    object: Versioned<T>,
    new_version: Version,
) -> (r: Result<(), Error>)
    requires
        groups.wf(),
        old(store).wf(),
    ensures
        final(store).wf(),
        match r {
            Ok(()) => old(store)@.contains_key(object.id@) && access_of(
                groups@,
                user,
                old(store)@[object.id@].group,
            ).grants_spec(AccessLevel::Write) && old(store)@[object.id@].object.version
                == object.version && final(store)@ == old(store)@.insert(
                object.id@,
                WithGroup {
                    group: old(store)@[object.id@].group,
                    object: Versioned {
                        id: object.id,
                        version: new_version,
                        object: object.object,
                    },
                },
            ),
            Err(Error::NotFound) => !old(store)@.contains_key(object.id@) && *final(store)
                == *old(store),
            Err(Error::Unauthorized) => old(store)@.contains_key(object.id@) && !access_of(
                groups@,
                user,
                old(store)@[object.id@].group,
            ).grants_spec(AccessLevel::Write) && *final(store) == *old(store),
            Err(Error::ConflictingEdit) => old(store)@.contains_key(object.id@) && access_of(
                groups@,
                user,
                old(store)@[object.id@].group,
            ).grants_spec(AccessLevel::Write) && old(store)@[object.id@].object.version
                != object.version && *final(store) == *old(store),
            _ => false,
        },
{
    let group = match store.get(object.id) {
        None => {
            return Err(Error::NotFound);
        },
        Some(record) => record.group,
    };
    if !group_access(groups, user, group).grants(AccessLevel::Write) {
        return Err(Error::Unauthorized);
    }
    store.update_cas(object, new_version)
}

/// Delete an object on behalf of a user.
///
/// An absent identifier fails `NotFound`; without `Write` access to the
/// record's owning group the deletion fails `Unauthorized` and the store
/// is unchanged. The deletion itself is unconditional: no version is
/// checked.
pub fn delete_in<T>(groups: &Store<Group>, store: &mut Store<T>, user: Id<User>, id: Id<T>) -> (
    r: Result<(), Error>)
    requires
        groups.wf(),
        old(store).wf(),
    ensures
        final(store).wf(),
        match r {
            Ok(()) => old(store)@.contains_key(id@) && access_of(
                groups@,
                user,
                old(store)@[id@].group,
            ).grants_spec(AccessLevel::Write) && final(store)@ == old(store)@.remove(id@),
            Err(Error::NotFound) => !old(store)@.contains_key(id@) && *final(store) == *old(
                store,
            ),
            Err(Error::Unauthorized) => old(store)@.contains_key(id@) && !access_of(
                groups@,
                user,
                old(store)@[id@].group,
            ).grants_spec(AccessLevel::Write) && *final(store) == *old(store),
            _ => false,
        },
{
    let group = match store.get(id) {
        None => {
            return Err(Error::NotFound);
        },
        Some(record) => record.group,
    };
    if !group_access(groups, user, group).grants(AccessLevel::Write) {
        return Err(Error::Unauthorized);
    }
    store.delete(id);
    Ok(())
}

/// Move an object to a different group on behalf of a user, rotating its
/// version to one the caller supplies; only for kinds marked
/// [`ChangeGroup`].
///
/// Requires `Write` access both to the record's current group and to the
/// destination group, else fails `Unauthorized`; an absent identifier
/// fails `NotFound`. Either failure leaves the store unchanged.
pub fn change_group_in<T: ChangeGroup>(
    groups: &Store<Group>,
    store: &mut Store<T>,
    user: Id<User>,
    id: Id<T>,
    new_group: Id<Group>,
    new_version: Version,
) -> (r: Result<(), Error>)
    requires
        groups.wf(),
        old(store).wf(),
    ensures
        final(store).wf(),
        match r {
            Ok(()) => old(store)@.contains_key(id@) && access_of(
                groups@,
                user,
                old(store)@[id@].group,
            ).grants_spec(AccessLevel::Write) && access_of(groups@, user, new_group).grants_spec(
                AccessLevel::Write,
            ) && final(store)@ == old(store)@.insert(
                id@,
                WithGroup {
                    group: new_group,
                    object: Versioned {
                        id: old(store)@[id@].object.id,
                        version: new_version,
                        object: old(store)@[id@].object.object,
                    },
                },
            ),
            Err(Error::NotFound) => !old(store)@.contains_key(id@) && *final(store) == *old(
                store,
            ),
            Err(Error::Unauthorized) => old(store)@.contains_key(id@) && !(access_of(
                groups@,
                user,
                old(store)@[id@].group,
            ).grants_spec(AccessLevel::Write) && access_of(groups@, user, new_group).grants_spec(
                AccessLevel::Write,
            )) && *final(store) == *old(store),
            _ => false,
        },
{
    let old_group = match store.get(id) {
        None => {
            return Err(Error::NotFound);
        },
        Some(record) => record.group,
    };
    if !(group_access(groups, user, old_group).grants(AccessLevel::Write) && group_access(
        groups,
        user,
        new_group,
    ).grants(AccessLevel::Write)) {
        return Err(Error::Unauthorized);
    }
    store.change_group(id, new_group, new_version);
    Ok(())
}

/// How a successful creation changes a collection: the object is now
/// stored, with some fresh version, under the returned identifier, which
/// was previously free; every other record is untouched.
pub open spec fn created_as<T>(
    pre: Map<u64, WithGroup<Versioned<T>>>,
    post: Map<u64, WithGroup<Versioned<T>>>,
    id: Id<T>,
    object: WithGroup<T>,
) -> bool {
    &&& !pre.contains_key(id@)
    &&& post.dom() == pre.dom().insert(id@)
    &&& post[id@].group == object.group
    &&& post[id@].object.id@ == id@
    &&& post[id@].object.object == object.object
    &&& forall|k: u64| k != id@ && pre.contains_key(k) ==> post[k] == #[trigger] pre[k]
}

/// How a successful update changes a collection: the payload is replaced
/// and the version rotated to some fresh token; the owning group and
/// every other record are untouched.
pub open spec fn updated_as<T>(
    pre: Map<u64, WithGroup<Versioned<T>>>,
    post: Map<u64, WithGroup<Versioned<T>>>,
    object: Versioned<T>,
) -> bool {
    &&& pre.contains_key(object.id@)
    &&& post.dom() == pre.dom()
    &&& post[object.id@].group == pre[object.id@].group
    &&& post[object.id@].object.id@ == object.id@
    &&& post[object.id@].object.object == object.object
    &&& forall|k: u64| k != object.id@ && pre.contains_key(k) ==> post[k] == #[trigger] pre[k]
}

/// How a successful group change affects a collection: the record's
/// owning group is replaced and its version rotated to some fresh token;
/// the payload and every other record are untouched.
pub open spec fn moved_as<T>(
    pre: Map<u64, WithGroup<Versioned<T>>>,
    post: Map<u64, WithGroup<Versioned<T>>>,
    id: Id<T>,
    new_group: Id<Group>,
) -> bool {
    &&& pre.contains_key(id@)
    &&& post.dom() == pre.dom()
    &&& post[id@].group == new_group
    &&& post[id@].object.id@ == pre[id@].object.id@
    &&& post[id@].object.object == pre[id@].object.object
    &&& forall|k: u64| k != id@ && pre.contains_key(k) ==> post[k] == #[trigger] pre[k]
}

/// The access-controlled facade: one storage collection per entity kind,
/// every operation checked against the caller's effective access before
/// it is delegated.
#[derive(Debug)]
pub struct Backend {
    current_user: Id<User>,
    users: Store<User>,
    groups: Store<Group>,
    accounts: Store<Account>,
    transactions: Store<Transaction>,
}

impl Backend {
    /// The user on whose behalf every operation is authorized.
    pub closed spec fn spec_current_user(&self) -> Id<User> {
        self.current_user
    }

    /// The collection of users.
    pub closed spec fn spec_users(&self) -> Store<User> {
        self.users
    }

    /// The collection of groups, which also decides every authorization.
    pub closed spec fn spec_groups(&self) -> Store<Group> {
        self.groups
    }

    /// The collection of accounts.
    pub closed spec fn spec_accounts(&self) -> Store<Account> {
        self.accounts
    }

    /// The collection of transactions.
    pub closed spec fn spec_transactions(&self) -> Store<Transaction> {
        self.transactions
    }

    /// Well-formedness: every collection is well-formed.
    pub closed spec fn wf(&self) -> bool {
        self.users.wf() && self.groups.wf() && self.accounts.wf() && self.transactions.wf()
    }

    /// The effective access the current user holds on a group.
    pub open spec fn access_spec(&self, group: Id<Group>) -> AccessLevel {
        access_of(self.spec_groups()@, self.spec_current_user(), group)
    }

    /// Assemble a facade over the given collections, acting for the
    /// given user.
    pub fn new(
        current_user: Id<User>,
        users: Store<User>,
        groups: Store<Group>,
        accounts: Store<Account>,
        transactions: Store<Transaction>,
    ) -> (r: Backend)
        requires
            users.wf(),
            groups.wf(),
            accounts.wf(),
            transactions.wf(),
        ensures
            r.wf(),
            r.spec_current_user() == current_user,
            r.spec_users() == users,
            r.spec_groups() == groups,
            r.spec_accounts() == accounts,
            r.spec_transactions() == transactions,
    {
        Backend { current_user, users, groups, accounts, transactions }
    }

    /// The user on whose behalf every operation is authorized.
    pub fn current_user(&self) -> (r: Id<User>)
        ensures
            r == self.spec_current_user(),
    {
        self.current_user
    }

    /// Act for a different user from now on; the stored data is
    /// untouched.
    pub fn set_current_user(&mut self, user: Id<User>)
        ensures
            final(self).spec_current_user() == user,
            final(self).spec_users() == old(self).spec_users(),
            final(self).spec_groups() == old(self).spec_groups(),
            final(self).spec_accounts() == old(self).spec_accounts(),
            final(self).spec_transactions() == old(self).spec_transactions(),
            old(self).wf() ==> final(self).wf(),
    {
        self.current_user = user;
    }

    /// Create an object in the account collection: mint an identifier and a
    /// version and store the object under them; requires `Write` access
    /// to the owning group, else fails `Unauthorized`.
    pub fn create_account(&mut self, object: WithGroup<Account>) -> (r: Result<Id<Account>, Error>)
        requires
            old(self).wf(),
        ensures
            final(self).wf(),
            final(self).spec_groups() == old(self).spec_groups(),
            final(self).spec_transactions() == old(self).spec_transactions(),
            final(self).spec_users() == old(self).spec_users(),
            final(self).spec_current_user() == old(self).spec_current_user(),
            match r {
                Ok(id) => old(self).access_spec(object.group).grants_spec(AccessLevel::Write)
                    && created_as(old(self).spec_accounts()@, final(self).spec_accounts()@, id, object),
                Err(Error::Unauthorized) => !old(self).access_spec(object.group).grants_spec(
                    AccessLevel::Write,
                ) && final(self).spec_accounts() == old(self).spec_accounts(),
                Err(Error::Backend(_)) => old(self).access_spec(object.group).grants_spec(
                    AccessLevel::Write,
                ) && final(self).spec_accounts() == old(self).spec_accounts(),
                _ => false,
            },
    {
        let id = Id::new_random();
        let version = Version::new_random();
        create_in(&self.groups, &mut self.accounts, self.current_user, object, id, version)
    }

    /// Look up an object of the account collection; an existing record is
    /// returned only with `Read` access to its owning group.
    pub fn get_account(&self, id: Id<Account>) -> (r: Result<Option<&WithGroup<Versioned<Account>>>, Error>)
        requires
            self.wf(),
        ensures
            match r {
                Ok(Some(record)) => self.spec_accounts()@.contains_key(id@) && *record == self.spec_accounts()@[id@]
                    && self.access_spec(self.spec_accounts()@[id@].group).grants_spec(AccessLevel::Read),
                Ok(None) => !self.spec_accounts()@.contains_key(id@),
                Err(Error::Unauthorized) => self.spec_accounts()@.contains_key(id@)
                    && !self.access_spec(self.spec_accounts()@[id@].group).grants_spec(AccessLevel::Read),
                _ => false,
            },
    {
        get_in(&self.groups, &self.accounts, self.current_user, id)
    }

    /// Update an object of the account collection, as a compare-and-swap on
    /// `(id, version)` that rotates the version on success; requires
    /// `Write` access to the owning group.
    pub fn update_account(&mut self, object: Versioned<Account>) -> (r: Result<(), Error>)
        requires
            old(self).wf(),
        ensures
            final(self).wf(),
            final(self).spec_groups() == old(self).spec_groups(),
            final(self).spec_transactions() == old(self).spec_transactions(),
            final(self).spec_users() == old(self).spec_users(),
            final(self).spec_current_user() == old(self).spec_current_user(),
            match r {
                Ok(()) => old(self).spec_accounts()@.contains_key(object.id@) && old(self).access_spec(
                    old(self).spec_accounts()@[object.id@].group,
                ).grants_spec(AccessLevel::Write) && old(self).spec_accounts()@[object.id@].object.version
                    == object.version && updated_as(old(self).spec_accounts()@, final(self).spec_accounts()@, object),
                Err(Error::NotFound) => !old(self).spec_accounts()@.contains_key(object.id@) && final(self).spec_accounts() == old(self).spec_accounts(),
                Err(Error::Unauthorized) => old(self).spec_accounts()@.contains_key(object.id@) && !old(self).access_spec(old(self).spec_accounts()@[object.id@].group).grants_spec(AccessLevel::Write)
                    && final(self).spec_accounts() == old(self).spec_accounts(),
                Err(Error::ConflictingEdit) => old(self).spec_accounts()@.contains_key(object.id@) && old(self).access_spec(old(self).spec_accounts()@[object.id@].group).grants_spec(AccessLevel::Write)
                    && old(self).spec_accounts()@[object.id@].object.version != object.version && final(self).spec_accounts() == old(self).spec_accounts(),
                _ => false,
            },
    {
        let version = Version::new_random();
        let ghost pre = self.accounts@;
        let r = update_in(&self.groups, &mut self.accounts, self.current_user, object, version);
        proof {
            if r is Ok {
                assert(self.accounts@.dom() =~= pre.dom());
            }
        }
        r
    }

    /// Delete an object of the account collection; requires `Write` access
    /// to its owning group. The deletion checks no version.
    pub fn delete_account(&mut self, id: Id<Account>) -> (r: Result<(), Error>)
        requires
            old(self).wf(),
        ensures
            final(self).wf(),
            final(self).spec_groups() == old(self).spec_groups(),
            final(self).spec_transactions() == old(self).spec_transactions(),
            final(self).spec_users() == old(self).spec_users(),
            final(self).spec_current_user() == old(self).spec_current_user(),
            match r {
                Ok(()) => old(self).spec_accounts()@.contains_key(id@) && old(self).access_spec(
                    old(self).spec_accounts()@[id@].group,
                ).grants_spec(AccessLevel::Write) && final(self).spec_accounts()@ == old(self).spec_accounts()@.remove(id@),
                Err(Error::NotFound) => !old(self).spec_accounts()@.contains_key(id@) && final(self).spec_accounts()
                    == old(self).spec_accounts(),
                Err(Error::Unauthorized) => old(self).spec_accounts()@.contains_key(id@) && !old(self).access_spec(old(self).spec_accounts()@[id@].group).grants_spec(AccessLevel::Write)
                    && final(self).spec_accounts() == old(self).spec_accounts(),
                _ => false,
            },
    {
        delete_in(&self.groups, &mut self.accounts, self.current_user, id)
    }

    /// Count the objects of the account collection matching every query.
    ///
    /// The count is not restricted to groups the current user can read;
    /// this known gap of the access layer is preserved deliberately.
    pub fn query_count_accounts(&self, queries: &[WithGroupQuery<Account>]) -> (r: Result<usize, Error>)
        requires
            self.wf(),
        ensures
            (r matches Ok(n) && n == count_matching(self.spec_accounts()@, queries@)),
    {
        Ok(self.accounts.query_count(queries))
    }

    /// Create an object in the transaction collection: mint an identifier and a
    /// version and store the object under them; requires `Write` access
    /// to the owning group, else fails `Unauthorized`.
    pub fn create_transaction(&mut self, object: WithGroup<Transaction>) -> (r: Result<Id<Transaction>, Error>)
        requires
            old(self).wf(),
        ensures
            final(self).wf(),
            final(self).spec_accounts() == old(self).spec_accounts(),
            final(self).spec_groups() == old(self).spec_groups(),
            final(self).spec_users() == old(self).spec_users(),
            final(self).spec_current_user() == old(self).spec_current_user(),
            match r {
                Ok(id) => old(self).access_spec(object.group).grants_spec(AccessLevel::Write)
                    && created_as(old(self).spec_transactions()@, final(self).spec_transactions()@, id, object),
                Err(Error::Unauthorized) => !old(self).access_spec(object.group).grants_spec(
                    AccessLevel::Write,
                ) && final(self).spec_transactions() == old(self).spec_transactions(),
                Err(Error::Backend(_)) => old(self).access_spec(object.group).grants_spec(
                    AccessLevel::Write,
                ) && final(self).spec_transactions() == old(self).spec_transactions(),
                _ => false,
            },
    {
        let id = Id::new_random();
        let version = Version::new_random();
        create_in(&self.groups, &mut self.transactions, self.current_user, object, id, version)
    }

    /// Look up an object of the transaction collection; an existing record is
    /// returned only with `Read` access to its owning group.
    pub fn get_transaction(&self, id: Id<Transaction>) -> (r: Result<Option<&WithGroup<Versioned<Transaction>>>, Error>)
        requires
            self.wf(),
        ensures
            match r {
                Ok(Some(record)) => self.spec_transactions()@.contains_key(id@) && *record == self.spec_transactions()@[id@]
                    && self.access_spec(self.spec_transactions()@[id@].group).grants_spec(AccessLevel::Read),
                Ok(None) => !self.spec_transactions()@.contains_key(id@),
                Err(Error::Unauthorized) => self.spec_transactions()@.contains_key(id@)
                    && !self.access_spec(self.spec_transactions()@[id@].group).grants_spec(AccessLevel::Read),
                _ => false,
            },
    {
        get_in(&self.groups, &self.transactions, self.current_user, id)
    }

    /// Update an object of the transaction collection, as a compare-and-swap on
    /// `(id, version)` that rotates the version on success; requires
    /// `Write` access to the owning group.
    pub fn update_transaction(&mut self, object: Versioned<Transaction>) -> (r: Result<(), Error>)
        requires
            old(self).wf(),
        ensures
            final(self).wf(),
            final(self).spec_accounts() == old(self).spec_accounts(),
            final(self).spec_groups() == old(self).spec_groups(),
            final(self).spec_users() == old(self).spec_users(),
            final(self).spec_current_user() == old(self).spec_current_user(),
            match r {
                Ok(()) => old(self).spec_transactions()@.contains_key(object.id@) && old(self).access_spec(
                    old(self).spec_transactions()@[object.id@].group,
                ).grants_spec(AccessLevel::Write) && old(self).spec_transactions()@[object.id@].object.version
                    == object.version && updated_as(old(self).spec_transactions()@, final(self).spec_transactions()@, object),
                Err(Error::NotFound) => !old(self).spec_transactions()@.contains_key(object.id@) && final(self).spec_transactions() == old(self).spec_transactions(),
                Err(Error::Unauthorized) => old(self).spec_transactions()@.contains_key(object.id@) && !old(self).access_spec(old(self).spec_transactions()@[object.id@].group).grants_spec(AccessLevel::Write)
                    && final(self).spec_transactions() == old(self).spec_transactions(),
                Err(Error::ConflictingEdit) => old(self).spec_transactions()@.contains_key(object.id@) && old(self).access_spec(old(self).spec_transactions()@[object.id@].group).grants_spec(AccessLevel::Write)
                    && old(self).spec_transactions()@[object.id@].object.version != object.version && final(self).spec_transactions() == old(self).spec_transactions(),
                _ => false,
            },
    {
        let version = Version::new_random();
        let ghost pre = self.transactions@;
        let r = update_in(&self.groups, &mut self.transactions, self.current_user, object, version);
        proof {
            if r is Ok {
                assert(self.transactions@.dom() =~= pre.dom());
            }
        }
        r
    }

    /// Delete an object of the transaction collection; requires `Write` access
    /// to its owning group. The deletion checks no version.
    pub fn delete_transaction(&mut self, id: Id<Transaction>) -> (r: Result<(), Error>)
        requires
            old(self).wf(),
        ensures
            final(self).wf(),
            final(self).spec_accounts() == old(self).spec_accounts(),
            final(self).spec_groups() == old(self).spec_groups(),
            final(self).spec_users() == old(self).spec_users(),
            final(self).spec_current_user() == old(self).spec_current_user(),
            match r {
                Ok(()) => old(self).spec_transactions()@.contains_key(id@) && old(self).access_spec(
                    old(self).spec_transactions()@[id@].group,
                ).grants_spec(AccessLevel::Write) && final(self).spec_transactions()@ == old(self).spec_transactions()@.remove(id@),
                Err(Error::NotFound) => !old(self).spec_transactions()@.contains_key(id@) && final(self).spec_transactions()
                    == old(self).spec_transactions(),
                Err(Error::Unauthorized) => old(self).spec_transactions()@.contains_key(id@) && !old(self).access_spec(old(self).spec_transactions()@[id@].group).grants_spec(AccessLevel::Write)
                    && final(self).spec_transactions() == old(self).spec_transactions(),
                _ => false,
            },
    {
        delete_in(&self.groups, &mut self.transactions, self.current_user, id)
    }

    /// Count the objects of the transaction collection matching every query.
    ///
    /// The count is not restricted to groups the current user can read;
    /// this known gap of the access layer is preserved deliberately.
    pub fn query_count_transactions(&self, queries: &[WithGroupQuery<Transaction>]) -> (r: Result<usize, Error>)
        requires
            self.wf(),
        ensures
            (r matches Ok(n) && n == count_matching(self.spec_transactions()@, queries@)),
    {
        Ok(self.transactions.query_count(queries))
    }

    /// Create an object in the user collection: mint an identifier and a
    /// version and store the object under them; requires `Write` access
    /// to the owning group, else fails `Unauthorized`.
    pub fn create_user(&mut self, object: WithGroup<User>) -> (r: Result<Id<User>, Error>)
        requires
            old(self).wf(),
        ensures
            final(self).wf(),
            final(self).spec_accounts() == old(self).spec_accounts(),
            final(self).spec_groups() == old(self).spec_groups(),
            final(self).spec_transactions() == old(self).spec_transactions(),
            final(self).spec_current_user() == old(self).spec_current_user(),
            match r {
                Ok(id) => old(self).access_spec(object.group).grants_spec(AccessLevel::Write)
                    && created_as(old(self).spec_users()@, final(self).spec_users()@, id, object),
                Err(Error::Unauthorized) => !old(self).access_spec(object.group).grants_spec(
                    AccessLevel::Write,
                ) && final(self).spec_users() == old(self).spec_users(),
                Err(Error::Backend(_)) => old(self).access_spec(object.group).grants_spec(
                    AccessLevel::Write,
                ) && final(self).spec_users() == old(self).spec_users(),
                _ => false,
            },
    {
        let id = Id::new_random();
        let version = Version::new_random();
        create_in(&self.groups, &mut self.users, self.current_user, object, id, version)
    }

    /// Look up an object of the user collection; an existing record is
    /// returned only with `Read` access to its owning group.
    pub fn get_user(&self, id: Id<User>) -> (r: Result<Option<&WithGroup<Versioned<User>>>, Error>)
        requires
            self.wf(),
        ensures
            match r {
                Ok(Some(record)) => self.spec_users()@.contains_key(id@) && *record == self.spec_users()@[id@]
                    && self.access_spec(self.spec_users()@[id@].group).grants_spec(AccessLevel::Read),
                Ok(None) => !self.spec_users()@.contains_key(id@),
                Err(Error::Unauthorized) => self.spec_users()@.contains_key(id@)
                    && !self.access_spec(self.spec_users()@[id@].group).grants_spec(AccessLevel::Read),
                _ => false,
            },
    {
        get_in(&self.groups, &self.users, self.current_user, id)
    }

    /// Update an object of the user collection, as a compare-and-swap on
    /// `(id, version)` that rotates the version on success; requires
    /// `Write` access to the owning group.
    pub fn update_user(&mut self, object: Versioned<User>) -> (r: Result<(), Error>)
        requires
            old(self).wf(),
        ensures
            final(self).wf(),
            final(self).spec_accounts() == old(self).spec_accounts(),
            final(self).spec_groups() == old(self).spec_groups(),
            final(self).spec_transactions() == old(self).spec_transactions(),
            final(self).spec_current_user() == old(self).spec_current_user(),
            match r {
                Ok(()) => old(self).spec_users()@.contains_key(object.id@) && old(self).access_spec(
                    old(self).spec_users()@[object.id@].group,
                ).grants_spec(AccessLevel::Write) && old(self).spec_users()@[object.id@].object.version
                    == object.version && updated_as(old(self).spec_users()@, final(self).spec_users()@, object),
                Err(Error::NotFound) => !old(self).spec_users()@.contains_key(object.id@) && final(self).spec_users() == old(self).spec_users(),
                Err(Error::Unauthorized) => old(self).spec_users()@.contains_key(object.id@) && !old(self).access_spec(old(self).spec_users()@[object.id@].group).grants_spec(AccessLevel::Write)
                    && final(self).spec_users() == old(self).spec_users(),
                Err(Error::ConflictingEdit) => old(self).spec_users()@.contains_key(object.id@) && old(self).access_spec(old(self).spec_users()@[object.id@].group).grants_spec(AccessLevel::Write)
                    && old(self).spec_users()@[object.id@].object.version != object.version && final(self).spec_users() == old(self).spec_users(),
                _ => false,
            },
    {
        let version = Version::new_random();
        let ghost pre = self.users@;
        let r = update_in(&self.groups, &mut self.users, self.current_user, object, version);
        proof {
            if r is Ok {
                assert(self.users@.dom() =~= pre.dom());
            }
        }
        r
    }

    /// Delete an object of the user collection; requires `Write` access
    /// to its owning group. The deletion checks no version.
    pub fn delete_user(&mut self, id: Id<User>) -> (r: Result<(), Error>)
        requires
            old(self).wf(),
        ensures
            final(self).wf(),
            final(self).spec_accounts() == old(self).spec_accounts(),
            final(self).spec_groups() == old(self).spec_groups(),
            final(self).spec_transactions() == old(self).spec_transactions(),
            final(self).spec_current_user() == old(self).spec_current_user(),
            match r {
                Ok(()) => old(self).spec_users()@.contains_key(id@) && old(self).access_spec(
                    old(self).spec_users()@[id@].group,
                ).grants_spec(AccessLevel::Write) && final(self).spec_users()@ == old(self).spec_users()@.remove(id@),
                Err(Error::NotFound) => !old(self).spec_users()@.contains_key(id@) && final(self).spec_users()
                    == old(self).spec_users(),
                Err(Error::Unauthorized) => old(self).spec_users()@.contains_key(id@) && !old(self).access_spec(old(self).spec_users()@[id@].group).grants_spec(AccessLevel::Write)
                    && final(self).spec_users() == old(self).spec_users(),
                _ => false,
            },
    {
        delete_in(&self.groups, &mut self.users, self.current_user, id)
    }

    /// Count the objects of the user collection matching every query.
    ///
    /// The count is not restricted to groups the current user can read;
    /// this known gap of the access layer is preserved deliberately.
    pub fn query_count_users(&self, queries: &[WithGroupQuery<User>]) -> (r: Result<usize, Error>)
        requires
            self.wf(),
        ensures
            (r matches Ok(n) && n == count_matching(self.spec_users()@, queries@)),
    {
        Ok(self.users.query_count(queries))
    }

    /// Create a group: mint an identifier and a version and store the
    /// group under them; requires `Write` access to the owning group.
    ///
    /// Groups themselves belong to groups, so creating one is authorized
    /// against the owning group recorded in the new object.
    pub fn create_group(&mut self, object: WithGroup<Group>) -> (r: Result<Id<Group>, Error>)
        requires
            old(self).wf(),
        ensures
            final(self).wf(),
            final(self).spec_accounts() == old(self).spec_accounts(),
            final(self).spec_transactions() == old(self).spec_transactions(),
            final(self).spec_users() == old(self).spec_users(),
            final(self).spec_current_user() == old(self).spec_current_user(),
            match r {
                Ok(id) => old(self).access_spec(object.group).grants_spec(AccessLevel::Write)
                    && created_as(old(self).spec_groups()@, final(self).spec_groups()@, id, object),
                Err(Error::Unauthorized) => !old(self).access_spec(object.group).grants_spec(
                    AccessLevel::Write,
                ) && final(self).spec_groups() == old(self).spec_groups(),
                Err(Error::Backend(_)) => old(self).access_spec(object.group).grants_spec(
                    AccessLevel::Write,
                ) && final(self).spec_groups() == old(self).spec_groups(),
                _ => false,
            },
    {
        if !group_access(&self.groups, self.current_user, object.group).grants(
            AccessLevel::Write,
        ) {
            return Err(Error::Unauthorized);
        }
        self.groups.create(object)
    }

    /// Look up a group; an existing record is returned only with `Read`
    /// access to its owning group.
    pub fn get_group(&self, id: Id<Group>) -> (r: Result<
        Option<&WithGroup<Versioned<Group>>>,
        Error,
    >)
        requires
            self.wf(),
        ensures
            match r {
                Ok(Some(record)) => self.spec_groups()@.contains_key(id@) && *record == self.spec_groups()@[id@]
                    && self.access_spec(self.spec_groups()@[id@].group).grants_spec(
                    AccessLevel::Read,
                ),
                Ok(None) => !self.spec_groups()@.contains_key(id@),
                Err(Error::Unauthorized) => self.spec_groups()@.contains_key(id@)
                    && !self.access_spec(self.spec_groups()@[id@].group).grants_spec(
                    AccessLevel::Read,
                ),
                _ => false,
            },
    {
        get_in(&self.groups, &self.groups, self.current_user, id)
    }

    /// Update a group, as a compare-and-swap on `(id, version)` that
    /// rotates the version on success; requires `Write` access to the
    /// owning group.
    ///
    /// The authorization is resolved against the state of the groups
    /// before the update.
    pub fn update_group(&mut self, object: Versioned<Group>) -> (r: Result<(), Error>)
        requires
            old(self).wf(),
        ensures
            final(self).wf(),
            final(self).spec_accounts() == old(self).spec_accounts(),
            final(self).spec_transactions() == old(self).spec_transactions(),
            final(self).spec_users() == old(self).spec_users(),
            final(self).spec_current_user() == old(self).spec_current_user(),
            match r {
                Ok(()) => old(self).spec_groups()@.contains_key(object.id@) && old(self).access_spec(old(self).spec_groups()@[object.id@].group).grants_spec(
                    AccessLevel::Write,
                ) && old(self).spec_groups()@[object.id@].object.version == object.version
                    && updated_as(old(self).spec_groups()@, final(self).spec_groups()@, object),
                Err(Error::NotFound) => !old(self).spec_groups()@.contains_key(object.id@)
                    && final(self).spec_groups() == old(self).spec_groups(),
                Err(Error::Unauthorized) => old(self).spec_groups()@.contains_key(object.id@)
                    && !old(self).access_spec(old(self).spec_groups()@[object.id@].group).grants_spec(
                    AccessLevel::Write,
                ) && final(self).spec_groups() == old(self).spec_groups(),
                Err(Error::ConflictingEdit) => old(self).spec_groups()@.contains_key(object.id@)
                    && old(self).access_spec(old(self).spec_groups()@[object.id@].group).grants_spec(
                    AccessLevel::Write,
                ) && old(self).spec_groups()@[object.id@].object.version != object.version
                    && final(self).spec_groups() == old(self).spec_groups(),
                _ => false,
            },
    {
        let group = match self.groups.get(object.id) {
            None => {
                return Err(Error::NotFound);
            },
            Some(record) => record.group,
        };
        if !group_access(&self.groups, self.current_user, group).grants(AccessLevel::Write) {
            return Err(Error::Unauthorized);
        }
        let version = Version::new_random();
        let ghost pre = self.groups@;
        let r = self.groups.update_cas(object, version);
        proof {
            if r is Ok {
                assert(self.groups@.dom() =~= pre.dom());
            }
        }
        r
    }

    /// Delete a group; requires `Write` access to its owning group. The
    /// deletion checks no version.
    pub fn delete_group(&mut self, id: Id<Group>) -> (r: Result<(), Error>)
        requires
            old(self).wf(),
        ensures
            final(self).wf(),
            final(self).spec_accounts() == old(self).spec_accounts(),
            final(self).spec_transactions() == old(self).spec_transactions(),
            final(self).spec_users() == old(self).spec_users(),
            final(self).spec_current_user() == old(self).spec_current_user(),
            match r {
                Ok(()) => old(self).spec_groups()@.contains_key(id@) && old(self).access_spec(
                    old(self).spec_groups()@[id@].group,
                ).grants_spec(AccessLevel::Write) && final(self).spec_groups()@ == old(self).spec_groups()@.remove(id@),
                Err(Error::NotFound) => !old(self).spec_groups()@.contains_key(id@) && final(self).spec_groups() == old(self).spec_groups(),
                Err(Error::Unauthorized) => old(self).spec_groups()@.contains_key(id@) && !old(self).access_spec(old(self).spec_groups()@[id@].group).grants_spec(AccessLevel::Write)
                    && final(self).spec_groups() == old(self).spec_groups(),
                _ => false,
            },
    {
        let group = match self.groups.get(id) {
            None => {
                return Err(Error::NotFound);
            },
            Some(record) => record.group,
        };
        if !group_access(&self.groups, self.current_user, group).grants(AccessLevel::Write) {
            return Err(Error::Unauthorized);
        }
        self.groups.delete(id);
        Ok(())
    }

    /// Move a group to a different owning group, rotating its version;
    /// groups are the kind marked [`ChangeGroup`].
    ///
    /// Requires `Write` access both to the current owning group and to
    /// the destination group, else fails `Unauthorized`; either is
    /// resolved against the state of the groups before the move.
    pub fn change_group(&mut self, id: Id<Group>, new_group: Id<Group>) -> (r: Result<(), Error>)
        requires
            old(self).wf(),
        ensures
            final(self).wf(),
            final(self).spec_accounts() == old(self).spec_accounts(),
            final(self).spec_transactions() == old(self).spec_transactions(),
            final(self).spec_users() == old(self).spec_users(),
            final(self).spec_current_user() == old(self).spec_current_user(),
            match r {
                Ok(()) => old(self).spec_groups()@.contains_key(id@) && old(self).access_spec(
                    old(self).spec_groups()@[id@].group,
                ).grants_spec(AccessLevel::Write) && old(self).access_spec(new_group).grants_spec(
                    AccessLevel::Write,
                ) && moved_as(old(self).spec_groups()@, final(self).spec_groups()@, id, new_group),
                Err(Error::NotFound) => !old(self).spec_groups()@.contains_key(id@) && final(self).spec_groups() == old(self).spec_groups(),
                Err(Error::Unauthorized) => old(self).spec_groups()@.contains_key(id@) && !(old(self).access_spec(old(self).spec_groups()@[id@].group).grants_spec(AccessLevel::Write)
                    && old(self).access_spec(new_group).grants_spec(AccessLevel::Write)) && final(self).spec_groups() == old(self).spec_groups(),
                _ => false,
            },
    {
        let old_group = match self.groups.get(id) {
            None => {
                return Err(Error::NotFound);
            },
            Some(record) => record.group,
        };
        if !(group_access(&self.groups, self.current_user, old_group).grants(AccessLevel::Write)
            && group_access(&self.groups, self.current_user, new_group).grants(
            AccessLevel::Write,
        )) {
            return Err(Error::Unauthorized);
        }
        let version = Version::new_random();
        let ghost pre = self.groups@;
        self.groups.change_group(id, new_group, version);
        proof {
            assert(self.groups@.dom() =~= pre.dom());
        }
        Ok(())
    }

    /// Count the groups matching every query.
    ///
    /// The count is not restricted to groups the current user can read;
    /// this known gap of the access layer is preserved deliberately.
    pub fn query_count_groups(&self, queries: &[WithGroupQuery<Group>]) -> (r: Result<
        usize,
        Error,
    >)
        requires
            self.wf(),
        ensures
            (r matches Ok(n) && n == count_matching(self.spec_groups()@, queries@)),
    {
        Ok(self.groups.query_count(queries))
    }
}

/// A created object is immediately readable: after a creation succeeds,
/// the collection holds the created payload and owning group, under a
/// version, at the returned identifier — which was free before — so a
/// subsequent lookup with `Read` access returns exactly that payload and
/// that version (see the `Ok(Some(..))` case of [`get_in`]).
pub proof fn lemma_create_then_get<T>(
    pre: Map<u64, WithGroup<Versioned<T>>>,
    post: Map<u64, WithGroup<Versioned<T>>>,
    id: Id<T>,
    object: WithGroup<T>,
    version: Version,
)
    requires
        !pre.contains_key(id@),
        post == pre.insert(
            id@,
            WithGroup { group: object.group, object: Versioned { id, version, object: object.object } },
        ),
    ensures
        post.contains_key(id@),
        post[id@].group == object.group,
        post[id@].object.object == object.object,
        post[id@].object.version == version,
{
}

/// Updates linearize on the version token: after an update submitted
/// with the stored version succeeds and rotates the version to a fresh
/// token, the stored version no longer equals the original one — so a
/// second update still submitting the original version can only fail
/// `ConflictingEdit` (see the match of [`update_in`]: with the record
/// present, `Write` access, and a version mismatch, every other outcome
/// is excluded).
pub proof fn lemma_second_update_conflicts<T>(
    pre: Map<u64, WithGroup<Versioned<T>>>,
    mid: Map<u64, WithGroup<Versioned<T>>>,
    object: Versioned<T>,
    fresh: Version,
)
    requires
        pre.contains_key(object.id@),
        pre[object.id@].object.version == object.version,
        mid == pre.insert(
            object.id@,
            WithGroup {
                group: pre[object.id@].group,
                object: Versioned { id: object.id, version: fresh, object: object.object },
            },
        ),
        fresh != object.version,
    ensures
        mid.contains_key(object.id@),
        mid[object.id@].object.version != object.version,
{
}

/// A deleted object is gone: after a deletion succeeds nothing is stored
/// under the identifier, so a subsequent lookup reports the object
/// absent (the `Ok(None)` case of [`get_in`]).
pub proof fn lemma_delete_then_get<T>(
    pre: Map<u64, WithGroup<Versioned<T>>>,
    post: Map<u64, WithGroup<Versioned<T>>>,
    id: Id<T>,
)
    requires
        post == pre.remove(id@),
    ensures
        !post.contains_key(id@),
{
}

} // verus!
