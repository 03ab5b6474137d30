//! Users, groups, permissions and access levels.

use crate::id::Id;
use crate::order::Ordered;
use crate::pairs::PairMap;
use crate::query::{contains_value, Query, Queryable, SimpleQuery};
use crate::version::Versioned;
use vstd::prelude::*;

verus! {

/// A user of the system.
#[derive(Debug)]
pub struct User {
    pub name: String,
    pub is_superuser: bool,
}

impl Queryable for User {
    type Query = UserQuery;

    fn entity_name() -> &'static str {
        "user"
    }
}

/// A query over users.
#[derive(Debug)]
pub enum UserQuery {
    Name(SimpleQuery<String>),
}

impl Query<User> for UserQuery {
    open spec fn matches_spec(&self, user: &User) -> bool {
        match self {
            UserQuery::Name(query) => query.matches_spec(&user.name),
        }
    }

    fn matches(&self, user: &User) -> (r: bool) {
        match self {
            UserQuery::Name(query) => query.matches(&user.name),
        }
    }
}

/// An ordered permission tier a user holds on a group.
#[derive(Clone, Copy, Debug, Default, PartialEq, Eq, Structural)]
pub enum AccessLevel {
    /// No access.
    #[default]
    NoAccess,
    /// Read-only access.
    Read,
    /// Read-write access.
    Write,
}

impl AccessLevel {
    /// The tier's position in the order `None < Read < Write`.
    pub open spec fn rank(self) -> int {
        match self {
            AccessLevel::NoAccess => 0,
            AccessLevel::Read => 1,
            AccessLevel::Write => 2,
        }
    }

    /// The tier's position in the order, as a machine value.
    pub fn rank_value(self) -> (r: u8)
        ensures
            r == self.rank(),
    {
        match self {
            AccessLevel::NoAccess => 0,
            AccessLevel::Read => 1,
            AccessLevel::Write => 2,
        }
    }

    /// Whether this tier grants at least what `required` grants.
    pub open spec fn grants_spec(self, required: AccessLevel) -> bool {
        self.rank() >= required.rank()
    }

    /// Whether this tier grants at least what `required` grants.
    pub fn grants(self, required: AccessLevel) -> (r: bool)
        ensures
            r == self.grants_spec(required),
    {
        self.rank_value() >= required.rank_value()
    }
}

impl Ordered for AccessLevel {
    open spec fn eq_spec(&self, other: &Self) -> bool {
        self == other
    }

    open spec fn le_spec(&self, other: &Self) -> bool {
        self.rank() <= other.rank()
    }

    fn eq_value(&self, other: &Self) -> bool {
        *self == *other
    }

    fn le_value(&self, other: &Self) -> bool {
        self.rank_value() <= other.rank_value()
    }
}

/// The access levels a group grants: explicit per-user entries over a
/// default for everyone else.
#[derive(Debug)]
pub struct Permissions {
    pub users: PairMap<Id<User>, AccessLevel>,
    pub default: AccessLevel,
}

impl Permissions {
    /// The level a user holds: the explicit entry, or the default.
    pub open spec fn spec_get(&self, id: Id<User>) -> AccessLevel {
        match self.users.spec_get(id) {
            Some(level) => level,
            None => self.default,
        }
    }

    /// The level a user holds: the explicit entry, or the default.
    pub fn get(&self, id: Id<User>) -> (r: AccessLevel)
        ensures
            r == self.spec_get(id),
    {
        match self.users.get(&id) {
            Some(level) => *level,
            None => self.default,
        }
    }
}

/// An access-control scope; every stored object belongs to exactly one
/// group.
#[derive(Debug)]
pub struct Group {
    pub name: String,
    pub permissions: Permissions,
}

impl Queryable for Group {
    type Query = GroupQuery;

    fn entity_name() -> &'static str {
        "group"
    }
}

/// A query over groups.
#[derive(Debug)]
pub enum GroupQuery {
    Name(SimpleQuery<String>),
    /// The group has an explicit permission entry for one of the users.
    UserAny(Vec<Id<User>>),
    /// The level the user holds (explicit entry or default) matches.
    UserPerm(Id<User>, SimpleQuery<AccessLevel>),
}

impl Query<Group> for GroupQuery {
    open spec fn matches_spec(&self, group: &Group) -> bool {
        match self {
            GroupQuery::Name(query) => query.matches_spec(&group.name),
            GroupQuery::UserAny(users) => exists|i: int|
                0 <= i < users@.len() && group.permissions.users.contains_key(
                    #[trigger] users@[i],
                ),
            GroupQuery::UserPerm(user, query) => query.matches_spec(
                &group.permissions.spec_get(*user),
            ),
        }
    }

    fn matches(&self, group: &Group) -> (r: bool) {
        match self {
            GroupQuery::Name(query) => query.matches(&group.name),
            GroupQuery::UserAny(users) => crate::pairs::any_key_of(
                users,
                &group.permissions.users,
            ),
            GroupQuery::UserPerm(user, query) => query.matches(&group.permissions.get(*user)),
        }
    }
}

/// Marker trait indicating that a kind of object can be moved to a
/// different group.
pub trait ChangeGroup {}

impl ChangeGroup for Group {}

/// An object together with the group that owns it.
#[derive(Debug)]
pub struct WithGroup<T> {
    pub group: Id<Group>,
    pub object: T,
}

impl<T> WithGroup<Versioned<T>> {
    /// Move the group annotation inside the version annotation.
    pub fn transpose(self) -> (r: Versioned<WithGroup<T>>)
        ensures
            r.id@ == self.object.id@,
            r.version == self.object.version,
            r.object.group == self.group,
            r.object.object == self.object.object,
    {
        Versioned {
            id: self.object.id.transmute(),
            version: self.object.version,
            object: WithGroup { group: self.group, object: self.object.object },
        }
    }
}

impl<T> Versioned<WithGroup<T>> {
    /// Move the version annotation inside the group annotation.
    pub fn transpose(self) -> (r: WithGroup<Versioned<T>>)
        ensures
            r.group == self.object.group,
            r.object.id@ == self.id@,
            r.object.version == self.version,
            r.object.object == self.object.object,
    {
        WithGroup {
            group: self.object.group,
            object: Versioned {
                id: self.id.transmute(),
                version: self.version,
                object: self.object.object,
            },
        }
    }
}

/// The query space of a grouped entity: the entity's own queries, extended
/// with a query on the owning group.
#[derive(Debug)]
pub enum WithGroupQuery<T: Queryable> {
    /// The owning group is one of the listed groups.
    Group(Vec<Id<Group>>),
    /// The payload matches the entity's own query.
    Other(T::Query),
}

impl<T: Queryable> WithGroupQuery<T> {
    /// What it means for an object in a group to match, stated over the
    /// owning group and the payload separately.
    pub open spec fn matches_parts_spec(&self, group: Id<Group>, payload: &T) -> bool {
        match self {
            WithGroupQuery::Group(groups) => contains_value(groups@, group),
            WithGroupQuery::Other(query) => query.matches_spec(payload),
        }
    }

    /// Whether an object in a group matches, given the owning group and
    /// the payload separately.
    pub fn matches_parts(&self, group: Id<Group>, payload: &T) -> (r: bool)
        ensures
            r == self.matches_parts_spec(group, payload),
    {
        match self {
            WithGroupQuery::Group(groups) => crate::query::contains_val(groups.as_slice(), &group),
            WithGroupQuery::Other(query) => query.matches(payload),
        }
    }
}

impl<T: Queryable> Query<WithGroup<T>> for WithGroupQuery<T> {
    open spec fn matches_spec(&self, object: &WithGroup<T>) -> bool {
        self.matches_parts_spec(object.group, &object.object)
    }

    fn matches(&self, object: &WithGroup<T>) -> (r: bool) {
        self.matches_parts(object.group, &object.object)
    }
}

} // verus!
