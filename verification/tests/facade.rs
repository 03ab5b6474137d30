//! The access-controlled facade: authorization, optimistic concurrency,
//! and the in-memory store behind them.

use accounting_core::account::{Account, AccountQuery};
use accounting_core::backend::{create_in, update_in, Backend};
use accounting_core::error::Error;
use accounting_core::id::Id;
use accounting_core::pairs::PairMap;
use accounting_core::query::SimpleQuery;
use accounting_core::store::Store;
use accounting_core::transaction::Transaction;
use accounting_core::user::{
    AccessLevel, Group, Permissions, User, WithGroup, WithGroupQuery,
};
use accounting_core::version::{Version, Versioned};

const U1: u64 = 1;
const U2: u64 = 2;
const G1: u64 = 10;
const G2: u64 = 20;

/// A groups store holding one group whose permissions give `U1` write
/// access and everyone else the given default level.
fn groups_with(default: AccessLevel) -> Store<Group> {
    let mut users = PairMap::new();
    users.insert(Id::new(U1), AccessLevel::Write);
    let accounting = Group {
        name: "Accounting".to_string(),
        permissions: Permissions { users, default },
    };
    let g1: Id<Group> = Id::new(G1);
    let mut groups = Store::new();
    groups
        .insert_new(WithGroup { group: g1, object: accounting }, g1, Version::new(0))
        .unwrap();
    groups
}

fn backend_for(user: u64, default: AccessLevel) -> Backend {
    Backend::new(
        Id::new(user),
        Store::new(),
        groups_with(default),
        Store::new(),
        Store::new(),
    )
}

fn cash_account() -> WithGroup<Account> {
    WithGroup {
        group: Id::new(G1),
        object: Account { name: "Cash".to_string(), description: String::new() },
    }
}

#[test]
fn create_then_get_returns_payload_and_version() {
    let mut backend = backend_for(U1, AccessLevel::Read);
    let id = backend.create_account(cash_account()).unwrap();

    let record = backend.get_account(id).unwrap().unwrap();
    assert_eq!(record.object.object.name, "Cash");
    assert_eq!(record.group.value(), G1);
    assert_eq!(record.object.id.value(), id.value());
    let version = record.object.version;
    // the stored version is the one minted at creation, returned on every read
    let again = backend.get_account(id).unwrap().unwrap();
    assert_eq!(again.object.version, version);
}

#[test]
fn create_without_write_access_is_unauthorized() {
    let mut backend = backend_for(U2, AccessLevel::Read);
    let r = backend.create_account(cash_account());
    assert_eq!(r.unwrap_err(), Error::Unauthorized);

    // a missing owning group grants nothing: authorization fails closed
    let mut backend = backend_for(U1, AccessLevel::Write);
    let orphan = WithGroup {
        group: Id::new(99),
        object: Account { name: "Void".to_string(), description: String::new() },
    };
    assert_eq!(backend.create_account(orphan).unwrap_err(), Error::Unauthorized);
}

#[test]
fn update_succeeds_only_on_current_version() {
    let mut backend = backend_for(U1, AccessLevel::Read);
    let id = backend.create_account(cash_account()).unwrap();
    let v1 = backend.get_account(id).unwrap().unwrap().object.version;

    let updated = Account { name: "Cash".to_string(), description: "drawer".to_string() };
    backend.update_account(Versioned { id, version: v1, object: updated }).unwrap();

    let record = backend.get_account(id).unwrap().unwrap();
    assert_eq!(record.object.object.description, "drawer");
    let v2 = record.object.version;
    assert!(v1 != v2);

    // a second update still holding the original version conflicts
    let stale = Account { name: "Cash".to_string(), description: "stale".to_string() };
    let r = backend.update_account(Versioned { id, version: v1, object: stale });
    assert_eq!(r.unwrap_err(), Error::ConflictingEdit);

    // and the conflicting edit changed nothing
    let record = backend.get_account(id).unwrap().unwrap();
    assert_eq!(record.object.object.description, "drawer");
    assert_eq!(record.object.version, v2);
}

#[test]
fn update_of_missing_object_is_not_found() {
    let mut backend = backend_for(U1, AccessLevel::Read);
    let ghost_account = Account { name: "None".to_string(), description: String::new() };
    let r = backend.update_account(Versioned {
        id: Id::new(77),
        version: Version::new(0),
        object: ghost_account,
    });
    assert_eq!(r.unwrap_err(), Error::NotFound);
}

#[test]
fn get_without_read_access_is_unauthorized() {
    let mut backend = backend_for(U1, AccessLevel::NoAccess);
    let id = backend.create_account(cash_account()).unwrap();

    backend.set_current_user(Id::new(U2));
    let r = backend.get_account(id);
    assert_eq!(r.unwrap_err(), Error::Unauthorized);
}

#[test]
fn delete_then_get_reports_absent() {
    let mut backend = backend_for(U1, AccessLevel::Read);
    let id = backend.create_account(cash_account()).unwrap();
    backend.delete_account(id).unwrap();
    assert!(backend.get_account(id).unwrap().is_none());

    // deleting without write access is refused
    let id = backend.create_account(cash_account()).unwrap();
    backend.set_current_user(Id::new(U2));
    assert_eq!(backend.delete_account(id).unwrap_err(), Error::Unauthorized);
}

#[test]
fn change_group_needs_write_on_both_groups() {
    let mut backend = backend_for(U1, AccessLevel::Read);
    // a subgroup of the accounting group, which U1 may manage
    let team = Group {
        name: "Team".to_string(),
        permissions: Permissions { users: PairMap::new(), default: AccessLevel::Read },
    };
    let team_id = backend
        .create_group(WithGroup { group: Id::new(G1), object: team })
        .unwrap();
    let team_version = backend.get_group(team_id).unwrap().unwrap().object.version;

    // U1 holds Write on G1 (the current group) but not on G2
    let r = backend.change_group(team_id, Id::new(G2));
    assert_eq!(r.unwrap_err(), Error::Unauthorized);

    // the refused move left group and version unchanged
    let record = backend.get_group(team_id).unwrap().unwrap();
    assert_eq!(record.group.value(), G1);
    assert_eq!(record.object.version, team_version);
}

#[test]
fn query_count_counts_matching_objects_across_groups() {
    let mut backend = backend_for(U1, AccessLevel::Read);
    backend.create_account(cash_account()).unwrap();
    let bank = WithGroup {
        group: Id::new(G1),
        object: Account { name: "Bank".to_string(), description: String::new() },
    };
    backend.create_account(bank).unwrap();

    let by_name = WithGroupQuery::Other(AccountQuery::Name(SimpleQuery::eq(
        "Cash".to_string(),
    )));
    assert_eq!(backend.query_count_accounts(&[by_name]).unwrap(), 1);

    let in_g1: WithGroupQuery<Account> = WithGroupQuery::Group(vec![Id::new(G1)]);
    assert_eq!(backend.query_count_accounts(&[in_g1]).unwrap(), 2);

    let none: [WithGroupQuery<Account>; 0] = [];
    assert_eq!(backend.query_count_accounts(&none).unwrap(), 2);

    let in_g2: WithGroupQuery<Account> = WithGroupQuery::Group(vec![Id::new(G2)]);
    assert_eq!(backend.query_count_accounts(&[in_g2]).unwrap(), 0);

    let empty_tx: [WithGroupQuery<Transaction>; 0] = [];
    assert_eq!(backend.query_count_transactions(&empty_tx).unwrap(), 0);
}

#[test]
fn accounting_scenario() {
    // Group "Accounting" has default Read and gives U1 Write.
    let mut backend = backend_for(U1, AccessLevel::Read);

    // U1 creates Account "Cash" in Accounting: succeeds.
    let a1 = backend.create_account(cash_account()).unwrap();
    let v1 = backend.get_account(a1).unwrap().unwrap().object.version;

    // U2, holding only the default Read, may look but not update.
    backend.set_current_user(Id::new(U2));
    assert!(backend.get_account(a1).unwrap().is_some());
    let attempt = Account { name: "Cash".to_string(), description: "mine".to_string() };
    let r = backend.update_account(Versioned { id: a1, version: v1, object: attempt });
    assert_eq!(r.unwrap_err(), Error::Unauthorized);

    // U1 updates the description using V1: succeeds with a new version.
    backend.set_current_user(Id::new(U1));
    let described = Account { name: "Cash".to_string(), description: "till".to_string() };
    backend.update_account(Versioned { id: a1, version: v1, object: described }).unwrap();
    let v2 = backend.get_account(a1).unwrap().unwrap().object.version;
    assert!(v1 != v2);

    // U1 retries the same update still holding V1: a conflicting edit.
    let retried = Account { name: "Cash".to_string(), description: "till".to_string() };
    let r = backend.update_account(Versioned { id: a1, version: v1, object: retried });
    assert_eq!(r.unwrap_err(), Error::ConflictingEdit);
}

#[test]
fn users_and_superuser_flag_round_trip() {
    let mut backend = backend_for(U1, AccessLevel::Read);
    let admin = WithGroup {
        group: Id::new(G1),
        object: User { name: "admin".to_string(), is_superuser: true },
    };
    let id = backend.create_user(admin).unwrap();
    let record = backend.get_user(id).unwrap().unwrap();
    assert!(record.object.object.is_superuser);
    assert_eq!(record.object.object.name, "admin");
}

#[test]
fn store_level_cas_with_chosen_versions() {
    // the deterministic layer: identifiers and versions supplied by the caller
    let groups = groups_with(AccessLevel::Read);
    let mut accounts: Store<Account> = Store::new();
    let user: Id<User> = Id::new(U1);
    let id: Id<Account> = Id::new(42);

    let created = create_in(
        &groups,
        &mut accounts,
        user,
        cash_account(),
        id,
        Version::new(7),
    )
    .unwrap();
    assert_eq!(created.value(), 42);

    // an already-taken identifier surfaces as a backend error
    let r = create_in(&groups, &mut accounts, user, cash_account(), id, Version::new(8));
    assert!(matches!(r.unwrap_err(), Error::Backend(_)));

    // the compare-and-swap succeeds exactly on the stored version
    let renamed = Account { name: "Till".to_string(), description: String::new() };
    let r = update_in(
        &groups,
        &mut accounts,
        user,
        Versioned { id, version: Version::new(9), object: renamed },
        Version::new(10),
    );
    assert_eq!(r.unwrap_err(), Error::ConflictingEdit);

    let renamed = Account { name: "Till".to_string(), description: String::new() };
    update_in(
        &groups,
        &mut accounts,
        user,
        Versioned { id, version: Version::new(7), object: renamed },
        Version::new(11),
    )
    .unwrap();
    assert_eq!(accounts.get(id).unwrap().object.version, Version::new(11));
    assert_eq!(accounts.get(id).unwrap().object.object.name, "Till");
}

#[test]
fn minted_identifiers_are_fresh_in_practice() {
    // the random minting behind create: a run of mints stays collision-free
    let mut seen: Vec<u64> = Vec::new();
    for _ in 0..100 {
        let id: Id<Account> = Id::new_random();
        assert!(!seen.contains(&id.value()));
        seen.push(id.value());
    }
    let v1 = Version::new_random();
    let v2 = Version::new_random();
    // two fresh tokens coinciding would defeat conflict detection
    assert!(v1 != v2);
}
