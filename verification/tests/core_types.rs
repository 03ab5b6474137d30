//! Identifiers, versions, errors, pair maps and transposition.

use accounting_core::account::Account;
use accounting_core::error::Error;
use accounting_core::id::{Id, WithId};
use accounting_core::pairs::PairMap;
use accounting_core::user::{Group, User, WithGroup};
use accounting_core::version::{Version, Versioned};

#[test]
fn ids_are_their_values() {
    let a: Id<Account> = Id::new(5);
    let b: Id<Account> = Id::new(5);
    let c: Id<Account> = Id::new(6);
    assert_eq!(a, b);
    assert!(a != c);
    assert_eq!(a.value(), 5);
}

#[test]
fn transmute_keeps_the_value() {
    let a: Id<Account> = Id::new(42);
    let u: Id<User> = a.transmute();
    assert_eq!(u.value(), 42);
}

#[test]
fn versions_compare_by_value() {
    assert_eq!(Version::new(3), Version::new(3));
    assert!(Version::new(3) != Version::new(4));
    assert_eq!(Version::new(9).value(), 9);
}

#[test]
fn error_values_compare() {
    assert_eq!(Error::NotFound, Error::NotFound);
    assert!(Error::NotFound != Error::Unauthorized);
    assert_eq!(
        Error::backend("broken pipe".to_string()),
        Error::Backend("broken pipe".to_string())
    );
    assert!(Error::backend("a".to_string()) != Error::backend("b".to_string()));
}

#[test]
fn pair_map_associates_and_replaces() {
    let mut map: PairMap<Id<User>, u64> = PairMap::new();
    let k1: Id<User> = Id::new(1);
    let k2: Id<User> = Id::new(2);

    assert_eq!(map.len(), 0);
    assert!(map.get(&k1).is_none());

    map.insert(k1, 10);
    map.insert(k2, 20);
    assert_eq!(map.len(), 2);
    assert_eq!(map.get(&k1), Some(&10));
    assert_eq!(map.get(&k2), Some(&20));
    assert!(map.has_key(&k1));
    assert!(!map.has_key(&Id::new(3)));

    map.insert(k1, 11);
    assert_eq!(map.len(), 2);
    assert_eq!(map.get(&k1), Some(&11));

    let pairs = map.pairs();
    assert_eq!(pairs.len(), 2);
    assert_eq!(pairs[0].1, 11);
    assert_eq!(pairs[1].1, 20);
}

#[test]
fn transpose_swaps_annotations_both_ways() {
    let id: Id<Account> = Id::new(8);
    let grouped = WithGroup {
        group: Id::<Group>::new(3),
        object: Versioned {
            id,
            version: Version::new(5),
            object: Account { name: "Cash".to_string(), description: String::new() },
        },
    };
    let versioned = grouped.transpose();
    assert_eq!(versioned.id.value(), 8);
    assert_eq!(versioned.version, Version::new(5));
    assert_eq!(versioned.object.group.value(), 3);
    assert_eq!(versioned.object.object.name, "Cash");

    let back = versioned.transpose();
    assert_eq!(back.group.value(), 3);
    assert_eq!(back.object.id.value(), 8);
    assert_eq!(back.object.version, Version::new(5));
    assert_eq!(back.object.object.name, "Cash");
}

#[test]
fn with_id_carries_its_object() {
    let tagged = WithId {
        id: Id::<Account>::new(4),
        object: Account { name: "Bank".to_string(), description: String::new() },
    };
    assert_eq!(tagged.id.value(), 4);
    assert_eq!(tagged.object.name, "Bank");
}

#[test]
fn error_messages() {
    assert_eq!(Error::NotFound.message(), "The requested resource was not found");
    assert_eq!(
        Error::backend("socket closed".to_string()).message(),
        "Backend error: socket closed"
    );
}
