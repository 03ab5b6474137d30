//! Leaf queries, the string order, and per-entity matching.

use accounting_core::account::{Account, AccountQuery};
use accounting_core::amount::Amount;
use accounting_core::date::Date;
use accounting_core::id::Id;
use accounting_core::pairs::PairMap;
use accounting_core::query::{Query, SimpleQuery, SimpleQueryRef};
use accounting_core::transaction::{Transaction, TransactionQuery};
use accounting_core::user::{AccessLevel, Group, GroupQuery, Permissions, User, UserQuery};

fn range_query(ge: u64, lt: u64) -> SimpleQuery<u64> {
    let mut q = SimpleQuery::none();
    q.ge = Some(ge);
    q.lt = Some(lt);
    q
}

#[test]
fn simple_query_range() {
    let q = range_query(5, 10);
    assert!(q.matches(&7));
    assert!(q.matches(&5));
    assert!(q.matches(&9));
    assert!(!q.matches(&10));
    assert!(!q.matches(&4));
}

#[test]
fn simple_query_empty_matches_everything() {
    let q: SimpleQuery<u64> = SimpleQuery::none();
    assert!(q.matches(&0));
    assert!(q.matches(&u64::MAX));
    let qs: SimpleQuery<String> = SimpleQuery::none();
    assert!(qs.matches(&String::new()));
}

#[test]
fn simple_query_eq_ne_in_nin() {
    let q = SimpleQuery::eq(3u64);
    assert!(q.matches(&3));
    assert!(!q.matches(&4));

    let q = SimpleQuery::in_(vec![1u64, 5, 7]);
    assert!(q.matches(&5));
    assert!(!q.matches(&2));

    let mut q: SimpleQuery<u64> = SimpleQuery::none();
    q.ne = Some(4);
    q.nin = Some(vec![9, 11]);
    assert!(q.matches(&10));
    assert!(!q.matches(&4));
    assert!(!q.matches(&9));
}

#[test]
fn string_order_is_lexicographic() {
    let mut q: SimpleQuery<String> = SimpleQuery::none();
    q.lt = Some("banana".to_string());
    assert!(q.matches(&"apple".to_string()));
    assert!(!q.matches(&"banana".to_string()));
    assert!(!q.matches(&"cherry".to_string()));

    let mut q: SimpleQuery<String> = SimpleQuery::none();
    q.le = Some("abc".to_string());
    assert!(q.matches(&"ab".to_string()));
    assert!(q.matches(&"abc".to_string()));
    assert!(!q.matches(&"abd".to_string()));
    assert!(!q.matches(&"abcd".to_string()));
}

#[test]
fn simple_query_as_ref_matches_same() {
    let q = range_query(5, 10);
    let r: SimpleQueryRef<u64> = q.as_ref();
    assert!(r.matches(&7));
    assert!(!r.matches(&10));
    assert_eq!(r.ge, Some(&5));
}

#[test]
fn simple_query_map_carries_values() {
    let q = SimpleQuery::in_(vec![1u64, 2, 3]);
    let mapped: SimpleQuery<u64> = q.map(|v| v * 10);
    assert_eq!(mapped.in_, Some(vec![10u64, 20, 30]));
    assert!(mapped.eq.is_none());

    let owned = SimpleQuery::eq(6u64);
    let borrowed = owned.as_ref();
    let doubled: SimpleQuery<u64> = borrowed.map(|v| v + 1);
    assert_eq!(doubled.eq, Some(7));
}

#[test]
fn account_query_matches_fields() {
    let account = Account { name: "Cash".to_string(), description: "petty cash".to_string() };
    assert!(AccountQuery::Name(SimpleQuery::eq("Cash".to_string())).matches(&account));
    assert!(!AccountQuery::Name(SimpleQuery::eq("Bank".to_string())).matches(&account));
    assert!(AccountQuery::Description(SimpleQuery::eq("petty cash".to_string())).matches(
        &account,
    ));
}

#[test]
fn user_query_matches_name() {
    let user = User { name: "ada".to_string(), is_superuser: false };
    assert!(UserQuery::Name(SimpleQuery::eq("ada".to_string())).matches(&user));
    assert!(!UserQuery::Name(SimpleQuery::eq("bob".to_string())).matches(&user));
}

fn sample_group() -> (Id<User>, Group) {
    let u1 = Id::new(1);
    let mut users = PairMap::new();
    users.insert(u1, AccessLevel::Write);
    let group = Group {
        name: "Accounting".to_string(),
        permissions: Permissions { users, default: AccessLevel::Read },
    };
    (u1, group)
}

#[test]
fn group_query_matches_permissions() {
    let (u1, group) = sample_group();
    let u2: Id<User> = Id::new(2);

    assert!(GroupQuery::Name(SimpleQuery::eq("Accounting".to_string())).matches(&group));
    assert!(GroupQuery::UserAny(vec![u1]).matches(&group));
    // only explicit entries count for UserAny
    assert!(!GroupQuery::UserAny(vec![u2]).matches(&group));
    assert!(GroupQuery::UserPerm(u1, SimpleQuery::eq(AccessLevel::Write)).matches(&group));
    // a user without an entry holds the default level
    assert!(GroupQuery::UserPerm(u2, SimpleQuery::eq(AccessLevel::Read)).matches(&group));
    assert!(!GroupQuery::UserPerm(u2, SimpleQuery::eq(AccessLevel::Write)).matches(&group));
}

fn sample_transaction() -> Transaction {
    let acct1: Id<Account> = Id::new(123);
    let acct2: Id<Account> = Id::new(456);
    let mut amounts = PairMap::new();
    amounts.insert(acct1, Amount::new(500));
    amounts.insert(acct2, Amount::new(-500));
    Transaction {
        date: Date::from_julian_day(2_460_000),
        description: "test transaction".to_string(),
        amounts,
    }
}

#[test]
fn transaction_query_matches() {
    let tx = sample_transaction();
    let acct1: Id<Account> = Id::new(123);
    let other: Id<Account> = Id::new(789);

    assert!(TransactionQuery::Description(SimpleQuery::eq("test transaction".to_string()))
        .matches(&tx));
    assert!(TransactionQuery::Date(SimpleQuery::eq(Date::from_julian_day(2_460_000)))
        .matches(&tx));
    assert!(TransactionQuery::Account(vec![acct1, other]).matches(&tx));
    assert!(!TransactionQuery::Account(vec![other]).matches(&tx));

    let mut positive: SimpleQuery<Amount> = SimpleQuery::none();
    positive.gt = Some(Amount::zero());
    assert!(TransactionQuery::AccountAmount(acct1, positive).matches(&tx));

    // an uninvolved account is read as a zero posting
    let mut non_positive: SimpleQuery<Amount> = SimpleQuery::none();
    non_positive.le = Some(Amount::zero());
    assert!(TransactionQuery::AccountAmount(other, non_positive).matches(&tx));
}

#[test]
fn access_level_order() {
    assert!(AccessLevel::Write.grants(AccessLevel::Read));
    assert!(AccessLevel::Write.grants(AccessLevel::Write));
    assert!(AccessLevel::Read.grants(AccessLevel::NoAccess));
    assert!(!AccessLevel::Read.grants(AccessLevel::Write));
    assert!(!AccessLevel::NoAccess.grants(AccessLevel::Read));
    assert_eq!(AccessLevel::default(), AccessLevel::NoAccess);
}

#[test]
fn amount_signs() {
    assert!(Amount::new(5).is_debit());
    assert!(Amount::new(-5).is_credit());
    assert!(Amount::zero().is_zero());
    assert!(!Amount::zero().is_debit());
    assert!(!Amount::zero().is_credit());
    assert_eq!(Amount::new(7).value(), 7);
}

#[test]
fn date_round_trip() {
    let d = Date::from_julian_day(2_451_545);
    assert_eq!(d.to_julian_day(), 2_451_545);
    let mut q: SimpleQuery<Date> = SimpleQuery::none();
    q.lt = Some(Date::from_julian_day(2_451_546));
    assert!(q.matches(&d));
}
