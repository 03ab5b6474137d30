//! The compiled query form: round trips between direct matching and
//! compiled evaluation against projections.

use accounting_core::account::{Account, AccountQuery};
use accounting_core::amount::Amount;
use accounting_core::boolean::BooleanExpr;
use accounting_core::date::Date;
use accounting_core::id::Id;
use accounting_core::pairs::PairMap;
use accounting_core::query::{Query, SimpleQuery};
use accounting_core::raw::{
    compile_expr, compile_grouped, raw_matches, Indexable, Param, RawQuery, Value,
};
use accounting_core::transaction::{Transaction, TransactionQuery};
use accounting_core::user::{
    AccessLevel, Group, GroupQuery, Permissions, WithGroup, WithGroupQuery,
};

fn sample_transaction() -> Transaction {
    let mut amounts = PairMap::new();
    amounts.insert(Id::new(123), Amount::new(500));
    amounts.insert(Id::new(456), Amount::new(-500));
    Transaction {
        date: Date::from_julian_day(2_460_000),
        description: "test transaction".to_string(),
        amounts,
    }
}

#[test]
fn account_queries_round_trip() {
    let group: Id<Group> = Id::new(10);
    let account = Account { name: "Cash".to_string(), description: "box".to_string() };
    let proj = Account::project(group, &account);

    let queries = vec![
        AccountQuery::Name(SimpleQuery::eq("Cash".to_string())),
        AccountQuery::Name(SimpleQuery::eq("Bank".to_string())),
        AccountQuery::Description(SimpleQuery::eq("box".to_string())),
    ];
    for q in &queries {
        let compiled = Account::compile(q);
        assert_eq!(raw_matches(&compiled, &proj), q.matches(&account));
    }
}

#[test]
fn transaction_queries_round_trip() {
    let group: Id<Group> = Id::new(10);
    let tx = sample_transaction();
    let proj = Transaction::project(group, &tx);

    let mut positive: SimpleQuery<Amount> = SimpleQuery::none();
    positive.gt = Some(Amount::zero());
    let mut negative: SimpleQuery<Amount> = SimpleQuery::none();
    negative.lt = Some(Amount::zero());

    let queries = vec![
        TransactionQuery::Description(SimpleQuery::eq("test transaction".to_string())),
        TransactionQuery::Date(SimpleQuery::eq(Date::from_julian_day(2_460_000))),
        TransactionQuery::Date(SimpleQuery::eq(Date::from_julian_day(2_460_001))),
        TransactionQuery::Account(vec![Id::new(123), Id::new(789)]),
        TransactionQuery::Account(vec![Id::new(789)]),
        TransactionQuery::AccountAmount(Id::new(123), positive),
        TransactionQuery::AccountAmount(Id::new(456), negative),
        // an absent account, asked for a non-zero amount: benign, both sides false
        TransactionQuery::AccountAmount(Id::new(789), {
            let mut q: SimpleQuery<Amount> = SimpleQuery::none();
            q.gt = Some(Amount::zero());
            q
        }),
    ];
    for q in &queries {
        let compiled = Transaction::compile(q);
        assert_eq!(raw_matches(&compiled, &proj), q.matches(&tx));
    }
}

#[test]
fn absent_account_read_as_zero_diverges_from_index() {
    // The one query shape the compiled form cannot reproduce: direct
    // matching reads an uninvolved account as a zero posting, while the
    // projected records hold only the accounts actually involved.
    let group: Id<Group> = Id::new(10);
    let tx = sample_transaction();
    let proj = Transaction::project(group, &tx);

    let mut non_positive: SimpleQuery<Amount> = SimpleQuery::none();
    non_positive.le = Some(Amount::zero());
    let q = TransactionQuery::AccountAmount(Id::new(789), non_positive);
    assert!(q.matches(&tx));
    assert!(!raw_matches(&Transaction::compile(&q), &proj));
}

#[test]
fn group_queries_round_trip() {
    let owner: Id<Group> = Id::new(10);
    let mut users = PairMap::new();
    users.insert(Id::new(1), AccessLevel::Write);
    let group = Group {
        name: "Accounting".to_string(),
        permissions: Permissions { users, default: AccessLevel::Read },
    };
    let proj = Group::project(owner, &group);

    let queries = vec![
        GroupQuery::Name(SimpleQuery::eq("Accounting".to_string())),
        GroupQuery::UserAny(vec![Id::new(1)]),
        GroupQuery::UserAny(vec![Id::new(2)]),
        GroupQuery::UserPerm(Id::new(1), SimpleQuery::eq(AccessLevel::Write)),
        // an unlisted user, asked for a level the default does not satisfy
        GroupQuery::UserPerm(Id::new(2), SimpleQuery::eq(AccessLevel::Write)),
    ];
    for q in &queries {
        let compiled = Group::compile(q);
        assert_eq!(raw_matches(&compiled, &proj), q.matches(&group));
    }
}

#[test]
fn grouped_query_compiles_group_membership() {
    let group: Id<Group> = Id::new(10);
    let account = Account { name: "Cash".to_string(), description: String::new() };
    let wrapped = WithGroup { group, object: account };
    let proj = Account::project(wrapped.group, &wrapped.object);

    let in_g1: WithGroupQuery<Account> = WithGroupQuery::Group(vec![Id::new(10), Id::new(20)]);
    let compiled = compile_grouped(&in_g1);
    match &compiled {
        RawQuery::Simple { param, query } => {
            assert_eq!(*param, Param::Group);
            assert_eq!(
                query.in_,
                Some(vec![Value::Unsigned(10), Value::Unsigned(20)])
            );
        },
        RawQuery::Complex { .. } => panic!("group membership compiles to a scalar clause"),
    }
    assert!(raw_matches(&compiled, &proj));
    assert_eq!(raw_matches(&compiled, &proj), in_g1.matches(&wrapped));

    let in_g2: WithGroupQuery<Account> = WithGroupQuery::Group(vec![Id::new(20)]);
    assert!(!raw_matches(&compile_grouped(&in_g2), &proj));
}

#[test]
fn compiled_expression_tree_round_trips() {
    let group: Id<Group> = Id::new(10);
    let tx = sample_transaction();
    let wrapped = WithGroup { group, object: tx };
    let proj = Transaction::project(wrapped.group, &wrapped.object);

    let description = BooleanExpr::Value(WithGroupQuery::Other(
        TransactionQuery::Description(SimpleQuery::eq("test transaction".to_string())),
    ));
    let in_g1 = BooleanExpr::Value(WithGroupQuery::<Transaction>::Group(vec![Id::new(10)]));
    let involves = BooleanExpr::Value(WithGroupQuery::Other(TransactionQuery::Account(vec![
        Id::new(123),
    ])));
    let wrong_name = BooleanExpr::Value(WithGroupQuery::Other(
        TransactionQuery::Description(SimpleQuery::eq("other".to_string())),
    ));

    let expr = description.and(in_g1).and(involves).or(wrong_name.not());
    assert!(expr.matches(&wrapped));

    let compiled = compile_expr(&expr);
    assert_eq!(compiled.matches(&proj), expr.matches(&wrapped));

    let expr = BooleanExpr::Value(WithGroupQuery::Other(TransactionQuery::Account(vec![
        Id::new(789),
    ])));
    let compiled = compile_expr(&expr);
    assert!(!compiled.matches(&proj));
    assert_eq!(compiled.matches(&proj), expr.matches(&wrapped));
}

#[test]
fn projection_serializes_every_indexed_field() {
    // the projection is the index a backend persists: it must carry the
    // object's data, not echoes of the query
    let group: Id<Group> = Id::new(10);
    let tx = sample_transaction();
    let proj = Transaction::project(group, &tx);

    assert_eq!(
        proj.singular,
        vec![
            (Param::Group, Value::Unsigned(10)),
            (Param::Description, Value::Text("test transaction".to_string())),
            (Param::Date, Value::Signed(2_460_000)),
        ]
    );
    assert_eq!(proj.complex.len(), 1);
    let (param, rows) = &proj.complex[0];
    assert_eq!(*param, Param::Amounts);
    assert_eq!(
        rows,
        &vec![
            (Value::Unsigned(123), Value::Signed(500)),
            (Value::Unsigned(456), Value::Signed(-500)),
        ]
    );
}
