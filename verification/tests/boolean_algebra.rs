//! The boolean query algebra: normalization, evaluation, fold and map.

use accounting_core::account::{Account, AccountQuery};
use accounting_core::boolean::{BooleanExpr, MatchFolder};
use accounting_core::error::Error;
use accounting_core::query::{Query, SimpleQuery};

fn leaf(n: u64) -> BooleanExpr<u64> {
    BooleanExpr::Value(n)
}

#[test]
fn and_flattens_adjacent_all_nodes() {
    let left = BooleanExpr::All(vec![leaf(1), leaf(2)]);
    let right = BooleanExpr::All(vec![leaf(3), leaf(4)]);
    let combined = left.and(right);
    assert_eq!(combined, BooleanExpr::All(vec![leaf(1), leaf(2), leaf(3), leaf(4)]));
}

#[test]
fn and_absorbs_one_all_node() {
    let left = BooleanExpr::All(vec![leaf(1), leaf(2)]);
    let combined = left.and(leaf(3));
    assert_eq!(combined, BooleanExpr::All(vec![leaf(1), leaf(2), leaf(3)]));

    let right = BooleanExpr::All(vec![leaf(1), leaf(2)]);
    let combined = leaf(3).and(right);
    assert_eq!(combined, BooleanExpr::All(vec![leaf(1), leaf(2), leaf(3)]));
}

#[test]
fn chained_conjunction_stays_flat() {
    let ab = leaf(1).and(leaf(2));
    let abc = ab.and(leaf(3));
    let abcde = abc.and(BooleanExpr::All(vec![leaf(4), leaf(5)]));
    assert_eq!(
        abcde,
        BooleanExpr::All(vec![leaf(1), leaf(2), leaf(3), leaf(4), leaf(5)])
    );
}

#[test]
fn or_flattens_adjacent_any_nodes() {
    let left = BooleanExpr::Any(vec![leaf(1), leaf(2)]);
    let right = BooleanExpr::Any(vec![leaf(3), leaf(4)]);
    let combined = left.or(right);
    assert_eq!(combined, BooleanExpr::Any(vec![leaf(1), leaf(2), leaf(3), leaf(4)]));

    let pair = leaf(5).or(leaf(6));
    assert_eq!(pair, BooleanExpr::Any(vec![leaf(5), leaf(6)]));
}

#[test]
fn not_collapses_double_negation() {
    let x = leaf(1);
    assert_eq!(x.not().not(), leaf(1));

    let y = BooleanExpr::Any(vec![leaf(1), leaf(2)]);
    let negated = y.not();
    assert_eq!(negated, BooleanExpr::Not(Box::new(BooleanExpr::Any(vec![leaf(1), leaf(2)]))));
    assert_eq!(negated.not(), BooleanExpr::Any(vec![leaf(1), leaf(2)]));
}

#[test]
fn boolean_evaluation_over_account_queries() {
    let account = Account { name: "Cash".to_string(), description: "box".to_string() };
    let name_is_cash = BooleanExpr::Value(AccountQuery::Name(SimpleQuery::eq(
        "Cash".to_string(),
    )));
    let name_is_bank = BooleanExpr::Value(AccountQuery::Name(SimpleQuery::eq(
        "Bank".to_string(),
    )));

    assert!(name_is_cash.matches(&account));
    assert!(!name_is_bank.matches(&account));

    let desc_is_box = BooleanExpr::Value(AccountQuery::Description(SimpleQuery::eq(
        "box".to_string(),
    )));
    let both = name_is_cash.and(desc_is_box);
    assert!(both.matches(&account));

    let name_is_bank = BooleanExpr::Value(AccountQuery::Name(SimpleQuery::eq(
        "Bank".to_string(),
    )));
    let either = name_is_bank.or(both);
    assert!(either.matches(&account));

    // the empty All matches everything; the empty Any matches nothing
    let empty_all: BooleanExpr<AccountQuery> = BooleanExpr::All(Vec::new());
    let empty_any: BooleanExpr<AccountQuery> = BooleanExpr::Any(Vec::new());
    assert!(empty_all.matches(&account));
    assert!(!empty_any.matches(&account));

    let negated = empty_any.not();
    assert!(negated.matches(&account));
}

#[test]
fn try_fold_evaluates_with_match_folder() {
    let account = Account { name: "Cash".to_string(), description: "box".to_string() };
    let folder = MatchFolder { object: &account };

    let expr = BooleanExpr::All(vec![
        BooleanExpr::Value(AccountQuery::Name(SimpleQuery::eq("Cash".to_string()))),
        BooleanExpr::Not(Box::new(BooleanExpr::Value(AccountQuery::Description(
            SimpleQuery::eq("vault".to_string()),
        )))),
        BooleanExpr::Any(vec![
            BooleanExpr::Value(AccountQuery::Description(SimpleQuery::eq("box".to_string()))),
            BooleanExpr::Value(AccountQuery::Name(SimpleQuery::eq("Bank".to_string()))),
        ]),
    ]);
    assert_eq!(expr.try_fold(&folder), Ok(true));
    assert_eq!(expr.try_fold(&folder), Ok(expr.matches(&account)));

    let failing = BooleanExpr::Value(AccountQuery::Name(SimpleQuery::eq("Bank".to_string())));
    assert_eq!(failing.try_fold(&folder), Ok(false));
}

#[test]
fn try_map_values_preserves_structure_and_propagates_errors() {
    let expr = BooleanExpr::All(vec![leaf(1), BooleanExpr::Any(vec![leaf(2), leaf(3)])]);
    let doubled = expr.try_map_values(&|v: &u64| Ok::<u64, Error>(v * 2));
    assert_eq!(
        doubled,
        Ok(BooleanExpr::All(vec![
            BooleanExpr::Value(2),
            BooleanExpr::Any(vec![BooleanExpr::Value(4), BooleanExpr::Value(6)]),
        ]))
    );

    let failing = expr.try_map_values(&|v: &u64| {
        if *v == 2 {
            Err(Error::NotFound)
        } else {
            Ok(*v)
        }
    });
    assert_eq!(failing, Err(Error::NotFound));
}
