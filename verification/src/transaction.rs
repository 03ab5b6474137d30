//! Transactions: dated postings of amounts against accounts.

use crate::account::Account;
use crate::amount::Amount;
use crate::date::Date;
use crate::id::Id;
use crate::pairs::PairMap;
use crate::query::{contains_value, Query, Queryable, SimpleQuery};
use vstd::prelude::*;

verus! {

/// A transaction of the ledger.
#[derive(Debug)]
pub struct Transaction {
    pub date: Date,
    pub description: String,
    /// The amount posted against each involved account.
    pub amounts: PairMap<Id<Account>, Amount>,
}

impl Queryable for Transaction {
    type Query = TransactionQuery;

    fn entity_name() -> &'static str {
        "transaction"
    }
}

/// A query over transactions.
#[derive(Debug)]
pub enum TransactionQuery {
    Date(SimpleQuery<Date>),
    Description(SimpleQuery<String>),
    /// The transaction involves at least one of the specified accounts.
    Account(Vec<Id<Account>>),
    /// The amount posted against the account matches; a transaction not
    /// involving the account is treated as posting zero against it.
    AccountAmount(Id<Account>, SimpleQuery<Amount>),
}

impl Query<Transaction> for TransactionQuery {
    open spec fn matches_spec(&self, transaction: &Transaction) -> bool {
        match self {
            TransactionQuery::Date(query) => query.matches_spec(&transaction.date),
            TransactionQuery::Description(query) => query.matches_spec(
                &transaction.description,
            ),
            TransactionQuery::Account(accounts) => exists|i: int|
                0 <= i < accounts@.len() && transaction.amounts.contains_key(
                    #[trigger] accounts@[i],
                ),
            TransactionQuery::AccountAmount(account, query) => match transaction.amounts.spec_get(
                *account,
            ) {
                Some(amount) => query.matches_spec(&amount),
                None => query.matches_spec(&Amount::spec_zero()),
            },
        }
    }

    fn matches(&self, transaction: &Transaction) -> (r: bool) {
        match self {
            TransactionQuery::Date(query) => query.matches(&transaction.date),
            TransactionQuery::Description(query) => query.matches(&transaction.description),
            TransactionQuery::Account(accounts) => crate::pairs::any_key_of(
                accounts,
                &transaction.amounts,
            ),
            TransactionQuery::AccountAmount(account, query) => {
                match transaction.amounts.get(account) {
                    Some(amount) => query.matches(amount),
                    None => query.matches(&Amount::zero()),
                }
            },
        }
    }
}

} // verus!
