//! Accounts: named postings targets of the ledger.

use crate::query::{Query, Queryable, SimpleQuery};
use vstd::prelude::*;

verus! {

/// An account of the ledger.
#[derive(Debug)]
pub struct Account {
    pub name: String,
    pub description: String,
}

impl Queryable for Account {
    type Query = AccountQuery;

    fn entity_name() -> &'static str {
        "account"
    }
}

/// A query over accounts.
#[derive(Debug)]
pub enum AccountQuery {
    Name(SimpleQuery<String>),
    Description(SimpleQuery<String>),
}

impl Query<Account> for AccountQuery {
    open spec fn matches_spec(&self, account: &Account) -> bool {
        match self {
            AccountQuery::Name(query) => query.matches_spec(&account.name),
            AccountQuery::Description(query) => query.matches_spec(&account.description),
        }
    }

    fn matches(&self, account: &Account) -> (r: bool) {
        match self {
            AccountQuery::Name(query) => query.matches(&account.name),
            AccountQuery::Description(query) => query.matches(&account.description),
        }
    }
}

} // verus!
