//! The error taxonomy of the access layer.

use vstd::prelude::*;

verus! {

/// Why an operation on the resource store failed.
#[derive(Debug)]
#[non_exhaustive]
pub enum Error {
    /// A composite write spans accounts from different groups.
    TransactionGroup,
    /// The requested resource was not found.
    NotFound,
    /// The user is not authorized to perform the requested operation.
    Unauthorized,
    /// A conflicting edit occurred: the submitted version is stale.
    ConflictingEdit,
    /// An opaque storage-backend error, with its message retained for
    /// diagnostics only.
    Backend(String),
}

impl Error {
    /// Wrap a storage-backend error message.
    pub fn backend(message: String) -> (r: Self)
        ensures
            r == Error::Backend(message),
    {
        Error::Backend(message)
    }

    /// A human-readable description of the failure.
    pub fn message(&self) -> (r: String)
        ensures
            match self {
                Error::TransactionGroup => r@
                    == "Transaction includes account from different group"@,
                Error::NotFound => r@ == "The requested resource was not found"@,
                Error::Unauthorized => r@
                    == "This user is not authorized to perform the requested operation"@,
                Error::ConflictingEdit => r@ == "A conflicting edit occurred"@,
                Error::Backend(m) => r@ == "Backend error: "@ + m@,
            },
    {
        match self {
            Error::TransactionGroup => "Transaction includes account from different group"
                .to_owned(),
            Error::NotFound => "The requested resource was not found".to_owned(),
            Error::Unauthorized =>
                "This user is not authorized to perform the requested operation".to_owned(),
            Error::ConflictingEdit => "A conflicting edit occurred".to_owned(),
            Error::Backend(m) => {
                let mut r = "Backend error: ".to_owned();
                r.append(m.as_str());
                r
            },
        }
    }
}

impl Clone for Error {
    fn clone(&self) -> (r: Self)
        ensures
            r == *self,
    {
        match self {
            Error::TransactionGroup => Error::TransactionGroup,
            Error::NotFound => Error::NotFound,
            Error::Unauthorized => Error::Unauthorized,
            Error::ConflictingEdit => Error::ConflictingEdit,
            Error::Backend(m) => Error::Backend(m.clone()),
        }
    }
}

impl PartialEq for Error {
    fn eq(&self, other: &Self) -> (r: bool) {
        match (self, other) {
            (Error::TransactionGroup, Error::TransactionGroup) => true,
            (Error::NotFound, Error::NotFound) => true,
            (Error::Unauthorized, Error::Unauthorized) => true,
            (Error::ConflictingEdit, Error::ConflictingEdit) => true,
            (Error::Backend(a), Error::Backend(b)) => *a == *b,
            _ => false,
        }
    }
}

impl vstd::std_specs::cmp::PartialEqSpecImpl for Error {
    open spec fn obeys_eq_spec() -> bool {
        true
    }

    open spec fn eq_spec(&self, other: &Self) -> bool {
        match (self, other) {
            (Error::TransactionGroup, Error::TransactionGroup) => true,
            (Error::NotFound, Error::NotFound) => true,
            (Error::Unauthorized, Error::Unauthorized) => true,
            (Error::ConflictingEdit, Error::ConflictingEdit) => true,
            (Error::Backend(a), Error::Backend(b)) => a@ == b@,
            _ => false,
        }
    }
}

} // verus!
