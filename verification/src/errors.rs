//! Failure taxonomy of the data-access core.
//!
//! `PoolExhausted` ends one operation when the connection accessor has used
//! its whole retry budget; `StorageFailure` surfaces a statement that the
//! store refused. Write failures are propagated, never swallowed.

use vstd::prelude::*;

verus! {

/// Why a repository operation failed.
#[derive(Debug, PartialEq)]
pub enum RepoError {
    /// The connection accessor gave up after its retry budget.
    PoolExhausted,
    /// The store rejected a statement; carries the underlying cause.
    StorageFailure(String),
}

impl RepoError {
    /// A human-readable description of the failure.
    pub fn message(&self) -> (r: String)
        ensures
            self is PoolExhausted ==> r@ == "connection pool exhausted"@,
            self is StorageFailure ==> r@ == "storage failure: "@ + self->StorageFailure_0@,
    {
        match self {
            RepoError::PoolExhausted => String::from_str("connection pool exhausted"),
            RepoError::StorageFailure(cause) => {
                let mut r = String::from_str("storage failure: ");
                r.append(cause.as_str());
                r
            },
        }
    }
}

/// Folds the raw outcome of executing a write statement into the
/// operation's result: success passes the affected-row count through, and a
/// store error becomes `StorageFailure` carrying its cause.
pub fn write_outcome(outcome: Result<u64, String>) -> (r: Result<u64, RepoError>)
    ensures
        outcome is Ok <==> r is Ok,
        outcome is Ok ==> r->Ok_0 == outcome->Ok_0,
        outcome is Err ==> r == Result::<u64, RepoError>::Err(
            RepoError::StorageFailure(outcome->Err_0),
        ),
{
    match outcome {
        Ok(n) => Ok(n),
        Err(cause) => Err(RepoError::StorageFailure(cause)),
    }
}

} // verus!
