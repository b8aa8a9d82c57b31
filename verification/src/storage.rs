//! The storage layer's shared pieces: the error taxonomy, the rule
//! that absorbs "already exists" answers, and the classifier that
//! turns a backend's error message into a typed error.

use vstd::prelude::*;
use crate::models::ModelError;
use crate::text::contains_seq;

verus! {

/// A storage failure: the backend cannot be reached, a name is absent,
/// stored data cannot be reconstructed, a create hit an existing
/// record, or the backend reported something else.
#[derive(Debug)]
pub enum StorageError {
    Unavailable,
    NotFound,
    Decode { cause: ModelError },
    AlreadyExists,
    Backend { message: String },
}

/// The latest value stored under a key, if any.
pub open spec fn assoc_lookup<V>(s: Seq<(Seq<char>, V)>, k: Seq<char>) -> Option<V>
    decreases s.len(),
{
    if s.len() == 0 {
        None
    } else if s.last().0 == k {
        Some(s.last().1)
    } else {
        assoc_lookup(s.drop_last(), k)
    }
}

/// What absorbing a create result yields: an "already exists" answer
/// is swallowed, any other error passes through unchanged.
pub open spec fn spec_tolerate(res: Result<(), StorageError>) -> Result<(), StorageError> {
    match res {
        Ok(_) => Ok(()),
        Err(StorageError::AlreadyExists) => Ok(()),
        Err(e) => Err(e),
    }
}

/// Absorbs an "already exists" answer from a backend that cannot
/// upsert natively; every other error propagates unchanged.
pub fn tolerate_existing(res: Result<(), StorageError>) -> (r: Result<(), StorageError>)
    ensures
        r == spec_tolerate(res),
{
    match res {
        Ok(_) => Ok(()),
        Err(StorageError::AlreadyExists) => Ok(()),
        Err(e) => Err(e),
    }
}

/// An "already exists" answer on create is no error of an insert; any
/// other answer propagates exactly as it came.
pub proof fn lemma_tolerate_existing(e: StorageError)
    ensures
        e is AlreadyExists ==> spec_tolerate(Err(e)) is Ok,
        !(e is AlreadyExists) ==> spec_tolerate(Err(e)) == Err::<(), StorageError>(e),
{
}

/// Whether an error message reports a record or table that already
/// exists, in either spelling the backends use.
pub open spec fn spec_reports_existing(m: Seq<char>) -> bool {
    contains_seq(m, "already-exists"@) || contains_seq(m, "already exists"@)
}

/// Turns a backend's error message into a typed storage error: one
/// that reports an existing record becomes `AlreadyExists`, anything
/// else is carried through verbatim.
pub fn classify_backend_error(message: String) -> (r: StorageError)
    ensures
        spec_reports_existing(message@) ==> r is AlreadyExists,
        !spec_reports_existing(message@) ==> r == (StorageError::Backend { message }),
{
    if crate::text::contains_substring(message.as_str(), "already-exists")
        || crate::text::contains_substring(message.as_str(), "already exists") {
        StorageError::AlreadyExists
    } else {
        StorageError::Backend { message }
    }
}

} // verus!
