//! Failures of the storage layer.

use vstd::prelude::*;

verus! {

#[verifier::external_type_specification]
#[verifier::external_body]
pub struct ExPgError(postgres::Error);

/// Why a write or a read failed.
#[derive(Debug)]
pub enum StorageError {
    /// The object store holds as many objects as it was configured for, and
    /// the write would add another.
    ObjectStoreFull,
    /// The database refused or failed a statement.
    Database(postgres::Error),
}

} // verus!
