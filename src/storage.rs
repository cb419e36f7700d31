//! The storage interface that every backend offers.
use vstd::prelude::*;

use crate::error::CasError;
use crate::identifier::identifier_of;

verus! {

/// A content-addressable storage backend: objects go in by content and come
/// back by identifier, and what comes back always hashes to that identifier.
pub trait ContentAddressableStorage {
    /// Stores `data` and returns its identifier.
    fn store(&self, data: &[u8]) -> (r: Result<String, CasError>)
        ensures
            r matches Ok(id) ==> id@ == identifier_of(data@),
    ;

    /// Fetches the bytes stored under `id`; they are returned only if they
    /// hash to `id`.
    fn retrieve(&self, id: &str) -> (r: Result<Vec<u8>, CasError>)
        ensures
            r matches Ok(bytes) ==> identifier_of(bytes@) == id@,
    ;
}

} // verus!
