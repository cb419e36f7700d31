//! What can go wrong when storing or fetching objects.
use vstd::prelude::*;

verus! {

/// `std::io::Error`, carried through as an opaque value.
#[verifier::external_type_specification]
#[verifier::external_body]
pub struct ExIoError(std::io::Error);

/// The failures of the store and of its text adapter.
#[derive(Debug)]
pub enum CasError {
    /// No object is stored under the requested identifier.
    NotFound,
    /// The stored bytes do not hash to the requested identifier.
    IntegrityMismatch,
    /// The filesystem failed while reading or writing.
    Io(std::io::Error),
    /// Verified bytes were asked for as text but are not valid UTF-8.
    Decoding,
}

} // verus!
