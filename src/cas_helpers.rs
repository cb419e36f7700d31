//! Text on top of any storage backend: strings go in as their UTF-8 bytes
//! and come back decoded.
use vstd::prelude::*;

use vstd::utf8::{decode_utf8, encode_utf8, valid_utf8};

use crate::error::CasError;
use crate::identifier::identifier_of;
use crate::storage::ContentAddressableStorage;

verus! {

/// Relies on `String::from_utf8`: it succeeds exactly on valid UTF-8, and
/// the string it gives holds those bytes.
#[verifier::external_body]
fn utf8_to_string(bytes: Vec<u8>) -> (r: Option<String>)
    ensures
        r matches Some(s) ==> encode_utf8(s@) == bytes@,
        r is None ==> !valid_utf8(bytes@),
{
    String::from_utf8(bytes).ok()
}

/// What a text request yields, given what the byte request yielded.
pub open spec fn text_of(fetched: Result<Seq<u8>, CasError>) -> Result<Seq<char>, CasError> {
    match fetched {
        Ok(b) => if valid_utf8(b) {
            Ok(decode_utf8(b))
        } else {
            Err(CasError::Decoding)
        },
        Err(e) => Err(e),
    }
}

/// Turns the result of a byte request into the result of a text request:
/// bytes that are not valid UTF-8 give a decoding failure, other failures
/// pass through unchanged.
pub fn decode_text(fetched: Result<Vec<u8>, CasError>) -> (r: Result<String, CasError>)
    ensures
        match fetched {
            Ok(b) => match text_of(Ok(b@)) {
                Ok(s) => r matches Ok(t) && t@ == s && encode_utf8(t@) == b@,
                Err(e) => r == Err::<String, CasError>(e),
            },
            Err(e) => r == Err::<String, CasError>(e),
        },
{
    match fetched {
        Ok(bytes) => {
            match utf8_to_string(bytes) {
                Some(s) => {
                    proof {
                        vstd::utf8::encode_utf8_valid_utf8(s@);
                        vstd::utf8::encode_utf8_decode_utf8(s@);
                    }
                    Ok(s)
                },
                None => Err(CasError::Decoding),
            }
        },
        Err(e) => Err(e),
    }
}

/// Storing and fetching strings in a content-addressable store.
pub trait StringStorage {
    /// Stores the UTF-8 bytes of `data` and returns their identifier.
    fn store_string(&self, data: &str) -> (r: Result<String, CasError>)
        ensures
            r matches Ok(id) ==> id@ == identifier_of(encode_utf8(data@)),
    ;

    /// Fetches the object named `id` as text.
    fn retrieve_string(&self, id: &str) -> (r: Result<String, CasError>)
        ensures
            r matches Ok(s) ==> identifier_of(encode_utf8(s@)) == id@,
    ;
}

impl<T: ContentAddressableStorage> StringStorage for T {
    fn store_string(&self, data: &str) -> (r: Result<String, CasError>) {
        self.store(data.as_bytes())
    }

    fn retrieve_string(&self, id: &str) -> (r: Result<String, CasError>) {
        decode_text(self.retrieve(id))
    }
}

} // verus!
