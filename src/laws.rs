//! What holds of the store as a whole, over every payload and every state of
//! the directory tree.
use vstd::prelude::*;

use std::path::PathBuf;

use vstd::utf8::{encode_utf8, valid_utf8};

use crate::cas_helpers::text_of;
use crate::error::CasError;
use crate::file_system_cas::{object_path, retrieve_from, store_into, MIN_ID_LEN};
use crate::hex::lemma_hex_of_injective;
use crate::identifier::{
    framed,
    identifier_of,
    lemma_framed_injective,
    lemma_identifier_len,
    sha1_of,
    IDENTIFIER_LEN,
};

verus! {

/// Equal payloads have equal identifiers, and every identifier has forty
/// characters.
pub proof fn lemma_identifier_deterministic(a: Seq<u8>, b: Seq<u8>)
    requires
        a == b,
    ensures
        identifier_of(a) == identifier_of(b),
        identifier_of(a).len() == IDENTIFIER_LEN,
{
    lemma_identifier_len(a);
}

/// Two different payloads have the same identifier only where SHA-1 gives
/// the same digest for two different framed messages.
pub proof fn lemma_shared_identifier_is_collision(a: Seq<u8>, b: Seq<u8>)
    requires
        a != b,
        identifier_of(a) == identifier_of(b),
    ensures
        framed(a) != framed(b),
        sha1_of(framed(a))@ == sha1_of(framed(b))@,
{
    if framed(a) == framed(b) {
        lemma_framed_injective(a, b);
    }
    lemma_hex_of_injective(sha1_of(framed(a))@, sha1_of(framed(b))@);
}

/// Fetching the identifier that storing a payload returned gives back that
/// payload, whatever the tree held before.
pub proof fn lemma_round_trip(root: PathBuf, files: Map<PathBuf, Seq<u8>>, payload: Seq<u8>)
    ensures
        retrieve_from(root, store_into(root, files, payload), identifier_of(payload)) == Ok::<
            Seq<u8>,
            CasError,
        >(payload),
{
    lemma_identifier_len(payload);
}

/// Storing a payload a second time returns the same identifier and leaves
/// the tree as the first store left it.
pub proof fn lemma_store_idempotent(root: PathBuf, files: Map<PathBuf, Seq<u8>>, payload: Seq<u8>)
    ensures
        store_into(root, store_into(root, files, payload), payload) == store_into(
            root,
            files,
            payload,
        ),
{
    assert(store_into(root, store_into(root, files, payload), payload) =~= store_into(
        root,
        files,
        payload,
    ));
}

/// Where the file of a stored payload is overwritten with different bytes,
/// fetching the payload's identifier fails with an integrity mismatch and
/// never returns those bytes, short of a SHA-1 collision between the two
/// framed messages.
pub proof fn lemma_tamper_detected(
    root: PathBuf,
    files: Map<PathBuf, Seq<u8>>,
    payload: Seq<u8>,
    tampered: Seq<u8>,
)
    requires
        tampered != payload,
    ensures
        ({
            let id = identifier_of(payload);
            let after = store_into(root, files, payload).insert(object_path(root, id), tampered);
            retrieve_from(root, after, id) == Err::<Seq<u8>, CasError>(CasError::IntegrityMismatch)
                || sha1_of(framed(tampered))@ == sha1_of(framed(payload))@
        }),
{
    lemma_identifier_len(payload);
    if identifier_of(tampered) == identifier_of(payload) {
        lemma_shared_identifier_is_collision(tampered, payload);
    }
}

/// Fetching an identifier that has no file, or is too short to have a
/// location, fails with not-found.
pub proof fn lemma_missing_not_found(root: PathBuf, files: Map<PathBuf, Seq<u8>>, id: Seq<char>)
    requires
        id.len() < MIN_ID_LEN || !files.contains_key(object_path(root, id)),
    ensures
        retrieve_from(root, files, id) == Err::<Seq<u8>, CasError>(CasError::NotFound),
{
}

/// Fetching as text the identifier that storing a string's UTF-8 bytes
/// returned gives back that string.
pub proof fn lemma_text_round_trip(root: PathBuf, files: Map<PathBuf, Seq<u8>>, text: Seq<char>)
    ensures
        text_of(
            retrieve_from(
                root,
                store_into(root, files, encode_utf8(text)),
                identifier_of(encode_utf8(text)),
            ),
        ) == Ok::<Seq<char>, CasError>(text),
{
    lemma_round_trip(root, files, encode_utf8(text));
    vstd::utf8::encode_utf8_valid_utf8(text);
    vstd::utf8::encode_utf8_decode_utf8(text);
}

/// Fetching as text a stored object whose bytes are not valid UTF-8 fails
/// with a decoding failure, not an integrity mismatch.
pub proof fn lemma_non_text_decoding_failure(
    root: PathBuf,
    files: Map<PathBuf, Seq<u8>>,
    payload: Seq<u8>,
)
    requires
        !valid_utf8(payload),
    ensures
        text_of(retrieve_from(root, store_into(root, files, payload), identifier_of(payload)))
            == Err::<Seq<char>, CasError>(CasError::Decoding),
{
    lemma_round_trip(root, files, payload);
}

} // verus!
