use std::cell::RefCell;
use std::collections::HashMap;
use std::path::PathBuf;

use focuson_cas::cas_helpers::{decode_text, StringStorage};
use focuson_cas::error::CasError;
use focuson_cas::file_system_cas::{check_read, same_text, FileSystemCAS, ReadOutcome};
use focuson_cas::hex::encode_hex;
use focuson_cas::identifier::{compute_identifier, framed_message};
use focuson_cas::storage::ContentAddressableStorage;
use tempfile::TempDir;

/// A backend that keeps the directory tree in memory, so that the store's
/// decisions can be exercised without touching the disk.
struct MemoryTree {
    cas: FileSystemCAS,
    files: RefCell<HashMap<PathBuf, Vec<u8>>>,
}

impl MemoryTree {
    fn new(root: PathBuf) -> Self {
        MemoryTree { cas: FileSystemCAS::new(root), files: RefCell::new(HashMap::new()) }
    }

    fn overwrite(&self, path: PathBuf, data: &[u8]) {
        self.files.borrow_mut().insert(path, data.to_vec());
    }
}

impl ContentAddressableStorage for MemoryTree {
    fn store(&self, data: &[u8]) -> Result<String, CasError> {
        let plan = self.cas.plan_store(data);
        self.files.borrow_mut().insert(plan.path, data.to_vec());
        Ok(plan.id)
    }

    fn retrieve(&self, id: &str) -> Result<Vec<u8>, CasError> {
        let outcome = match self.cas.retrieve_path(id) {
            None => ReadOutcome::Missing,
            Some(path) => match self.files.borrow().get(&path) {
                Some(bytes) => ReadOutcome::Found(bytes.clone()),
                None => ReadOutcome::Missing,
            },
        };
        check_read(id, outcome)
    }
}

fn tree() -> MemoryTree {
    MemoryTree::new(PathBuf::from("/objects"))
}

#[test]
fn test_store_and_retrieve_string() {
    let cas = tree();
    let original_string = "Hello, World!";
    let id = cas.store_string(original_string).unwrap();
    let retrieved_string = cas.retrieve_string(&id).unwrap();
    assert_eq!(original_string, retrieved_string);
}

#[test]
fn test_retrieve_nonexistent_string() {
    let cas = tree();
    let id = "nonexistent_id";
    assert!(cas.retrieve_string(id).is_err());
}

#[test]
fn test_sha1_calculation() {
    let data = b"hello world";
    let expected_sha1 = "95d09f2b10159347eece71399a7e2e907ea3df4f";
    assert_eq!(compute_identifier(data), expected_sha1);
}

#[test]
fn test_store_retrieve_round_trip() {
    let cas = tree();
    let data = b"Hello, world!";
    let id = cas.store(data).expect("Failed to store data");
    let retrieved_data = cas.retrieve(&id).expect("Failed to retrieve data");
    assert_eq!(data, &retrieved_data[..]);
}

#[test]
fn test_path_from_id() {
    let temp_dir = TempDir::new().unwrap();
    let cas = FileSystemCAS::new(temp_dir.path().to_path_buf());
    let id = "e8d95a51f3af4a3b134bf6bb680a213a";
    let constructed_path = cas.path_from_id(&id);
    let expected_path = temp_dir.path().join("e8").join("d9").join("5a51f3af4a3b134bf6bb680a213a");
    assert_eq!(constructed_path, expected_path);
}

#[test]
fn test_retrieve_nonexistent_content() {
    let cas = tree();
    let non_existent_id = "0000000000000000000000000000000000000000";
    match cas.retrieve(&non_existent_id) {
        Ok(_) => panic!("Should have failed to retrieve non-existent content"),
        Err(e) => assert!(matches!(e, CasError::NotFound)),
    }
}

#[test]
fn test_retrieve_mismatched_hash() {
    let cas = tree();
    let data = b"This is some test data.";
    let incorrect_hash = "0000000000000000000000000000000000000000";
    let path = cas.cas.path_from_id(&incorrect_hash);
    cas.overwrite(path, data);
    let result = cas.retrieve(&incorrect_hash);
    assert!(
        matches!(result.unwrap_err(), CasError::IntegrityMismatch),
        "Expected an InvalidData error"
    );
}

#[test]
fn identifier_of_empty_payload() {
    assert_eq!(compute_identifier(b""), "e69de29bb2d1d6434b8b29ae775ad8c2e48c5391");
}

#[test]
fn identifier_is_deterministic_and_forty_hex_digits() {
    let a = compute_identifier(b"some payload");
    let b = compute_identifier(b"some payload");
    assert_eq!(a, b);
    assert_eq!(a.len(), 40);
    assert!(a.chars().all(|c| c.is_ascii_digit() || ('a'..='f').contains(&c)));
    assert_ne!(a, compute_identifier(b"some payload!"));
}

#[test]
fn framed_message_has_header_then_payload() {
    assert_eq!(framed_message(b"abc"), b"blob 3\0abc".to_vec());
    assert_eq!(framed_message(b""), b"blob 0\0".to_vec());
    let long = vec![7u8; 1234];
    let mut expected = b"blob 1234\0".to_vec();
    expected.extend_from_slice(&long);
    assert_eq!(framed_message(&long), expected);
}

#[test]
fn hex_encoding_is_lowercase_two_digits_per_byte() {
    assert_eq!(encode_hex(&[0x00, 0x0f, 0xa5, 0xff]), "000fa5ff");
    assert_eq!(encode_hex(&[]), "");
}

#[test]
fn same_text_compares_exactly() {
    assert!(same_text("abc", "abc"));
    assert!(!same_text("abc", "abd"));
    assert!(!same_text("abc", "ABC"));
    assert!(!same_text("abc", "abcd"));
    assert!(same_text("", ""));
}

#[test]
fn path_of_stored_object_follows_its_identifier() {
    let cas = FileSystemCAS::new(PathBuf::from("/r"));
    let plan = cas.plan_store(b"hello world");
    assert_eq!(plan.id, "95d09f2b10159347eece71399a7e2e907ea3df4f");
    assert_eq!(plan.path, PathBuf::from("/r/95/d0/9f2b10159347eece71399a7e2e907ea3df4f"));
}

#[test]
fn short_identifier_has_no_location() {
    let cas = FileSystemCAS::new(PathBuf::from("/r"));
    assert!(cas.retrieve_path("abcd").is_none());
    assert_eq!(cas.retrieve_path("abcde"), Some(PathBuf::from("/r/ab/cd/e")));
}

#[test]
fn storing_twice_is_idempotent() {
    let cas = tree();
    let first = cas.store(b"same bytes").unwrap();
    let second = cas.store(b"same bytes").unwrap();
    assert_eq!(first, second);
    assert_eq!(cas.files.borrow().len(), 1);
    assert_eq!(cas.retrieve(&first).unwrap(), b"same bytes".to_vec());
}

#[test]
fn tampered_object_is_refused() {
    let cas = tree();
    let id = cas.store(b"original").unwrap();
    let path = cas.cas.path_from_id(&id);
    cas.overwrite(path, b"tampered");
    assert!(matches!(cas.retrieve(&id), Err(CasError::IntegrityMismatch)));
}

#[test]
fn empty_payload_round_trips() {
    let cas = tree();
    let id = cas.store(b"").unwrap();
    assert_eq!(cas.retrieve(&id).unwrap(), Vec::<u8>::new());
}

#[test]
fn read_failure_is_passed_on() {
    let e = std::io::Error::new(std::io::ErrorKind::PermissionDenied, "denied");
    let r = check_read("95d09f2b10159347eece71399a7e2e907ea3df4f", ReadOutcome::Failed(e));
    match r {
        Err(CasError::Io(inner)) => assert_eq!(inner.kind(), std::io::ErrorKind::PermissionDenied),
        other => panic!("unexpected {:?}", other),
    }
}

#[test]
fn missing_file_is_not_found() {
    let r = check_read("95d09f2b10159347eece71399a7e2e907ea3df4f", ReadOutcome::Missing);
    assert!(matches!(r, Err(CasError::NotFound)));
}

#[test]
fn non_utf8_object_gives_decoding_failure() {
    let cas = tree();
    let bytes = [0xffu8, 0xfe, 0x41];
    let id = cas.store(&bytes).unwrap();
    assert_eq!(cas.retrieve(&id).unwrap(), bytes.to_vec());
    assert!(matches!(cas.retrieve_string(&id), Err(CasError::Decoding)));
}

#[test]
fn text_round_trip_keeps_unicode() {
    let cas = tree();
    let text = "grüße, 世界 — ok";
    let id = cas.store_string(text).unwrap();
    assert_eq!(id, compute_identifier(text.as_bytes()));
    assert_eq!(cas.retrieve_string(&id).unwrap(), text);
}

#[test]
fn decode_text_passes_failures_through() {
    assert!(matches!(decode_text(Err(CasError::NotFound)), Err(CasError::NotFound)));
    assert!(matches!(decode_text(Ok(vec![0xc3])), Err(CasError::Decoding)));
    assert_eq!(decode_text(Ok("é".as_bytes().to_vec())).unwrap(), "é");
}
