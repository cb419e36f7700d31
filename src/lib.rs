//! A content-addressable store: payloads are named by a framed SHA-1 digest
//! and kept under a sharded path derived from that name.
pub mod cas_helpers;
pub mod error;
pub mod file_system_cas;
pub mod hex;
pub mod identifier;
pub mod laws;
pub mod storage;
