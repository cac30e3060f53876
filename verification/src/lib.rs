//! Verified core of a directory-backup pipeline.
//!
//! The library collects a source tree's files, encodes them into one of
//! three compressed container formats, digests the result, optionally
//! wraps it in an authenticated-encryption envelope, and records the
//! archive's metadata in an append-only state store.  File and terminal
//! I/O live outside this crate; the functions here work on plain values
//! (paths as strings, file contents as byte vectors) and carry proved
//! contracts.

use vstd::prelude::*;

mod error;
pub mod archive_name;
pub mod compress;
pub mod config;
pub mod crypto;
pub mod crypto_extended;
pub mod encrypt_tar;
pub mod fuzzer;
pub mod path_utils;
pub mod pipeline;
pub mod remote;
pub mod state;
pub mod text;
pub mod utils;

pub use error::ArchiveError;

verus! {

/// A file found under the source root: its absolute path and byte length.
#[derive(Clone, Debug)]
pub struct FileEntry {
    pub path: String,
    pub size: u64,
}

} // verus!
