//! Read-only access to content-addressed, encrypted, deduplicating backup
//! repositories written by four tools: blobbackup, duplicacy, knoxite and
//! restic.
//!
//! The crate turns the bytes of repository files into the plaintext of the
//! files captured by the latest snapshot. It never touches the filesystem:
//! callers hand in what they read and write out what they get back.

pub mod codec;
pub mod compress;
pub mod crypto;
pub mod error;
pub mod formats;
pub mod reassembly;
pub mod restore;
pub mod utils;
