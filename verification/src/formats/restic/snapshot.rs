//! Snapshots.

use crate::error::bytes_or_error;
use crate::error::Error;
use crate::restore::Timestamp;
use super::keys::Masterkey;
use vstd::prelude::*;

verus! {

/// One backup: when it was made and the tree it starts at.
#[derive(Debug)]
pub struct Snapshot {
    pub time: Timestamp,
    /// The id of the root tree blob.
    pub tree: String,
    pub paths: Vec<String>,
    pub hostname: String,
    pub username: String,
    pub uid: u32,
    pub gid: u32,
    pub tags: Option<Vec<String>>,
    pub original: Option<String>,
}

impl Snapshot {
    /// Decodes the JSON document of a snapshot from the contents of its
    /// file.
    pub fn from_file(masterkey: &Masterkey, file: &[u8]) -> (json: Result<Vec<u8>, Error>)
        ensures
            bytes_or_error(json) == masterkey.unpacked_tagged(file@),
    {
        masterkey.decoder()?.decrypt_and_decompress(file)
    }
}

} // verus!
