//! Snapshots.

use crate::error::bytes_or_error;
use crate::error::Error;
pub use crate::reassembly::ChunkRange;
use super::chunk::decode_with;
use super::chunk::decoded_with;
use super::keys::Keys;
use vstd::prelude::*;

verus! {

/// One backup: the chunks it is made of, by hash, and the items it holds, by
/// path, in the order in which they are stored.
#[derive(Debug)]
pub struct Snapshot {
    pub data_format_version: u32,
    pub snapshot: Vec<(String, Item)>,
    pub chunks: Vec<String>,
}

/// A file or a directory of a snapshot. Only a file has a range.
#[derive(Debug)]
pub struct Item {
    pub item_type: ItemType,
    pub range: Option<ChunkRange>,
}

#[derive(Debug, Clone, Copy, PartialEq, Eq, Structural)]
pub enum ItemType {
    Dir,
    File,
}

impl Snapshot {
    /// Decodes the JSON document of a snapshot from the contents of its
    /// file.
    pub fn from_file(keys: &Keys, file: &[u8]) -> (document: Result<Vec<u8>, Error>)
        ensures
            bytes_or_error(document) == decoded_with(keys.master_key@, file@),
    {
        decode_with(keys, file)
    }
}

/// Reads the four numbers of a stored range, in the order start chunk,
/// start offset, end chunk, end offset.
pub fn from_array(array: Option<[usize; 4]>) -> (range: Option<ChunkRange>)
    ensures
        match array {
            Some(a) => range == Some(
                ChunkRange {
                    start_chunk: a[0],
                    start_offset: a[1],
                    end_chunk: a[2],
                    end_offset: a[3],
                },
            ),
            None => range is None,
        },
{
    match array {
        Some(a) => Some(
            ChunkRange {
                start_chunk: a[0],
                start_offset: a[1],
                end_chunk: a[2],
                end_offset: a[3],
            },
        ),
        None => None,
    }
}

} // verus!
