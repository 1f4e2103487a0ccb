//! The chunk index.

use crate::error::bytes_or_error;
use crate::error::Error;
use super::config::Config;
use super::decoder::Decoder;
use super::decoder::decompressed;
use vstd::prelude::*;

verus! {

/// What the repository knows of its chunks, by chunk id, in the order of
/// the index.
#[derive(Debug)]
pub struct Index {
    pub chunks: Vec<(String, IndexItem)>,
}

#[derive(Debug)]
pub struct IndexItem {
    pub hash: String,
    pub data_parts: u32,
    pub parity_parts: Option<u32>,
    pub size: i32,
    pub snapshots: Vec<String>,
}

impl Index {
    /// Decodes the JSON document of the chunk index from the contents of
    /// its file.
    pub fn from_file(config: &Config, file: &[u8]) -> (json: Result<Vec<u8>, Error>)
        ensures
            bytes_or_error(json) == decompressed(config.key_digest(), file@),
    {
        Decoder::new_key(config.key.as_str()).decrypt_and_decompress(file)
    }
}

} // verus!
