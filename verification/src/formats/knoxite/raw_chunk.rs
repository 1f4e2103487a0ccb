//! Data chunks.

use crate::error::Error;
use crate::reassembly::Payload;
use super::config::Config;
use super::decoder::Decoder;
use super::decoder::decrypted;
use vstd::prelude::*;

verus! {

/// The decrypted content of one data chunk.
pub struct RawChunk(pub Vec<u8>);

impl Payload for RawChunk {
    open spec fn payload(&self) -> Seq<u8> {
        self.0@
    }

    fn bytes(&self) -> (bytes: &Vec<u8>) {
        &self.0
    }
}

impl RawChunk {
    /// Decrypts a data chunk from the contents of its file.
    pub fn from_file(config: &Config, file: &[u8]) -> (chunk: Result<RawChunk, Error>)
        ensures
            chunk is Ok,
            chunk->Ok_0.payload() == decrypted(config.key_digest(), file@),
    {
        let data = Decoder::new_key(config.key.as_str()).decrypt(file)?;
        Ok(RawChunk(data))
    }
}

} // verus!
