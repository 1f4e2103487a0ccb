//! Data chunks.

use crate::error::Error;
use crate::reassembly::Payload;
use super::decoder::Decoder;
use super::keys::KEY_LEN;
use super::keys::Keys;
use vstd::prelude::*;

verus! {

/// The decoded content of one data chunk.
#[derive(Debug)]
pub struct Chunk {
    pub data: Vec<u8>,
}

impl Payload for Chunk {
    open spec fn payload(&self) -> Seq<u8> {
        self.data@
    }

    fn bytes(&self) -> (bytes: &Vec<u8>) {
        &self.data
    }
}

/// What an object stored under the master key decodes to. A master key that
/// is not 32 bytes long cannot be used.
pub open spec fn decoded_with(master_key: Seq<u8>, file: Seq<u8>) -> Result<Seq<u8>, Error> {
    if master_key.len() != KEY_LEN {
        Err(Error::InvalidKey)
    } else {
        Decoder::decoded(master_key, file)
    }
}

/// Decodes an object stored under the master key.
pub fn decode_with(keys: &Keys, file: &[u8]) -> (content: Result<Vec<u8>, Error>)
    ensures
        crate::error::bytes_or_error(content) == decoded_with(keys.master_key@, file@),
{
    if keys.master_key.len() != KEY_LEN {
        return Err(Error::InvalidKey);
    }
    Decoder::new(keys.master_key.as_slice()).decrypt_and_decompress(file)
}

impl Chunk {
    /// Decodes a chunk from the contents of its file.
    pub fn from_file(keys: &Keys, file: &[u8]) -> (chunk: Result<Chunk, Error>)
        ensures
            match chunk {
                Ok(c) => decoded_with(keys.master_key@, file@) == Ok::<Seq<u8>, Error>(c.data@),
                Err(e) => decoded_with(keys.master_key@, file@) == Err::<Seq<u8>, Error>(e),
            },
    {
        let data = decode_with(keys, file)?;
        Ok(Chunk { data })
    }
}

} // verus!
