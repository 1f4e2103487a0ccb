//! Data chunks.

use crate::error::Error;
use crate::reassembly::Payload;
use super::config::Config;
use vstd::prelude::*;

verus! {

/// The decoded content of one data chunk: raw file bytes and nothing else.
#[derive(Debug)]
pub struct Data {
    pub data: Vec<u8>,
}

impl Payload for Data {
    open spec fn payload(&self) -> Seq<u8> {
        self.data@
    }

    fn bytes(&self) -> (bytes: &Vec<u8>) {
        &self.data
    }
}

impl Data {
    /// Decodes a data chunk from the contents of its file and the hash it is
    /// stored under.
    pub fn from_file(config: &Config, file: &[u8], hash: &[u8]) -> (chunk: Result<Data, Error>)
        ensures
            match chunk {
                Ok(c) => config.content(file@, hash@) == Ok::<Seq<u8>, Error>(c.data@),
                Err(e) => config.content(file@, hash@) == Err::<Seq<u8>, Error>(e),
            },
    {
        let data = config.decode_object(file, hash)?;
        Ok(Data { data })
    }
}

} // verus!
