//! Index chunks: the list of the data chunks that a revision is made of.

use crate::codec::json_strings;
use crate::codec::parse_json_strings;
use crate::error::Error;
use crate::utils::all_hex;
use crate::utils::all_hex_decoded;
use crate::utils::from_hex_vec;
use crate::utils::lists_of;
use super::config::Config;
use vstd::prelude::*;

verus! {

/// The content hashes of data chunks, in the order in which files count
/// them.
#[derive(Debug)]
pub struct Index {
    pub hashes: Vec<Vec<u8>>,
}

impl Index {
    /// The hashes that a decoded index chunk lists: a JSON array of
    /// hexadecimal texts and nothing else.
    pub open spec fn parsed(content: Seq<u8>) -> Result<Seq<Seq<u8>>, Error> {
        match json_strings(content) {
            Some(texts) => if all_hex(texts) {
                Ok(all_hex_decoded(texts))
            } else {
                Err(Error::MalformedMetadata)
            },
            None => Err(Error::MalformedMetadata),
        }
    }

    /// The hashes that the index chunk stored under `hash` lists.
    pub open spec fn read(config: Config, file: Seq<u8>, hash: Seq<u8>) -> Result<
        Seq<Seq<u8>>,
        Error,
    > {
        match config.content(file, hash) {
            Err(e) => Err(e),
            Ok(content) => Self::parsed(content),
        }
    }

    /// Reads the hashes of a decoded index chunk.
    pub fn parse(content: &[u8]) -> (index: Result<Index, Error>)
        ensures
            match index {
                Ok(i) => Self::parsed(content@) == Ok::<Seq<Seq<u8>>, Error>(lists_of(i.hashes@)),
                Err(e) => Self::parsed(content@) == Err::<Seq<Seq<u8>>, Error>(e),
            },
    {
        match parse_json_strings(content) {
            None => Err(Error::MalformedMetadata),
            Some(texts) => {
                let hashes = from_hex_vec(&texts)?;
                Ok(Index { hashes })
            },
        }
    }

    /// Decodes an index chunk from the contents of its file and the hash it
    /// is stored under.
    pub fn from_file(config: &Config, file: &[u8], hash: &[u8]) -> (index: Result<Index, Error>)
        ensures
            match index {
                Ok(i) => Self::read(*config, file@, hash@) == Ok::<Seq<Seq<u8>>, Error>(
                    lists_of(i.hashes@),
                ),
                Err(e) => Self::read(*config, file@, hash@) == Err::<Seq<Seq<u8>>, Error>(e),
            },
    {
        let content = config.decode_object(file, hash)?;
        Self::parse(content.as_slice())
    }
}

} // verus!
