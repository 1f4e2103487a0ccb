//! Revisions: the versioned listings of a snapshot id.

use crate::codec::texts_of;
use crate::error::bytes_or_error;
use crate::error::Error;
use crate::restore::join_path;
use crate::restore::joined_path;
use super::config::Config;
use super::decoder::decoded;
use super::decoder::Decoder;
use vstd::prelude::*;
use vstd::utf8::encode_utf8;

verus! {

#[derive(Debug)]
pub struct Revision {
    pub version: i32,
    pub id: String,
    pub revision: i32,
    pub options: String,
    pub tag: String,
    pub start_time: i64,
    pub end_time: i64,
    pub file_size: i64,
    pub number_of_files: i64,
    /// The hashes of the entry chunks.
    pub files: Vec<Vec<u8>>,
    /// The hashes of the index chunks.
    pub chunks: Vec<Vec<u8>>,
    pub lengths: Vec<Vec<u8>>,
}

impl Revision {
    /// What a revision's key is derived from: the last three components of
    /// its path, `snapshots/<id>/<revision>`, with `/` between them.
    pub open spec fn derivation(components: Seq<Seq<char>>) -> Seq<char> {
        joined_path(
            joined_path(components[components.len() - 3], components[components.len() - 2]),
            components[components.len() - 1],
        )
    }

    /// The JSON document of the revision stored at a path.
    pub open spec fn document(config: Config, file: Seq<u8>, components: Seq<Seq<char>>) -> Result<
        Seq<u8>,
        Error,
    > {
        if config.encrypted {
            match Config::derived_key(config.file_key@, encode_utf8(Self::derivation(components))) {
                Ok(key) => decoded(Some(key), file),
                Err(e) => Err(e),
            }
        } else {
            decoded(None, file)
        }
    }

    /// Decodes the JSON document of a revision from the contents of its file
    /// and the components of its path, of which an encrypted repository
    /// needs the last three.
    pub fn from_file(config: &Config, file: &[u8], components: &Vec<String>) -> (json: Result<
        Vec<u8>,
        Error,
    >)
        requires
            config.encrypted ==> components@.len() >= 3,
        ensures
            bytes_or_error(json) == Self::document(*config, file@, texts_of(components@)),
    {
        if config.encrypted {
            let count = components.len();
            let parent = join_path(
                components[count - 3].as_str(),
                components[count - 2].as_str(),
            );
            let derivation = join_path(parent.as_str(), components[count - 1].as_str());
            let key = config.derive_key(config.file_key.as_slice(), derivation.as_str().as_bytes())?;
            Decoder::new(Some(key)).decode(file)
        } else {
            Decoder::new(None).decode(file)
        }
    }
}

} // verus!
