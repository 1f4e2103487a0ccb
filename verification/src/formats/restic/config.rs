//! The repository's config.

use crate::error::bytes_or_error;
use crate::error::Error;
use super::keys::Masterkey;
use vstd::prelude::*;

verus! {

#[derive(Debug)]
pub struct Config {
    pub version: u32,
    pub id: String,
    pub chunker_polynomial: String,
}

impl Config {
    /// Decodes the JSON document of the config from the contents of its
    /// file.
    pub fn from_file(masterkey: &Masterkey, file: &[u8]) -> (json: Result<Vec<u8>, Error>)
        ensures
            bytes_or_error(json) == masterkey.opened(file@),
    {
        masterkey.decoder()?.decrypt(file)
    }
}

} // verus!
