//! The repository's config.

use crate::crypto::sha256;
use crate::error::bytes_or_error;
use crate::error::Error;
use super::decoder::Decoder;
use super::decoder::decrypted;
use vstd::prelude::*;
use vstd::utf8::encode_utf8;

verus! {

#[derive(Debug)]
pub struct Config {
    pub version: u32,
    pub volumes: Vec<Volume>,
    pub paths: Vec<String>,
    /// The secret that unlocks everything but the config itself.
    pub key: String,
}

#[derive(Debug)]
pub struct Volume {
    pub id: String,
    pub name: String,
    pub description: Option<String>,
    /// The ids of the volume's snapshots, the latest last.
    pub snapshots: Vec<String>,
}

impl Config {
    /// The digest that the config's key gives.
    pub open spec fn key_digest(self) -> Seq<u8> {
        sha256(encode_utf8(self.key@))
    }

    /// Decodes the JSON document of the config from the contents of its
    /// file, which the user's password unlocks.
    pub fn from_file(file: &[u8], password: &str) -> (json: Result<Vec<u8>, Error>)
        ensures
            bytes_or_error(json) == Ok::<Seq<u8>, Error>(
                decrypted(sha256(encode_utf8(password@)), file@),
            ),
    {
        Decoder::new_password(password).decrypt(file)
    }
}

} // verus!
