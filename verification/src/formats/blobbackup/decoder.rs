//! The envelope of every encrypted object: `nonce(16) || ciphertext ||
//! tag(16)` under AES-256-GCM.

use crate::compress::zstd_decode_all;
use crate::compress::zstd_stream_plain;
use crate::crypto::aes256_gcm_wide_decrypt;
use crate::crypto::aes256_gcm_wide_open;
use crate::error::bytes_or_error;
use crate::error::Error;
use vstd::prelude::*;
use vstd::slice::slice_subrange;

verus! {

pub const NONCE_LEN: usize = 16;

pub const TAG_LEN: usize = 16;

/// An envelope opener bound to one 32-byte key.
pub struct Decoder {
    key: Vec<u8>,
}

impl Decoder {
    #[verifier::type_invariant]
    spec fn well_formed(self) -> bool {
        self.key@.len() == 32
    }

    /// The key that the decoder is bound to.
    pub closed spec fn key(&self) -> Seq<u8> {
        self.key@
    }

    /// What opening the envelope `data` under `key` gives: an object too
    /// short to hold a nonce and a tag is truncated, and one that the cipher
    /// rejects fails authentication.
    pub open spec fn opened(key: Seq<u8>, data: Seq<u8>) -> Result<Seq<u8>, Error> {
        if data.len() < NONCE_LEN + TAG_LEN {
            Err(Error::Truncated)
        } else {
            match aes256_gcm_wide_open(
                key,
                data.subrange(0, NONCE_LEN as int),
                data.subrange(NONCE_LEN as int, data.len() as int),
            ) {
                Some(plain) => Ok(plain),
                None => Err(Error::InvalidAuth),
            }
        }
    }

    /// What opening the envelope and then decompressing its content as a
    /// Zstandard stream gives.
    pub open spec fn decoded(key: Seq<u8>, data: Seq<u8>) -> Result<Seq<u8>, Error> {
        match Self::opened(key, data) {
            Ok(plain) => match zstd_stream_plain(plain) {
                Some(content) => Ok(content),
                None => Err(Error::Decompress),
            },
            Err(e) => Err(e),
        }
    }

    /// Binds a decoder to a 32-byte key.
    pub fn new(key: &[u8]) -> (decoder: Decoder)
        requires
            key@.len() == 32,
        ensures
            decoder.key() == key@,
    {
        Decoder { key: vstd::slice::slice_to_vec(key) }
    }

    /// Opens one envelope.
    pub fn decrypt(&self, data: &[u8]) -> (plain: Result<Vec<u8>, Error>)
        ensures
            bytes_or_error(plain) == Self::opened(self.key(), data@),
            plain is Ok ==> plain->Ok_0@.len() == data@.len() - NONCE_LEN - TAG_LEN,
    {
        proof {
            use_type_invariant(self);
        }
        if data.len() < NONCE_LEN + TAG_LEN {
            return Err(Error::Truncated);
        }
        let nonce = slice_subrange(data, 0, NONCE_LEN);
        let sealed = slice_subrange(data, NONCE_LEN, data.len());
        match aes256_gcm_wide_decrypt(self.key.as_slice(), nonce, sealed) {
            Some(plain) => Ok(plain),
            None => Err(Error::InvalidAuth),
        }
    }

    /// Opens one envelope and decompresses its content.
    pub fn decrypt_and_decompress(&self, data: &[u8]) -> (content: Result<Vec<u8>, Error>)
        ensures
            bytes_or_error(content) == Self::decoded(self.key(), data@),
    {
        let plain = self.decrypt(data)?;
        match zstd_decode_all(plain.as_slice()) {
            Some(content) => Ok(content),
            None => Err(Error::Decompress),
        }
    }
}

} // verus!
