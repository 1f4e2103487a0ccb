//! The envelope of every stored object: `nonce(16) || ciphertext ||
//! mac(16)` under AES-256-CTR with a Poly1305-AES MAC, and the Zstandard
//! compression that may lie under it.

use crate::compress::zstd_frames_plain;
use crate::compress::zstd_decompress;
use crate::crypto::aes256_ctr_poly1305_decrypt;
use crate::crypto::aes256_ctr_poly1305_open;
use crate::error::bytes_or_error;
use crate::error::Error;
use super::keys::COMPOSITE_KEY_LEN;
use super::keys::Masterkey;
use vstd::prelude::*;
use vstd::slice::slice_subrange;

verus! {

pub const NONCE_LEN: usize = 16;

pub const TAG_LEN: usize = 16;

/// How many times its own size a compressed payload may decompress to.
pub const MAX_EXPANSION: usize = 20;

/// An envelope opener bound to one composite key.
pub struct Decoder {
    key: Vec<u8>,
}

/// What opening the envelope `data` under `key` gives: an object too short
/// to hold a nonce and a MAC is truncated, and one that the cipher rejects
/// fails authentication.
pub open spec fn opened(key: Seq<u8>, data: Seq<u8>) -> Result<Seq<u8>, Error> {
    if data.len() < NONCE_LEN + TAG_LEN {
        Err(Error::Truncated)
    } else {
        match aes256_ctr_poly1305_open(
            key,
            data.subrange(0, NONCE_LEN as int),
            data.skip(NONCE_LEN as int),
        ) {
            Some(plain) => Ok(plain),
            None => Err(Error::InvalidAuth),
        }
    }
}

/// What decompressing `payload` gives. The content may be twenty times as
/// long as the plaintext that the payload came in, `plain_len`, and no
/// longer.
pub open spec fn inflated(payload: Seq<u8>, plain_len: int) -> Result<Seq<u8>, Error> {
    if plain_len * MAX_EXPANSION > isize::MAX {
        Err(Error::Decompress)
    } else {
        match zstd_frames_plain(payload) {
            Some(content) => if content.len() <= plain_len * MAX_EXPANSION {
                Ok(content)
            } else {
                Err(Error::Decompress)
            },
            None => Err(Error::Decompress),
        }
    }
}

/// What opening the envelope and decompressing all of its plaintext gives.
pub open spec fn unpacked(key: Seq<u8>, data: Seq<u8>) -> Result<Seq<u8>, Error> {
    match opened(key, data) {
        Ok(plain) => inflated(plain, plain.len() as int),
        Err(e) => Err(e),
    }
}

/// What opening the envelope and decompressing its plaintext after the
/// leading type byte gives. A plaintext without that byte is truncated.
pub open spec fn unpacked_tagged(key: Seq<u8>, data: Seq<u8>) -> Result<Seq<u8>, Error> {
    match opened(key, data) {
        Ok(plain) => if plain.len() == 0 {
            Err(Error::Truncated)
        } else {
            inflated(plain.skip(1), plain.len() as int)
        },
        Err(e) => Err(e),
    }
}

/// Decompresses `payload`, which came in a plaintext of `plain_len` bytes.
fn inflate(payload: &[u8], plain_len: usize) -> (content: Result<Vec<u8>, Error>)
    ensures
        bytes_or_error(content) == inflated(payload@, plain_len as int),
{
    if plain_len > (isize::MAX as usize) / MAX_EXPANSION {
        return Err(Error::Decompress);
    }
    let capacity = plain_len * MAX_EXPANSION;
    match zstd_decompress(payload, capacity) {
        Some(content) => if content.len() <= capacity {
            Ok(content)
        } else {
            Err(Error::Decompress)
        },
        None => Err(Error::Decompress),
    }
}

impl Decoder {
    #[verifier::type_invariant]
    spec fn well_formed(self) -> bool {
        self.key@.len() == COMPOSITE_KEY_LEN
    }

    /// The composite key that the decoder is bound to.
    pub closed spec fn key(&self) -> Seq<u8> {
        self.key@
    }

    /// Binds a decoder to a master key.
    pub fn new(key: &Masterkey) -> (decoder: Decoder)
        requires
            key.is_usable(),
        ensures
            decoder.key() == key.composite(),
    {
        let mut composite: Vec<u8> = Vec::new();
        composite.extend_from_slice(key.encrypt.as_slice());
        composite.extend_from_slice(key.mac.k.as_slice());
        composite.extend_from_slice(key.mac.r.as_slice());
        Decoder { key: composite }
    }

    /// Opens one envelope.
    pub fn decrypt(&self, data: &[u8]) -> (plain: Result<Vec<u8>, Error>)
        ensures
            bytes_or_error(plain) == opened(self.key(), data@),
    {
        proof {
            use_type_invariant(self);
        }
        if data.len() < NONCE_LEN + TAG_LEN {
            return Err(Error::Truncated);
        }
        let nonce = slice_subrange(data, 0, NONCE_LEN);
        let sealed = slice_subrange(data, NONCE_LEN, data.len());
        match aes256_ctr_poly1305_decrypt(self.key.as_slice(), nonce, sealed) {
            Some(plain) => Ok(plain),
            None => Err(Error::InvalidAuth),
        }
    }

    /// Opens one envelope and decompresses what follows the leading type
    /// byte of its plaintext.
    pub fn decrypt_and_decompress(&self, data: &[u8]) -> (content: Result<Vec<u8>, Error>)
        ensures
            bytes_or_error(content) == unpacked_tagged(self.key(), data@),
    {
        let plain = self.decrypt(data)?;
        if plain.len() == 0 {
            return Err(Error::Truncated);
        }
        inflate(slice_subrange(plain.as_slice(), 1, plain.len()), plain.len())
    }

    /// Opens one envelope and decompresses all of its plaintext.
    pub fn decrypt_and_decompress_packed(&self, data: &[u8]) -> (content: Result<Vec<u8>, Error>)
        ensures
            bytes_or_error(content) == unpacked(self.key(), data@),
    {
        let plain = self.decrypt(data)?;
        inflate(plain.as_slice(), plain.len())
    }
}

impl Masterkey {
    /// A decoder for this master key, if its parts make up a usable key.
    pub fn decoder(&self) -> (decoder: Result<Decoder, Error>)
        ensures
            match decoder {
                Ok(d) => self.is_usable() && d.key() == self.composite(),
                Err(e) => !self.is_usable() && e == Error::InvalidKey,
            },
    {
        if self.usable() {
            Ok(Decoder::new(self))
        } else {
            Err(Error::InvalidKey)
        }
    }

    /// What an object stored under this master key opens to.
    pub open spec fn opened(self, data: Seq<u8>) -> Result<Seq<u8>, Error> {
        if self.is_usable() {
            opened(self.composite(), data)
        } else {
            Err(Error::InvalidKey)
        }
    }

    /// What an object stored under this master key opens and decompresses
    /// to, all of its plaintext being compressed.
    pub open spec fn unpacked(self, data: Seq<u8>) -> Result<Seq<u8>, Error> {
        if self.is_usable() {
            unpacked(self.composite(), data)
        } else {
            Err(Error::InvalidKey)
        }
    }

    /// What an object stored under this master key opens and decompresses
    /// to, its plaintext beginning with a type byte.
    pub open spec fn unpacked_tagged(self, data: Seq<u8>) -> Result<Seq<u8>, Error> {
        if self.is_usable() {
            unpacked_tagged(self.composite(), data)
        } else {
            Err(Error::InvalidKey)
        }
    }
}

} // verus!
