//! The envelope of an encrypted object, and the compression under it.
//!
//! An encrypted object is `"duplicacy"(9) || version(1) || nonce(12) ||
//! ciphertext || tag(16)` under AES-256-GCM. In an encrypted repository
//! every object is one. Its plaintext ends in padding:
//! the last byte gives the number of padding bytes, with 0 standing for 256.
//! Content that begins with `"LZ4 "` is an LZ4 block after those four bytes.

use crate::codec::has_prefix;
use crate::codec::starts_with;
use crate::compress::lz4_accepts;
use crate::compress::lz4_decodable;
use crate::compress::lz4_decompress;
use crate::compress::lz4_plain;
use crate::crypto::aes256_gcm_decrypt;
use crate::crypto::aes256_gcm_open;
use crate::error::bytes_or_error;
use crate::error::Error;
use super::error::Error as FormatError;
use vstd::prelude::*;
use vstd::slice::slice_subrange;

verus! {

/// The bytes `"duplicacy"`.
pub const MAGIC: [u8; 9] = [0x64, 0x75, 0x70, 0x6c, 0x69, 0x63, 0x61, 0x63, 0x79];

/// The bytes `"LZ4 "`.
pub const LZ4_MARK: [u8; 4] = [0x4c, 0x5a, 0x34, 0x20];

pub const VERSION_AT: usize = 9;

pub const NONCE_AT: usize = 10;

pub const SEALED_AT: usize = 22;

pub const TAG_LEN: usize = 16;

/// Opens objects with a key, or passes objects that need none.
pub enum Decoder {
    Unencrypted,
    Encrypted([u8; 32]),
}

/// The number of padding bytes that a last byte announces.
pub open spec fn padding_len(last: u8) -> int {
    if last == 0 {
        256
    } else {
        last as int
    }
}

/// A plaintext without its padding. One that is empty, or shorter than the
/// padding it announces, is truncated.
pub open spec fn unpadded(plain: Seq<u8>) -> Result<Seq<u8>, Error> {
    if plain.len() == 0 || padding_len(plain.last()) > plain.len() {
        Err(Error::Truncated)
    } else {
        Ok(plain.subrange(0, plain.len() - padding_len(plain.last())))
    }
}

/// Content without its compression: what follows an LZ4 mark is
/// decompressed, anything else is left as it is. A block that cannot be
/// handed to the decoder does not decompress.
pub open spec fn expanded(content: Seq<u8>) -> Result<Seq<u8>, Error> {
    if has_prefix(content, LZ4_MARK@) {
        if lz4_decodable(content.skip(LZ4_MARK@.len() as int)) {
            match lz4_plain(content.skip(LZ4_MARK@.len() as int)) {
                Some(plain) => Ok(plain),
                None => Err(Error::Decompress),
            }
        } else {
            Err(Error::Decompress)
        }
    } else {
        Ok(content)
    }
}

/// What the cipher makes of a sealed object's nonce and ciphertext, with
/// the padding taken off.
pub open spec fn opened(key: Seq<u8>, data: Seq<u8>) -> Result<Seq<u8>, Error> {
    match aes256_gcm_open(
        key,
        data.subrange(NONCE_AT as int, SEALED_AT as int),
        data.skip(SEALED_AT as int),
    ) {
        Some(plain) => unpadded(plain),
        None => Err(Error::InvalidAuth),
    }
}

/// An object without its envelope. Without a key, an object that does not
/// begin with the magic has no envelope. Under a key every object has one:
/// an object too short for the magic is truncated, and one that begins with
/// anything else lacks it. An object that begins with the magic must carry
/// version 0, needs a key, and must be long enough for a nonce and a tag.
pub open spec fn unsealed(key: Option<Seq<u8>>, data: Seq<u8>) -> Result<Seq<u8>, Error> {
    if !has_prefix(data, MAGIC@) {
        if key is None {
            Ok(data)
        } else if data.len() < MAGIC@.len() {
            Err(Error::Truncated)
        } else {
            Err(Error::BadMagic)
        }
    } else if data.len() <= VERSION_AT {
        Err(Error::Truncated)
    } else if data[VERSION_AT as int] != 0 {
        Err(Error::Duplicacy(FormatError::NonzeroHeaderVersion))
    } else {
        match key {
            None => Err(Error::Duplicacy(FormatError::PasswordRequired)),
            Some(k) => if data.len() < SEALED_AT + TAG_LEN {
                Err(Error::Truncated)
            } else {
                opened(k, data)
            },
        }
    }
}

/// What an object decodes to: its envelope is taken off, then its
/// compression.
pub open spec fn decoded(key: Option<Seq<u8>>, data: Seq<u8>) -> Result<Seq<u8>, Error> {
    match unsealed(key, data) {
        Ok(content) => expanded(content),
        Err(e) => Err(e),
    }
}

/// Takes the padding off a decrypted plaintext.
pub fn unpad(plain: Vec<u8>) -> (content: Result<Vec<u8>, Error>)
    ensures
        bytes_or_error(content) == unpadded(plain@),
{
    let mut plain = plain;
    let len = plain.len();
    if len == 0 {
        return Err(Error::Truncated);
    }
    let last = plain[len - 1];
    let padding: usize = if last == 0 {
        256
    } else {
        last as usize
    };
    if padding > len {
        return Err(Error::Truncated);
    }
    plain.truncate(len - padding);
    Ok(plain)
}

/// Decompresses content that carries an LZ4 mark and passes any other.
pub fn expand(content: Vec<u8>) -> (plain: Result<Vec<u8>, Error>)
    ensures
        bytes_or_error(plain) == expanded(content@),
{
    if starts_with(content.as_slice(), LZ4_MARK.as_slice()) {
        let body = slice_subrange(content.as_slice(), 4, content.len());
        if !lz4_accepts(body) {
            return Err(Error::Decompress);
        }
        match lz4_decompress(body) {
            Some(plain) => Ok(plain),
            None => Err(Error::Decompress),
        }
    } else {
        Ok(content)
    }
}

impl Decoder {
    /// A decoder for a repository that is encrypted under `key`, or for one
    /// that is not encrypted.
    pub fn new(key: Option<[u8; 32]>) -> (decoder: Decoder)
        ensures
            decoder == match key {
                Some(k) => Decoder::Encrypted(k),
                None => Decoder::Unencrypted,
            },
    {
        match key {
            Some(k) => Decoder::Encrypted(k),
            None => Decoder::Unencrypted,
        }
    }

    /// The key that the decoder opens objects with, if it has one.
    pub open spec fn key(self) -> Option<Seq<u8>> {
        match self {
            Decoder::Unencrypted => None,
            Decoder::Encrypted(k) => Some(k@),
        }
    }

    /// Decodes an object that is encrypted, compressed, both or neither.
    pub fn decode(&self, data: &[u8]) -> (content: Result<Vec<u8>, Error>)
        ensures
            bytes_or_error(content) == decoded(self.key(), data@),
    {
        if !starts_with(data, MAGIC.as_slice()) {
            return match self {
                Decoder::Unencrypted => expand(vstd::slice::slice_to_vec(data)),
                Decoder::Encrypted(_) => if data.len() < MAGIC.len() {
                    Err(Error::Truncated)
                } else {
                    Err(Error::BadMagic)
                },
            };
        }
        if data.len() <= VERSION_AT {
            return Err(Error::Truncated);
        }
        if data[VERSION_AT] != 0 {
            return Err(Error::Duplicacy(FormatError::NonzeroHeaderVersion));
        }
        match self {
            Decoder::Unencrypted => Err(Error::Duplicacy(FormatError::PasswordRequired)),
            Decoder::Encrypted(key) => {
                if data.len() < SEALED_AT + TAG_LEN {
                    return Err(Error::Truncated);
                }
                let nonce = slice_subrange(data, NONCE_AT, SEALED_AT);
                let sealed = slice_subrange(data, SEALED_AT, data.len());
                match aes256_gcm_decrypt(key.as_slice(), nonce, sealed) {
                    None => Err(Error::InvalidAuth),
                    Some(plain) => expand(unpad(plain)?),
                }
            },
        }
    }
}

} // verus!
