//! The cipher of every stored object: AES-256-CFB, with both the key and the
//! IV taken from one SHA-256 digest of a secret. The key is the digest and
//! the IV is its first 16 bytes. There is no key derivation beyond that and
//! no authentication: this is how the format is defined.

use crate::compress::xz_decompress;
use crate::compress::xz_plain;
use crate::crypto::aes256_cfb_decrypt;
use crate::crypto::aes256_cfb_plain;
use crate::crypto::sha256;
use crate::crypto::sha256_digest;
use crate::error::bytes_or_error;
use crate::error::Error;
use vstd::prelude::*;
use vstd::slice::slice_subrange;
use vstd::utf8::encode_utf8;

verus! {

pub const IV_LEN: usize = 16;

/// A cipher bound to the digest of one secret.
pub struct Decoder {
    digest: Vec<u8>,
}

/// The plaintext of `data` under the key and IV that `digest` gives.
pub open spec fn decrypted(digest: Seq<u8>, data: Seq<u8>) -> Seq<u8> {
    aes256_cfb_plain(digest, digest.subrange(0, IV_LEN as int), data)
}

/// The plaintext of `data`, decompressed as an XZ stream.
pub open spec fn decompressed(digest: Seq<u8>, data: Seq<u8>) -> Result<Seq<u8>, Error> {
    match xz_plain(decrypted(digest, data)) {
        Some(content) => Ok(content),
        None => Err(Error::Decompress),
    }
}

impl Decoder {
    #[verifier::type_invariant]
    spec fn well_formed(self) -> bool {
        self.digest@.len() == 32
    }

    /// The digest that the cipher is bound to.
    pub closed spec fn digest(&self) -> Seq<u8> {
        self.digest@
    }

    /// The cipher that the user's password gives. It unlocks the top-level
    /// config.
    pub fn new_password(password: &str) -> (decoder: Decoder)
        ensures
            decoder.digest() == sha256(encode_utf8(password@)),
    {
        Decoder { digest: sha256_digest(password.as_bytes()) }
    }

    /// The cipher that the config's key gives. The key is used as the text
    /// it is, without decoding it. It unlocks everything but the config.
    pub fn new_key(key: &str) -> (decoder: Decoder)
        ensures
            decoder.digest() == sha256(encode_utf8(key@)),
    {
        Decoder { digest: sha256_digest(key.as_bytes()) }
    }

    /// Decrypts an object.
    pub fn decrypt(self, data: &[u8]) -> (plain: Result<Vec<u8>, Error>)
        ensures
            bytes_or_error(plain) == Ok::<Seq<u8>, Error>(decrypted(self.digest(), data@)),
            plain is Ok && plain->Ok_0@.len() == data@.len(),
    {
        proof {
            use_type_invariant(&self);
        }
        let iv = slice_subrange(self.digest.as_slice(), 0, IV_LEN);
        Ok(aes256_cfb_decrypt(self.digest.as_slice(), iv, data))
    }

    /// Decrypts an object and decompresses its content.
    pub fn decrypt_and_decompress(self, data: &[u8]) -> (content: Result<Vec<u8>, Error>)
        ensures
            bytes_or_error(content) == decompressed(self.digest(), data@),
    {
        let ghost digest = self.digest();
        let plain = self.decrypt(data)?;
        match xz_decompress(plain.as_slice()) {
            Some(content) => Ok(content),
            None => Err(Error::Decompress),
        }
    }
}

} // verus!
