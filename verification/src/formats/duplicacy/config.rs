//! The repository's config: its parameters and the keys that everything
//! else is derived from.

use crate::codec::has_prefix;
use crate::codec::hex_encode;
use crate::codec::hex_encoded;
use crate::codec::le_u32;
use crate::codec::read_le_u32;
use crate::codec::starts_with;
use crate::crypto::blake2b_mac_256;
use crate::crypto::blake2b_mac_256_tag;
use crate::crypto::pbkdf2_sha256;
use crate::crypto::pbkdf2_sha256_derive;
use crate::error::bytes_or_error;
use crate::error::Error;
use crate::restore::join_path;
use crate::restore::joined_path;
use super::decoder::Decoder;
use super::decoder::MAGIC;
use super::error::Error as FormatError;
use vstd::prelude::*;
use vstd::slice::slice_subrange;
use vstd::string::StrSliceExecFns;

verus! {

/// The longest key that the keyed hash takes.
pub const MAX_MAC_KEY_LEN: usize = 64;

/// The iterations of a version 0 config header.
pub const DEFAULT_ITERATIONS: u32 = 16384;

pub const SALT_LEN: usize = 32;

/// Where the salt of a version 1 config header begins.
pub const SALT_AT: usize = 10;

/// Where the iterations of a version 1 config header begin.
pub const ITERATIONS_AT: usize = 42;

/// Where the envelope goes on after a version 1 config header.
pub const V1_BODY_AT: usize = 46;

#[derive(Debug)]
pub struct Config {
    pub compression_level: i32,
    pub average_chunk_size: i32,
    pub max_chunk_size: i32,
    pub min_chunk_size: i32,
    pub chunk_seed: Vec<u8>,
    pub fixed_nesting: bool,
    pub hash_key: Vec<u8>,
    pub id_key: Vec<u8>,
    pub chunk_key: Vec<u8>,
    pub file_key: Vec<u8>,
    pub data_shards: i32,
    pub parity_shards: i32,
    pub rsa_public_key: String,
    /// Whether the repository's objects are encrypted.
    pub encrypted: bool,
}

/// How the key of a password-wrapped config is derived, and where the
/// envelope goes on after the header.
#[derive(Debug)]
pub struct WrapHeader {
    pub salt: Vec<u8>,
    pub iterations: u32,
    pub body_at: usize,
}

/// The header of a password-wrapped config. Version 0 has the fixed salt
/// `"duplicacy"` and 16384 iterations. Version 1 stores a 32-byte salt and
/// the iterations as a little-endian `u32`. There is no other version.
pub open spec fn wrap_header(file: Seq<u8>) -> Result<(Seq<u8>, u32, int), Error> {
    if file.len() < SALT_AT {
        Err(Error::Truncated)
    } else if file[9] == 0 {
        Ok((MAGIC@, DEFAULT_ITERATIONS, SALT_AT as int))
    } else if file[9] == 1 {
        if file.len() < V1_BODY_AT {
            Err(Error::Truncated)
        } else {
            Ok(
                (
                    file.subrange(SALT_AT as int, ITERATIONS_AT as int),
                    le_u32(file.subrange(ITERATIONS_AT as int, V1_BODY_AT as int)) as u32,
                    V1_BODY_AT as int,
                ),
            )
        }
    } else {
        Err(Error::Duplicacy(FormatError::InvalidHeaderVersion(file[9])))
    }
}

/// A version 0 envelope around what follows the header of a wrapped config.
pub open spec fn rewrapped(file: Seq<u8>, body_at: int) -> Seq<u8> {
    MAGIC@ + seq![0u8] + file.skip(body_at)
}

/// The JSON document of a config. A file that does not begin with the magic
/// is the document. One that does is wrapped: it needs a password, whose
/// key opens the envelope that follows the header.
pub open spec fn document(file: Seq<u8>, password: Option<Seq<u8>>) -> Result<Seq<u8>, Error> {
    if !has_prefix(file, MAGIC@) {
        Ok(file)
    } else {
        match password {
            None => Err(Error::Duplicacy(FormatError::PasswordRequired)),
            Some(secret) => match wrap_header(file) {
                Err(e) => Err(e),
                Ok((salt, iterations, body_at)) => {
                    let key = pbkdf2_sha256(secret, salt, iterations);
                    super::decoder::decoded(Some(key), rewrapped(file, body_at))
                },
            },
        }
    }
}

/// A password whose key does not open a wrapped config fails
/// authentication, and with no other failure.
pub proof fn lemma_wrong_password(
    file: Seq<u8>,
    password: Seq<u8>,
    salt: Seq<u8>,
    iterations: u32,
    body_at: int,
)
    requires
        has_prefix(file, MAGIC@),
        wrap_header(file) == Ok::<(Seq<u8>, u32, int), Error>((salt, iterations, body_at)),
        file.len() - body_at >= 12 + 16,
        crate::crypto::aes256_gcm_open(
            pbkdf2_sha256(password, salt, iterations),
            file.subrange(body_at, body_at + 12),
            file.skip(body_at + 12),
        ) is None,
    ensures
        document(file, Some(password)) == Err::<Seq<u8>, Error>(Error::InvalidAuth),
{
    let envelope = rewrapped(file, body_at);
    assert(envelope.subrange(0, 9) =~= MAGIC@);
    assert(envelope[9] == 0);
    assert(envelope.subrange(10, 22) =~= file.subrange(body_at, body_at + 12));
    assert(envelope.skip(22) =~= file.skip(body_at + 12));
}

/// Reads the header of a password-wrapped config.
pub fn read_wrap_header(file: &[u8]) -> (header: Result<WrapHeader, Error>)
    ensures
        match header {
            Ok(h) => wrap_header(file@) == Ok::<(Seq<u8>, u32, int), Error>(
                (h.salt@, h.iterations, h.body_at as int),
            ),
            Err(e) => wrap_header(file@) == Err::<(Seq<u8>, u32, int), Error>(e),
        },
{
    if file.len() < SALT_AT {
        return Err(Error::Truncated);
    }
    let version = file[9];
    if version == 0 {
        Ok(
            WrapHeader {
                salt: vstd::slice::slice_to_vec(MAGIC.as_slice()),
                iterations: DEFAULT_ITERATIONS,
                body_at: SALT_AT,
            },
        )
    } else if version == 1 {
        if file.len() < V1_BODY_AT {
            return Err(Error::Truncated);
        }
        let salt = vstd::slice::slice_to_vec(slice_subrange(file, SALT_AT, ITERATIONS_AT));
        let iterations = read_le_u32(slice_subrange(file, ITERATIONS_AT, V1_BODY_AT));
        Ok(WrapHeader { salt, iterations, body_at: V1_BODY_AT })
    } else {
        Err(Error::Duplicacy(FormatError::InvalidHeaderVersion(version)))
    }
}

impl Config {
    /// Tells whether a config file is password-wrapped, and with it the
    /// whole repository encrypted.
    pub fn is_wrapped(file: &[u8]) -> (yes: bool)
        ensures
            yes == has_prefix(file@, MAGIC@),
    {
        starts_with(file, MAGIC.as_slice())
    }

    /// Decodes the JSON document of a config from the contents of its file.
    pub fn from_file(file: &[u8], password: Option<String>) -> (json: Result<Vec<u8>, Error>)
        ensures
            bytes_or_error(json) == document(
                file@,
                match password {
                    Some(p) => Some(vstd::utf8::encode_utf8(p@)),
                    None => None,
                },
            ),
    {
        if !Self::is_wrapped(file) {
            return Ok(vstd::slice::slice_to_vec(file));
        }
        let secret = match password {
            Some(p) => p,
            None => {
                return Err(Error::Duplicacy(FormatError::PasswordRequired));
            },
        };
        let header = read_wrap_header(file)?;
        let key = pbkdf2_sha256_derive(
            secret.as_str().as_bytes(),
            header.salt.as_slice(),
            header.iterations,
        );
        let mut envelope = vstd::slice::slice_to_vec(MAGIC.as_slice());
        envelope.push(0);
        envelope.extend_from_slice(slice_subrange(file, header.body_at, file.len()));
        assert(envelope@ =~= rewrapped(file@, header.body_at as int));
        Decoder::new(Some(key)).decode(envelope.as_slice())
    }

    /// The key derived from `key` for one object: the keyed hash of `key`
    /// under the object's `derivation`.
    pub open spec fn derived_key(key: Seq<u8>, derivation: Seq<u8>) -> Result<Seq<u8>, Error> {
        if derivation.len() > MAX_MAC_KEY_LEN {
            Err(Error::InvalidKey)
        } else {
            Ok(blake2b_mac_256(derivation, key))
        }
    }

    /// Derives the key of one object from a key of the config and the
    /// object's derivation, which may be 64 bytes long at most.
    pub fn derive_key(&self, key: &[u8], derivation: &[u8]) -> (derived: Result<[u8; 32], Error>)
        ensures
            match derived {
                Ok(k) => Self::derived_key(key@, derivation@) == Ok::<Seq<u8>, Error>(k@),
                Err(e) => Self::derived_key(key@, derivation@) == Err::<Seq<u8>, Error>(e),
            },
    {
        if derivation.len() > MAX_MAC_KEY_LEN {
            return Err(Error::InvalidKey);
        }
        Ok(blake2b_mac_256_tag(derivation, key))
    }

    /// The key that the object stored under `hash` is sealed with: derived
    /// from the chunk key where the repository is encrypted, none where it
    /// is not.
    pub open spec fn object_key(self, hash: Seq<u8>) -> Result<Option<Seq<u8>>, Error> {
        if self.encrypted {
            match Self::derived_key(self.chunk_key@, hash) {
                Ok(key) => Ok(Some(key)),
                Err(e) => Err(e),
            }
        } else {
            Ok(None)
        }
    }

    /// What the object stored under `hash` decodes to.
    pub open spec fn content(self, file: Seq<u8>, hash: Seq<u8>) -> Result<Seq<u8>, Error> {
        match self.object_key(hash) {
            Ok(key) => super::decoder::decoded(key, file),
            Err(e) => Err(e),
        }
    }

    /// Decodes an object from the contents of its file and the hash it is
    /// stored under.
    pub fn decode_object(&self, file: &[u8], hash: &[u8]) -> (content: Result<Vec<u8>, Error>)
        ensures
            bytes_or_error(content) == self.content(file@, hash@),
    {
        if self.encrypted {
            let key = self.derive_key(self.chunk_key.as_slice(), hash)?;
            Decoder::new(Some(key)).decode(file)
        } else {
            Decoder::new(None).decode(file)
        }
    }

    /// The identifier under which the chunk with the given content hash is
    /// stored: the keyed hash of the content hash under the config's id key.
    pub open spec fn chunk_id(self, hash: Seq<u8>) -> Result<Seq<u8>, Error> {
        Self::derived_key(hash, self.id_key@)
    }

    /// Computes the identifier of a chunk from its content hash.
    pub fn get_chunk_id_from_hash(&self, hash: &[u8]) -> (id: Result<Vec<u8>, Error>)
        ensures
            bytes_or_error(id) == self.chunk_id(hash@),
    {
        let id = self.derive_key(hash, self.id_key.as_slice())?;
        Ok(vstd::slice::slice_to_vec(id.as_slice()))
    }

    /// Where a chunk with the given identifier lies, relative to the
    /// repository: `chunks/<aa>/<rest>`, for the hexadecimal text `<aa><rest>`
    /// of the identifier.
    pub open spec fn chunk_path(id: Seq<u8>) -> Seq<char> {
        joined_path(
            joined_path("chunks"@, hex_encoded(id).subrange(0, 2)),
            hex_encoded(id).skip(2),
        )
    }

    /// Computes where the chunk with the given content hash lies.
    pub fn resolve_path_from_hash(&self, hash: &[u8]) -> (path: Result<String, Error>)
        ensures
            match path {
                Ok(p) => self.chunk_id(hash@) == Ok::<Seq<u8>, Error>(blake2b_mac_256(self.id_key@, hash@))
                    && p@ == Self::chunk_path(blake2b_mac_256(self.id_key@, hash@)),
                Err(e) => self.chunk_id(hash@) == Err::<Seq<u8>, Error>(e),
            },
    {
        let id = self.derive_key(hash, self.id_key.as_slice())?;
        let encoded = hex_encode(id.as_slice());
        let text = encoded.as_str();
        let dir = join_path("chunks", text.substring_char(0, 2));
        Ok(join_path(dir.as_str(), text.substring_char(2, 64)))
    }
}

} // verus!
