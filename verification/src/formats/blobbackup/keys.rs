//! The key files of a repository and how the password unlocks them.

use crate::crypto::scrypt_derive;
use crate::crypto::scrypt_key;
use crate::crypto::scrypt_params_valid;
use crate::error::Error;
use super::decoder::Decoder;
use vstd::arithmetic::power2::lemma2_to64;
use vstd::prelude::*;
use vstd::string::StringSliceAdditionalSpecFns;

verus! {

/// log2 of the scrypt cost that protects the master key.
pub const SCRYPT_LOG_N: u8 = 14;

pub const SCRYPT_R: u32 = 8;

pub const SCRYPT_P: u32 = 1;

pub const KEY_LEN: usize = 32;

#[derive(Debug)]
pub struct Keys {
    pub key_salt: Vec<u8>,
    pub master_key: Vec<u8>,
    pub sha_key: Vec<u8>,
}

impl Keys {
    /// The key that a password and the stored salt derive.
    pub open spec fn password_key(password: Seq<u8>, key_salt: Seq<u8>) -> Seq<u8> {
        scrypt_key(password, key_salt, SCRYPT_LOG_N, SCRYPT_R, SCRYPT_P, KEY_LEN)
    }

    /// The master key and the hash key that a password unlocks: the key
    /// derived from the password opens the master key file, and the master
    /// key opens the hash key file. A master key that is not 32 bytes long
    /// cannot be used.
    pub open spec fn unlocked(
        password: Seq<u8>,
        key_salt: Seq<u8>,
        master_key_file: Seq<u8>,
        sha_key_file: Seq<u8>,
    ) -> Result<(Seq<u8>, Seq<u8>), Error> {
        match Decoder::opened(Self::password_key(password, key_salt), master_key_file) {
            Err(e) => Err(e),
            Ok(master_key) => if master_key.len() != KEY_LEN {
                Err(Error::InvalidKey)
            } else {
                match Decoder::opened(master_key, sha_key_file) {
                    Err(e) => Err(e),
                    Ok(sha_key) => Ok((master_key, sha_key)),
                }
            },
        }
    }

    /// A password that does not open the master key file fails
    /// authentication there, and with no other failure.
    pub proof fn lemma_wrong_password(
        password: Seq<u8>,
        key_salt: Seq<u8>,
        master_key_file: Seq<u8>,
        sha_key_file: Seq<u8>,
    )
        requires
            master_key_file.len() >= super::decoder::NONCE_LEN + super::decoder::TAG_LEN,
            crate::crypto::aes256_gcm_wide_open(
                Self::password_key(password, key_salt),
                master_key_file.subrange(0, super::decoder::NONCE_LEN as int),
                master_key_file.subrange(
                    super::decoder::NONCE_LEN as int,
                    master_key_file.len() as int,
                ),
            ) is None,
        ensures
            Self::unlocked(password, key_salt, master_key_file, sha_key_file) == Err::<
                (Seq<u8>, Seq<u8>),
                Error,
            >(Error::InvalidAuth),
    {
    }

    /// Whether `keys` is what `unlocked` describes.
    pub open spec fn matches_unlocked(
        keys: Result<Keys, Error>,
        key_salt: Seq<u8>,
        expected: Result<(Seq<u8>, Seq<u8>), Error>,
    ) -> bool {
        match keys {
            Ok(k) => expected == Ok::<(Seq<u8>, Seq<u8>), Error>((k.master_key@, k.sha_key@))
                && k.key_salt@ == key_salt,
            Err(e) => expected == Err::<(Seq<u8>, Seq<u8>), Error>(e),
        }
    }

    /// Unlocks the keys of a repository from the contents of its three key
    /// files: the salt, which is stored in the clear, and the master key and
    /// hash key, which are stored in envelopes.
    pub fn from_folder(
        key_salt: Vec<u8>,
        master_key_file: &[u8],
        sha_key_file: &[u8],
        password: &str,
    ) -> (keys: Result<Keys, Error>)
        ensures
            Self::matches_unlocked(
                keys,
                key_salt@,
                Self::unlocked(password.spec_bytes(), key_salt@, master_key_file@, sha_key_file@),
            ),
    {
        proof {
            lemma2_to64();
            assert(scrypt_params_valid(SCRYPT_LOG_N, SCRYPT_R, SCRYPT_P, KEY_LEN));
        }
        let derived = scrypt_derive(
            password.as_bytes(),
            key_salt.as_slice(),
            SCRYPT_LOG_N,
            SCRYPT_R,
            SCRYPT_P,
            KEY_LEN,
        );
        let password_key = match derived {
            Some(key) => key,
            None => {
                return Err(Error::InvalidKdfParams);
            },
        };
        let master_key = Decoder::new(password_key.as_slice()).decrypt(master_key_file)?;
        if master_key.len() != KEY_LEN {
            return Err(Error::InvalidKey);
        }
        let sha_key = Decoder::new(master_key.as_slice()).decrypt(sha_key_file)?;
        Ok(Keys { key_salt, master_key, sha_key })
    }
}

} // verus!
