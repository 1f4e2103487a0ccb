//! Key files and the master key they wrap.
//!
//! A key file holds scrypt parameters and a sealed blob. The key that
//! scrypt derives from the password opens the blob, which holds the master
//! key as a JSON document.

use crate::crypto::aes256_ctr_poly1305_decrypt;
use crate::crypto::scrypt_derive;
use crate::crypto::scrypt_key;
use crate::crypto::scrypt_params_valid;
use crate::error::bytes_or_error;
use crate::error::Error;
use super::decoder::NONCE_LEN;
use super::decoder::opened;
use super::decoder::TAG_LEN;
use super::error::Error as FormatError;
use vstd::arithmetic::power2::lemma2_to64;
use vstd::arithmetic::power2::lemma_pow2_unfold;
use vstd::arithmetic::power2::pow2;
use vstd::prelude::*;
use vstd::slice::slice_subrange;
use vstd::utf8::encode_utf8;

verus! {

/// The length of the key that opens a key file, and of the composite master
/// key.
pub const COMPOSITE_KEY_LEN: usize = 64;

/// One key file.
#[derive(Debug)]
pub struct Key {
    pub created: String,
    pub username: String,
    pub hostname: String,
    pub kdf: String,
    pub n: u32,
    pub r: u32,
    pub p: u32,
    pub salt: Vec<u8>,
    pub data: Vec<u8>,
}

#[derive(Debug)]
pub struct Masterkey {
    pub mac: Mac,
    pub encrypt: Vec<u8>,
}

#[derive(Debug)]
pub struct Mac {
    pub k: Vec<u8>,
    pub r: Vec<u8>,
}

/// A key file that the password opened: which of the candidates it was, and
/// the JSON document of the master key that it held.
#[derive(Debug)]
pub struct Unlocked {
    pub slot: usize,
    pub document: Vec<u8>,
}

/// The whole part of the base-2 logarithm of `n`, and 0 for 0.
pub open spec fn log2_floor(n: nat) -> nat
    decreases n,
{
    if n <= 1 {
        0
    } else {
        1 + log2_floor(n / 2)
    }
}

/// A number below `2^bits` has a logarithm below `bits`.
pub proof fn lemma_log2_floor_bound(n: nat, bits: nat)
    requires
        bits >= 1,
        n < pow2(bits),
    ensures
        log2_floor(n) < bits,
    decreases n,
{
    if n > 1 {
        lemma_pow2_unfold(bits);
        if bits == 1 {
            lemma2_to64();
        } else {
            lemma_log2_floor_bound(n / 2, (bits - 1) as nat);
        }
    }
}

/// Computes the whole part of the base-2 logarithm of a positive number.
pub fn ilog2(n: u32) -> (log: u8)
    requires
        n > 0,
    ensures
        log == log2_floor(n as nat),
        log < 32,
{
    proof {
        lemma2_to64();
        lemma_log2_floor_bound(n as nat, 32);
    }
    let mut log: u8 = 0;
    let mut rest: u32 = n;
    while rest > 1
        invariant
            rest >= 1,
            log2_floor(n as nat) == log + log2_floor(rest as nat),
            log2_floor(n as nat) < 32,
        decreases rest,
    {
        rest = rest / 2;
        log = log + 1;
    }
    log
}

impl Masterkey {
    /// The composite key: the encryption key, then the two halves of the
    /// MAC key.
    pub open spec fn composite(self) -> Seq<u8> {
        self.encrypt@ + self.mac.k@ + self.mac.r@
    }

    /// Whether the three parts make up a composite key of the right length.
    pub open spec fn is_usable(self) -> bool {
        self.composite().len() == COMPOSITE_KEY_LEN
    }

    /// Tells whether the three parts make up a composite key of the right
    /// length.
    pub fn usable(&self) -> (yes: bool)
        ensures
            yes == self.is_usable(),
    {
        let encrypt = self.encrypt.len();
        let k = self.mac.k.len();
        let r = self.mac.r.len();
        encrypt <= COMPOSITE_KEY_LEN && k <= COMPOSITE_KEY_LEN && r <= COMPOSITE_KEY_LEN && encrypt
            + k + r == COMPOSITE_KEY_LEN
    }
}

impl Key {
    /// What the password makes of this key file: the JSON document of the
    /// master key. Cost parameters that scrypt does not accept are invalid,
    /// a blob too short for a nonce and a MAC is truncated, and a blob that
    /// the derived key does not open means that the password is wrong.
    pub open spec fn unlocked(self, password: Seq<u8>) -> Result<Seq<u8>, Error> {
        let log_n = log2_floor(self.n as nat) as u8;
        if self.n == 0 || !scrypt_params_valid(log_n, self.r, self.p, COMPOSITE_KEY_LEN) {
            Err(Error::InvalidKdfParams)
        } else {
            match opened(
                scrypt_key(password, self.salt@, log_n, self.r, self.p, COMPOSITE_KEY_LEN),
                self.data@,
            ) {
                Ok(document) => Ok(document),
                Err(Error::InvalidAuth) => Err(Error::Restic(FormatError::InvalidPassword)),
                Err(e) => Err(e),
            }
        }
    }

    /// Whether no candidate before position `upto` is opened by the
    /// password.
    pub open spec fn none_unlocked(candidates: Seq<Key>, password: Seq<u8>, upto: int) -> bool {
        forall|i: int| 0 <= i < upto ==> (#[trigger] candidates[i]).unlocked(password) is Err
    }

    /// Opens this key file with a password.
    pub fn from_file(&self, password: &[u8]) -> (document: Result<Vec<u8>, Error>)
        ensures
            bytes_or_error(document) == self.unlocked(password@),
    {
        if self.n == 0 {
            return Err(Error::InvalidKdfParams);
        }
        let log_n = ilog2(self.n);
        let key = match scrypt_derive(
            password,
            self.salt.as_slice(),
            log_n,
            self.r,
            self.p,
            COMPOSITE_KEY_LEN,
        ) {
            Some(key) => key,
            None => {
                return Err(Error::InvalidKdfParams);
            },
        };
        if self.data.len() < NONCE_LEN + TAG_LEN {
            return Err(Error::Truncated);
        }
        let nonce = slice_subrange(self.data.as_slice(), 0, NONCE_LEN);
        let sealed = slice_subrange(self.data.as_slice(), NONCE_LEN, self.data.len());
        match aes256_ctr_poly1305_decrypt(key.as_slice(), nonce, sealed) {
            Some(document) => Ok(document),
            None => Err(Error::Restic(FormatError::InvalidPassword)),
        }
    }

    /// Tries the password on each key file in turn and gives the first one
    /// that it opens. Where it opens none, whatever the reason, the password
    /// is reported as invalid.
    pub fn from_folder(candidates: &Vec<Key>, password: &str) -> (unlocked: Result<Unlocked, Error>)
        ensures
            match unlocked {
                Ok(found) => {
                    &&& found.slot < candidates@.len()
                    &&& candidates@[found.slot as int].unlocked(encode_utf8(password@)) == Ok::<
                        Seq<u8>,
                        Error,
                    >(found.document@)
                    &&& Self::none_unlocked(candidates@, encode_utf8(password@), found.slot as int)
                },
                Err(e) => {
                    &&& e == Error::Restic(FormatError::InvalidPassword)
                    &&& Self::none_unlocked(
                        candidates@,
                        encode_utf8(password@),
                        candidates@.len() as int,
                    )
                },
            },
    {
        let secret = password.as_bytes();
        let mut slot: usize = 0;
        while slot < candidates.len()
            invariant
                0 <= slot <= candidates@.len(),
                secret@ == encode_utf8(password@),
                Self::none_unlocked(candidates@, secret@, slot as int),
            decreases candidates@.len() - slot,
        {
            match candidates[slot].from_file(secret) {
                Ok(document) => {
                    return Ok(Unlocked { slot, document });
                },
                Err(_) => {},
            }
            slot = slot + 1;
        }
        Err(Error::Restic(FormatError::InvalidPassword))
    }
}

} // verus!
