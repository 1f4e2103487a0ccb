//! Hashes, key derivation and ciphers.
//!
//! Nothing here is computed by this crate: every function hands its
//! arguments to the crate that implements the primitive. What each one
//! returns is given a name, so that the decoders built on top can say
//! exactly which bytes they produce.

use aes::cipher::AsyncStreamCipher;
use aes::cipher::KeyIvInit;
use aes_gcm::aead::Aead;
use aes_gcm::aead::generic_array::GenericArray;
use aes_gcm::aead::KeyInit;
use blake2::digest::Mac;
use sha2::Digest;
use vstd::arithmetic::power2::pow2;
use vstd::prelude::*;

verus! {

/// The view of an optional byte vector.
pub open spec fn bytes_of(v: Option<Vec<u8>>) -> Option<Seq<u8>> {
    match v {
        Some(b) => Some(b@),
        None => None,
    }
}

/// The SHA-256 digest of `data`.
pub uninterp spec fn sha256(data: Seq<u8>) -> Seq<u8>;

/// The unkeyed BLAKE2b digest of `data`, with a 32-byte output.
pub uninterp spec fn blake2b_256(data: Seq<u8>) -> Seq<u8>;

/// The keyed BLAKE2b MAC of `msg` under `key`, with a 32-byte output and
/// empty salt and personalisation.
pub uninterp spec fn blake2b_mac_256(key: Seq<u8>, msg: Seq<u8>) -> Seq<u8>;

/// The scrypt key of `len` bytes for a password and salt, with cost
/// `2^log_n`, block size `r` and parallelism `p`.
pub uninterp spec fn scrypt_key(
    password: Seq<u8>,
    salt: Seq<u8>,
    log_n: u8,
    r: u32,
    p: u32,
    len: usize,
) -> Seq<u8>;

/// The 32-byte PBKDF2-HMAC-SHA256 key for a password, salt and round count.
pub uninterp spec fn pbkdf2_sha256(password: Seq<u8>, salt: Seq<u8>, rounds: u32) -> Seq<u8>;

/// What AES-256-GCM with a 12-byte nonce and a 16-byte tag recovers from
/// `sealed` (ciphertext followed by tag), or `None` where it rejects it.
pub uninterp spec fn aes256_gcm_open(key: Seq<u8>, nonce: Seq<u8>, sealed: Seq<u8>) -> Option<
    Seq<u8>,
>;

/// What AES-256-GCM with a 16-byte nonce and a 16-byte tag recovers from
/// `sealed` (ciphertext followed by tag), or `None` where it rejects it.
pub uninterp spec fn aes256_gcm_wide_open(key: Seq<u8>, nonce: Seq<u8>, sealed: Seq<u8>) -> Option<
    Seq<u8>,
>;

/// What AES-256-CTR with a Poly1305-AES MAC recovers from `sealed`
/// (ciphertext followed by MAC) under a 64-byte composite key, or `None`
/// where it rejects it.
pub uninterp spec fn aes256_ctr_poly1305_open(
    key: Seq<u8>,
    nonce: Seq<u8>,
    sealed: Seq<u8>,
) -> Option<Seq<u8>>;

/// The AES-256-CFB decryption of `data` under a key and an IV.
pub uninterp spec fn aes256_cfb_plain(key: Seq<u8>, iv: Seq<u8>, data: Seq<u8>) -> Seq<u8>;

/// The parameter sets that scrypt accepts on this machine.
pub open spec fn scrypt_params_valid(log_n: u8, r: u32, p: u32, len: usize) -> bool {
    &&& r > 0
    &&& p > 0
    &&& log_n < usize::BITS
    &&& 10 <= len <= 64
    &&& r * 128 * pow2(log_n as nat) <= usize::MAX
    &&& r * 128 * p <= usize::MAX
    &&& log_n < r * 16
    &&& r * p < 0x4000_0000
}

/// Calls `sha2::Sha256::digest`. Claimed: the digest depends on the input
/// bytes alone and is 32 bytes long.
#[verifier::external_body]
pub(crate) fn sha256_digest(data: &[u8]) -> (digest: Vec<u8>)
    ensures
        digest@ == sha256(data@),
        digest@.len() == 32,
{
    sha2::Sha256::digest(data).to_vec()
}

/// Calls `blake2::Blake2b::<U32>::digest`. Claimed: the digest depends on the
/// input bytes alone and is 32 bytes long.
#[verifier::external_body]
pub(crate) fn blake2b_256_digest(data: &[u8]) -> (digest: Vec<u8>)
    ensures
        digest@ == blake2b_256(data@),
        digest@.len() == 32,
{
    blake2::Blake2b::<blake2::digest::consts::U32>::digest(data).to_vec()
}

/// Calls `blake2::Blake2bMac::<U32>::new_with_salt_and_personal` with empty
/// salt and personalisation, feeds it `msg` and finalises. Claimed: the tag
/// depends on key and message alone. Keys longer than 64 bytes are left out:
/// the constructor refuses or aborts on them.
#[verifier::external_body]
pub(crate) fn blake2b_mac_256_tag(key: &[u8], msg: &[u8]) -> (tag: [u8; 32])
    requires
        key@.len() <= 64,
    ensures
        tag@ == blake2b_mac_256(key@, msg@),
{
    let mut mac = blake2::Blake2bMac::<blake2::digest::consts::U32>::new_with_salt_and_personal(
        key,
        &[],
        &[],
    ).unwrap();
    mac.update(msg);
    mac.finalize().into_bytes().into()
}

/// Calls `scrypt::Params::new` and `scrypt::scrypt`. Claimed: a key comes
/// back exactly for the parameter sets that `Params::new` accepts, it has
/// the length asked for, and it depends on the arguments alone.
#[verifier::external_body]
pub(crate) fn scrypt_derive(
    password: &[u8],
    salt: &[u8],
    log_n: u8,
    r: u32,
    p: u32,
    len: usize,
) -> (key: Option<Vec<u8>>)
    ensures
        key is Some <==> scrypt_params_valid(log_n, r, p, len),
        key is Some ==> key->0@ == scrypt_key(password@, salt@, log_n, r, p, len),
        key is Some ==> key->0@.len() == len,
{
    let params = scrypt::Params::new(log_n, r, p, len).ok()?;
    let mut out = vec![0u8; len];
    scrypt::scrypt(password, salt, &params, &mut out).ok()?;
    Some(out)
}

/// Calls `pbkdf2::pbkdf2_hmac::<Sha256>` on a 32-byte output buffer.
/// Claimed: the key depends on the arguments alone.
#[verifier::external_body]
pub(crate) fn pbkdf2_sha256_derive(password: &[u8], salt: &[u8], rounds: u32) -> (key: [u8; 32])
    ensures
        key@ == pbkdf2_sha256(password@, salt@, rounds),
{
    let mut key = [0u8; 32];
    pbkdf2::pbkdf2_hmac::<sha2::Sha256>(password, salt, rounds, &mut key);
    key
}

/// Calls `aes_gcm::Aes256Gcm::new` and `Aead::decrypt`. Claimed: the outcome
/// depends on the arguments alone, and an accepted input is at least a tag
/// long and yields a plaintext 16 bytes shorter.
#[verifier::external_body]
pub(crate) fn aes256_gcm_decrypt(key: &[u8], nonce: &[u8], sealed: &[u8]) -> (plain: Option<
    Vec<u8>,
>)
    requires
        key@.len() == 32,
        nonce@.len() == 12,
    ensures
        bytes_of(plain) == aes256_gcm_open(key@, nonce@, sealed@),
        plain is Some ==> sealed@.len() >= 16 && plain->0@.len() == sealed@.len() - 16,
{
    let cipher = aes_gcm::Aes256Gcm::new(GenericArray::from_slice(key));
    cipher.decrypt(GenericArray::from_slice(nonce), sealed).ok()
}

/// Calls `aes_gcm::AesGcm::<Aes256, U16>::new` and `Aead::decrypt`. Claimed:
/// the outcome depends on the arguments alone, and an accepted input is at
/// least a tag long and yields a plaintext 16 bytes shorter.
#[verifier::external_body]
pub(crate) fn aes256_gcm_wide_decrypt(key: &[u8], nonce: &[u8], sealed: &[u8]) -> (plain: Option<
    Vec<u8>,
>)
    requires
        key@.len() == 32,
        nonce@.len() == 16,
    ensures
        bytes_of(plain) == aes256_gcm_wide_open(key@, nonce@, sealed@),
        plain is Some ==> sealed@.len() >= 16 && plain->0@.len() == sealed@.len() - 16,
{
    let cipher = aes_gcm::AesGcm::<aes::Aes256, aes::cipher::typenum::U16>::new(
        GenericArray::from_slice(key),
    );
    cipher.decrypt(GenericArray::from_slice(nonce), sealed).ok()
}

/// Calls `aes256ctr_poly1305aes::Aes256CtrPoly1305Aes::new` and
/// `Aead::decrypt`. Claimed: the outcome depends on the arguments alone, and
/// an accepted input is at least a MAC long and yields a plaintext 16 bytes
/// shorter.
#[verifier::external_body]
pub(crate) fn aes256_ctr_poly1305_decrypt(key: &[u8], nonce: &[u8], sealed: &[u8]) -> (plain:
    Option<Vec<u8>>)
    requires
        key@.len() == 64,
        nonce@.len() == 16,
    ensures
        bytes_of(plain) == aes256_ctr_poly1305_open(key@, nonce@, sealed@),
        plain is Some ==> sealed@.len() >= 16 && plain->0@.len() == sealed@.len() - 16,
{
    let cipher = aes256ctr_poly1305aes::Aes256CtrPoly1305Aes::new(GenericArray::from_slice(key));
    cipher.decrypt(GenericArray::from_slice(nonce), sealed).ok()
}

/// Calls `cfb_mode::Decryptor::<Aes256>::new` and `AsyncStreamCipher::decrypt`
/// on a copy of `data`. Claimed: the plaintext depends on the arguments alone
/// and is as long as the input.
#[verifier::external_body]
pub(crate) fn aes256_cfb_decrypt(key: &[u8], iv: &[u8], data: &[u8]) -> (plain: Vec<u8>)
    requires
        key@.len() == 32,
        iv@.len() == 16,
    ensures
        plain@ == aes256_cfb_plain(key@, iv@, data@),
        plain@.len() == data@.len(),
{
    let cipher = cfb_mode::Decryptor::<aes::Aes256>::new(
        GenericArray::from_slice(key),
        GenericArray::from_slice(iv),
    );
    let mut buffer = data.to_vec();
    cipher.decrypt(&mut buffer);
    buffer
}

} // verus!
