//! Calls into the outside crates that hash, encode, derive keys, encrypt and
//! draw randomness. Each result that depends on its arguments alone has a
//! name; nothing more is claimed of those functions here.
use aes_gcm::aead::{Aead, KeyInit};
use base64::Engine;
use hmac::Mac;
use rand::RngCore;
use vstd::prelude::*;

verus! {

/// HMAC-SHA256 of `msg` under `key`.
pub uninterp spec fn spec_hmac_sha256(key: Seq<u8>, msg: Seq<u8>) -> Seq<u8>;

/// HMAC-SHA1 of `msg` under `key`.
pub uninterp spec fn spec_hmac_sha1(key: Seq<u8>, msg: Seq<u8>) -> Seq<u8>;

/// Standard base64 (with padding) of `bytes`.
pub uninterp spec fn spec_base64(bytes: Seq<u8>) -> Seq<char>;

/// The bytes that a standard base64 text decodes to; `None` when it is not
/// valid base64.
pub uninterp spec fn spec_base64_decode(text: Seq<char>) -> Option<Seq<u8>>;

/// The 32-byte Argon2id (version 0x13) key for `passphrase` and `salt` with
/// the given memory, time and parallelism costs; `None` when the crate
/// refuses the parameters or the salt.
pub uninterp spec fn spec_argon2id(
    passphrase: Seq<u8>,
    salt: Seq<u8>,
    memory_cost: u32,
    time_cost: u32,
    parallelism: u32,
) -> Option<Seq<u8>>;

/// AES-256-GCM ciphertext (with tag) of `plaintext` under a 32-byte `key`
/// and 12-byte `nonce`; `None` when the crate refuses to encrypt.
pub uninterp spec fn spec_aes_gcm_seal(key: Seq<u8>, nonce: Seq<u8>, plaintext: Seq<u8>) -> Option<
    Seq<u8>,
>;

/// AES-256-GCM plaintext of `ciphertext` under `key` and `nonce`; `None`
/// when authentication fails.
pub uninterp spec fn spec_aes_gcm_open(key: Seq<u8>, nonce: Seq<u8>, ciphertext: Seq<u8>) -> Option<
    Seq<u8>,
>;

/// `Hmac<Sha256>::new_from_slice`, `update`, `finalize`: the MAC of `msg`.
/// The crate accepts keys of any length, so the error arm is never taken.
#[verifier::external_body]
pub(crate) fn hmac_sha256(key: &[u8], msg: &[u8]) -> (r: Vec<u8>)
    ensures
        r@ == spec_hmac_sha256(key@, msg@),
{
    match <hmac::Hmac<sha2::Sha256> as Mac>::new_from_slice(key) {
        Ok(mut mac) => {
            mac.update(msg);
            mac.finalize().into_bytes().to_vec()
        },
        Err(_) => Vec::new(),
    }
}

/// `Hmac<Sha1>::new_from_slice`, `update`, `finalize`: the MAC of `msg`.
/// The crate accepts keys of any length, so the error arm is never taken.
#[verifier::external_body]
pub(crate) fn hmac_sha1(key: &[u8], msg: &[u8]) -> (r: Vec<u8>)
    ensures
        r@ == spec_hmac_sha1(key@, msg@),
{
    match <hmac::Hmac<sha1::Sha1> as Mac>::new_from_slice(key) {
        Ok(mut mac) => {
            mac.update(msg);
            mac.finalize().into_bytes().to_vec()
        },
        Err(_) => Vec::new(),
    }
}

/// `base64::engine::general_purpose::STANDARD.encode`. Decoding the text
/// with the same engine gives the bytes back.
#[verifier::external_body]
pub(crate) fn base64_encode(bytes: &[u8]) -> (r: String)
    ensures
        r@ == spec_base64(bytes@),
        spec_base64_decode(r@) == Some(bytes@),
{
    base64::engine::general_purpose::STANDARD.encode(bytes)
}

/// `base64::engine::general_purpose::STANDARD.decode`.
#[verifier::external_body]
pub(crate) fn base64_decode(text: &str) -> (r: Option<Vec<u8>>)
    ensures
        match r {
            Some(b) => spec_base64_decode(text@) == Some(b@),
            None => spec_base64_decode(text@) is None,
        },
{
    match base64::engine::general_purpose::STANDARD.decode(text) {
        Ok(b) => Some(b),
        Err(_) => None,
    }
}

/// The inputs argon2 0.5 accepts (`Params::new`, and `hash_password_into`'s
/// input checks) for a 32-byte output: at least 8 KiB of memory and 8 KiB
/// per lane, at least one pass, 1 to 2^24 - 1 lanes, a salt of 8 to
/// 2^32 - 1 bytes and a password of at most 2^32 - 1 bytes.
pub open spec fn argon2_accepts(
    passphrase_len: int,
    salt_len: int,
    memory_cost: u32,
    time_cost: u32,
    parallelism: u32,
) -> bool {
    &&& 8 <= memory_cost
    &&& 8 * parallelism <= memory_cost
    &&& 1 <= time_cost
    &&& 1 <= parallelism <= 0xFF_FFFF
    &&& 8 <= salt_len <= 0xFFFF_FFFF
    &&& passphrase_len <= 0xFFFF_FFFF
}

/// `argon2::Params::new` and `Argon2::hash_password_into` with Argon2id,
/// version 0x13 and a 32-byte output. Inputs that `argon2_accepts` give a
/// key (the crate's parameter and input checks are the only errors for a
/// 32-byte output). `Params::new` computes `8 * p_cost` before it checks
/// the lane count, so larger lane counts are left out.
#[verifier::external_body]
pub(crate) fn argon2id_key(
    passphrase: &[u8],
    salt: &[u8],
    memory_cost: u32,
    time_cost: u32,
    parallelism: u32,
) -> (r: Option<Vec<u8>>)
    requires
        parallelism <= 0xFF_FFFF,
    ensures
        match r {
            Some(k) => spec_argon2id(passphrase@, salt@, memory_cost, time_cost, parallelism)
                == Some(k@) && k@.len() == 32,
            None => spec_argon2id(passphrase@, salt@, memory_cost, time_cost, parallelism) is None,
        },
        argon2_accepts(passphrase@.len() as int, salt@.len() as int, memory_cost, time_cost, parallelism)
            ==> r is Some,
{
    let params = match argon2::Params::new(memory_cost, time_cost, parallelism, Some(32)) {
        Ok(p) => p,
        Err(_) => return None,
    };
    let argon = argon2::Argon2::new(argon2::Algorithm::Argon2id, argon2::Version::V0x13, params);
    let mut key = vec![0u8; 32];
    match argon.hash_password_into(passphrase, salt, &mut key) {
        Ok(()) => Some(key),
        Err(_) => None,
    }
}

/// The longest plaintext AES-GCM encrypts: 2^36 bytes (`aes_gcm::P_MAX`).
pub open spec fn aes_gcm_max_plaintext() -> int {
    0x10_0000_0000
}

/// `Aes256Gcm::new_from_slice` and `encrypt` (no associated data).
/// Decrypting the ciphertext under the same key and nonce gives the
/// plaintext back. With a 32-byte key the only refusal is a plaintext
/// longer than `P_MAX`.
#[verifier::external_body]
pub(crate) fn aes_gcm_seal(key: &[u8], nonce: &[u8], plaintext: &[u8]) -> (r: Option<Vec<u8>>)
    requires
        key@.len() == 32,
        nonce@.len() == 12,
    ensures
        match r {
            Some(c) => spec_aes_gcm_seal(key@, nonce@, plaintext@) == Some(c@)
                && spec_aes_gcm_open(key@, nonce@, c@) == Some(plaintext@),
            None => spec_aes_gcm_seal(key@, nonce@, plaintext@) is None,
        },
        plaintext@.len() <= aes_gcm_max_plaintext() ==> r is Some,
{
    let cipher = match aes_gcm::Aes256Gcm::new_from_slice(key) {
        Ok(c) => c,
        Err(_) => return None,
    };
    cipher.encrypt(aes_gcm::Nonce::from_slice(nonce), plaintext).ok()
}

/// `Aes256Gcm::new_from_slice` and `decrypt` (no associated data).
#[verifier::external_body]
pub(crate) fn aes_gcm_open(key: &[u8], nonce: &[u8], ciphertext: &[u8]) -> (r: Option<Vec<u8>>)
    requires
        key@.len() == 32,
        nonce@.len() == 12,
    ensures
        match r {
            Some(p) => spec_aes_gcm_open(key@, nonce@, ciphertext@) == Some(p@),
            None => spec_aes_gcm_open(key@, nonce@, ciphertext@) is None,
        },
{
    let cipher = match aes_gcm::Aes256Gcm::new_from_slice(key) {
        Ok(c) => c,
        Err(_) => return None,
    };
    cipher.decrypt(aes_gcm::Nonce::from_slice(nonce), ciphertext).ok()
}

/// `rand::rngs::OsRng.fill_bytes` into `n` zero bytes: `n` random bytes.
/// Of the bytes nothing is stated but their number.
#[verifier::external_body]
pub(crate) fn random_bytes(n: usize) -> (r: Vec<u8>)
    ensures
        r@.len() == n,
{
    let mut b = vec![0u8; n];
    rand::rngs::OsRng.fill_bytes(&mut b);
    b
}

} // verus!
