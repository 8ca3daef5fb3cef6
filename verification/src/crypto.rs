//! The cryptography under the vault: the password hash, the authenticated
//! cipher and the random values, each behind one function.

use aes_gcm::aead::rand_core::RngCore;
use aes_gcm::aead::{Aead, KeyInit};
use scrypt::password_hash::PasswordHasher;
use vstd::prelude::*;

verus! {

/// Length of the cipher's key, in bytes.
pub const KEY_LEN: usize = 32;

/// Length of the cipher's nonce, in bytes.
pub const NONCE_LEN: usize = 12;

/// The work factor that scrypt recommends: the binary logarithm of its
/// parameter N. It asks for 128 MiB of memory.
pub const RECOMMENDED_LOG_N: u8 = 17;

/// The hash that scrypt derives from a password and a salt in B64 text,
/// with N of two to the power of `log_n` and its recommended block size,
/// parallelism and length; nothing where the salt is no such text or the
/// hashing fails.
pub uninterp spec fn scrypt_hash(password: Seq<u8>, salt: Seq<char>, log_n: u8) -> Option<Seq<u8>>;

/// The ciphertext, tag included, of AES-256-GCM for a key, a nonce and a
/// message, without associated data; nothing where the message is too long.
pub uninterp spec fn aes_gcm_sealed(key: Seq<u8>, nonce: Seq<u8>, data: Seq<u8>) -> Option<Seq<u8>>;

/// The message that AES-256-GCM recovers from a ciphertext, without
/// associated data; nothing where the tag does not match.
pub uninterp spec fn aes_gcm_opened(key: Seq<u8>, nonce: Seq<u8>, sealed: Seq<u8>) -> Option<
    Seq<u8>,
>;

/// `Scrypt::hash_password_customized` of scrypt, on a salt read by
/// `SaltString::from_b64` and on the parameters that `Params::new` makes of
/// `log_n` and the recommended block size, parallelism and length; with the
/// recommended `log_n` this is `Scrypt::hash_password`. The hash is written
/// as a PHC string, read back by `PasswordHash::new`, and its output bytes
/// are returned. The same arguments always give the same bytes. The memory
/// asked for doubles with every step of `log_n`; no more than the
/// recommended amount is asked for here.
#[verifier::external_body]
pub(crate) fn hash_password(password: &[u8], salt: &str, log_n: u8) -> (r: Option<Vec<u8>>)
    requires
        log_n <= RECOMMENDED_LOG_N,
    ensures
        r is Some == scrypt_hash(password@, salt@, log_n) is Some,
        r matches Some(hash) ==> scrypt_hash(password@, salt@, log_n) == Some(hash@),
{
    let salt = scrypt::password_hash::SaltString::from_b64(salt).ok()?;
    let (r, p) = (scrypt::Params::RECOMMENDED_R, scrypt::Params::RECOMMENDED_P);
    let params = scrypt::Params::new(log_n, r, p, scrypt::Params::RECOMMENDED_LEN).ok()?;
    let made = scrypt::Scrypt.hash_password_customized(password, None, None, params, &salt);
    let text = made.ok()?.to_string();
    let hash = scrypt::password_hash::PasswordHash::new(&text).ok()?;
    Some(hash.hash?.as_bytes().to_vec())
}

/// `Aead::encrypt` of `aes_gcm::Aes256Gcm`, made by `new_from_slice`, with
/// an empty associated data. What it returns, `Aead::decrypt` under the same
/// key and nonce turns back into the message. `Nonce::from_slice` panics on
/// another length than twelve.
#[verifier::external_body]
pub(crate) fn encrypt(key: &[u8], nonce: &[u8], data: &[u8]) -> (r: Option<Vec<u8>>)
    requires
        key@.len() == KEY_LEN,
        nonce@.len() == NONCE_LEN,
    ensures
        r is Some == aes_gcm_sealed(key@, nonce@, data@) is Some,
        r matches Some(sealed) ==> aes_gcm_sealed(key@, nonce@, data@) == Some(sealed@),
        r matches Some(sealed) ==> aes_gcm_opened(key@, nonce@, sealed@) == Some(data@),
{
    let cipher = aes_gcm::Aes256Gcm::new_from_slice(key).ok()?;
    let payload = aes_gcm::aead::Payload { msg: data, aad: b"" };
    cipher.encrypt(aes_gcm::Nonce::from_slice(nonce), payload).ok()
}

/// `Aead::decrypt` of `aes_gcm::Aes256Gcm`, made by `new_from_slice`, with
/// an empty associated data: the message, or nothing where the ciphertext
/// is not authentic under the key and the nonce.
#[verifier::external_body]
pub(crate) fn decrypt(key: &[u8], nonce: &[u8], sealed: &[u8]) -> (r: Option<Vec<u8>>)
    requires
        key@.len() == KEY_LEN,
        nonce@.len() == NONCE_LEN,
    ensures
        r is Some == aes_gcm_opened(key@, nonce@, sealed@) is Some,
        r matches Some(data) ==> aes_gcm_opened(key@, nonce@, sealed@) == Some(data@),
{
    let cipher = aes_gcm::Aes256Gcm::new_from_slice(key).ok()?;
    let payload = aes_gcm::aead::Payload { msg: sealed, aad: b"" };
    cipher.decrypt(aes_gcm::Nonce::from_slice(nonce), payload).ok()
}

/// Length of a drawn salt, in characters: sixteen bytes in B64.
pub const SALT_LEN: usize = 22;

/// A fresh random salt in B64 text: `SaltString::generate` on the operating
/// system's generator. It draws sixteen bytes and writes them in B64 without
/// padding, which makes 22 characters.
#[verifier::external_body]
pub(crate) fn random_salt() -> (salt: String)
    ensures
        salt@.len() == SALT_LEN,
{
    scrypt::password_hash::SaltString::generate(&mut aes_gcm::aead::OsRng).as_str().to_owned()
}

/// Twelve random bytes from the operating system's generator, by
/// `RngCore::try_fill_bytes`; nothing where the generator fails.
#[verifier::external_body]
pub(crate) fn random_nonce() -> (r: Option<Vec<u8>>)
    ensures
        r matches Some(nonce) ==> nonce@.len() == NONCE_LEN,
{
    let mut nonce = [0u8; 12];
    aes_gcm::aead::OsRng.try_fill_bytes(&mut nonce).ok()?;
    Some(nonce.to_vec())
}

} // verus!
