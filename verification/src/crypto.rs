//! The cryptographic primitives the vault and the one-time passwords rest on.
//! Each outside function is reached through one trusted wrapper; what a
//! primitive computes is given a name, and only short documented facts are
//! stated beside it.
use vstd::prelude::*;
use aes_gcm::aead::{Aead, KeyInit};
use hmac::Mac;
use rand::RngCore;
use vstd::string::StringSliceAdditionalSpecFns;

verus! {

/// Length in bytes of the key that Argon2id derives for AES-256-GCM.
pub const KEY_LEN: usize = 32;

/// Length in bytes of an AES-GCM nonce.
pub const NONCE_LEN: usize = 12;

/// Length in bytes of the AES-GCM authentication tag appended to a ciphertext.
pub const TAG_LEN: usize = 16;

/// Largest plaintext (in bytes) that AES-GCM accepts.
pub const AES_GCM_P_MAX: u64 = 0x10_0000_0000;

/// Length in bytes of an HMAC-SHA1 tag.
pub const HMAC_SHA1_LEN: usize = 20;

/// The 32-byte key that Argon2id, with the crate's default parameters,
/// derives from the UTF-8 bytes of a password and a salt.
pub uninterp spec fn argon2id_derive(password: Seq<char>, salt: Seq<u8>) -> Seq<u8>;

/// The AES-256-GCM ciphertext (with the tag appended) of a plaintext under
/// a key and a nonce, with no associated data.
pub uninterp spec fn aes256gcm_seal(key: Seq<u8>, nonce: Seq<u8>, plaintext: Seq<u8>) -> Seq<u8>;

/// The outcome of AES-256-GCM decryption of a ciphertext (tag appended)
/// under a key and a nonce: `None` when authentication fails.
pub uninterp spec fn aes256gcm_open(key: Seq<u8>, nonce: Seq<u8>, ciphertext: Seq<u8>) -> Option<Seq<u8>>;

/// The HMAC-SHA1 tag of a message under a key.
pub uninterp spec fn hmac_sha1(key: Seq<u8>, message: Seq<u8>) -> Seq<u8>;

/// Calls `argon2::Argon2::default().hash_password_into` with the password's
/// UTF-8 bytes and the salt, into a 32-byte buffer. The crate refuses a salt
/// shorter than 8 bytes or longer than `u32::MAX` bytes and a password longer
/// than `u32::MAX` bytes; `requires` leaves those out, and on the rest the
/// call succeeds. Claimed: the key is the named Argon2id result and is 32 bytes.
#[verifier::external_body]
pub(crate) fn argon2_derive_key(password: &str, salt: &[u8]) -> (key: Vec<u8>)
    requires
        8 <= salt@.len() <= 0xFFFF_FFFF,
        password.spec_bytes().len() <= 0xFFFF_FFFF,
    ensures
        key@ == argon2id_derive(password@, salt@),
        key@.len() == KEY_LEN,
{
    let mut key = vec![0u8; KEY_LEN];
    argon2::Argon2::default()
        .hash_password_into(password.as_bytes(), salt, &mut key)
        .expect("Argon2 key derivation failed");
    key
}

/// Builds an `aes_gcm::Aes256Gcm` from a 32-byte key and calls its
/// `encrypt` with a 12-byte nonce. The crate refuses a plaintext longer than
/// 2^36 bytes; `requires` leaves it out. Claimed: the result is the named
/// ciphertext, it is the plaintext's length plus the 16-byte tag, and
/// decrypting it under the same key and nonce gives the plaintext back (the
/// AEAD's correctness, which its documentation states).
#[verifier::external_body]
pub(crate) fn aes256gcm_encrypt(key: &[u8], nonce: &[u8], plaintext: &[u8]) -> (ciphertext: Vec<u8>)
    requires
        key@.len() == KEY_LEN,
        nonce@.len() == NONCE_LEN,
        plaintext@.len() <= AES_GCM_P_MAX,
    ensures
        ciphertext@ == aes256gcm_seal(key@, nonce@, plaintext@),
        ciphertext@.len() == plaintext@.len() + TAG_LEN,
        aes256gcm_open(key@, nonce@, ciphertext@) == Some(plaintext@),
{
    let cipher = aes_gcm::Aes256Gcm::new_from_slice(key).expect("Invalid key length");
    cipher
        .encrypt(aes_gcm::Nonce::from_slice(nonce), plaintext)
        .expect("Encryption failed")
}

/// Builds an `aes_gcm::Aes256Gcm` from a 32-byte key and calls its
/// `decrypt` with a 12-byte nonce; the crate's error becomes `None`.
/// Claimed: the outcome is the named decryption result.
#[verifier::external_body]
pub(crate) fn aes256gcm_decrypt(key: &[u8], nonce: &[u8], ciphertext: &[u8]) -> (plaintext: Option<Vec<u8>>)
    requires
        key@.len() == KEY_LEN,
        nonce@.len() == NONCE_LEN,
    ensures
        match plaintext {
            Some(p) => aes256gcm_open(key@, nonce@, ciphertext@) == Some(p@),
            None => aes256gcm_open(key@, nonce@, ciphertext@) is None,
        },
{
    let cipher = aes_gcm::Aes256Gcm::new_from_slice(key).expect("Invalid key length");
    match cipher.decrypt(aes_gcm::Nonce::from_slice(nonce), ciphertext) {
        Ok(p) => Some(p),
        Err(_) => None,
    }
}

/// Computes HMAC-SHA1 with `hmac::Hmac<sha1::Sha1>`: `new_from_slice` on the
/// key (which accepts a key of any length), `update` with the message,
/// `finalize`. Claimed: the tag is the named HMAC-SHA1 result and is 20 bytes.
#[verifier::external_body]
pub(crate) fn hmac_sha1_tag(key: &[u8], message: &[u8]) -> (tag: Vec<u8>)
    ensures
        tag@ == hmac_sha1(key@, message@),
        tag@.len() == HMAC_SHA1_LEN,
{
    let mut mac = <hmac::Hmac<sha1::Sha1> as Mac>::new_from_slice(key).expect("HMAC accepts any key length");
    mac.update(message);
    mac.finalize().into_bytes().to_vec()
}

/// Fills the buffer from the operating system's random source
/// (`aead::OsRng::fill_bytes`). Only the length is claimed: the bytes are random.
#[verifier::external_body]
pub(crate) fn fill_random(buf: &mut Vec<u8>)
    ensures
        final(buf)@.len() == old(buf)@.len(),
{
    aes_gcm::aead::OsRng.fill_bytes(buf.as_mut_slice())
}

/// Wipes key material with `zeroize::Zeroize::zeroize`, which overwrites the
/// bytes with zeros and clears the vector. Claimed: the vector is empty after.
#[verifier::external_body]
pub(crate) fn wipe(buf: &mut Vec<u8>)
    ensures
        final(buf)@ == Seq::<u8>::empty(),
{
    zeroize::Zeroize::zeroize(buf)
}

} // verus!
