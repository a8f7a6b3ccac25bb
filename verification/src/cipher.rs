//! The primitives the file vault is built on: key derivation, authenticated
//! encryption, randomness and text decoding. None of them is implemented or
//! proved here; each function below states what the vault relies on.

use vstd::prelude::*;
use vstd::utf8::{decode_utf8, valid_utf8};
use aes_gcm::aead::{Aead, KeyInit};

verus! {

/// Length of the derived key: 256 bits.
pub const KEY_LEN: usize = 32;

/// Length of the cipher's nonce: 96 bits.
pub const NONCE_LEN: usize = 12;

/// Length of the authentication tag at the end of a ciphertext.
pub const TAG_LEN: usize = 16;

/// Length of a freshly drawn salt.
pub const SALT_LEN: usize = 16;

/// The `len` bytes that Argon2id, with the parameters the `argon2` crate
/// uses by default, derives from a passphrase and a salt; `None` where it
/// refuses the inputs.
pub uninterp spec fn argon2_output(passphrase: Seq<u8>, salt: Seq<u8>, len: nat) -> Option<
    Seq<u8>,
>;

/// The ciphertext, tag included, that AES-256-GCM gives for a plaintext
/// under a key and a nonce, with no associated data; `None` where it refuses
/// the key or the plaintext.
pub uninterp spec fn aes_gcm_sealed(key: Seq<u8>, nonce: Seq<u8>, plaintext: Seq<u8>) -> Option<
    Seq<u8>,
>;

/// The plaintext that AES-256-GCM recovers from a ciphertext under a key and
/// a nonce, with no associated data; `None` where the key is unusable or the
/// tag does not authenticate the ciphertext.
pub uninterp spec fn aes_gcm_opened(key: Seq<u8>, nonce: Seq<u8>, ciphertext: Seq<u8>) -> Option<
    Seq<u8>,
>;

/// Calls `argon2::Argon2::hash_password_into` on a default `Argon2` with an
/// output buffer of `len` bytes. Trusted: the call is a function of
/// passphrase, salt and length alone, and on success has filled the whole
/// buffer. A buffer of more than `isize::MAX` bytes cannot be made.
#[verifier::external_body]
pub(crate) fn derive_key(passphrase: &[u8], salt: &[u8], len: usize) -> (key: Option<Vec<u8>>)
    requires
        len <= isize::MAX,
    ensures
        match key {
            Some(k) => argon2_output(passphrase@, salt@, len as nat) == Some(k@) && k@.len()
                == len,
            None => argon2_output(passphrase@, salt@, len as nat) is None,
        },
{
    let mut out = vec![0u8; len];
    match argon2::Argon2::default().hash_password_into(passphrase, salt, &mut out) {
        Ok(()) => Some(out),
        Err(_) => None,
    }
}

/// Calls `Aead::encrypt` on an `aes_gcm::Aes256Gcm` made from `key`.
/// Trusted: the call is a function of key, nonce and plaintext alone; what
/// it returns is the encrypted plaintext followed by the tag, and decrypts,
/// under the same key and nonce, to the plaintext it was given. A nonce of
/// another length than twelve bytes would make the call panic.
#[verifier::external_body]
pub(crate) fn seal(key: &[u8], nonce: &[u8], plaintext: &[u8]) -> (sealed: Option<Vec<u8>>)
    requires
        nonce@.len() == NONCE_LEN,
    ensures
        match sealed {
            Some(c) => aes_gcm_sealed(key@, nonce@, plaintext@) == Some(c@) && aes_gcm_opened(
                key@,
                nonce@,
                c@,
            ) == Some(plaintext@) && c@.len() == plaintext@.len() + TAG_LEN,
            None => aes_gcm_sealed(key@, nonce@, plaintext@) is None,
        },
{
    let cipher = aes_gcm::Aes256Gcm::new_from_slice(key).ok()?;
    cipher.encrypt(aes_gcm::Nonce::from_slice(nonce), plaintext).ok()
}

/// Calls `Aead::decrypt` on an `aes_gcm::Aes256Gcm` made from `key`.
/// Trusted: the call is a function of key, nonce and ciphertext alone, and
/// a plaintext comes out only of a ciphertext that is longer by the tag: a
/// shorter one is refused before any decryption. A nonce of another length
/// than twelve bytes would make the call panic.
#[verifier::external_body]
pub(crate) fn unseal(key: &[u8], nonce: &[u8], ciphertext: &[u8]) -> (opened: Option<Vec<u8>>)
    requires
        nonce@.len() == NONCE_LEN,
    ensures
        match opened {
            Some(p) => aes_gcm_opened(key@, nonce@, ciphertext@) == Some(p@) && ciphertext@.len()
                == p@.len() + TAG_LEN,
            None => aes_gcm_opened(key@, nonce@, ciphertext@) is None,
        },
{
    let cipher = aes_gcm::Aes256Gcm::new_from_slice(key).ok()?;
    cipher.decrypt(aes_gcm::Nonce::from_slice(nonce), ciphertext).ok()
}

/// Calls `getrandom::getrandom` on a buffer of `len` bytes. Trusted: on
/// success the buffer still has `len` bytes. Nothing is said of their
/// values: they differ from call to call. A buffer of more than
/// `isize::MAX` bytes cannot be made.
#[verifier::external_body]
pub(crate) fn fresh_bytes(len: usize) -> (bytes: Option<Vec<u8>>)
    requires
        len <= isize::MAX,
    ensures
        bytes matches Some(b) ==> b@.len() == len,
{
    let mut out = vec![0u8; len];
    match getrandom::getrandom(&mut out) {
        Ok(()) => Some(out),
        Err(_) => None,
    }
}

/// Calls `String::from_utf8`. Trusted: it succeeds exactly on valid UTF-8
/// and then holds the characters those bytes encode.
#[verifier::external_body]
pub(crate) fn text_of(bytes: Vec<u8>) -> (text: Option<String>)
    ensures
        text is Some <==> valid_utf8(bytes@),
        text matches Some(s) ==> s@ == decode_utf8(bytes@),
{
    match String::from_utf8(bytes) {
        Ok(s) => Some(s),
        Err(_) => None,
    }
}

} // verus!
