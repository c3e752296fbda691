//! Cipher adapter: authenticated encryption of the payload under the key and
//! the nonce.
//!
//! The cipher is `chacha20poly1305`'s ChaCha20-Poly1305. Both directions are
//! functions of key, nonce and input alone; they are named here and not
//! described.

use vstd::prelude::*;
use crate::bytes::bytes_equal;
use crate::key::KeyMaterial;

verus! {

/// Length of the authentication tag that ends a ciphertext.
pub const TAG_LENGTH: usize = 16;

/// Why a payload was not encrypted.
#[derive(Clone, Copy, Debug, PartialEq, Eq, Structural)]
pub enum CipherError {
    /// The payload is longer than the cipher takes.
    TooLarge,
    /// The ciphertext just made did not decrypt to the payload.
    InternalConsistency,
}

/// The one answer to a ciphertext that does not authenticate. It carries no
/// detail.
#[derive(Clone, Copy, Debug, PartialEq, Eq, Structural)]
pub struct AuthenticationError;

/// What `chacha20poly1305::ChaCha20Poly1305` `encrypt` returns for a payload
/// that it takes: the encrypted payload, then the tag.
pub uninterp spec fn sealed(key: Seq<u8>, nonce: Seq<u8>, plaintext: Seq<u8>) -> Seq<u8>;

/// What `chacha20poly1305::ChaCha20Poly1305` `decrypt` returns: the payload
/// when the tag authenticates the ciphertext under key and nonce.
pub uninterp spec fn opened(key: Seq<u8>, nonce: Seq<u8>, ciphertext: Seq<u8>) -> Option<Seq<u8>>;

/// A payload that the cipher takes: fewer than 2^32 - 1 blocks of 64 bytes,
/// and room for the tag in a buffer.
pub open spec fn fits_cipher(len: int) -> bool {
    len / 64 < 0xFFFF_FFFF && len + 16 <= usize::MAX / 2
}

/// Calls `ChaCha20Poly1305::new` and `encrypt` with no associated data.
/// Trusted: a payload that fits is encrypted, to `sealed` of the three byte
/// strings, 16 bytes longer than the payload.
#[verifier::external_body]
pub(crate) fn aead_encrypt(
    key: &[u8],
    nonce: &[u8],
    plaintext: &[u8],
) -> (ciphertext: Option<Vec<u8>>)
    requires
        key@.len() == 32,
        nonce@.len() == 12,
        fits_cipher(plaintext@.len() as int),
    ensures
        ciphertext is Some,
        ciphertext matches Some(c) ==> c@ == sealed(key@, nonce@, plaintext@),
        ciphertext matches Some(c) ==> c@.len() == plaintext@.len() + 16,
{
    let key = chacha20poly1305::Key::from_slice(key);
    let cipher = <chacha20poly1305::ChaCha20Poly1305 as chacha20poly1305::aead::NewAead>::new(key);
    let nonce = chacha20poly1305::Nonce::from_slice(nonce);
    chacha20poly1305::aead::Aead::encrypt(&cipher, nonce, plaintext).ok()
}

/// Calls `ChaCha20Poly1305::new` and `decrypt` with no associated data.
/// Trusted: the answer is `opened` of the three byte strings, and a payload
/// that comes back is 16 bytes shorter than the ciphertext.
#[verifier::external_body]
pub(crate) fn aead_decrypt(
    key: &[u8],
    nonce: &[u8],
    ciphertext: &[u8],
) -> (plaintext: Option<Vec<u8>>)
    requires
        key@.len() == 32,
        nonce@.len() == 12,
    ensures
        plaintext is Some <==> opened(key@, nonce@, ciphertext@) is Some,
        plaintext matches Some(p) ==> opened(key@, nonce@, ciphertext@) == Some(p@),
        plaintext matches Some(p) ==> p@.len() + 16 == ciphertext@.len(),
{
    let key = chacha20poly1305::Key::from_slice(key);
    let cipher = <chacha20poly1305::ChaCha20Poly1305 as chacha20poly1305::aead::NewAead>::new(key);
    let nonce = chacha20poly1305::Nonce::from_slice(nonce);
    chacha20poly1305::aead::Aead::decrypt(&cipher, nonce, ciphertext).ok()
}

/// What encrypting a payload gives: the sealed payload, on condition that it
/// fits and that the sealed payload opens to it again.
pub open spec fn encryption(key: Seq<u8>, nonce: Seq<u8>, plaintext: Seq<u8>) -> Result<
    Seq<u8>,
    CipherError,
> {
    if !fits_cipher(plaintext.len() as int) {
        Err(CipherError::TooLarge)
    } else if opened(key, nonce, sealed(key, nonce, plaintext)) != Some(plaintext) {
        Err(CipherError::InternalConsistency)
    } else {
        Ok(sealed(key, nonce, plaintext))
    }
}

/// What decrypting a ciphertext gives.
pub open spec fn decryption(key: Seq<u8>, nonce: Seq<u8>, ciphertext: Seq<u8>) -> Result<
    Seq<u8>,
    AuthenticationError,
> {
    match opened(key, nonce, ciphertext) {
        Some(p) => Ok(p),
        None => Err(AuthenticationError),
    }
}

/// The result of `chacha_encrypt` as plain values.
pub open spec fn encryption_view(res: Result<Vec<u8>, CipherError>) -> Result<Seq<u8>, CipherError> {
    match res {
        Ok(c) => Ok(c@),
        Err(e) => Err(e),
    }
}

/// The result of `chacha_decrypt` as plain values.
pub open spec fn decryption_view(res: Result<Vec<u8>, AuthenticationError>) -> Result<
    Seq<u8>,
    AuthenticationError,
> {
    match res {
        Ok(p) => Ok(p@),
        Err(e) => Err(e),
    }
}

/// Whether a payload of `len` bytes fits the cipher.
pub fn payload_fits(len: usize) -> (fits: bool)
    ensures
        fits == fits_cipher(len as int),
{
    len / 64 < 0xFFFF_FFFF && len <= usize::MAX / 2 - 16
}

/// Encrypts `plaintext` under `key` and `nonce`.
///
/// The ciphertext is decrypted again before it is returned, and one that does
/// not give the payload back is never handed out: that is
/// `InternalConsistency`.
pub fn chacha_encrypt(
    key: &KeyMaterial,
    nonce: &[u8],
    plaintext: &[u8],
) -> (res: Result<Vec<u8>, CipherError>)
    requires
        nonce@.len() == 12,
    ensures
        encryption_view(res) == encryption(key@, nonce@, plaintext@),
        res matches Ok(c) ==> c@.len() == plaintext@.len() + 16,
        res matches Ok(c) ==> decryption(key@, nonce@, c@) == Ok::<Seq<u8>, AuthenticationError>(
            plaintext@,
        ),
{
    if !payload_fits(plaintext.len()) {
        return Err(CipherError::TooLarge);
    }
    let ciphertext = match aead_encrypt(key.as_bytes(), nonce, plaintext) {
        Some(c) => c,
        None => {
            return Err(CipherError::TooLarge);
        },
    };
    match aead_decrypt(key.as_bytes(), nonce, ciphertext.as_slice()) {
        Some(check) => {
            if bytes_equal(check.as_slice(), plaintext) {
                Ok(ciphertext)
            } else {
                Err(CipherError::InternalConsistency)
            }
        },
        None => Err(CipherError::InternalConsistency),
    }
}

/// Decrypts `ciphertext` under `key` and `nonce`. Every failure is the same
/// `AuthenticationError`. A payload that comes back is the ciphertext's
/// length less the tag, so a ciphertext shorter than a tag, the empty one
/// among them, never decrypts.
pub fn chacha_decrypt(
    key: &KeyMaterial,
    nonce: &[u8],
    ciphertext: &[u8],
) -> (res: Result<Vec<u8>, AuthenticationError>)
    requires
        nonce@.len() == 12,
    ensures
        decryption_view(res) == decryption(key@, nonce@, ciphertext@),
        res matches Ok(p) ==> p@.len() + 16 == ciphertext@.len(),
        ciphertext@.len() < 16 ==> res is Err,
{
    match aead_decrypt(key.as_bytes(), nonce, ciphertext) {
        Some(plaintext) => Ok(plaintext),
        None => Err(AuthenticationError),
    }
}

/// Round trip: what encryption hands out decrypts to the payload under the
/// same key and nonce, for every payload, the empty one and one that holds a
/// container's magic among them.
pub proof fn lemma_cipher_round_trip(key: Seq<u8>, nonce: Seq<u8>, plaintext: Seq<u8>)
    ensures
        encryption(key, nonce, plaintext) matches Ok(c) ==> decryption(key, nonce, c) == Ok::<
            Seq<u8>,
            AuthenticationError,
        >(plaintext),
{
}

} // verus!
