//! Key material and the nonce: fixed-length byte strings made fresh for each
//! encryption.

use vstd::prelude::*;
use crate::bytes::{copy_range, wipe, zeros};

verus! {

/// Asks `rand::rngs::OsRng` for `len` bytes through `try_fill_bytes`.
/// Trusted: when the operating system delivers, exactly `len` bytes come
/// back. Nothing is known of their values, and the source may fail.
#[verifier::external_body]
pub(crate) fn os_random(len: usize) -> (bytes: Option<Vec<u8>>)
    ensures
        bytes matches Some(b) ==> b@.len() == len,
{
    let mut bytes = vec![0u8; len];
    match rand::RngCore::try_fill_bytes(&mut rand::rngs::OsRng, &mut bytes) {
        Ok(_) => Some(bytes),
        Err(_) => None,
    }
}

/// A fresh nonce from the operating system's random source, if it delivers.
/// One nonce is made for each encryption and is never used again.
pub fn fresh_nonce() -> (nonce: Option<Vec<u8>>)
    ensures
        nonce matches Some(n) ==> n@.len() == 12,
{
    os_random(12)
}

/// A 32-byte symmetric key. It lives in memory only; `scrub` overwrites it,
/// and dropping a key scrubs it.
pub struct KeyMaterial {
    bytes: Vec<u8>,
}

impl View for KeyMaterial {
    type V = Seq<u8>;

    closed spec fn view(&self) -> Seq<u8> {
        self.bytes@
    }
}

impl KeyMaterial {
    #[verifier::type_invariant]
    spec fn well_formed(&self) -> bool {
        self.bytes@.len() == 32
    }

    /// A key with the given bytes, if there are 32 of them.
    pub fn from_bytes(bytes: &[u8]) -> (key: Option<KeyMaterial>)
        ensures
            key is Some <==> bytes@.len() == 32,
            key matches Some(k) ==> k@ == bytes@,
    {
        if bytes.len() != 32 {
            return None;
        }
        let copy = copy_range(bytes, 0, 32);
        Some(KeyMaterial { bytes: copy })
    }

    /// A fresh key from the operating system's random source, if it delivers.
    pub fn generate() -> (key: Option<KeyMaterial>)
        ensures
            key matches Some(k) ==> k@.len() == 32,
    {
        match os_random(32) {
            Some(bytes) => Some(KeyMaterial { bytes }),
            None => None,
        }
    }

    /// The key's bytes.
    pub fn as_bytes(&self) -> (bytes: &[u8])
        ensures
            bytes@ == self@,
            bytes@.len() == 32,
    {
        proof {
            use_type_invariant(self);
        }
        self.bytes.as_slice()
    }

    /// Overwrites every byte of the key with zero, in place.
    pub fn scrub(&mut self)
        ensures
            final(self)@ == zeros(32),
        opens_invariants none
        no_unwind
    {
        proof {
            use_type_invariant(&*self);
        }
        wipe(&mut self.bytes);
    }
}

impl Drop for KeyMaterial {
    fn drop(&mut self)
        opens_invariants none
        no_unwind
    {
        self.scrub();
    }
}

} // verus!
