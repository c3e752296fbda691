//! Signature binder: a one-time Ed25519 identity, the byte strings that are
//! signed for a file and for a share, and verification against them.
//!
//! Ed25519 itself is `ed25519_dalek`'s. What this module believes of it is
//! written on the items marked `external_body` and on the uninterpreted
//! functions beside them.

use vstd::prelude::*;
use crate::bytes::{append_bytes, copy_range, wipe};
use crate::format::{
    construct_header_file,
    file_base,
    fixed_fields,
    share_fields,
    share_fields_bytes,
    share_magic,
    Header,
    HeaderView,
    ALGO_VERSION,
};
use crate::key::os_random;

verus! {

/// Length of an encoded public key.
pub const PUBLIC_KEY_LENGTH: usize = 32;

/// Length of an encoded signature.
pub const SIGNATURE_LENGTH: usize = 64;

/// Length of an encoded key pair: the secret half, then the public half.
pub const KEYPAIR_LENGTH: usize = 64;

/// Whether `ed25519_dalek::PublicKey::from_bytes` accepts `bytes`: 32 bytes
/// that decompress to a point of the curve.
pub uninterp spec fn public_key_decodes(bytes: Seq<u8>) -> bool;

/// Whether `bytes` has the shape of a signature: 64 bytes, the three highest
/// bits of the last one clear.
pub open spec fn signature_well_formed(bytes: Seq<u8>) -> bool {
    bytes.len() == 64 && bytes[63] & 0xE0 == 0
}

/// Whether `ed25519_dalek::PublicKey::verify` accepts `signature` for
/// `message` under `public_key`.
pub uninterp spec fn signature_verifies(
    public_key: Seq<u8>,
    message: Seq<u8>,
    signature: Seq<u8>,
) -> bool;

/// The signature that `ed25519_dalek::Keypair::sign` gives `message` under the
/// key pair encoded in `keypair`. Ed25519 signing uses no randomness.
pub uninterp spec fn signature_of(keypair: Seq<u8>, message: Seq<u8>) -> Seq<u8>;

/// The public key that belongs to the secret key `secret`: what
/// `ed25519_dalek::PublicKey::from` derives from it.
pub uninterp spec fn public_key_of(secret: Seq<u8>) -> Seq<u8>;

/// Whether `ed25519_dalek::Keypair::from_bytes` accepts `bytes`: 64 bytes
/// whose second half is a public key that decodes. The first half, the secret
/// key, may hold any bytes.
pub open spec fn is_keypair(bytes: Seq<u8>) -> bool {
    bytes.len() == 64 && public_key_decodes(bytes.subrange(32, 64))
}

/// A key pair whose public half is the one that belongs to its secret half.
pub open spec fn is_matching_keypair(bytes: Seq<u8>) -> bool {
    is_keypair(bytes) && bytes.subrange(32, 64) == public_key_of(bytes.subrange(0, 32))
}

/// A signature is accepted when key and signature parse and the signature
/// verifies.
pub open spec fn signature_accepted(
    public_key: Seq<u8>,
    message: Seq<u8>,
    signature: Seq<u8>,
) -> bool {
    &&& public_key_decodes(public_key)
    &&& signature_well_formed(signature)
    &&& signature_verifies(public_key, message, signature)
}

/// Calls `ed25519_dalek::PublicKey::from_bytes` and reports whether it
/// succeeded. Trusted: the answer is `public_key_decodes`, and only 32-byte
/// strings are accepted.
#[verifier::external_body]
pub(crate) fn public_key_parses(bytes: &[u8]) -> (ok: bool)
    ensures
        ok == public_key_decodes(bytes@),
        ok ==> bytes@.len() == 32,
{
    ed25519_dalek::PublicKey::from_bytes(bytes).is_ok()
}

/// Calls `ed25519_dalek::Signature::from_bytes` and reports whether it
/// succeeded. Trusted: it succeeds exactly on 64 bytes whose last byte has its
/// three highest bits clear.
#[verifier::external_body]
pub(crate) fn signature_parses(bytes: &[u8]) -> (ok: bool)
    ensures
        ok == signature_well_formed(bytes@),
{
    ed25519_dalek::Signature::from_bytes(bytes).is_ok()
}

/// Calls `ed25519_dalek::PublicKey::verify` on a key and a signature that
/// parse. Trusted: the answer is `signature_verifies` of the three byte
/// strings.
#[verifier::external_body]
pub(crate) fn dalek_verify(public_key: &[u8], message: &[u8], signature: &[u8]) -> (ok: bool)
    requires
        public_key_decodes(public_key@),
        signature_well_formed(signature@),
    ensures
        ok == signature_verifies(public_key@, message@, signature@),
{
    let key = ed25519_dalek::PublicKey::from_bytes(public_key);
    let sig = ed25519_dalek::Signature::from_bytes(signature);
    match (key, sig) {
        (Ok(k), Ok(s)) => ed25519_dalek::Verifier::verify(&k, message, &s).is_ok(),
        _ => false,
    }
}

/// Calls `ed25519_dalek::Keypair::from_bytes` and then `sign`. Trusted: the
/// key pair is accepted exactly when it has 64 bytes whose second half is a
/// public key that decodes; the signature is then `signature_of`, and it has
/// the shape of a signature.
#[verifier::external_body]
pub(crate) fn dalek_sign(keypair: &[u8], message: &[u8]) -> (signature: Option<Vec<u8>>)
    ensures
        signature is Some <==> is_keypair(keypair@),
        signature matches Some(s) ==> s@ == signature_of(keypair@, message@),
        signature matches Some(s) ==> signature_well_formed(s@),
{
    match ed25519_dalek::Keypair::from_bytes(keypair) {
        Ok(pair) => Some(ed25519_dalek::Signer::sign(&pair, message).to_bytes().to_vec()),
        Err(_) => None,
    }
}

/// Calls `ed25519_dalek::SecretKey::from_bytes` and derives the public key
/// with `ed25519_dalek::PublicKey::from`. Trusted: exactly a secret key of 32
/// bytes is accepted; the public key is then `public_key_of` the secret key,
/// has 32 bytes and decodes.
#[verifier::external_body]
pub(crate) fn dalek_public_key(secret: &[u8]) -> (public: Option<Vec<u8>>)
    ensures
        public is Some <==> secret@.len() == 32,
        public matches Some(p) ==> p@ == public_key_of(secret@),
        public matches Some(p) ==> p@.len() == 32,
        public matches Some(p) ==> public_key_decodes(p@),
{
    match ed25519_dalek::SecretKey::from_bytes(secret) {
        Ok(key) => Some(ed25519_dalek::PublicKey::from(&key).to_bytes().to_vec()),
        Err(_) => None,
    }
}

/// Whether `signature` is accepted for `message` under `public_key`. A key or
/// a signature that does not parse is not accepted.
pub fn verify(public_key: &[u8], message: &[u8], signature: &[u8]) -> (ok: bool)
    ensures
        ok == signature_accepted(public_key@, message@, signature@),
{
    if !public_key_parses(public_key) {
        return false;
    }
    if !signature_parses(signature) {
        return false;
    }
    dalek_verify(public_key, message, signature)
}

/// A one-time signing identity: an Ed25519 key pair made for one encryption.
/// Its public half goes into every signed container. The secret half stays
/// in memory only, and dropping the identity overwrites it.
pub struct SigningIdentity {
    secret: Vec<u8>,
    public: Vec<u8>,
}

impl View for SigningIdentity {
    type V = Seq<u8>;

    /// The encoded key pair: the secret half, then the public half.
    closed spec fn view(&self) -> Seq<u8> {
        self.secret@ + self.public@
    }
}

impl SigningIdentity {
    #[verifier::type_invariant]
    spec fn well_formed(&self) -> bool {
        &&& self.secret@.len() == 32
        &&& self.public@.len() == 32
        &&& public_key_decodes(self.public@)
    }

    /// The public half of the identity `keypair`.
    pub open spec fn public_half(keypair: Seq<u8>) -> Seq<u8> {
        keypair.subrange(32, 64)
    }

    /// The identity with an encoding that is known to be a key pair.
    fn from_checked(bytes: &[u8]) -> (identity: SigningIdentity)
        requires
            is_keypair(bytes@),
        ensures
            identity@ == bytes@,
    {
        let secret = copy_range(bytes, 0, 32);
        let public = copy_range(bytes, 32, 64);
        let identity = SigningIdentity { secret, public };
        identity
    }

    /// A fresh identity, if the operating system's random source delivers:
    /// the secret half is drawn from it and the public half is the one that
    /// belongs to it.
    pub fn generate() -> (identity: Option<SigningIdentity>)
        ensures
            identity matches Some(i) ==> is_matching_keypair(i@),
    {
        let secret = match os_random(32) {
            Some(secret) => secret,
            None => {
                return None;
            },
        };
        let made = dalek_public_key(secret.as_slice());
        match made {
            Some(public) => {
                let identity = SigningIdentity { secret, public };
                assert(identity@.subrange(0, 32) =~= identity.secret@);
                assert(identity@.subrange(32, 64) =~= identity.public@);
                Some(identity)
            },
            None => {
                let mut secret = secret;
                wipe(&mut secret);
                None
            },
        }
    }

    /// The identity with the given encoding, secret half first, if the
    /// encoding is a key pair.
    pub fn from_keypair_bytes(bytes: &[u8]) -> (identity: Option<SigningIdentity>)
        ensures
            identity is Some <==> is_keypair(bytes@),
            identity matches Some(i) ==> i@ == bytes@,
    {
        if bytes.len() != KEYPAIR_LENGTH {
            return None;
        }
        let public = copy_range(bytes, 32, 64);
        if !public_key_parses(public.as_slice()) {
            return None;
        }
        Some(SigningIdentity::from_checked(bytes))
    }

    /// The public key, as it is embedded in signed containers.
    pub fn public_key(&self) -> (public: Vec<u8>)
        ensures
            public@ == Self::public_half(self@),
            public@.len() == 32,
            public_key_decodes(public@),
    {
        proof {
            use_type_invariant(self);
        }
        let public = copy_range(self.public.as_slice(), 0, 32);
        assert(public@ =~= self.public@);
        public
    }

    /// Signs `message`.
    pub fn sign(&self, message: &[u8]) -> (signature: Vec<u8>)
        ensures
            signature@ == signature_of(self@, message@),
            signature_well_formed(signature@),
    {
        proof {
            use_type_invariant(self);
        }
        let mut keypair: Vec<u8> = Vec::new();
        append_bytes(&mut keypair, self.secret.as_slice());
        append_bytes(&mut keypair, self.public.as_slice());
        assert(keypair@.subrange(32, 64) =~= self.public@);
        let made = dalek_sign(keypair.as_slice(), message);
        wipe(&mut keypair);
        match made {
            Some(signature) => signature,
            None => Vec::new(),
        }
    }
}

impl Drop for SigningIdentity {
    fn drop(&mut self)
        opens_invariants none
        no_unwind
    {
        proof {
            use_type_invariant(&*self);
        }
        wipe(&mut self.secret);
    }
}

/// The bytes that are signed for a container: its base header, the public
/// key, then the body.
pub open spec fn signable(header: Seq<u8>, public_key: Seq<u8>, body: Seq<u8>) -> Seq<u8> {
    header + public_key + body
}

/// The bytes that are signed for a file container with these fields. The
/// signed byte is always written as 1.
pub open spec fn file_signable(h: HeaderView, public_key: Seq<u8>, ciphertext: Seq<u8>) -> Seq<u8> {
    signable(file_base(h.version, h.threshold, true, h.nonce), public_key, ciphertext)
}

/// The bytes that are signed for a share container with these fields: the
/// header's fields up to the nonce, the key, the share. The signed byte is
/// always written as 1; the reserved padding byte is not signed.
pub open spec fn share_signable(h: HeaderView, public_key: Seq<u8>, share: Seq<u8>) -> Seq<u8> {
    signable(share_fields(h.version, h.threshold, true, h.nonce), public_key, share)
}

/// The signed bytes of a file container pin down everything that is signed:
/// two containers with 12-byte nonces and 32-byte keys that give the same
/// signed bytes agree in version, threshold, nonce, key and body. Whatever
/// changes one of these, a single bit of the body or bytes added behind it,
/// changes what the signature has to cover.
pub proof fn lemma_file_signable_injective(
    a: HeaderView,
    key_a: Seq<u8>,
    body_a: Seq<u8>,
    b: HeaderView,
    key_b: Seq<u8>,
    body_b: Seq<u8>,
)
    requires
        a.nonce.len() == 12,
        b.nonce.len() == 12,
        key_a.len() == 32,
        key_b.len() == 32,
        file_signable(a, key_a, body_a) == file_signable(b, key_b, body_b),
    ensures
        a.version == b.version,
        a.threshold == b.threshold,
        a.nonce == b.nonce,
        key_a == key_b,
        body_a == body_b,
{
    let sa = file_signable(a, key_a, body_a);
    let sb = file_signable(b, key_b, body_b);
    assert(sa[3] == a.version && sb[3] == b.version);
    assert(sa[4] == a.threshold && sb[4] == b.threshold);
    assert(sa.subrange(6, 18) =~= a.nonce && sb.subrange(6, 18) =~= b.nonce);
    assert(sa.subrange(18, 50) =~= key_a && sb.subrange(18, 50) =~= key_b);
    assert(sa.subrange(50, sa.len() as int) =~= body_a);
    assert(sb.subrange(50, sb.len() as int) =~= body_b);
}

/// The signed bytes of a share container pin down everything that is signed,
/// as those of a file container do.
pub proof fn lemma_share_signable_injective(
    a: HeaderView,
    key_a: Seq<u8>,
    body_a: Seq<u8>,
    b: HeaderView,
    key_b: Seq<u8>,
    body_b: Seq<u8>,
)
    requires
        a.nonce.len() == 12,
        b.nonce.len() == 12,
        key_a.len() == 32,
        key_b.len() == 32,
        share_signable(a, key_a, body_a) == share_signable(b, key_b, body_b),
    ensures
        a.version == b.version,
        a.threshold == b.threshold,
        a.nonce == b.nonce,
        key_a == key_b,
        body_a == body_b,
{
    let sa = share_signable(a, key_a, body_a);
    let sb = share_signable(b, key_b, body_b);
    assert(sa[4] == a.version && sb[4] == b.version);
    assert(sa[5] == a.threshold && sb[5] == b.threshold);
    assert(sa.subrange(7, 19) =~= a.nonce && sb.subrange(7, 19) =~= b.nonce);
    assert(sa.subrange(19, 51) =~= key_a && sb.subrange(19, 51) =~= key_b);
    assert(sa.subrange(51, sa.len() as int) =~= body_a);
    assert(sb.subrange(51, sb.len() as int) =~= body_b);
}

/// What is signed for a share, byte by byte: the magic "CCMS", the version,
/// the threshold, the signed byte 1, the nonce, the key, the share; and for a
/// share of the layout version that this crate writes the first seven bytes
/// are 67, 67, 77, 83, 1, the threshold, 1.
pub proof fn lemma_share_signed_bytes(h: HeaderView, public_key: Seq<u8>, share: Seq<u8>)
    ensures
        share_signable(h, public_key, share) == share_magic() + fixed_fields(
            h.version,
            h.threshold,
            true,
            h.nonce,
        ) + public_key + share,
        h.version == ALGO_VERSION ==> share_signable(h, public_key, share) == seq![
            67u8,
            67u8,
            77u8,
            83u8,
            1u8,
            h.threshold,
            1u8,
        ] + h.nonce + public_key + share,
{
    let fields = share_fields(h.version, h.threshold, true, h.nonce);
    assert(fields =~= seq![67u8, 67u8, 77u8, 83u8, h.version, h.threshold, 1u8] + h.nonce);
}

/// What is signed for a file, byte by byte: the magic "CCM", the version, the
/// threshold, the signed byte 1, the nonce, the key, the ciphertext.
pub proof fn lemma_file_signed_bytes(h: HeaderView, public_key: Seq<u8>, ciphertext: Seq<u8>)
    ensures
        file_signable(h, public_key, ciphertext) == seq![
            67u8,
            67u8,
            77u8,
            h.version,
            h.threshold,
            1u8,
        ] + h.nonce + public_key + ciphertext,
{
    let base = file_base(h.version, h.threshold, true, h.nonce);
    assert(base =~= seq![67u8, 67u8, 77u8, h.version, h.threshold, 1u8] + h.nonce);
}

/// Builds the bytes that are signed.
pub fn signable_bytes(header: &[u8], public_key: &[u8], body: &[u8]) -> (message: Vec<u8>)
    ensures
        message@ == signable(header@, public_key@, body@),
{
    let mut message: Vec<u8> = Vec::new();
    append_bytes(&mut message, header);
    append_bytes(&mut message, public_key);
    append_bytes(&mut message, body);
    message
}

/// Signs a share: the signature covers the share's base header, the public
/// key and the share's bytes.
pub fn sign_share(
    identity: &SigningIdentity,
    header_bytes: &[u8],
    public_key: &[u8],
    share: &[u8],
) -> (signature: Vec<u8>)
    ensures
        signature@ == signature_of(identity@, signable(header_bytes@, public_key@, share@)),
        signature_well_formed(signature@),
{
    let message = signable_bytes(header_bytes, public_key, share);
    identity.sign(message.as_slice())
}

/// Signs an encrypted file: the signature covers the file's base header, the
/// public key and the ciphertext.
pub fn sign_file(
    identity: &SigningIdentity,
    header_bytes: &[u8],
    public_key: &[u8],
    ciphertext: &[u8],
) -> (signature: Vec<u8>)
    ensures
        signature@ == signature_of(identity@, signable(header_bytes@, public_key@, ciphertext@)),
        signature_well_formed(signature@),
{
    let message = signable_bytes(header_bytes, public_key, ciphertext);
    identity.sign(message.as_slice())
}

/// Whether a file container with the header `h` and the body `ciphertext`
/// carries a signature that its own key accepts.
pub open spec fn file_signature_holds(h: HeaderView, ciphertext: Seq<u8>) -> bool {
    h.seal matches Some(s) && signature_accepted(
        s.public_key,
        file_signable(h, s.public_key, ciphertext),
        s.signature,
    )
}

/// Whether a share container with the header `h` and the body `share`
/// carries a signature that its own key accepts.
pub open spec fn share_signature_holds(h: HeaderView, share: Seq<u8>) -> bool {
    h.seal matches Some(s) && signature_accepted(
        s.public_key,
        share_signable(h, s.public_key, share),
        s.signature,
    )
}

/// Verifies a file container against its own key and signature. The signed
/// bytes are built again from the parsed fields, never taken from the file
/// as it was read. An unsigned header verifies nothing.
pub fn verify_file(header: &Header, ciphertext: &[u8]) -> (ok: bool)
    ensures
        ok == file_signature_holds(header@, ciphertext@),
{
    match &header.seal {
        Some(seal) => {
            let base = construct_header_file(header.version, header.threshold, true, &header.nonce);
            let message = signable_bytes(base.as_slice(), seal.public_key.as_slice(), ciphertext);
            verify(seal.public_key.as_slice(), message.as_slice(), seal.signature.as_slice())
        },
        None => false,
    }
}

/// Verifies a share's signature from the share's parsed fields: the signed
/// bytes are the share's header fields up to the nonce with the signed byte
/// set, the key and the share data.
pub fn verify_share_fields(
    version: u8,
    threshold: u8,
    nonce: &[u8],
    public_key: &[u8],
    signature: &[u8],
    share: &[u8],
) -> (ok: bool)
    ensures
        ok == signature_accepted(
            public_key@,
            signable(share_fields(version, threshold, true, nonce@), public_key@, share@),
            signature@,
        ),
{
    let base = share_fields_bytes(version, threshold, true, nonce);
    let message = signable_bytes(base.as_slice(), public_key, share);
    verify(public_key, message.as_slice(), signature)
}

/// Verifies a share container against its own key and signature, over bytes
/// built again from the parsed fields. An unsigned header verifies nothing.
pub fn verify_share(header: &Header, share: &[u8]) -> (ok: bool)
    ensures
        ok == share_signature_holds(header@, share@),
{
    match &header.seal {
        Some(seal) => verify_share_fields(
            header.version,
            header.threshold,
            header.nonce.as_slice(),
            seal.public_key.as_slice(),
            seal.signature.as_slice(),
            share,
        ),
        None => false,
    }
}

} // verus!
