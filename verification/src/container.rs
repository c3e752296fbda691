//! The two operations on containers: sealing a payload into an encrypted
//! file and its shares, and opening an encrypted file with the shares that
//! were gathered for it.

use vstd::prelude::*;
use crate::bytes::{append_bytes, byte_strings, copy_range, wipe};
use crate::cipher::{
    chacha_decrypt,
    chacha_encrypt,
    encryption,
    fits_cipher,
    opened,
    payload_fits,
    sealed,
    CipherError,
};
use crate::format::{
    construct_header_file,
    decode_file_header,
    file_base,
    file_header_bytes,
    file_header_length,
    parsed_file_header,
    share_fields,
    share_fields_bytes,
    share_base_bytes,
    share_header_bytes,
    FormatError,
    Header,
    HeaderView,
    SealView,
    ALGO_VERSION,
};
use crate::key::{fresh_nonce, KeyMaterial};
use crate::reconcile::{
    gather_shares,
    gathering,
    outcome_at,
    AbortReason,
    Outcome,
    Policy,
    PoolView,
    SharePool,
};
use crate::shamir::{
    check_configuration,
    configuration_error,
    dealt_from,
    reconstruct,
    reconstruction,
    split,
    ConfigurationError,
    KeyError,
    SplitError,
};
use crate::signing::{
    file_signature_holds,
    is_matching_keypair,
    sign_file,
    sign_share,
    signable,
    signature_of,
    verify_file,
    SigningIdentity,
};

verus! {

/// Why an operation on containers failed. Nothing is written and no payload
/// is returned when one of these comes back.
#[derive(Clone, Copy, Debug, PartialEq, Eq, Structural)]
pub enum Error {
    /// The share count or the threshold cannot be used.
    Configuration(ConfigurationError),
    /// The encrypted file is not a container.
    Format(FormatError),
    /// A share recorded another threshold and the policy is to abort.
    ThresholdMismatch,
    /// A signing mismatch, of a share or of the file, in strict mode.
    SignatureMismatch,
    /// The pool holds fewer usable shares than the threshold.
    InsufficientShares,
    /// The pool holds malformed shares, or its shares give no key.
    CorruptShares,
    /// The ciphertext does not authenticate under the reconstructed key.
    Authentication,
    /// The shares or the ciphertext just made did not give back what went in.
    InternalConsistency,
    /// The payload is longer than the cipher takes.
    PayloadTooLarge,
    /// The operating system delivered no random bytes.
    RandomSource,
}

/// An encrypted file and its shares, each as the bytes of its container.
#[derive(Clone, Debug, PartialEq, Eq)]
pub struct SealedSet {
    pub nonce: Vec<u8>,
    pub file: Vec<u8>,
    pub shares: Vec<Vec<u8>>,
}

/// The public key and the signature that `identity` gives a container whose
/// base header is `base` and whose body is `body`; nothing without identity.
pub open spec fn seal_for(identity: Option<Seq<u8>>, base: Seq<u8>, body: Seq<u8>) -> Option<
    SealView,
> {
    match identity {
        Some(keypair) => Some(
            SealView {
                public_key: SigningIdentity::public_half(keypair),
                signature: signature_of(
                    keypair,
                    signable(base, SigningIdentity::public_half(keypair), body),
                ),
            },
        ),
        None => None,
    }
}

/// The header of the file container that holds `ciphertext`.
pub open spec fn file_header_for(
    threshold: u8,
    nonce: Seq<u8>,
    identity: Option<Seq<u8>>,
    ciphertext: Seq<u8>,
) -> HeaderView {
    HeaderView {
        version: ALGO_VERSION,
        threshold,
        nonce,
        seal: seal_for(identity, file_base(ALGO_VERSION, threshold, true, nonce), ciphertext),
    }
}

/// The header of the share container that holds `share`.
pub open spec fn share_header_for(
    threshold: u8,
    nonce: Seq<u8>,
    identity: Option<Seq<u8>>,
    share: Seq<u8>,
) -> HeaderView {
    HeaderView {
        version: ALGO_VERSION,
        threshold,
        nonce,
        seal: seal_for(identity, share_fields(ALGO_VERSION, threshold, true, nonce), share),
    }
}

/// The bytes of the file container that holds `ciphertext`.
pub open spec fn file_container(
    threshold: u8,
    nonce: Seq<u8>,
    identity: Option<Seq<u8>>,
    ciphertext: Seq<u8>,
) -> Seq<u8> {
    file_header_bytes(file_header_for(threshold, nonce, identity, ciphertext)) + ciphertext
}

/// The bytes of the share container that holds `share`.
pub open spec fn share_container(
    threshold: u8,
    nonce: Seq<u8>,
    identity: Option<Seq<u8>>,
    share: Seq<u8>,
) -> Seq<u8> {
    share_header_bytes(share_header_for(threshold, nonce, identity, share)) + share
}

/// The share containers of the shares `raw`, in order.
pub open spec fn share_containers(
    threshold: u8,
    nonce: Seq<u8>,
    identity: Option<Seq<u8>>,
    raw: Seq<Seq<u8>>,
) -> Seq<Seq<u8>> {
    Seq::new(raw.len(), |i: int| share_container(threshold, nonce, identity, raw[i]))
}

/// An identity, if any, as plain values.
pub open spec fn identity_view(identity: Option<&SigningIdentity>) -> Option<Seq<u8>> {
    match identity {
        Some(i) => Some(i@),
        None => None,
    }
}

/// Appends key and signature of a signed container to its base header.
fn push_signed_part(
    container: &mut Vec<u8>,
    identity: &SigningIdentity,
    signed_base: &[u8],
    body: &[u8],
    for_share: bool,
)
    ensures
        final(container)@ == old(container)@ + SigningIdentity::public_half(identity@)
            + signature_of(
            identity@,
            signable(signed_base@, SigningIdentity::public_half(identity@), body@),
        ),
        seal_for(Some(identity@), signed_base@, body@) matches Some(seal) && seal.valid(),
{
    let public_key = identity.public_key();
    let signature = if for_share {
        sign_share(identity, signed_base, public_key.as_slice(), body)
    } else {
        sign_file(identity, signed_base, public_key.as_slice(), body)
    };
    append_bytes(container, public_key.as_slice());
    append_bytes(container, signature.as_slice());
}

/// Builds the container of an encrypted file: header, then ciphertext. With
/// an identity the header is signed.
pub fn build_file_container(
    threshold: u8,
    nonce: &Vec<u8>,
    identity: Option<&SigningIdentity>,
    ciphertext: &[u8],
) -> (container: Vec<u8>)
    ensures
        container@ == file_container(threshold, nonce@, identity_view(identity), ciphertext@),
        nonce@.len() == 12 ==> file_header_for(
            threshold,
            nonce@,
            identity_view(identity),
            ciphertext@,
        ).valid(),
{
    let base = construct_header_file(ALGO_VERSION, threshold, identity.is_some(), nonce);
    let mut container: Vec<u8> = Vec::new();
    append_bytes(&mut container, base.as_slice());
    match identity {
        Some(id) => {
            push_signed_part(&mut container, id, base.as_slice(), ciphertext, false);
        },
        None => {},
    }
    append_bytes(&mut container, ciphertext);
    container
}

/// Builds the container of one share: header, then the share's bytes. With
/// an identity the header is signed.
pub fn build_share_container(
    threshold: u8,
    nonce: &Vec<u8>,
    identity: Option<&SigningIdentity>,
    share: &[u8],
) -> (container: Vec<u8>)
    ensures
        container@ == share_container(threshold, nonce@, identity_view(identity), share@),
        nonce@.len() == 12 ==> share_header_for(
            threshold,
            nonce@,
            identity_view(identity),
            share@,
        ).valid(),
{
    let mut container = share_base_bytes(
        ALGO_VERSION,
        threshold,
        identity.is_some(),
        nonce.as_slice(),
    );
    match identity {
        Some(id) => {
            let signed = share_fields_bytes(ALGO_VERSION, threshold, true, nonce.as_slice());
            push_signed_part(&mut container, id, signed.as_slice(), share, true);
        },
        None => {},
    }
    append_bytes(&mut container, share);
    container
}

/// A sealed set as plain values.
#[verifier::ext_equal]
pub struct SealedSetView {
    pub nonce: Seq<u8>,
    pub file: Seq<u8>,
    pub shares: Seq<Seq<u8>>,
}

impl View for SealedSet {
    type V = SealedSetView;

    open spec fn view(&self) -> SealedSetView {
        SealedSetView { nonce: self.nonce@, file: self.file@, shares: byte_strings(self.shares@) }
    }
}

/// The first reason, if any, for which nothing is sealed: the configuration,
/// then a payload that does not fit, then a ciphertext that does not open to
/// the payload.
pub open spec fn sealing_error(
    key: Seq<u8>,
    nonce: Seq<u8>,
    threshold: u8,
    players: u8,
    plaintext: Seq<u8>,
) -> Option<Error> {
    match configuration_error(players, threshold) {
        Some(e) => Some(Error::Configuration(e)),
        None => match encryption(key, nonce, plaintext) {
            Err(CipherError::TooLarge) => Some(Error::PayloadTooLarge),
            Err(CipherError::InternalConsistency) => Some(Error::InternalConsistency),
            Ok(_) => None,
        },
    }
}

/// Every header of a sealed set can be read again: the file's and each
/// share's.
pub open spec fn headers_valid(
    threshold: u8,
    nonce: Seq<u8>,
    identity: Option<Seq<u8>>,
    ciphertext: Seq<u8>,
    raw: Seq<Seq<u8>>,
) -> bool {
    &&& file_header_for(threshold, nonce, identity, ciphertext).valid()
    &&& forall|i: int|
        0 <= i < raw.len() ==> (#[trigger] share_header_for(
            threshold,
            nonce,
            identity,
            raw[i],
        )).valid()
}

/// `set` is what sealing `plaintext` gives for some dealing `raw` of the key:
/// the file container of the sealed payload and one share container for each
/// share of the dealing, in order, all with headers that can be read again.
pub open spec fn is_sealed_from(
    set: SealedSetView,
    raw: Seq<Seq<u8>>,
    key: Seq<u8>,
    nonce: Seq<u8>,
    identity: Option<Seq<u8>>,
    threshold: u8,
    players: u8,
    plaintext: Seq<u8>,
) -> bool {
    &&& dealt_from(raw, key, threshold, players)
    &&& set.nonce == nonce
    &&& set.file == file_container(threshold, nonce, identity, sealed(key, nonce, plaintext))
    &&& set.shares == share_containers(threshold, nonce, identity, raw)
    &&& headers_valid(threshold, nonce, identity, sealed(key, nonce, plaintext), raw)
}

/// `set` is what sealing `plaintext` under `key` and `nonce` gives. The
/// shares of a dealing are random, so all that is said of them is that there
/// is a dealing of the key whose containers they are.
pub open spec fn is_sealed_set(
    set: SealedSetView,
    key: Seq<u8>,
    nonce: Seq<u8>,
    identity: Option<Seq<u8>>,
    threshold: u8,
    players: u8,
    plaintext: Seq<u8>,
) -> bool {
    exists|raw: Seq<Seq<u8>>| #[trigger]
        is_sealed_from(set, raw, key, nonce, identity, threshold, players, plaintext)
}

/// The containers of all shares of a dealing.
fn build_share_containers(
    threshold: u8,
    nonce: &Vec<u8>,
    identity: Option<&SigningIdentity>,
    raw: &Vec<Vec<u8>>,
) -> (containers: Vec<Vec<u8>>)
    requires
        nonce@.len() == 12,
    ensures
        byte_strings(containers@) == share_containers(
            threshold,
            nonce@,
            identity_view(identity),
            byte_strings(raw@),
        ),
        forall|i: int|
            0 <= i < raw@.len() ==> (#[trigger] share_header_for(
                threshold,
                nonce@,
                identity_view(identity),
                byte_strings(raw@)[i],
            )).valid(),
{
    let ghost wanted = share_containers(
        threshold,
        nonce@,
        identity_view(identity),
        byte_strings(raw@),
    );
    let mut containers: Vec<Vec<u8>> = Vec::new();
    let mut i: usize = 0;
    while i < raw.len()
        invariant
            i <= raw@.len(),
            containers@.len() == i,
            wanted == share_containers(
                threshold,
                nonce@,
                identity_view(identity),
                byte_strings(raw@),
            ),
            nonce@.len() == 12,
            forall|k: int| 0 <= k < i ==> (#[trigger] containers@[k])@ == wanted[k],
            forall|k: int|
                0 <= k < i ==> (#[trigger] share_header_for(
                    threshold,
                    nonce@,
                    identity_view(identity),
                    byte_strings(raw@)[k],
                )).valid(),
        decreases raw@.len() - i,
    {
        let container = build_share_container(threshold, nonce, identity, raw[i].as_slice());
        containers.push(container);
        i = i + 1;
    }
    containers
}

/// Seals `plaintext` under a given key, nonce and identity: splits the key,
/// encrypts the payload and builds all containers.
///
/// The configuration is checked before anything else is done. Either every
/// container is returned or none: a failure at any step returns the error
/// alone.
pub fn encrypt_with(
    key: &KeyMaterial,
    nonce: &Vec<u8>,
    identity: Option<&SigningIdentity>,
    threshold: u8,
    players: u8,
    plaintext: &[u8],
) -> (res: Result<SealedSet, Error>)
    requires
        nonce@.len() == 12,
    ensures
        match sealing_error(key@, nonce@, threshold, players, plaintext@) {
            Some(e) => res == Err::<SealedSet, Error>(e),
            None => res matches Ok(set) && is_sealed_set(
                set@,
                key@,
                nonce@,
                identity_view(identity),
                threshold,
                players,
                plaintext@,
            ),
        },
{
    let raw = match split(key, threshold, players) {
        Ok(raw) => raw,
        Err(SplitError::Configuration(e)) => {
            return Err(Error::Configuration(e));
        },
        Err(SplitError::InternalConsistency) => {
            return Err(Error::InternalConsistency);
        },
    };
    let ciphertext = match chacha_encrypt(key, nonce.as_slice(), plaintext) {
        Ok(c) => c,
        Err(CipherError::TooLarge) => {
            return Err(Error::PayloadTooLarge);
        },
        Err(CipherError::InternalConsistency) => {
            return Err(Error::InternalConsistency);
        },
    };
    let shares = build_share_containers(threshold, nonce, identity, &raw);
    let file = build_file_container(threshold, nonce, identity, ciphertext.as_slice());
    let set = SealedSet { nonce: copy_range(nonce.as_slice(), 0, nonce.len()), file, shares };
    proof {
        assert(set.nonce@ =~= nonce@);
        assert(is_sealed_from(
            set@,
            byte_strings(raw@),
            key@,
            nonce@,
            identity_view(identity),
            threshold,
            players,
            plaintext@,
        ));
    }
    Ok(set)
}

/// The error, if any, that is known before any key is drawn: a configuration
/// that cannot be used, then a payload that does not fit the cipher.
pub open spec fn early_error(threshold: u8, players: u8, length: int) -> Option<Error> {
    match configuration_error(players, threshold) {
        Some(e) => Some(Error::Configuration(e)),
        None => if fits_cipher(length) {
            None
        } else {
            Some(Error::PayloadTooLarge)
        },
    }
}

/// `set` is what sealing `plaintext` gives under the key `key`, the set's own
/// nonce and the identity `identity`: a key of 32 bytes, a nonce of 12, an
/// identity exactly when `sign` is set, whose public half belongs to its
/// secret half, and nothing that keeps the payload from being sealed.
pub open spec fn seals_under(
    set: SealedSetView,
    key: Seq<u8>,
    identity: Option<Seq<u8>>,
    threshold: u8,
    players: u8,
    sign: bool,
    plaintext: Seq<u8>,
) -> bool {
    &&& key.len() == 32
    &&& set.nonce.len() == 12
    &&& identity is Some <==> sign
    &&& identity matches Some(pair) ==> is_matching_keypair(pair)
    &&& sealing_error(key, set.nonce, threshold, players, plaintext) is None
    &&& is_sealed_set(set, key, set.nonce, identity, threshold, players, plaintext)
}

/// `set` is what sealing `plaintext` under fresh material gives. Key and
/// identity are random and are gone when the set is handed out, so all that
/// is said of them is that there are some under which the set is sealed.
pub open spec fn is_fresh_sealed_set(
    set: SealedSetView,
    threshold: u8,
    players: u8,
    sign: bool,
    plaintext: Seq<u8>,
) -> bool {
    exists|key: Seq<u8>, identity: Option<Seq<u8>>| #[trigger]
        seals_under(set, key, identity, threshold, players, sign, plaintext)
}

/// Seals `plaintext` under a fresh key and a fresh nonce and, if `sign` is
/// set, a fresh signing identity. The key is scrubbed before this returns.
///
/// A configuration that cannot be used, and then a payload that does not
/// fit, are reported before any key is drawn, and only then. After that the
/// random source decides: where it delivers nothing the result is
/// `RandomSource`. `InternalConsistency` comes back only where the ciphertext
/// made under the key and nonce that were drawn did not open to the payload.
pub fn encrypt(
    plaintext: &[u8],
    threshold: u8,
    players: u8,
    sign: bool,
) -> (res: Result<SealedSet, Error>)
    ensures
        early_error(threshold, players, plaintext@.len() as int) matches Some(e) ==> res == Err::<
            SealedSet,
            Error,
        >(e),
        res matches Err(Error::Configuration(e)) ==> configuration_error(players, threshold)
            == Some(e),
        res matches Err(Error::PayloadTooLarge) ==> configuration_error(players, threshold) is None
            && !fits_cipher(plaintext@.len() as int),
        res matches Err(e) ==> e is Configuration || e == Error::PayloadTooLarge || e
            == Error::InternalConsistency || e == Error::RandomSource,
        res matches Err(Error::InternalConsistency) ==> exists|key: Seq<u8>, nonce: Seq<u8>|
            key.len() == 32 && nonce.len() == 12 && #[trigger] sealing_error(
                key,
                nonce,
                threshold,
                players,
                plaintext@,
            ) == Some(Error::InternalConsistency),
        res matches Ok(set) ==> is_fresh_sealed_set(set@, threshold, players, sign, plaintext@),
{
    match check_configuration(players, threshold) {
        Err(e) => {
            return Err(Error::Configuration(e));
        },
        Ok(_) => {},
    }
    if !payload_fits(plaintext.len()) {
        return Err(Error::PayloadTooLarge);
    }
    let key = match KeyMaterial::generate() {
        Some(key) => key,
        None => {
            return Err(Error::RandomSource);
        },
    };
    let nonce = match fresh_nonce() {
        Some(nonce) => nonce,
        None => {
            return Err(Error::RandomSource);
        },
    };
    let identity = if sign {
        match SigningIdentity::generate() {
            Some(identity) => Some(identity),
            None => {
                return Err(Error::RandomSource);
            },
        }
    } else {
        None
    };
    let chosen = identity.as_ref();
    let res = encrypt_with(&key, &nonce, chosen, threshold, players, plaintext);
    proof {
        let drawn = identity_view(chosen);
        if res is Ok {
            let set = res->Ok_0;
            assert(seals_under(set@, key@, drawn, threshold, players, sign, plaintext@));
        } else {
            assert(sealing_error(key@, nonce@, threshold, players, plaintext@) == Some(
                Error::InternalConsistency,
            ));
        }
    }
    res
}

/// A payload that was recovered.
#[derive(Clone, Debug, PartialEq, Eq)]
pub struct Opened {
    pub plaintext: Vec<u8>,
    /// The file is signed and its signature did not verify. Outside strict
    /// mode that is a warning, and it must be shown to the operator.
    pub file_signature_failed: bool,
}

/// A recovered payload as plain values.
#[verifier::ext_equal]
pub struct OpenedView {
    pub plaintext: Seq<u8>,
    pub file_signature_failed: bool,
}

impl View for Opened {
    type V = OpenedView;

    open spec fn view(&self) -> OpenedView {
        OpenedView { plaintext: self.plaintext@, file_signature_failed: self.file_signature_failed }
    }
}

/// The result of opening as plain values.
pub open spec fn opened_result_view(res: Result<Opened, Error>) -> Result<OpenedView, Error> {
    match res {
        Ok(o) => Ok(o@),
        Err(e) => Err(e),
    }
}

/// What opening a file container with a pool of shares gives.
///
/// The key is reconstructed from the pool under the pool's threshold; a key
/// that is not 32 bytes long counts as corrupt shares. Then the file's
/// signature is verified, if the file is signed, over bytes built from the
/// file's parsed fields: a failure stops the operation in strict mode and is
/// reported beside the payload otherwise. Then the ciphertext is decrypted
/// under the file's nonce.
pub open spec fn opening(file: HeaderView, ciphertext: Seq<u8>, pool: PoolView, strict: bool) -> Result<
    OpenedView,
    Error,
> {
    match reconstruction(pool.shares, pool.threshold) {
        Err(KeyError::InsufficientShares) => Err(Error::InsufficientShares),
        Err(KeyError::CorruptShares) => Err(Error::CorruptShares),
        Ok(key) => {
            let failed = file.signed() && !file_signature_holds(file, ciphertext);
            if key.len() != 32 {
                Err(Error::CorruptShares)
            } else if failed && strict {
                Err(Error::SignatureMismatch)
            } else {
                match opened(key, file.nonce, ciphertext) {
                    Some(plaintext) => Ok(OpenedView { plaintext, file_signature_failed: failed }),
                    None => Err(Error::Authentication),
                }
            }
        },
    }
}

/// Opens a file container with the shares that were gathered for it.
pub fn open_with_pool(
    file: &Header,
    ciphertext: &[u8],
    pool: &SharePool,
    strict: bool,
) -> (res: Result<Opened, Error>)
    requires
        file.nonce@.len() == 12,
    ensures
        opened_result_view(res) == opening(file@, ciphertext@, pool@, strict),
        res matches Ok(o) ==> o.plaintext@.len() + 16 == ciphertext@.len(),
{
    let mut secret = match reconstruct(&pool.shares, pool.threshold) {
        Ok(secret) => secret,
        Err(KeyError::InsufficientShares) => {
            return Err(Error::InsufficientShares);
        },
        Err(KeyError::CorruptShares) => {
            return Err(Error::CorruptShares);
        },
    };
    let made = KeyMaterial::from_bytes(secret.as_slice());
    wipe(&mut secret);
    let key = match made {
        Some(key) => key,
        None => {
            return Err(Error::CorruptShares);
        },
    };
    let failed = file.is_signed() && !verify_file(file, ciphertext);
    if failed && strict {
        return Err(Error::SignatureMismatch);
    }
    match chacha_decrypt(&key, file.nonce.as_slice(), ciphertext) {
        Ok(plaintext) => Ok(Opened { plaintext, file_signature_failed: failed }),
        Err(_) => Err(Error::Authentication),
    }
}

/// What was recovered from an encrypted file, and what the scan of the
/// candidates noticed.
#[derive(Clone, Debug, PartialEq, Eq)]
pub struct Decrypted {
    pub plaintext: Vec<u8>,
    pub file_signature_failed: bool,
    /// The threshold under which the key was reconstructed.
    pub threshold: u8,
    /// The outcome of every candidate, in order.
    pub outcomes: Vec<Outcome>,
}

/// The error that stops the operation for a reason that stopped the scan.
pub open spec fn abort_error(reason: AbortReason) -> Error {
    match reason {
        AbortReason::ThresholdMismatch => Error::ThresholdMismatch,
        AbortReason::SignatureMismatch => Error::SignatureMismatch,
    }
}

/// The ciphertext of a file container with the header `h`.
pub open spec fn payload_of(file: Seq<u8>, h: HeaderView) -> Seq<u8> {
    file.subrange(file_header_length(h), file.len() as int)
}

/// What decrypting the bytes of an encrypted file with the candidates of a
/// share directory gives: the file's header is read, the candidates are
/// scanned in order from the file's threshold, and the file is opened with
/// the pool.
pub open spec fn decrypting(file: Seq<u8>, candidates: Seq<Seq<u8>>, policy: Policy) -> Result<
    OpenedView,
    Error,
> {
    match parsed_file_header(file) {
        Err(e) => Err(Error::Format(e)),
        Ok(h) => match gathering(h.threshold, h, candidates, policy) {
            Err(reason) => Err(abort_error(reason)),
            Ok(pool) => opening(h, payload_of(file, h), pool, policy.strict),
        },
    }
}

/// Decrypts an encrypted file with the candidate shares that were found for
/// it. `file` and each candidate are the whole contents of a file.
pub fn decrypt(
    file: &[u8],
    candidates: &Vec<Vec<u8>>,
    policy: &Policy,
) -> (res: Result<Decrypted, Error>)
    ensures
        match res {
            Ok(d) => decrypting(file@, byte_strings(candidates@), *policy) == Ok::<
                OpenedView,
                Error,
            >(
                OpenedView {
                    plaintext: d.plaintext@,
                    file_signature_failed: d.file_signature_failed,
                },
            ),
            Err(e) => decrypting(file@, byte_strings(candidates@), *policy) == Err::<
                OpenedView,
                Error,
            >(e),
        },
        res matches Ok(d) ==> gathering(
            parsed_file_header(file@)->Ok_0.threshold,
            parsed_file_header(file@)->Ok_0,
            byte_strings(candidates@),
            *policy,
        ) matches Ok(pool) && pool.threshold == d.threshold,
        res matches Ok(d) ==> d.plaintext@.len() + 16 == payload_of(
            file@,
            parsed_file_header(file@)->Ok_0,
        ).len(),
        res matches Ok(d) ==> d.outcomes@.len() == candidates@.len(),
        res matches Ok(d) ==> forall|i: int|
            0 <= i < d.outcomes@.len() ==> #[trigger] d.outcomes@[i] == outcome_at(
                parsed_file_header(file@)->Ok_0.threshold,
                parsed_file_header(file@)->Ok_0,
                byte_strings(candidates@),
                *policy,
                i,
            ),
{
    let header = match decode_file_header(file) {
        Ok(header) => header,
        Err(e) => {
            return Err(Error::Format(e));
        },
    };
    let start = header.file_length();
    let ciphertext = copy_range(file, start, file.len());
    let scan = gather_shares(&header, candidates, policy);
    let pool = match scan.pool {
        Ok(pool) => pool,
        Err(AbortReason::ThresholdMismatch) => {
            return Err(Error::ThresholdMismatch);
        },
        Err(AbortReason::SignatureMismatch) => {
            return Err(Error::SignatureMismatch);
        },
    };
    match open_with_pool(&header, ciphertext.as_slice(), &pool, policy.strict) {
        Ok(opened) => Ok(
            Decrypted {
                plaintext: opened.plaintext,
                file_signature_failed: opened.file_signature_failed,
                threshold: pool.threshold,
                outcomes: scan.outcomes,
            },
        ),
        Err(e) => Err(e),
    }
}

} // verus!
