//! Header codec: the fixed binary layouts of the encrypted-file container and
//! of the share container.
//!
//! ```text
//! file   "CCM"  | version | threshold | signed | nonce(12)         [ | key(32) | signature(64) ]
//! share  "CCMS" | version | threshold | signed | nonce(12) | pad(1) [ | key(32) | signature(64) ]
//! ```
//!
//! The key and the signature are present exactly when the signed byte is not
//! zero, so the length of a header is always derived from that byte.

use vstd::prelude::*;
use crate::bytes::{append_bytes, copy_range};
use crate::signing::{public_key_decodes, public_key_parses, signature_parses, signature_well_formed};

verus! {

/// Version of the container layout that this crate writes.
pub const ALGO_VERSION: u8 = 1;

/// Length of the symmetric key.
pub const KEY_LENGTH_BYTES: usize = 32;

/// Length of the nonce.
pub const NONCE_LENGTH_BYTES: usize = 12;

/// Length of a file header without key and signature.
pub const HEADER_LENGTH_FILE: usize = 18;

/// Length of a share header without key and signature.
pub const HEADER_LENGTH_SHARE: usize = 20;

/// Length of the key and the signature that a signed header carries.
pub const SEAL_LENGTH: usize = 96;

/// Why a byte string is not a header.
#[derive(Clone, Copy, Debug, PartialEq, Eq, Structural)]
pub enum FormatError {
    /// The bytes do not start with the container's magic.
    MissingMagic,
    /// Fewer bytes than the header needs.
    Truncated,
    /// The embedded public key is not a point of the curve.
    BadPublicKey,
    /// The embedded signature does not have the shape of a signature.
    BadSignature,
}

/// The public key and the signature of a signed container.
#[derive(Clone, Debug, PartialEq, Eq)]
pub struct Seal {
    pub public_key: Vec<u8>,
    pub signature: Vec<u8>,
}

/// The fields of a container header. A header is signed when it has a seal.
#[derive(Clone, Debug, PartialEq, Eq)]
pub struct Header {
    pub version: u8,
    pub threshold: u8,
    pub nonce: Vec<u8>,
    pub seal: Option<Seal>,
}

/// A seal as plain values.
#[verifier::ext_equal]
pub struct SealView {
    pub public_key: Seq<u8>,
    pub signature: Seq<u8>,
}

/// A header as plain values.
#[verifier::ext_equal]
pub struct HeaderView {
    pub version: u8,
    pub threshold: u8,
    pub nonce: Seq<u8>,
    pub seal: Option<SealView>,
}

impl View for Seal {
    type V = SealView;

    open spec fn view(&self) -> SealView {
        SealView { public_key: self.public_key@, signature: self.signature@ }
    }
}

impl View for Header {
    type V = HeaderView;

    open spec fn view(&self) -> HeaderView {
        HeaderView {
            version: self.version,
            threshold: self.threshold,
            nonce: self.nonce@,
            seal: match self.seal {
                Some(s) => Some(s@),
                None => None,
            },
        }
    }
}

impl SealView {
    /// A seal that a header can carry: a 32-byte key that decodes and a
    /// signature of the right shape.
    pub open spec fn valid(self) -> bool {
        &&& self.public_key.len() == 32
        &&& public_key_decodes(self.public_key)
        &&& signature_well_formed(self.signature)
    }
}

impl HeaderView {
    /// A header that can be written and read again: a 12-byte nonce and, if
    /// signed, a valid seal.
    pub open spec fn valid(self) -> bool {
        &&& self.nonce.len() == 12
        &&& self.seal matches Some(seal) ==> seal.valid()
    }

    /// A header is signed when it has a seal.
    pub open spec fn signed(self) -> bool {
        self.seal is Some
    }
}

/// The magic of a file container, "CCM".
pub open spec fn file_magic() -> Seq<u8> {
    seq![67u8, 67u8, 77u8]
}

/// The magic of a share container, "CCMS".
pub open spec fn share_magic() -> Seq<u8> {
    seq![67u8, 67u8, 77u8, 83u8]
}

/// The signed byte as it is written.
pub open spec fn flag_byte(signed: bool) -> u8 {
    if signed {
        1u8
    } else {
        0u8
    }
}

/// Version, threshold, signed byte and nonce, in wire order.
pub open spec fn fixed_fields(version: u8, threshold: u8, signed: bool, nonce: Seq<u8>) -> Seq<u8> {
    seq![version, threshold, flag_byte(signed)] + nonce
}

/// A file header up to and including the nonce.
pub open spec fn file_base(version: u8, threshold: u8, signed: bool, nonce: Seq<u8>) -> Seq<u8> {
    file_magic() + fixed_fields(version, threshold, signed, nonce)
}

/// A share header up to and including the nonce: the fields that say what
/// the share belongs to.
pub open spec fn share_fields(version: u8, threshold: u8, signed: bool, nonce: Seq<u8>) -> Seq<u8> {
    share_magic() + fixed_fields(version, threshold, signed, nonce)
}

/// A share header up to and including the padding byte, which is reserved
/// and written as zero.
pub open spec fn share_base(version: u8, threshold: u8, signed: bool, nonce: Seq<u8>) -> Seq<u8> {
    share_fields(version, threshold, signed, nonce) + seq![0u8]
}

/// Key and signature as they follow the base header; nothing when unsigned.
pub open spec fn seal_bytes(seal: Option<SealView>) -> Seq<u8> {
    match seal {
        Some(s) => s.public_key + s.signature,
        None => Seq::<u8>::empty(),
    }
}

/// The wire form of a file header.
pub open spec fn file_header_bytes(h: HeaderView) -> Seq<u8> {
    file_base(h.version, h.threshold, h.signed(), h.nonce) + seal_bytes(h.seal)
}

/// The wire form of a share header.
pub open spec fn share_header_bytes(h: HeaderView) -> Seq<u8> {
    share_base(h.version, h.threshold, h.signed(), h.nonce) + seal_bytes(h.seal)
}

/// Length of a header whose base part has `base` bytes.
pub open spec fn header_length(base: int, signed: bool) -> int {
    if signed {
        base + 96
    } else {
        base
    }
}

/// What a byte string that starts with a header holds, for a container whose
/// magic is `magic` and whose base header ends with `padding` reserved bytes.
/// Bytes after the header are the payload and do not matter here.
pub open spec fn parsed_header(bytes: Seq<u8>, magic: Seq<u8>, padding: int) -> Result<
    HeaderView,
    FormatError,
> {
    let m = magic.len() as int;
    let base = m + 15 + padding;
    if bytes.len() < base {
        Err(FormatError::Truncated)
    } else if bytes.subrange(0, m) != magic {
        Err(FormatError::MissingMagic)
    } else if bytes[m + 2] == 0 {
        Ok(
            HeaderView {
                version: bytes[m],
                threshold: bytes[m + 1],
                nonce: bytes.subrange(m + 3, m + 15),
                seal: None,
            },
        )
    } else if bytes.len() < base + 96 {
        Err(FormatError::Truncated)
    } else if !public_key_decodes(bytes.subrange(base, base + 32)) {
        Err(FormatError::BadPublicKey)
    } else if !signature_well_formed(bytes.subrange(base + 32, base + 96)) {
        Err(FormatError::BadSignature)
    } else {
        Ok(
            HeaderView {
                version: bytes[m],
                threshold: bytes[m + 1],
                nonce: bytes.subrange(m + 3, m + 15),
                seal: Some(
                    SealView {
                        public_key: bytes.subrange(base, base + 32),
                        signature: bytes.subrange(base + 32, base + 96),
                    },
                ),
            },
        )
    }
}

/// What a byte string that starts with a file header holds.
pub open spec fn parsed_file_header(bytes: Seq<u8>) -> Result<HeaderView, FormatError> {
    parsed_header(bytes, file_magic(), 0)
}

/// What a byte string that starts with a share header holds.
pub open spec fn parsed_share_header(bytes: Seq<u8>) -> Result<HeaderView, FormatError> {
    parsed_header(bytes, share_magic(), 1)
}

fn push_fixed_fields(out: &mut Vec<u8>, version: u8, threshold: u8, signed: bool, nonce: &[u8])
    ensures
        final(out)@ == old(out)@ + fixed_fields(version, threshold, signed, nonce@),
{
    out.push(version);
    out.push(threshold);
    if signed {
        out.push(1);
    } else {
        out.push(0);
    }
    append_bytes(out, nonce);
}

fn push_seal(out: &mut Vec<u8>, seal: &Option<Seal>)
    ensures
        final(out)@ == old(out)@ + seal_bytes(
            match *seal {
                Some(s) => Some(s@),
                None => None,
            },
        ),
{
    match seal {
        Some(s) => {
            append_bytes(out, s.public_key.as_slice());
            append_bytes(out, s.signature.as_slice());
        },
        None => {
        },
    }
}

/// The first bytes of every signed or unsigned file container with these
/// fields: magic, version, threshold, signed byte, nonce.
pub fn construct_header_file(
    version: u8,
    threshold: u8,
    is_signed: bool,
    nonce: &Vec<u8>,
) -> (header: Vec<u8>)
    ensures
        header@ == file_base(version, threshold, is_signed, nonce@),
{
    let mut header: Vec<u8> = Vec::new();
    header.push(67);
    header.push(67);
    header.push(77);
    push_fixed_fields(&mut header, version, threshold, is_signed, nonce.as_slice());
    header
}

/// The base header of a share container in the current layout version:
/// magic, version, threshold, signed byte, nonce and the padding byte.
pub fn construct_header_share(threshold: u8, is_signed: bool, nonce: &Vec<u8>) -> (header: Vec<u8>)
    ensures
        header@ == share_base(ALGO_VERSION, threshold, is_signed, nonce@),
{
    share_base_bytes(ALGO_VERSION, threshold, is_signed, nonce.as_slice())
}

/// The base header of a share container for any layout version.
pub fn share_base_bytes(
    version: u8,
    threshold: u8,
    is_signed: bool,
    nonce: &[u8],
) -> (header: Vec<u8>)
    ensures
        header@ == share_base(version, threshold, is_signed, nonce@),
{
    let mut header = share_fields_bytes(version, threshold, is_signed, nonce);
    header.push(0);
    header
}

/// The fields of a share header up to and including the nonce, for any
/// layout version.
pub fn share_fields_bytes(
    version: u8,
    threshold: u8,
    is_signed: bool,
    nonce: &[u8],
) -> (fields: Vec<u8>)
    ensures
        fields@ == share_fields(version, threshold, is_signed, nonce@),
{
    let mut fields: Vec<u8> = Vec::new();
    fields.push(67);
    fields.push(67);
    fields.push(77);
    fields.push(83);
    push_fixed_fields(&mut fields, version, threshold, is_signed, nonce);
    fields
}

/// Writes a file header.
pub fn encode_file_header(header: &Header) -> (bytes: Vec<u8>)
    ensures
        bytes@ == file_header_bytes(header@),
{
    let mut bytes = construct_header_file(
        header.version,
        header.threshold,
        header.seal.is_some(),
        &header.nonce,
    );
    push_seal(&mut bytes, &header.seal);
    bytes
}

/// Writes a share header.
pub fn encode_share_header(header: &Header) -> (bytes: Vec<u8>)
    ensures
        bytes@ == share_header_bytes(header@),
{
    let mut bytes = share_base_bytes(
        header.version,
        header.threshold,
        header.seal.is_some(),
        header.nonce.as_slice(),
    );
    push_seal(&mut bytes, &header.seal);
    bytes
}

/// The result of a decoder as plain values.
pub open spec fn header_result_view(res: Result<Header, FormatError>) -> Result<
    HeaderView,
    FormatError,
> {
    match res {
        Ok(h) => Ok(h@),
        Err(e) => Err(e),
    }
}

/// The magic of a share container or of a file container.
pub open spec fn magic_of(share: bool) -> Seq<u8> {
    if share {
        share_magic()
    } else {
        file_magic()
    }
}

/// Number of reserved bytes that end the base header.
pub open spec fn padding_of(share: bool) -> int {
    if share {
        1
    } else {
        0
    }
}

/// Whether `bytes`, long enough for a base header, starts with the magic.
fn starts_with_magic(bytes: &[u8], share: bool) -> (found: bool)
    requires
        bytes@.len() >= 4,
    ensures
        found == (bytes@.subrange(0, magic_of(share).len() as int) == magic_of(share)),
{
    let ghost magic = magic_of(share);
    let ghost head = bytes@.subrange(0, magic.len() as int);
    if bytes[0] != 67 {
        return false;
    }
    if bytes[1] != 67 {
        return false;
    }
    if bytes[2] != 77 {
        return false;
    }
    if share && bytes[3] != 83 {
        return false;
    }
    assert(head =~= magic);
    true
}

fn decode_header(bytes: &[u8], share: bool) -> (res: Result<Header, FormatError>)
    ensures
        header_result_view(res) == parsed_header(bytes@, magic_of(share), padding_of(share)),
        res matches Ok(h) ==> h@.valid(),
{
    let m: usize = if share {
        4
    } else {
        3
    };
    let base: usize = if share {
        HEADER_LENGTH_SHARE
    } else {
        HEADER_LENGTH_FILE
    };
    if bytes.len() < base {
        return Err(FormatError::Truncated);
    }
    if !starts_with_magic(bytes, share) {
        return Err(FormatError::MissingMagic);
    }
    let version = bytes[m];
    let threshold = bytes[m + 1];
    let nonce = copy_range(bytes, m + 3, m + 15);
    if bytes[m + 2] == 0 {
        return Ok(Header { version, threshold, nonce, seal: None });
    }
    if bytes.len() < base + SEAL_LENGTH {
        return Err(FormatError::Truncated);
    }
    let public_key = copy_range(bytes, base, base + 32);
    if !public_key_parses(public_key.as_slice()) {
        return Err(FormatError::BadPublicKey);
    }
    let signature = copy_range(bytes, base + 32, base + 96);
    if !signature_parses(signature.as_slice()) {
        return Err(FormatError::BadSignature);
    }
    Ok(Header { version, threshold, nonce, seal: Some(Seal { public_key, signature }) })
}

/// Reads the header that `bytes` starts with as a file header.
///
/// Fails with `Truncated` on fewer bytes than the header needs, with
/// `MissingMagic` when enough bytes do not start with "CCM", and, for a
/// signed header, with `BadPublicKey` or `BadSignature` when the embedded
/// key or signature does not parse.
pub fn decode_file_header(bytes: &[u8]) -> (res: Result<Header, FormatError>)
    ensures
        header_result_view(res) == parsed_file_header(bytes@),
        res matches Ok(h) ==> h@.valid(),
{
    decode_header(bytes, false)
}

/// Reads the header that `bytes` starts with as a share header. The padding
/// byte is not examined.
pub fn decode_share_header(bytes: &[u8]) -> (res: Result<Header, FormatError>)
    ensures
        header_result_view(res) == parsed_share_header(bytes@),
        res matches Ok(h) ==> h@.valid(),
{
    decode_header(bytes, true)
}

/// Number of bytes that a file header with this view takes.
pub open spec fn file_header_length(h: HeaderView) -> int {
    header_length(18, h.signed())
}

/// Number of bytes that a share header with this view takes.
pub open spec fn share_header_length(h: HeaderView) -> int {
    header_length(20, h.signed())
}

impl Header {
    /// Whether the header carries a key and a signature.
    pub fn is_signed(&self) -> (signed: bool)
        ensures
            signed == self@.signed(),
    {
        self.seal.is_some()
    }

    /// Length of this header in a file container; the payload starts there.
    pub fn file_length(&self) -> (len: usize)
        ensures
            len == file_header_length(self@),
    {
        if self.seal.is_some() {
            HEADER_LENGTH_FILE + SEAL_LENGTH
        } else {
            HEADER_LENGTH_FILE
        }
    }

    /// Length of this header in a share container; the payload starts there.
    pub fn share_length(&self) -> (len: usize)
        ensures
            len == share_header_length(self@),
    {
        if self.seal.is_some() {
            HEADER_LENGTH_SHARE + SEAL_LENGTH
        } else {
            HEADER_LENGTH_SHARE
        }
    }
}

/// The header bytes of an encrypted file, by the signed byte alone: what
/// `is_encrypted` returns.
pub open spec fn encrypted_prefix(file: Seq<u8>) -> Result<Seq<u8>, FormatError> {
    if file.len() < 18 {
        Err(FormatError::Truncated)
    } else if file.subrange(0, 3) != file_magic() {
        Err(FormatError::MissingMagic)
    } else if file[5] == 0 {
        Ok(file.subrange(0, 18))
    } else if file.len() < 114 {
        Err(FormatError::Truncated)
    } else {
        Ok(file.subrange(0, 114))
    }
}

/// Tells whether `file` is an encrypted container and returns its header
/// bytes if it is. Key and signature are not examined.
pub fn is_encrypted(file: &Vec<u8>) -> (res: Result<Vec<u8>, FormatError>)
    ensures
        match res {
            Ok(header) => encrypted_prefix(file@) == Ok::<Seq<u8>, FormatError>(header@),
            Err(e) => encrypted_prefix(file@) == Err::<Seq<u8>, FormatError>(e),
        },
{
    let bytes = file.as_slice();
    if bytes.len() < HEADER_LENGTH_FILE {
        return Err(FormatError::Truncated);
    }
    if !starts_with_magic(bytes, false) {
        return Err(FormatError::MissingMagic);
    }
    if bytes[5] == 0 {
        return Ok(copy_range(bytes, 0, HEADER_LENGTH_FILE));
    }
    if bytes.len() < HEADER_LENGTH_FILE + SEAL_LENGTH {
        return Err(FormatError::Truncated);
    }
    Ok(copy_range(bytes, 0, HEADER_LENGTH_FILE + SEAL_LENGTH))
}

/// Header round trip, file container: reading what was written for a valid
/// header gives that header back, whatever payload follows it.
pub proof fn lemma_file_header_round_trip(h: HeaderView, payload: Seq<u8>)
    requires
        h.valid(),
    ensures
        parsed_file_header(file_header_bytes(h) + payload) == Ok::<HeaderView, FormatError>(h),
        file_header_bytes(h).len() == file_header_length(h),
{
    let bytes = file_header_bytes(h) + payload;
    assert(bytes.subrange(0, 3) =~= file_magic());
    match h.seal {
        Some(s) => {
            assert(bytes.subrange(18, 50) =~= s.public_key);
            assert(parsed_file_header(bytes)->Ok_0 =~= h);
        },
        None => {
            assert(parsed_file_header(bytes)->Ok_0 =~= h);
        },
    }
}

/// Header round trip, share container: reading what was written for a valid
/// header gives that header back, whatever payload follows it.
pub proof fn lemma_share_header_round_trip(h: HeaderView, payload: Seq<u8>)
    requires
        h.valid(),
    ensures
        parsed_share_header(share_header_bytes(h) + payload) == Ok::<HeaderView, FormatError>(h),
        share_header_bytes(h).len() == share_header_length(h),
{
    let bytes = share_header_bytes(h) + payload;
    assert(bytes.subrange(0, 4) =~= share_magic());
    match h.seal {
        Some(s) => {
            assert(bytes.subrange(20, 52) =~= s.public_key);
            assert(parsed_share_header(bytes)->Ok_0 =~= h);
        },
        None => {
            assert(parsed_share_header(bytes)->Ok_0 =~= h);
        },
    }
}

} // verus!
