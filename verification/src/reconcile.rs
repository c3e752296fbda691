//! Share reconciliation: reading candidate share files, matching them to the
//! encrypted file, resolving disagreements by policy, and building the pool
//! from which the key is reconstructed.
//!
//! Each candidate goes through the same steps: it is read as a share
//! container, matched to the file by its nonce, its threshold is compared,
//! its signature is checked where file and share are both signed, and it is
//! taken into the pool. A candidate that cannot be used is skipped and the
//! scan goes on; only a policy can stop the whole operation.

use vstd::prelude::*;
use crate::bytes::{byte_strings, bytes_equal, copy_range};
use crate::format::{
    decode_share_header,
    parsed_share_header,
    share_fields,
    share_header_length,
    share_magic,
    FormatError,
    Header,
    HeaderView,
    HEADER_LENGTH_SHARE,
};
use crate::signing::{signable, signature_accepted, verify_share_fields};

verus! {

/// Why a candidate is not a share of the file.
#[derive(Clone, Copy, Debug, PartialEq, Eq, Structural)]
pub enum ShareRejection {
    /// Shorter than a share header.
    Malformed,
    /// Does not start with the share magic.
    NotAShare,
    /// A share of another file: the nonce differs.
    WrongFile,
    /// The signed part of the header is short or does not parse.
    Format(FormatError),
    /// Fewer than two bytes of share data.
    CorruptShare,
}

/// What a share file holds.
#[derive(Clone, Debug, PartialEq, Eq)]
pub struct ShareFromFile {
    pub version: u8,
    pub threshold: u8,
    pub is_signed: bool,
    pub nonce: Vec<u8>,
    pub pub_key: Option<Vec<u8>>,
    pub signature: Option<Vec<u8>>,
    pub share_data: Vec<u8>,
}

/// What a share file holds, as plain values.
#[verifier::ext_equal]
pub struct ShareFromFileView {
    pub version: u8,
    pub threshold: u8,
    pub is_signed: bool,
    pub nonce: Seq<u8>,
    pub pub_key: Option<Seq<u8>>,
    pub signature: Option<Seq<u8>>,
    pub share_data: Seq<u8>,
}

/// An optional byte string as plain values.
pub open spec fn optional_bytes(bytes: Option<Vec<u8>>) -> Option<Seq<u8>> {
    match bytes {
        Some(b) => Some(b@),
        None => None,
    }
}

impl View for ShareFromFile {
    type V = ShareFromFileView;

    open spec fn view(&self) -> ShareFromFileView {
        ShareFromFileView {
            version: self.version,
            threshold: self.threshold,
            is_signed: self.is_signed,
            nonce: self.nonce@,
            pub_key: optional_bytes(self.pub_key),
            signature: optional_bytes(self.signature),
            share_data: self.share_data@,
        }
    }
}

/// The share with the header `h` and the data `body`.
pub open spec fn share_of(h: HeaderView, body: Seq<u8>) -> ShareFromFileView {
    ShareFromFileView {
        version: h.version,
        threshold: h.threshold,
        is_signed: h.signed(),
        nonce: h.nonce,
        pub_key: match h.seal {
            Some(s) => Some(s.public_key),
            None => None,
        },
        signature: match h.seal {
            Some(s) => Some(s.signature),
            None => None,
        },
        share_data: body,
    }
}

/// What the bytes of a candidate give for a file with the nonce `nonce`.
///
/// In this order: too short for a share header; not starting with the share
/// magic; a nonce that is not the file's; a signed part that is short or does
/// not parse; share data of fewer than two bytes.
pub open spec fn share_reading(contents: Seq<u8>, nonce: Seq<u8>) -> Result<
    ShareFromFileView,
    ShareRejection,
> {
    if contents.len() < 20 {
        Err(ShareRejection::Malformed)
    } else if contents.subrange(0, 4) != share_magic() {
        Err(ShareRejection::NotAShare)
    } else if contents.subrange(7, 19) != nonce {
        Err(ShareRejection::WrongFile)
    } else {
        match parsed_share_header(contents) {
            Err(e) => Err(ShareRejection::Format(e)),
            Ok(h) => {
                let body = contents.subrange(share_header_length(h), contents.len() as int);
                if body.len() < 2 {
                    Err(ShareRejection::CorruptShare)
                } else {
                    Ok(share_of(h, body))
                }
            },
        }
    }
}

/// The result of `share_from_file` as plain values.
pub open spec fn share_result_view(res: Result<ShareFromFile, ShareRejection>) -> Result<
    ShareFromFileView,
    ShareRejection,
> {
    match res {
        Ok(s) => Ok(s@),
        Err(e) => Err(e),
    }
}

/// Reads the contents of a candidate file as a share of the file whose
/// nonce is `nonce`.
pub fn share_from_file(contents: &[u8], nonce: &[u8]) -> (res: Result<ShareFromFile, ShareRejection>)
    ensures
        share_result_view(res) == share_reading(contents@, nonce@),
{
    if contents.len() < HEADER_LENGTH_SHARE {
        return Err(ShareRejection::Malformed);
    }
    let decoded = decode_share_header(contents);
    match decoded {
        Err(FormatError::MissingMagic) => {
            return Err(ShareRejection::NotAShare);
        },
        _ => {},
    }
    let share_nonce = copy_range(contents, 7, 19);
    if !bytes_equal(share_nonce.as_slice(), nonce) {
        return Err(ShareRejection::WrongFile);
    }
    let header = match decoded {
        Ok(h) => h,
        Err(e) => {
            return Err(ShareRejection::Format(e));
        },
    };
    let start = header.share_length();
    let share_data = copy_range(contents, start, contents.len());
    if share_data.len() < 2 {
        return Err(ShareRejection::CorruptShare);
    }
    let Header { version, threshold, nonce, seal } = header;
    let (is_signed, pub_key, signature) = match seal {
        Some(s) => (true, Some(s.public_key), Some(s.signature)),
        None => (false, None, None),
    };
    let share = ShareFromFile { version, threshold, is_signed, nonce, pub_key, signature, share_data };
    Ok(share)
}

/// What the cross-check of a share's signature against the file found. All
/// false: nothing.
#[derive(Clone, Copy, Debug, PartialEq, Eq, Structural)]
pub struct SignatureFindings {
    /// The share has no public key; nothing else was checked.
    pub missing_public_key: bool,
    /// The share has no signature; nothing else was checked.
    pub missing_signature: bool,
    /// The share says it is signed and the file is not.
    pub file_not_signed: bool,
    /// The share's public key is not the file's.
    pub key_mismatch: bool,
    /// The share's own key does not accept the share's signature.
    pub verification_failed: bool,
}

impl SignatureFindings {
    /// Nothing found.
    pub open spec fn none() -> SignatureFindings {
        SignatureFindings {
            missing_public_key: false,
            missing_signature: false,
            file_not_signed: false,
            key_mismatch: false,
            verification_failed: false,
        }
    }

    /// Whether anything was found: a signing mismatch.
    pub open spec fn any(self) -> bool {
        self.missing_public_key || self.missing_signature || self.file_not_signed
            || self.key_mismatch || self.verification_failed
    }

    /// Nothing found.
    pub fn clean() -> (findings: SignatureFindings)
        ensures
            findings == SignatureFindings::none(),
    {
        SignatureFindings {
            missing_public_key: false,
            missing_signature: false,
            file_not_signed: false,
            key_mismatch: false,
            verification_failed: false,
        }
    }

    /// Whether anything was found.
    pub fn is_mismatch(&self) -> (found: bool)
        ensures
            found == self.any(),
    {
        self.missing_public_key || self.missing_signature || self.file_not_signed
            || self.key_mismatch || self.verification_failed
    }
}

/// The verdict on a share's signature.
#[derive(Clone, Copy, Debug, PartialEq, Eq, Structural)]
pub enum SignatureVerdict {
    /// Key and signature agree with the file.
    Verified,
    /// A mismatch, surfaced; the share may still be used.
    Warned(SignatureFindings),
    /// A mismatch in strict mode; the operation stops.
    Refused(SignatureFindings),
}

/// Whether the share's own key accepts the share's signature over the bytes
/// built from the share's parsed fields: magic, version, threshold, the
/// signed byte 1, nonce, key and share data. The padding byte is not among
/// them.
pub open spec fn share_verifies(shf: ShareFromFileView, public_key: Seq<u8>, signature: Seq<u8>) -> bool {
    signature_accepted(
        public_key,
        signable(share_fields(shf.version, shf.threshold, true, shf.nonce), public_key, shf.share_data),
        signature,
    )
}

/// What the cross-check finds, given whether the share's signature is
/// accepted. A share without key or without signature is reported as that
/// and nothing else.
pub open spec fn findings_given(
    file_signed: bool,
    file_key: Seq<u8>,
    shf: ShareFromFileView,
    accepted: bool,
) -> SignatureFindings {
    match (shf.pub_key, shf.signature) {
        (None, _) => SignatureFindings { missing_public_key: true, ..SignatureFindings::none() },
        (Some(_), None) => SignatureFindings { missing_signature: true, ..SignatureFindings::none() },
        (Some(key), Some(_)) => SignatureFindings {
            missing_public_key: false,
            missing_signature: false,
            file_not_signed: !file_signed && shf.is_signed,
            key_mismatch: key != file_key,
            verification_failed: shf.is_signed && !accepted,
        },
    }
}

/// What the cross-check of a share against the file's key finds.
pub open spec fn signature_findings(
    file_signed: bool,
    file_key: Seq<u8>,
    shf: ShareFromFileView,
) -> SignatureFindings {
    match (shf.pub_key, shf.signature) {
        (Some(key), Some(signature)) => findings_given(
            file_signed,
            file_key,
            shf,
            share_verifies(shf, key, signature),
        ),
        _ => findings_given(file_signed, file_key, shf, false),
    }
}

/// The verdict that findings give: any finding refuses the share in strict
/// mode and is a warning otherwise.
pub open spec fn verdict_of(findings: SignatureFindings, strict: bool) -> SignatureVerdict {
    if !findings.any() {
        SignatureVerdict::Verified
    } else if strict {
        SignatureVerdict::Refused(findings)
    } else {
        SignatureVerdict::Warned(findings)
    }
}

/// The cross-check once the share's signature has been verified or not:
/// the findings for that answer.
pub fn signature_cross_check(
    is_signed: bool,
    pub_key: &[u8],
    shf: &ShareFromFile,
    accepted: bool,
) -> (findings: SignatureFindings)
    ensures
        findings == findings_given(is_signed, pub_key@, shf@, accepted),
{
    let share_key = match &shf.pub_key {
        Some(key) => key,
        None => {
            let mut findings = SignatureFindings::clean();
            findings.missing_public_key = true;
            return findings;
        },
    };
    if shf.signature.is_none() {
        let mut findings = SignatureFindings::clean();
        findings.missing_signature = true;
        return findings;
    }
    let mut findings = SignatureFindings::clean();
    if !is_signed && shf.is_signed {
        findings.file_not_signed = true;
    }
    if !bytes_equal(share_key.as_slice(), pub_key) {
        findings.key_mismatch = true;
    }
    if shf.is_signed && !accepted {
        findings.verification_failed = true;
    }
    findings
}

/// Checks a share's signature against the file: the share must verify
/// against its own key and signature, and its key must be the file's.
///
/// `is_signed` says whether the file is signed and `pub_key` is the file's
/// public key. Either check failing is a signing mismatch; in strict mode a
/// mismatch refuses the share, otherwise it is a warning.
pub fn share_signature_verification(
    is_signed: bool,
    pub_key: &[u8],
    shf: &ShareFromFile,
    strict: bool,
) -> (verdict: SignatureVerdict)
    ensures
        verdict == verdict_of(signature_findings(is_signed, pub_key@, shf@), strict),
{
    let accepted = match (&shf.pub_key, &shf.signature) {
        (Some(key), Some(signature)) => verify_share_fields(
            shf.version,
            shf.threshold,
            shf.nonce.as_slice(),
            key.as_slice(),
            signature.as_slice(),
            shf.share_data.as_slice(),
        ),
        _ => false,
    };
    let findings = signature_cross_check(is_signed, pub_key, shf, accepted);
    if !findings.is_mismatch() {
        SignatureVerdict::Verified
    } else if strict {
        SignatureVerdict::Refused(findings)
    } else {
        SignatureVerdict::Warned(findings)
    }
}

/// What to do when a share records another threshold than the one in use.
#[derive(Clone, Copy, Debug, PartialEq, Eq, Structural)]
pub enum ThresholdPolicy {
    /// Go on with the threshold in use.
    UseFile,
    /// Go on with the threshold that the operator supplied.
    Override(u8),
    /// Stop the operation.
    Abort,
}

/// The decisions that the operator made before the scan.
#[derive(Clone, Copy, Debug, PartialEq, Eq, Structural)]
pub struct Policy {
    /// Strict mode: a signing mismatch stops the operation.
    pub strict: bool,
    pub on_threshold_mismatch: ThresholdPolicy,
}

/// Why a scan was stopped.
#[derive(Clone, Copy, Debug, PartialEq, Eq, Structural)]
pub enum AbortReason {
    /// A share recorded another threshold and the policy is to abort.
    ThresholdMismatch,
    /// A signing mismatch in strict mode.
    SignatureMismatch,
}

/// What was noticed about a candidate that is a share of the file.
#[derive(Clone, Copy, Debug, PartialEq, Eq, Structural)]
pub struct ShareNotes {
    /// The threshold that the share records.
    pub share_threshold: u8,
    /// The share's threshold is not the one that was in use.
    pub threshold_mismatch: bool,
    /// One of file and share is signed and the other is not. This is only
    /// noted: such a share is used, in strict mode too.
    pub signedness_differs: bool,
    /// The signature cross-check, made when file and share are both signed.
    pub findings: SignatureFindings,
}

/// What becomes of one candidate.
#[derive(Clone, Debug, PartialEq, Eq)]
pub enum CandidateStep {
    /// Not a usable share of this file: left out, the scan goes on.
    Skip(ShareRejection),
    /// Taken into the pool; `threshold` is the threshold in use from now on.
    Take { threshold: u8, share: Vec<u8>, notes: ShareNotes },
    /// The operation stops here.
    Stop { reason: AbortReason, notes: ShareNotes },
}

/// What becomes of one candidate, as plain values.
#[verifier::ext_equal]
pub enum StepView {
    Skip(ShareRejection),
    Take { threshold: u8, share: Seq<u8>, notes: ShareNotes },
    Stop { reason: AbortReason, notes: ShareNotes },
}

impl View for CandidateStep {
    type V = StepView;

    open spec fn view(&self) -> StepView {
        match *self {
            CandidateStep::Skip(r) => StepView::Skip(r),
            CandidateStep::Take { threshold, share, notes } => StepView::Take {
                threshold,
                share: share@,
                notes,
            },
            CandidateStep::Stop { reason, notes } => StepView::Stop { reason, notes },
        }
    }
}

/// The threshold in use after a share was compared with it.
pub open spec fn resolved_threshold(in_use: u8, share_threshold: u8, policy: ThresholdPolicy) -> u8 {
    match policy {
        ThresholdPolicy::Override(chosen) if share_threshold != in_use => chosen,
        _ => in_use,
    }
}

/// The notes on a share of the file.
pub open spec fn notes_on(in_use: u8, file: HeaderView, shf: ShareFromFileView) -> ShareNotes {
    ShareNotes {
        share_threshold: shf.threshold,
        threshold_mismatch: shf.threshold != in_use,
        signedness_differs: file.signed() != shf.is_signed,
        findings: match file.seal {
            Some(seal) if shf.is_signed => signature_findings(true, seal.public_key, shf),
            _ => SignatureFindings::none(),
        },
    }
}

/// What becomes of a share of the file, by its notes: a threshold mismatch
/// stops the operation if the policy is to abort; then a signing mismatch
/// stops it in strict mode; otherwise the share is taken.
pub open spec fn share_step(in_use: u8, share: Seq<u8>, notes: ShareNotes, policy: Policy) -> StepView {
    if notes.threshold_mismatch && policy.on_threshold_mismatch is Abort {
        StepView::Stop { reason: AbortReason::ThresholdMismatch, notes }
    } else if policy.strict && notes.findings.any() {
        StepView::Stop { reason: AbortReason::SignatureMismatch, notes }
    } else {
        StepView::Take {
            threshold: resolved_threshold(in_use, notes.share_threshold, policy.on_threshold_mismatch),
            share,
            notes,
        }
    }
}

/// What becomes of a candidate with the contents `contents` while the
/// threshold `in_use` is in use.
pub open spec fn candidate_step(
    in_use: u8,
    file: HeaderView,
    contents: Seq<u8>,
    policy: Policy,
) -> StepView {
    match share_reading(contents, file.nonce) {
        Err(rejection) => StepView::Skip(rejection),
        Ok(shf) => share_step(in_use, shf.share_data, notes_on(in_use, file, shf), policy),
    }
}

/// Decides over a share that was read from a candidate, by the policy.
pub fn decide_share(
    in_use: u8,
    share: Vec<u8>,
    notes: ShareNotes,
    policy: &Policy,
) -> (step: CandidateStep)
    ensures
        step@ == share_step(in_use, share@, notes, *policy),
{
    if notes.threshold_mismatch {
        match policy.on_threshold_mismatch {
            ThresholdPolicy::Abort => {
                return CandidateStep::Stop { reason: AbortReason::ThresholdMismatch, notes };
            },
            _ => {},
        }
    }
    if policy.strict && notes.findings.is_mismatch() {
        return CandidateStep::Stop { reason: AbortReason::SignatureMismatch, notes };
    }
    let threshold = if notes.share_threshold != in_use {
        match policy.on_threshold_mismatch {
            ThresholdPolicy::Override(chosen) => chosen,
            _ => in_use,
        }
    } else {
        in_use
    };
    CandidateStep::Take { threshold, share, notes }
}

/// Takes one candidate through the protocol: read, match to the file,
/// compare the threshold, check the signature, decide.
pub fn examine_candidate(
    in_use: u8,
    file: &Header,
    contents: &[u8],
    policy: &Policy,
) -> (step: CandidateStep)
    ensures
        step@ == candidate_step(in_use, file@, contents@, *policy),
{
    let shf = match share_from_file(contents, file.nonce.as_slice()) {
        Ok(shf) => shf,
        Err(rejection) => {
            return CandidateStep::Skip(rejection);
        },
    };
    let findings = match &file.seal {
        Some(seal) => {
            if shf.is_signed {
                match share_signature_verification(true, seal.public_key.as_slice(), &shf, false) {
                    SignatureVerdict::Verified => SignatureFindings::clean(),
                    SignatureVerdict::Warned(found) => found,
                    SignatureVerdict::Refused(found) => found,
                }
            } else {
                SignatureFindings::clean()
            }
        },
        None => SignatureFindings::clean(),
    };
    let notes = ShareNotes {
        share_threshold: shf.threshold,
        threshold_mismatch: shf.threshold != in_use,
        signedness_differs: file.seal.is_some() != shf.is_signed,
        findings,
    };
    decide_share(in_use, shf.share_data, notes, policy)
}

/// The shares that were taken and the threshold that is in use.
#[derive(Clone, Debug, PartialEq, Eq)]
pub struct SharePool {
    pub threshold: u8,
    pub shares: Vec<Vec<u8>>,
}

/// A pool as plain values.
#[verifier::ext_equal]
pub struct PoolView {
    pub threshold: u8,
    pub shares: Seq<Seq<u8>>,
}

impl View for SharePool {
    type V = PoolView;

    open spec fn view(&self) -> PoolView {
        PoolView { threshold: self.threshold, shares: byte_strings(self.shares@) }
    }
}

/// The pool after one more candidate, or why the scan stopped at it.
pub open spec fn pool_after(pool: PoolView, step: StepView) -> Result<PoolView, AbortReason> {
    match step {
        StepView::Skip(_) => Ok(pool),
        StepView::Take { threshold, share, notes } => Ok(
            PoolView { threshold, shares: pool.shares.push(share) },
        ),
        StepView::Stop { reason, notes } => Err(reason),
    }
}

/// The pool that a scan of `candidates`, in order, builds from an empty pool
/// with the threshold `threshold`, or why it stopped. Every candidate is
/// examined unless an earlier one stopped the operation.
pub open spec fn gathering(
    threshold: u8,
    file: HeaderView,
    candidates: Seq<Seq<u8>>,
    policy: Policy,
) -> Result<PoolView, AbortReason>
    decreases candidates.len(),
{
    if candidates.len() == 0 {
        Ok(PoolView { threshold, shares: Seq::<Seq<u8>>::empty() })
    } else {
        match gathering(threshold, file, candidates.drop_last(), policy) {
            Err(reason) => Err(reason),
            Ok(pool) => pool_after(
                pool,
                candidate_step(pool.threshold, file, candidates.last(), policy),
            ),
        }
    }
}

/// What was noticed about one candidate of a scan.
#[derive(Clone, Copy, Debug, PartialEq, Eq, Structural)]
pub enum Outcome {
    Skipped(ShareRejection),
    Taken(ShareNotes),
    Stopped(AbortReason, ShareNotes),
}

/// The outcome that a step leaves behind.
pub open spec fn outcome_of(step: StepView) -> Outcome {
    match step {
        StepView::Skip(rejection) => Outcome::Skipped(rejection),
        StepView::Take { threshold, share, notes } => Outcome::Taken(notes),
        StepView::Stop { reason, notes } => Outcome::Stopped(reason, notes),
    }
}

/// The threshold in use when candidate `index` is examined.
pub open spec fn threshold_at(
    threshold: u8,
    file: HeaderView,
    candidates: Seq<Seq<u8>>,
    policy: Policy,
    index: int,
) -> u8 {
    match gathering(threshold, file, candidates.take(index), policy) {
        Ok(pool) => pool.threshold,
        Err(_) => threshold,
    }
}

/// The outcome of candidate `index` of a scan.
pub open spec fn outcome_at(
    threshold: u8,
    file: HeaderView,
    candidates: Seq<Seq<u8>>,
    policy: Policy,
    index: int,
) -> Outcome {
    outcome_of(
        candidate_step(
            threshold_at(threshold, file, candidates, policy, index),
            file,
            candidates[index],
            policy,
        ),
    )
}

/// What a scan leaves behind: the pool, if the scan was not stopped, and the
/// outcome of every candidate that was examined, in order. A scan that was
/// stopped has the stopping candidate's outcome last.
#[derive(Debug, PartialEq, Eq)]
pub struct Scan {
    pub pool: Result<SharePool, AbortReason>,
    pub outcomes: Vec<Outcome>,
}

/// The pool of a scan as plain values.
pub open spec fn pool_result_view(pool: Result<SharePool, AbortReason>) -> Result<
    PoolView,
    AbortReason,
> {
    match pool {
        Ok(p) => Ok(p@),
        Err(reason) => Err(reason),
    }
}

/// The scan of `candidates` stops at candidate `index`: the candidates before
/// it are scanned without a stop, and with it the scan is stopped.
pub open spec fn stopped_at(
    threshold: u8,
    file: HeaderView,
    candidates: Seq<Seq<u8>>,
    policy: Policy,
    index: int,
) -> bool {
    &&& 0 <= index < candidates.len()
    &&& gathering(threshold, file, candidates.take(index), policy) is Ok
    &&& gathering(threshold, file, candidates.take(index + 1), policy) is Err
}

/// Scans all candidates in order, starting from the file's threshold.
///
/// A candidate that is skipped never ends the scan. The scan ends early only
/// where the policy stops the operation; the outcomes then end with that of
/// the candidate at which it stopped, and no later candidate is examined.
pub fn gather_shares(file: &Header, candidates: &Vec<Vec<u8>>, policy: &Policy) -> (scan: Scan)
    ensures
        pool_result_view(scan.pool) == gathering(
            file.threshold,
            file@,
            byte_strings(candidates@),
            *policy,
        ),
        scan.pool is Ok ==> scan.outcomes@.len() == candidates@.len(),
        scan.pool is Err ==> 1 <= scan.outcomes@.len() <= candidates@.len(),
        scan.pool is Err ==> stopped_at(
            file.threshold,
            file@,
            byte_strings(candidates@),
            *policy,
            scan.outcomes@.len() - 1,
        ),
        forall|i: int|
            0 <= i < scan.outcomes@.len() ==> #[trigger] scan.outcomes@[i] == outcome_at(
                file.threshold,
                file@,
                byte_strings(candidates@),
                *policy,
                i,
            ),
{
    let ghost all = byte_strings(candidates@);
    let mut pool = SharePool { threshold: file.threshold, shares: Vec::new() };
    let mut outcomes: Vec<Outcome> = Vec::new();
    let mut i: usize = 0;
    assert(pool@ =~= gathering(file.threshold, file@, all.take(0), *policy)->Ok_0);
    while i < candidates.len()
        invariant
            i <= candidates@.len(),
            all == byte_strings(candidates@),
            outcomes@.len() == i,
            gathering(file.threshold, file@, all.take(i as int), *policy) == Ok::<
                PoolView,
                AbortReason,
            >(pool@),
            forall|k: int|
                0 <= k < i ==> #[trigger] outcomes@[k] == outcome_at(
                    file.threshold,
                    file@,
                    all,
                    *policy,
                    k,
                ),
        decreases candidates@.len() - i,
    {
        let ghost before = pool@;
        let step = examine_candidate(pool.threshold, file, candidates[i].as_slice(), policy);
        proof {
            assert(all.take(i + 1).drop_last() =~= all.take(i as int));
        }
        match step {
            CandidateStep::Skip(rejection) => {
                outcomes.push(Outcome::Skipped(rejection));
            },
            CandidateStep::Take { threshold, share, notes } => {
                pool.threshold = threshold;
                pool.shares.push(share);
                outcomes.push(Outcome::Taken(notes));
                assert(pool@ =~= pool_after(before, step@)->Ok_0);
            },
            CandidateStep::Stop { reason, notes } => {
                outcomes.push(Outcome::Stopped(reason, notes));
                proof {
                    lemma_stopped_stays_stopped(
                        file.threshold,
                        file@,
                        all,
                        *policy,
                        i + 1,
                    );
                }
                return Scan { pool: Err(reason), outcomes };
            },
        }
        i = i + 1;
    }
    assert(all.take(candidates@.len() as int) =~= all);
    Scan { pool: Ok(pool), outcomes }
}

/// Once a scan has stopped it stays stopped, for the same reason, however
/// many candidates follow.
pub proof fn lemma_stopped_stays_stopped(
    threshold: u8,
    file: HeaderView,
    candidates: Seq<Seq<u8>>,
    policy: Policy,
    upto: int,
)
    requires
        0 <= upto <= candidates.len(),
        gathering(threshold, file, candidates.take(upto), policy) is Err,
    ensures
        gathering(threshold, file, candidates, policy) == gathering(
            threshold,
            file,
            candidates.take(upto),
            policy,
        ),
    decreases candidates.len() - upto,
{
    if upto < candidates.len() {
        assert(candidates.take(upto + 1).drop_last() =~= candidates.take(upto));
        lemma_stopped_stays_stopped(threshold, file, candidates, policy, upto + 1);
    } else {
        assert(candidates.take(upto) =~= candidates);
    }
}

/// A candidate that is not read as a share of the file never ends the scan
/// and never counts: the pool after it is the pool before it. This holds for
/// every reason of rejection, a share of another file among them.
pub proof fn lemma_rejected_candidate_is_skipped(
    threshold: u8,
    file: HeaderView,
    candidates: Seq<Seq<u8>>,
    contents: Seq<u8>,
    policy: Policy,
)
    requires
        share_reading(contents, file.nonce) is Err,
    ensures
        gathering(threshold, file, candidates.push(contents), policy) == gathering(
            threshold,
            file,
            candidates,
            policy,
        ),
{
    let longer = candidates.push(contents);
    assert(longer.drop_last() =~= candidates);
}

/// Where file and share are both signed, the share's key is the file's and
/// the share's signature is accepted for the bytes built from its parsed
/// fields.
pub open spec fn cross_check_holds(file: HeaderView, shf: ShareFromFileView) -> bool {
    match (file.seal, shf.pub_key, shf.signature) {
        (Some(seal), Some(key), Some(signature)) => shf.is_signed ==> key == seal.public_key
            && share_verifies(shf, key, signature),
        (Some(_), _, _) => !shf.is_signed,
        (None, _, _) => true,
    }
}

/// In strict mode a share is taken only if the cross-check holds for it.
pub proof fn lemma_strict_takes_only_verified_shares(
    in_use: u8,
    file: HeaderView,
    contents: Seq<u8>,
    policy: Policy,
)
    requires
        policy.strict,
        candidate_step(in_use, file, contents, policy) is Take,
    ensures
        share_reading(contents, file.nonce) is Ok,
        cross_check_holds(file, share_reading(contents, file.nonce)->Ok_0),
{
}

} // verus!
