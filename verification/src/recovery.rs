//! What sealing promises of opening: a sealed set opens again with any
//! quorum of its own share files, whatever else lies beside them.

use vstd::prelude::*;
use crate::cipher::sealed;
use crate::container::{
    decrypting,
    file_container,
    file_header_for,
    is_fresh_sealed_set,
    is_sealed_from,
    is_sealed_set,
    opening,
    payload_of,
    sealing_error,
    seals_under,
    share_container,
    share_header_for,
    SealedSetView,
};
use crate::format::{
    lemma_file_header_round_trip,
    lemma_share_header_round_trip,
    parsed_file_header,
    share_header_bytes,
    FormatError,
    HeaderView,
};
use crate::reconcile::{
    candidate_step,
    gathering,
    share_of,
    share_reading,
    Policy,
    ShareFromFileView,
    ShareRejection,
    StepView,
};
use crate::shamir::{drawn_from, lemma_dealing_reconstructs};

verus! {

/// Every candidate is one of the set's share files or is not read as a share
/// of the set's file at all.
pub open spec fn candidates_usable(candidates: Seq<Seq<u8>>, set: SealedSetView) -> bool {
    forall|i: int|
        0 <= i < candidates.len() ==> set.shares.contains(#[trigger] candidates[i])
            || share_reading(candidates[i], set.nonce) is Err
}

/// The share files of the set that `picks` numbers are different files and
/// all of them are among the candidates.
pub open spec fn picks_present(picks: Seq<int>, candidates: Seq<Seq<u8>>, set: SealedSetView) -> bool {
    &&& picks.no_duplicates()
    &&& forall|i: int|
        0 <= i < picks.len() ==> 0 <= #[trigger] picks[i] < set.shares.len() && candidates.contains(
            set.shares[picks[i]],
        )
}

/// A share file reads back as the share that it was built from.
pub proof fn lemma_share_file_reads_back(
    threshold: u8,
    nonce: Seq<u8>,
    identity: Option<Seq<u8>>,
    share: Seq<u8>,
)
    requires
        share.len() >= 2,
        share_header_for(threshold, nonce, identity, share).valid(),
    ensures
        share_reading(share_container(threshold, nonce, identity, share), nonce) == Ok::<
            ShareFromFileView,
            ShareRejection,
        >(share_of(share_header_for(threshold, nonce, identity, share), share)),
{
    let h = share_header_for(threshold, nonce, identity, share);
    let contents = share_container(threshold, nonce, identity, share);
    lemma_share_header_round_trip(h, share);
    assert(contents.subrange(share_header_bytes(h).len() as int, contents.len() as int) =~= share);
}

/// A file container reads back as its header and its ciphertext.
pub proof fn lemma_file_reads_back(
    threshold: u8,
    nonce: Seq<u8>,
    identity: Option<Seq<u8>>,
    ciphertext: Seq<u8>,
)
    requires
        file_header_for(threshold, nonce, identity, ciphertext).valid(),
    ensures
        parsed_file_header(file_container(threshold, nonce, identity, ciphertext)) == Ok::<
            HeaderView,
            FormatError,
        >(file_header_for(threshold, nonce, identity, ciphertext)),
        payload_of(
            file_container(threshold, nonce, identity, ciphertext),
            file_header_for(threshold, nonce, identity, ciphertext),
        ) == ciphertext,
{
    let h = file_header_for(threshold, nonce, identity, ciphertext);
    lemma_file_header_round_trip(h, ciphertext);
}

/// A share file of the set is taken into the pool as the share it holds, and
/// leaves the threshold in use as it is. In strict mode this is stated for
/// unsigned sets only: nothing is assumed here of what verification answers
/// to a signature that was just made.
pub proof fn lemma_own_share_is_taken(
    threshold: u8,
    nonce: Seq<u8>,
    identity: Option<Seq<u8>>,
    ciphertext: Seq<u8>,
    share: Seq<u8>,
    policy: Policy,
)
    requires
        share.len() >= 2,
        share_header_for(threshold, nonce, identity, share).valid(),
        !policy.strict || identity is None,
    ensures
        candidate_step(
            threshold,
            file_header_for(threshold, nonce, identity, ciphertext),
            share_container(threshold, nonce, identity, share),
            policy,
        ) matches StepView::Take { threshold: next, share: taken, notes } && next == threshold
            && taken == share,
{
    lemma_share_file_reads_back(threshold, nonce, identity, share);
}

/// The scan of usable candidates for a sealed set is never stopped; it keeps
/// the file's threshold, and its pool holds shares of the dealing only, among
/// them the share of every share file that is among the candidates.
proof fn lemma_scan_of_usable_candidates(
    set: SealedSetView,
    raw: Seq<Seq<u8>>,
    key: Seq<u8>,
    nonce: Seq<u8>,
    identity: Option<Seq<u8>>,
    threshold: u8,
    players: u8,
    plaintext: Seq<u8>,
    candidates: Seq<Seq<u8>>,
    policy: Policy,
)
    requires
        key.len() >= 1,
        is_sealed_from(set, raw, key, nonce, identity, threshold, players, plaintext),
        candidates_usable(candidates, set),
        !policy.strict || identity is None,
    ensures
        gathering(
            threshold,
            file_header_for(threshold, nonce, identity, sealed(key, nonce, plaintext)),
            candidates,
            policy,
        ) matches Ok(pool) && pool.threshold == threshold && drawn_from(pool.shares, raw)
            && forall|j: int|
            0 <= j < raw.len() && candidates.contains(#[trigger] set.shares[j])
                ==> pool.shares.contains(raw[j]),
    decreases candidates.len(),
{
    let file = file_header_for(threshold, nonce, identity, sealed(key, nonce, plaintext));
    if candidates.len() > 0 {
        let front = candidates.drop_last();
        let last = candidates.last();
        lemma_scan_of_usable_candidates(
            set,
            raw,
            key,
            nonce,
            identity,
            threshold,
            players,
            plaintext,
            front,
            policy,
        );
        let before = gathering(threshold, file, front, policy)->Ok_0;
        let after = gathering(threshold, file, candidates, policy);
        if set.shares.contains(last) {
            let k = choose|k: int| 0 <= k < set.shares.len() && set.shares[k] == last;
            lemma_own_share_is_taken(
                threshold,
                nonce,
                identity,
                sealed(key, nonce, plaintext),
                raw[k],
                policy,
            );
            let pool = after->Ok_0;
            assert forall|j: int|
                0 <= j < raw.len() && candidates.contains(
                    #[trigger] set.shares[j],
                ) implies pool.shares.contains(raw[j]) by {
                let at = choose|at: int| 0 <= at < candidates.len() && candidates[at] == set.shares[j];
                if at < front.len() {
                    assert(front[at] == set.shares[j]);
                    let w = choose|w: int| 0 <= w < before.shares.len() && before.shares[w] == raw[j];
                    assert(pool.shares[w] == raw[j]);
                } else {
                    lemma_share_file_reads_back(threshold, nonce, identity, raw[k]);
                    lemma_share_file_reads_back(threshold, nonce, identity, raw[j]);
                    assert(pool.shares[before.shares.len() as int] == raw[j]);
                }
            }
        } else {
            assert forall|j: int|
                0 <= j < raw.len() && candidates.contains(
                    #[trigger] set.shares[j],
                ) implies before.shares.contains(raw[j]) by {
                let at = choose|at: int| 0 <= at < candidates.len() && candidates[at] == set.shares[j];
                assert(front[at] == set.shares[j]);
            }
        }
    }
}

/// Sealing and opening are inverses: a sealed set opens to its payload with
/// any candidates that hold at least `threshold` different share files of the
/// set and, besides, only files that are not read as shares of its file, or
/// further copies of its share files. `picks` numbers share files that are
/// present. In strict mode this is stated for unsigned sets only.
pub proof fn lemma_sealed_set_opens(
    set: SealedSetView,
    key: Seq<u8>,
    nonce: Seq<u8>,
    identity: Option<Seq<u8>>,
    threshold: u8,
    players: u8,
    plaintext: Seq<u8>,
    candidates: Seq<Seq<u8>>,
    picks: Seq<int>,
    policy: Policy,
)
    requires
        key.len() == 32,
        sealing_error(key, nonce, threshold, players, plaintext) is None,
        is_sealed_set(set, key, nonce, identity, threshold, players, plaintext),
        candidates_usable(candidates, set),
        picks_present(picks, candidates, set),
        picks.len() >= threshold,
        !policy.strict || identity is None,
    ensures
        decrypting(set.file, candidates, policy) matches Ok(o) && o.plaintext == plaintext,
{
    let raw = choose|raw: Seq<Seq<u8>>| #[trigger]
        is_sealed_from(set, raw, key, nonce, identity, threshold, players, plaintext);
    let ciphertext = sealed(key, nonce, plaintext);
    let file = file_header_for(threshold, nonce, identity, ciphertext);
    lemma_file_reads_back(threshold, nonce, identity, ciphertext);
    lemma_scan_of_usable_candidates(
        set,
        raw,
        key,
        nonce,
        identity,
        threshold,
        players,
        plaintext,
        candidates,
        policy,
    );
    let pool = gathering(threshold, file, candidates, policy)->Ok_0;
    lemma_dealing_reconstructs(raw, key, threshold, players, pool.shares, picks);
    assert(opening(file, ciphertext, pool, policy.strict) matches Ok(o) && o.plaintext
        == plaintext);
}

/// What was sealed under fresh material opens again: a set that `encrypt`
/// hands out opens to its payload with any candidates that hold at least
/// `threshold` different share files of the set and, besides, only files that
/// are not read as shares of its file, or further copies of its share files.
/// In strict mode this is stated for unsigned sets only.
pub proof fn lemma_fresh_set_opens(
    set: SealedSetView,
    threshold: u8,
    players: u8,
    sign: bool,
    plaintext: Seq<u8>,
    candidates: Seq<Seq<u8>>,
    picks: Seq<int>,
    policy: Policy,
)
    requires
        is_fresh_sealed_set(set, threshold, players, sign, plaintext),
        candidates_usable(candidates, set),
        picks_present(picks, candidates, set),
        picks.len() >= threshold,
        !policy.strict || !sign,
    ensures
        decrypting(set.file, candidates, policy) matches Ok(o) && o.plaintext == plaintext,
{
    let (key, identity) = choose|key: Seq<u8>, identity: Option<Seq<u8>>| #[trigger]
        seals_under(set, key, identity, threshold, players, sign, plaintext);
    lemma_sealed_set_opens(
        set,
        key,
        set.nonce,
        identity,
        threshold,
        players,
        plaintext,
        candidates,
        picks,
        policy,
    );
}

} // verus!
