//! Key-split engine: splits a key into threshold shares and reconstructs it
//! from a quorum.
//!
//! The arithmetic is `sharks`'. A share is handled here by its wire form: one
//! identifier byte, then one byte for each byte of the secret.

use vstd::prelude::*;
use crate::bytes::{byte_strings, bytes_equal, copy_range, wipe};
use crate::key::KeyMaterial;

verus! {

/// A share count or a threshold that cannot be used.
#[derive(Clone, Copy, Debug, PartialEq, Eq, Structural)]
pub enum ConfigurationError {
    /// More shares are needed than are made.
    ThresholdExceedsPlayers,
    /// No share is made.
    ZeroPlayers,
    /// No share is needed.
    ZeroThreshold,
}

/// Why no key came out of a collection of shares.
#[derive(Clone, Copy, Debug, PartialEq, Eq, Structural)]
pub enum KeyError {
    /// Fewer shares with different identifiers than the threshold, or none.
    InsufficientShares,
    /// A share of fewer than two bytes, or shares of different lengths.
    CorruptShares,
}

/// Why a key was not split.
#[derive(Clone, Copy, Debug, PartialEq, Eq, Structural)]
pub enum SplitError {
    Configuration(ConfigurationError),
    /// The shares just made did not give the key back.
    InternalConsistency,
}

/// What `sharks::Sharks::recover` computes from shares in wire form: the
/// Lagrange interpolation at zero over their points, byte by byte.
pub uninterp spec fn interpolated_secret(shares: Seq<Seq<u8>>) -> Seq<u8>;

/// Every share has its identifier and at least one byte of data.
pub open spec fn all_well_formed(shares: Seq<Seq<u8>>) -> bool {
    forall|i: int| 0 <= i < shares.len() ==> (#[trigger] shares[i]).len() >= 2
}

/// Every share is as long as the first.
pub open spec fn uniform_length(shares: Seq<Seq<u8>>) -> bool {
    forall|i: int| 0 <= i < shares.len() ==> (#[trigger] shares[i]).len() == shares[0].len()
}

/// No two shares have the same identifier.
pub open spec fn distinct_ids(shares: Seq<Seq<u8>>) -> bool {
    forall|i: int, j: int|
        0 <= i < j < shares.len() ==> (#[trigger] shares[i])[0] != (#[trigger] shares[j])[0]
}

/// Some share has the identifier `id`.
pub open spec fn has_id(shares: Seq<Seq<u8>>, id: u8) -> bool {
    exists|i: int| 0 <= i < shares.len() && (#[trigger] shares[i])[0] == id
}

/// The shares without those whose identifier an earlier share already has.
pub open spec fn first_occurrences(shares: Seq<Seq<u8>>) -> Seq<Seq<u8>>
    decreases shares.len(),
{
    if shares.len() == 0 {
        Seq::<Seq<u8>>::empty()
    } else if has_id(shares.drop_last(), shares.last()[0]) {
        first_occurrences(shares.drop_last())
    } else {
        first_occurrences(shares.drop_last()).push(shares.last())
    }
}

/// Every picked share is one of `all`.
pub open spec fn drawn_from(picked: Seq<Seq<u8>>, all: Seq<Seq<u8>>) -> bool {
    forall|i: int| 0 <= i < picked.len() ==> all.contains(#[trigger] picked[i])
}

/// `picked` holds at least `threshold` shares of `all`, no identifier twice.
pub open spec fn is_quorum(picked: Seq<Seq<u8>>, all: Seq<Seq<u8>>, threshold: u8) -> bool {
    &&& picked.len() >= threshold
    &&& drawn_from(picked, all)
    &&& distinct_ids(picked)
}

/// `shares` is a dealing of `secret` to `players` holders with `threshold`:
/// share `i` has the identifier `i + 1` and one byte for each byte of the
/// secret, and every quorum drawn from the shares interpolates to the secret.
pub open spec fn dealt_from(
    shares: Seq<Seq<u8>>,
    secret: Seq<u8>,
    threshold: u8,
    players: u8,
) -> bool {
    &&& shares.len() == players
    &&& forall|i: int|
        0 <= i < shares.len() ==> (#[trigger] shares[i]).len() == secret.len() + 1 && shares[i][0]
            == i + 1
    &&& forall|picked: Seq<Seq<u8>>| #[trigger]
        is_quorum(picked, shares, threshold) ==> interpolated_secret(picked) == secret
}

/// The first reason, if any, for which `players` and `threshold` cannot be
/// used.
pub open spec fn configuration_error(players: u8, threshold: u8) -> Option<ConfigurationError> {
    if players < threshold {
        Some(ConfigurationError::ThresholdExceedsPlayers)
    } else if players < 1 {
        Some(ConfigurationError::ZeroPlayers)
    } else if threshold < 1 {
        Some(ConfigurationError::ZeroThreshold)
    } else {
        None
    }
}

/// What a collection of shares gives under `threshold`.
///
/// Fewer shares than the threshold, or none, are insufficient whatever they
/// hold. Then a share without data, or shares of different lengths, are
/// corrupt. Shares that repeat an identifier count once, the first one; if
/// fewer than the threshold are left they are insufficient, else the result
/// is the interpolation over those left.
pub open spec fn reconstruction(shares: Seq<Seq<u8>>, threshold: u8) -> Result<Seq<u8>, KeyError> {
    if shares.len() == 0 || shares.len() < threshold {
        Err(KeyError::InsufficientShares)
    } else if !all_well_formed(shares) || !uniform_length(shares) {
        Err(KeyError::CorruptShares)
    } else if first_occurrences(shares).len() < threshold {
        Err(KeyError::InsufficientShares)
    } else {
        Ok(interpolated_secret(first_occurrences(shares)))
    }
}

/// Calls `sharks::Sharks::dealer` for `secret` and takes the first `players`
/// shares in wire form. The polynomials are random, so two calls differ; the
/// dealer draws from the thread's generator, which the operating system
/// seeds when the thread first uses it.
/// Trusted, of every outcome: the shares are a dealing of `secret`. The
/// identifiers and lengths are what the evaluator's source shows; that a
/// quorum interpolates to the secret is what the crate documents of `recover`
/// on the shares of `dealer`.
#[verifier::external_body]
pub(crate) fn sharks_deal(threshold: u8, players: u8, secret: &[u8]) -> (shares: Vec<Vec<u8>>)
    requires
        1 <= threshold <= players,
        secret@.len() >= 1,
    ensures
        dealt_from(byte_strings(shares@), secret@, threshold, players),
{
    let mut shares = Vec::with_capacity(usize::from(players));
    for share in sharks::Sharks(threshold).dealer(secret).take(usize::from(players)) {
        shares.push(Vec::from(&share));
    }
    shares
}

/// Calls `sharks::Share::try_from` on each share and `sharks::Sharks::recover`
/// on the result. Trusted: on at least `threshold` well-formed shares of one
/// length with different identifiers, at least one, `recover` succeeds with
/// `interpolated_secret` of the shares, which has one byte for each data byte
/// of a share.
#[verifier::external_body]
pub(crate) fn sharks_recover(threshold: u8, shares: &Vec<Vec<u8>>) -> (secret: Option<Vec<u8>>)
    requires
        shares@.len() >= 1,
        shares@.len() >= threshold,
        all_well_formed(byte_strings(shares@)),
        uniform_length(byte_strings(shares@)),
        distinct_ids(byte_strings(shares@)),
    ensures
        secret is Some,
        secret matches Some(k) ==> k@ == interpolated_secret(byte_strings(shares@)),
        secret matches Some(k) ==> k@.len() + 1 == shares@[0]@.len(),
{
    let mut parsed: Vec<sharks::Share> = Vec::with_capacity(shares.len());
    for share in shares {
        match sharks::Share::try_from(share.as_slice()) {
            Ok(p) => parsed.push(p),
            Err(_) => return None,
        }
    }
    sharks::Sharks(threshold).recover(&parsed).ok()
}

/// Checks a share count and a threshold before any key is made.
pub fn check_configuration(players: u8, threshold: u8) -> (res: Result<(), ConfigurationError>)
    ensures
        match res {
            Ok(_) => configuration_error(players, threshold) is None,
            Err(e) => configuration_error(players, threshold) == Some(e),
        },
{
    if players < threshold {
        Err(ConfigurationError::ThresholdExceedsPlayers)
    } else if players < 1 {
        Err(ConfigurationError::ZeroPlayers)
    } else if threshold < 1 {
        Err(ConfigurationError::ZeroThreshold)
    } else {
        Ok(())
    }
}

/// An identifier occurs in a non-empty sequence when it occurs before the
/// last share or is the last share's.
proof fn lemma_has_id_last(shares: Seq<Seq<u8>>, id: u8)
    requires
        shares.len() > 0,
    ensures
        has_id(shares, id) <==> has_id(shares.drop_last(), id) || shares.last()[0] == id,
{
    let front = shares.drop_last();
    if has_id(shares, id) {
        let i = choose|i: int| 0 <= i < shares.len() && (#[trigger] shares[i])[0] == id;
        if i < shares.len() - 1 {
            assert(front[i][0] == id);
        }
    }
}

/// What is kept of a sequence of shares: shares of the sequence, no
/// identifier twice, every identifier of the sequence once.
pub proof fn lemma_first_occurrences(shares: Seq<Seq<u8>>)
    ensures
        first_occurrences(shares).len() <= shares.len(),
        drawn_from(first_occurrences(shares), shares),
        distinct_ids(first_occurrences(shares)),
        forall|id: u8| has_id(first_occurrences(shares), id) <==> has_id(shares, id),
        shares.len() > 0 ==> first_occurrences(shares).len() > 0 && first_occurrences(shares)[0]
            == shares[0],
    decreases shares.len(),
{
    let kept = first_occurrences(shares);
    if shares.len() > 0 {
        let front = shares.drop_last();
        let last = shares.last();
        let before = first_occurrences(front);
        lemma_first_occurrences(front);
        assert forall|id: u8| has_id(kept, id) <==> has_id(shares, id) by {
            lemma_has_id_last(shares, id);
            if !has_id(front, last[0]) {
                lemma_has_id_last(kept, id);
                assert(kept.drop_last() =~= before);
            }
        }
    }
}

/// Shares with different identifiers are all kept.
pub proof fn lemma_distinct_all_kept(shares: Seq<Seq<u8>>)
    requires
        distinct_ids(shares),
    ensures
        first_occurrences(shares) == shares,
    decreases shares.len(),
{
    if shares.len() > 0 {
        let front = shares.drop_last();
        lemma_distinct_all_kept(front);
    }
}

/// Copies of the shares whose identifier no earlier share has, in order.
pub fn keep_first_occurrences(shares: &Vec<Vec<u8>>) -> (kept: Vec<Vec<u8>>)
    requires
        all_well_formed(byte_strings(shares@)),
    ensures
        byte_strings(kept@) == first_occurrences(byte_strings(shares@)),
{
    let ghost views = byte_strings(shares@);
    let mut seen: Vec<bool> = Vec::new();
    let mut n: usize = 0;
    while n < 256
        invariant
            n <= 256,
            seen@.len() == n,
            forall|k: int| 0 <= k < n ==> !seen@[k],
        decreases 256 - n,
    {
        seen.push(false);
        n = n + 1;
    }
    let mut kept: Vec<Vec<u8>> = Vec::new();
    let mut i: usize = 0;
    while i < shares.len()
        invariant
            i <= shares@.len(),
            views == byte_strings(shares@),
            all_well_formed(views),
            seen@.len() == 256,
            forall|id: u8| seen@[id as int] == has_id(views.take(i as int), id),
            byte_strings(kept@) == first_occurrences(views.take(i as int)),
        decreases shares@.len() - i,
    {
        let ghost before = views.take(i as int);
        let ghost now = views.take(i + 1);
        assert(views[i as int].len() >= 2);
        let share = &shares[i];
        let id = share[0];
        proof {
            assert(now.drop_last() =~= before);
            assert forall|other: u8| has_id(now, other) <==> has_id(before, other) || other
                == id by {
                lemma_has_id_last(now, other);
            }
        }
        if !seen[id as usize] {
            let copy = copy_range(share.as_slice(), 0, share.len());
            assert(copy@ =~= share@);
            kept.push(copy);
            seen.set(id as usize, true);
        }
        i = i + 1;
    }
    assert(views.take(shares@.len() as int) =~= views);
    kept
}

/// The result of `reconstruct` as plain values.
pub open spec fn key_result_view(res: Result<Vec<u8>, KeyError>) -> Result<Seq<u8>, KeyError> {
    match res {
        Ok(k) => Ok(k@),
        Err(e) => Err(e),
    }
}

/// Whether every share has at least two bytes and the length of the first.
fn shares_consistent(shares: &Vec<Vec<u8>>) -> (ok: bool)
    requires
        shares@.len() >= 1,
    ensures
        ok == (all_well_formed(byte_strings(shares@)) && uniform_length(byte_strings(shares@))),
{
    let ghost views = byte_strings(shares@);
    let first = shares[0].len();
    let mut i: usize = 0;
    while i < shares.len()
        invariant
            i <= shares@.len(),
            views == byte_strings(shares@),
            first == views[0].len(),
            forall|k: int| 0 <= k < i ==> (#[trigger] views[k]).len() >= 2 && views[k].len() == first,
        decreases shares@.len() - i,
    {
        let len = shares[i].len();
        if len < 2 || len != first {
            assert(views[i as int].len() == len);
            return false;
        }
        i = i + 1;
    }
    true
}

/// Reconstructs the secret from a collection of shares in wire form.
///
/// The order of the shares does not decide which error comes first: too few
/// shares are `InsufficientShares`, then malformed ones are `CorruptShares`.
/// Shares that repeat an identifier are tolerated: the first of them counts.
pub fn reconstruct(shares: &Vec<Vec<u8>>, threshold: u8) -> (res: Result<Vec<u8>, KeyError>)
    ensures
        key_result_view(res) == reconstruction(byte_strings(shares@), threshold),
{
    let ghost views = byte_strings(shares@);
    if shares.len() == 0 || shares.len() < usize::from(threshold) {
        return Err(KeyError::InsufficientShares);
    }
    if !shares_consistent(shares) {
        return Err(KeyError::CorruptShares);
    }
    let kept = keep_first_occurrences(shares);
    proof {
        lemma_first_occurrences(views);
    }
    if kept.len() < usize::from(threshold) {
        return Err(KeyError::InsufficientShares);
    }
    match sharks_recover(threshold, &kept) {
        Some(secret) => Ok(secret),
        None => Err(KeyError::CorruptShares),
    }
}

/// Below the threshold: a collection of fewer shares than the threshold
/// never gives a key, whatever the shares hold.
pub proof fn lemma_below_threshold(shares: Seq<Seq<u8>>, threshold: u8)
    requires
        shares.len() < threshold,
    ensures
        reconstruction(shares, threshold) == Err::<Seq<u8>, KeyError>(KeyError::InsufficientShares),
{
}

/// Fewer different identifiers than the threshold never give a key, however
/// many shares repeat them: well-formed shares of one length are then
/// insufficient, and any others are an error too.
pub proof fn lemma_below_threshold_distinct(shares: Seq<Seq<u8>>, threshold: u8)
    requires
        first_occurrences(shares).len() < threshold,
    ensures
        reconstruction(shares, threshold) is Err,
        all_well_formed(shares) && uniform_length(shares) ==> reconstruction(shares, threshold)
            == Err::<Seq<u8>, KeyError>(KeyError::InsufficientShares),
{
}

/// Split and reconstruct are inverses: every quorum drawn from a dealing of
/// a non-empty key reconstructs that key, whichever shares it holds and in
/// whatever order.
pub proof fn lemma_quorum_reconstructs(
    shares: Seq<Seq<u8>>,
    key: Seq<u8>,
    threshold: u8,
    players: u8,
    picked: Seq<Seq<u8>>,
)
    requires
        1 <= threshold <= players,
        key.len() >= 1,
        dealt_from(shares, key, threshold, players),
        is_quorum(picked, shares, threshold),
    ensures
        reconstruction(picked, threshold) == Ok::<Seq<u8>, KeyError>(key),
{
    lemma_distinct_all_kept(picked);
}

/// The identifiers of a sequence of shares, in order.
pub open spec fn ids_of(shares: Seq<Seq<u8>>) -> Seq<u8> {
    Seq::new(shares.len(), |i: int| shares[i][0])
}

/// Shares with different identifiers are at least as many as any number of
/// different identifiers that occur among them.
proof fn lemma_kept_covers(kept: Seq<Seq<u8>>, wanted: Seq<u8>)
    requires
        distinct_ids(kept),
        wanted.no_duplicates(),
        forall|i: int| 0 <= i < wanted.len() ==> has_id(kept, #[trigger] wanted[i]),
    ensures
        wanted.len() <= kept.len(),
{
    let ids = ids_of(kept);
    ids.unique_seq_to_set();
    wanted.unique_seq_to_set();
    vstd::seq_lib::seq_to_set_is_finite(ids);
    assert(wanted.to_set().subset_of(ids.to_set())) by {
        assert forall|id: u8| wanted.to_set().contains(id) implies ids.to_set().contains(id) by {
            let k = choose|k: int| 0 <= k < kept.len() && (#[trigger] kept[k])[0] == id;
            assert(ids[k] == id);
        }
    }
    vstd::set_lib::lemma_len_subset(wanted.to_set(), ids.to_set());
}

/// Repeats and spare shares are tolerated: a collection that holds nothing
/// but shares of one dealing, and at least `threshold` different ones of
/// them, reconstructs the key, however often and in whatever order the
/// shares occur. `picks` names different shares of the dealing that occur.
pub proof fn lemma_dealing_reconstructs(
    shares: Seq<Seq<u8>>,
    key: Seq<u8>,
    threshold: u8,
    players: u8,
    collected: Seq<Seq<u8>>,
    picks: Seq<int>,
)
    requires
        1 <= threshold <= players,
        key.len() >= 1,
        dealt_from(shares, key, threshold, players),
        drawn_from(collected, shares),
        picks.len() >= threshold,
        picks.no_duplicates(),
        forall|i: int|
            0 <= i < picks.len() ==> 0 <= #[trigger] picks[i] < shares.len() && collected.contains(
                shares[picks[i]],
            ),
    ensures
        reconstruction(collected, threshold) == Ok::<Seq<u8>, KeyError>(key),
{
    let kept = first_occurrences(collected);
    lemma_first_occurrences(collected);
    let wanted = Seq::new(picks.len(), |i: int| shares[picks[i]][0]);
    assert forall|i: int| 0 <= i < wanted.len() implies has_id(kept, #[trigger] wanted[i]) by {
        assert(has_id(collected, wanted[i]));
    }
    lemma_kept_covers(kept, wanted);
    assert(is_quorum(kept, shares, threshold));
}

/// The first `count` shares, copied.
fn leading_shares(shares: &Vec<Vec<u8>>, count: usize) -> (head: Vec<Vec<u8>>)
    requires
        count <= shares@.len(),
    ensures
        byte_strings(head@) == byte_strings(shares@).take(count as int),
{
    let mut head: Vec<Vec<u8>> = Vec::new();
    let mut i: usize = 0;
    while i < count
        invariant
            i <= count <= shares@.len(),
            byte_strings(head@) == byte_strings(shares@).take(i as int),
        decreases count - i,
    {
        let ghost before = byte_strings(head@);
        let share = &shares[i];
        let copy = copy_range(share.as_slice(), 0, share.len());
        assert(copy@ =~= share@);
        head.push(copy);
        assert(byte_strings(head@) =~= before.push(share@));
        i = i + 1;
    }
    head
}

/// Splits `key` into `players` shares of which any `threshold` reconstruct
/// it.
///
/// A threshold or a share count that cannot be used is reported before any
/// share is made. The shares just made are checked at once: the key is
/// reconstructed from exactly `threshold` of them and compared with `key`,
/// and a difference is `InternalConsistency`. Given what is believed of the
/// dealer that comparison cannot fail, so a usable configuration always
/// gives shares.
pub fn split(
    key: &KeyMaterial,
    threshold: u8,
    players: u8,
) -> (res: Result<Vec<Vec<u8>>, SplitError>)
    ensures
        configuration_error(players, threshold) matches Some(e) ==> res == Err::<
            Vec<Vec<u8>>,
            SplitError,
        >(SplitError::Configuration(e)),
        configuration_error(players, threshold) is None ==> res is Ok,
        res matches Ok(shares) ==> dealt_from(byte_strings(shares@), key@, threshold, players),
{
    match check_configuration(players, threshold) {
        Err(e) => {
            return Err(SplitError::Configuration(e));
        },
        Ok(_) => {},
    }
    let secret = key.as_bytes();
    let shares = sharks_deal(threshold, players, secret);
    let probe = leading_shares(&shares, usize::from(threshold));
    proof {
        let all = byte_strings(shares@);
        let picked = byte_strings(probe@);
        lemma_quorum_reconstructs(all, key@, threshold, players, picked);
    }
    match reconstruct(&probe, threshold) {
        Ok(recovered) => {
            let mut recovered = recovered;
            let same = bytes_equal(recovered.as_slice(), secret);
            wipe(&mut recovered);
            if same {
                Ok(shares)
            } else {
                Err(SplitError::InternalConsistency)
            }
        },
        Err(_) => Err(SplitError::InternalConsistency),
    }
}

} // verus!
