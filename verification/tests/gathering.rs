use chachamir::container::{
    build_file_container, build_share_container, decrypt, encrypt, encrypt_with, open_with_pool,
    Error,
};
use chachamir::format::{decode_file_header, FormatError};
use chachamir::key::KeyMaterial;
use chachamir::reconcile::{
    examine_candidate, gather_shares, share_from_file, share_signature_verification, AbortReason,
    CandidateStep, Outcome, Policy, ShareFromFile, ShareNotes, ShareRejection, SharePool,
    SignatureFindings, SignatureVerdict, ThresholdPolicy,
};
use chachamir::shamir::{split, ConfigurationError};
use chachamir::signing::SigningIdentity;

fn key() -> KeyMaterial {
    let bytes: Vec<u8> = (100..132u8).collect();
    KeyMaterial::from_bytes(&bytes).unwrap()
}

fn nonce() -> Vec<u8> {
    vec![21, 22, 23, 24, 25, 26, 27, 28, 29, 30, 31, 32]
}

fn other_nonce() -> Vec<u8> {
    vec![41, 42, 43, 44, 45, 46, 47, 48, 49, 50, 51, 52]
}

fn lenient() -> Policy {
    Policy { strict: false, on_threshold_mismatch: ThresholdPolicy::UseFile }
}

fn strict() -> Policy {
    Policy { strict: true, on_threshold_mismatch: ThresholdPolicy::UseFile }
}

fn clean() -> SignatureFindings {
    SignatureFindings::clean()
}

fn plain_notes(threshold: u8) -> ShareNotes {
    ShareNotes {
        share_threshold: threshold,
        threshold_mismatch: false,
        signedness_differs: false,
        findings: clean(),
    }
}

fn payload() -> Vec<u8> {
    b"The quick brown fox jumps over the lazy dog. CCM CCMS".to_vec()
}

#[test]
fn a_share_file_is_read_back() {
    let share = vec![4, 10, 20, 30];
    let contents = build_share_container(3, &nonce(), None, &share);
    assert_eq!(contents.len(), 24);
    assert_eq!(
        share_from_file(&contents, &nonce()),
        Ok(ShareFromFile {
            version: 1,
            threshold: 3,
            is_signed: false,
            nonce: nonce(),
            pub_key: None,
            signature: None,
            share_data: share,
        })
    );
}

#[test]
fn a_signed_share_file_is_read_back() {
    let id = SigningIdentity::generate().unwrap();
    let share = vec![4, 10, 20, 30];
    let contents = build_share_container(3, &nonce(), Some(&id), &share);
    assert_eq!(contents.len(), 20 + 96 + 4);
    let read = share_from_file(&contents, &nonce()).unwrap();
    assert_eq!(read.threshold, 3);
    assert!(read.is_signed);
    assert_eq!(read.pub_key, Some(id.public_key()));
    assert_eq!(read.signature, Some(contents[52..116].to_vec()));
    assert_eq!(read.share_data, share);
}

#[test]
fn candidates_are_rejected_in_order() {
    let contents = build_share_container(3, &nonce(), None, &[4, 10, 20]);
    assert_eq!(share_from_file(&contents[..19], &nonce()), Err(ShareRejection::Malformed));
    assert_eq!(share_from_file(&[], &nonce()), Err(ShareRejection::Malformed));
    let mut no_magic = contents.clone();
    no_magic[0] = 0;
    assert_eq!(share_from_file(&no_magic, &nonce()), Err(ShareRejection::NotAShare));
    // wrong magic and wrong nonce: the magic is looked at first
    assert_eq!(share_from_file(&no_magic, &other_nonce()), Err(ShareRejection::NotAShare));
    assert_eq!(share_from_file(&contents, &other_nonce()), Err(ShareRejection::WrongFile));
    assert_eq!(share_from_file(&contents, &nonce()[..11]), Err(ShareRejection::WrongFile));
    assert_eq!(share_from_file(&contents[..21], &nonce()), Err(ShareRejection::CorruptShare));
    assert_eq!(share_from_file(&contents[..20], &nonce()), Err(ShareRejection::CorruptShare));
    assert_eq!(share_from_file(&[7; 64], &nonce()), Err(ShareRejection::NotAShare));
}

#[test]
fn a_short_signed_share_is_truncated() {
    let id = SigningIdentity::generate().unwrap();
    let contents = build_share_container(3, &nonce(), Some(&id), &[4, 10, 20]);
    assert_eq!(
        share_from_file(&contents[..115], &nonce()),
        Err(ShareRejection::Format(FormatError::Truncated))
    );
    // of another file and truncated: the nonce is looked at first
    assert_eq!(share_from_file(&contents[..115], &other_nonce()), Err(ShareRejection::WrongFile));
    let mut bad_signature = contents.clone();
    bad_signature[115] |= 0xE0;
    assert_eq!(
        share_from_file(&bad_signature, &nonce()),
        Err(ShareRejection::Format(FormatError::BadSignature))
    );
}

#[test]
fn five_shares_threshold_three() {
    let set = encrypt(&payload(), 3, 5, false).unwrap();
    assert_eq!(set.shares.len(), 5);
    assert_eq!(set.nonce.len(), 12);
    let candidates = vec![
        vec![0xde, 0xad, 0xbe, 0xef],
        set.shares[4].clone(),
        set.shares[1].clone(),
        (0..200u8).collect(),
        set.shares[2].clone(),
    ];
    let opened = decrypt(&set.file, &candidates, &lenient()).unwrap();
    assert_eq!(opened.plaintext, payload());
    assert!(!opened.file_signature_failed);
    assert_eq!(opened.threshold, 3);
    assert_eq!(
        opened.outcomes,
        vec![
            Outcome::Skipped(ShareRejection::Malformed),
            Outcome::Taken(plain_notes(3)),
            Outcome::Taken(plain_notes(3)),
            Outcome::Skipped(ShareRejection::NotAShare),
            Outcome::Taken(plain_notes(3)),
        ]
    );
    let too_few = vec![set.shares[0].clone(), vec![1, 2, 3], set.shares[3].clone()];
    assert_eq!(decrypt(&set.file, &too_few, &lenient()), Err(Error::InsufficientShares));
    assert_eq!(decrypt(&set.file, &too_few, &strict()), Err(Error::InsufficientShares));
}

#[test]
fn every_three_of_five_share_files_decrypt() {
    let set = encrypt(&payload(), 3, 5, true).unwrap();
    for a in 0..5 {
        for b in (a + 1)..5 {
            for c in (b + 1)..5 {
                let candidates =
                    vec![set.shares[c].clone(), set.shares[a].clone(), set.shares[b].clone()];
                let opened = decrypt(&set.file, &candidates, &strict()).unwrap();
                assert_eq!(opened.plaintext, payload());
            }
        }
    }
}

#[test]
fn no_candidates_are_insufficient() {
    let set = encrypt(&payload(), 1, 1, false).unwrap();
    assert_eq!(decrypt(&set.file, &vec![], &lenient()), Err(Error::InsufficientShares));
    let opened = decrypt(&set.file, &set.shares, &lenient()).unwrap();
    assert_eq!(opened.plaintext, payload());
}

#[test]
fn shares_of_another_run_do_not_count() {
    let set = encrypt(&payload(), 2, 3, false).unwrap();
    let other = encrypt(&payload(), 2, 3, false).unwrap();
    assert_ne!(set.nonce, other.nonce);
    let candidates = vec![set.shares[0].clone(), other.shares[1].clone(), other.shares[2].clone()];
    let header = decode_file_header(&set.file).unwrap();
    let scan = gather_shares(&header, &candidates, &lenient());
    assert_eq!(
        scan.outcomes,
        vec![
            Outcome::Taken(plain_notes(2)),
            Outcome::Skipped(ShareRejection::WrongFile),
            Outcome::Skipped(ShareRejection::WrongFile),
        ]
    );
    let pool = scan.pool.unwrap();
    assert_eq!(pool.shares.len(), 1);
    assert_eq!(pool.threshold, 2);
    assert_eq!(decrypt(&set.file, &candidates, &lenient()), Err(Error::InsufficientShares));
    let enough = vec![set.shares[0].clone(), other.shares[1].clone(), set.shares[2].clone()];
    assert_eq!(decrypt(&set.file, &enough, &lenient()).unwrap().plaintext, payload());
}

#[test]
fn a_share_signed_by_another_identity() {
    let id = SigningIdentity::generate().unwrap();
    let stranger = SigningIdentity::generate().unwrap();
    let set = encrypt_with(&key(), &nonce(), Some(&id), 3, 5, &payload()).unwrap();
    // the third share is signed again, by someone else
    let read = share_from_file(&set.shares[2], &nonce()).unwrap();
    let resigned = build_share_container(3, &nonce(), Some(&stranger), &read.share_data);
    let candidates = vec![set.shares[0].clone(), set.shares[1].clone(), resigned.clone()];

    let opened = decrypt(&set.file, &candidates, &lenient()).unwrap();
    assert_eq!(opened.plaintext, payload());
    let mismatch = SignatureFindings { key_mismatch: true, ..clean() };
    assert_eq!(
        opened.outcomes,
        vec![
            Outcome::Taken(plain_notes(3)),
            Outcome::Taken(plain_notes(3)),
            Outcome::Taken(ShareNotes { findings: mismatch, ..plain_notes(3) }),
        ]
    );

    assert_eq!(decrypt(&set.file, &candidates, &strict()), Err(Error::SignatureMismatch));
    let header = decode_file_header(&set.file).unwrap();
    let scan = gather_shares(&header, &candidates, &strict());
    assert_eq!(scan.pool, Err(AbortReason::SignatureMismatch));
    assert_eq!(scan.outcomes.len(), 3);
    assert_eq!(
        scan.outcomes[2],
        Outcome::Stopped(
            AbortReason::SignatureMismatch,
            ShareNotes { findings: mismatch, ..plain_notes(3) }
        )
    );

    // with the other shares besides, strict mode stops at the first mismatch
    let more = vec![resigned, set.shares[0].clone(), set.shares[1].clone(), set.shares[3].clone()];
    let scan = gather_shares(&header, &more, &strict());
    assert_eq!(scan.pool, Err(AbortReason::SignatureMismatch));
    assert_eq!(scan.outcomes.len(), 1);
    let opened = decrypt(&set.file, &more, &lenient()).unwrap();
    assert_eq!(opened.plaintext, payload());
}

#[test]
fn a_tampered_signed_share() {
    let id = SigningIdentity::generate().unwrap();
    let set = encrypt_with(&key(), &nonce(), Some(&id), 2, 3, &payload()).unwrap();
    let mut tampered = set.shares[1].clone();
    let last = tampered.len() - 1;
    tampered[last] ^= 4;
    let candidates = vec![set.shares[0].clone(), tampered];
    assert_eq!(decrypt(&set.file, &candidates, &strict()), Err(Error::SignatureMismatch));
    // outside strict mode the share is used, and the wrong key opens nothing
    assert_eq!(decrypt(&set.file, &candidates, &lenient()), Err(Error::Authentication));
    let header = decode_file_header(&set.file).unwrap();
    let scan = gather_shares(&header, &candidates, &lenient());
    let failed = SignatureFindings { verification_failed: true, ..clean() };
    assert_eq!(scan.outcomes[1], Outcome::Taken(ShareNotes { findings: failed, ..plain_notes(2) }));
}

#[test]
fn the_signature_cross_check() {
    let id = SigningIdentity::generate().unwrap();
    let stranger = SigningIdentity::generate().unwrap();
    let share = vec![1, 50, 60];
    let contents = build_share_container(3, &nonce(), Some(&id), &share);
    let read = share_from_file(&contents, &nonce()).unwrap();
    let file_key = id.public_key();

    assert_eq!(share_signature_verification(true, &file_key, &read, true), SignatureVerdict::Verified);
    assert_eq!(share_signature_verification(true, &file_key, &read, false), SignatureVerdict::Verified);

    let key_differs = SignatureFindings { key_mismatch: true, ..clean() };
    assert_eq!(
        share_signature_verification(true, &stranger.public_key(), &read, false),
        SignatureVerdict::Warned(key_differs)
    );
    assert_eq!(
        share_signature_verification(true, &stranger.public_key(), &read, true),
        SignatureVerdict::Refused(key_differs)
    );

    let mut changed = read.clone();
    changed.threshold = 4;
    let failed = SignatureFindings { verification_failed: true, ..clean() };
    assert_eq!(
        share_signature_verification(true, &file_key, &changed, false),
        SignatureVerdict::Warned(failed)
    );

    let mut both = read.clone();
    both.share_data[1] ^= 1;
    let findings = SignatureFindings { key_mismatch: true, verification_failed: true, ..clean() };
    assert_eq!(
        share_signature_verification(true, &stranger.public_key(), &both, true),
        SignatureVerdict::Refused(findings)
    );

    let unsigned_file = SignatureFindings { file_not_signed: true, ..clean() };
    assert_eq!(
        share_signature_verification(false, &file_key, &read, false),
        SignatureVerdict::Warned(unsigned_file)
    );

    let mut keyless = read.clone();
    keyless.pub_key = None;
    let missing = SignatureFindings { missing_public_key: true, ..clean() };
    assert_eq!(
        share_signature_verification(true, &stranger.public_key(), &keyless, false),
        SignatureVerdict::Warned(missing)
    );
    let mut unsealed = read.clone();
    unsealed.signature = None;
    let missing = SignatureFindings { missing_signature: true, ..clean() };
    assert_eq!(
        share_signature_verification(true, &stranger.public_key(), &unsealed, true),
        SignatureVerdict::Refused(missing)
    );
}

#[test]
fn signed_file_and_unsigned_share_is_only_noted() {
    let id = SigningIdentity::generate().unwrap();
    let set = encrypt_with(&key(), &nonce(), Some(&id), 2, 2, &payload()).unwrap();
    let bare = encrypt_with(&key(), &nonce(), None, 2, 2, &payload()).unwrap();
    let first = share_from_file(&set.shares[0], &nonce()).unwrap().share_data;
    let second = share_from_file(&set.shares[1], &nonce()).unwrap().share_data;
    let candidates = vec![
        build_share_container(2, &nonce(), None, &first),
        build_share_container(2, &nonce(), None, &second),
    ];
    let noted = ShareNotes { signedness_differs: true, ..plain_notes(2) };
    for policy in [lenient(), strict()] {
        let opened = decrypt(&set.file, &candidates, &policy).unwrap();
        assert_eq!(opened.plaintext, payload());
        assert_eq!(opened.outcomes, vec![Outcome::Taken(noted), Outcome::Taken(noted)]);
    }
    // and the other way round: a plain file, signed shares
    let signed_shares = vec![set.shares[0].clone(), set.shares[1].clone()];
    let header = decode_file_header(&bare.file).unwrap();
    for policy in [lenient(), strict()] {
        let scan = gather_shares(&header, &signed_shares, &policy);
        assert_eq!(scan.outcomes, vec![Outcome::Taken(noted), Outcome::Taken(noted)]);
        assert_eq!(scan.pool.unwrap().shares, vec![first.clone(), second.clone()]);
    }
}

#[test]
fn a_threshold_mismatch_is_resolved_by_policy() {
    let set = encrypt_with(&key(), &nonce(), None, 2, 3, &payload()).unwrap();
    let header = decode_file_header(&set.file).unwrap();
    let raw: Vec<Vec<u8>> =
        set.shares.iter().map(|s| share_from_file(s, &nonce()).unwrap().share_data).collect();
    // the second share says 3
    let odd = build_share_container(3, &nonce(), None, &raw[1]);
    let candidates = vec![set.shares[0].clone(), odd, set.shares[2].clone()];
    let mismatch = ShareNotes { share_threshold: 3, threshold_mismatch: true, ..plain_notes(3) };

    let keep = Policy { strict: false, on_threshold_mismatch: ThresholdPolicy::UseFile };
    let scan = gather_shares(&header, &candidates, &keep);
    assert_eq!(
        scan.outcomes,
        vec![Outcome::Taken(plain_notes(2)), Outcome::Taken(mismatch), Outcome::Taken(plain_notes(2))]
    );
    assert_eq!(scan.pool, Ok(SharePool { threshold: 2, shares: raw.clone() }));
    assert_eq!(decrypt(&set.file, &candidates, &keep).unwrap().plaintext, payload());

    let abort = Policy { strict: false, on_threshold_mismatch: ThresholdPolicy::Abort };
    let scan = gather_shares(&header, &candidates, &abort);
    assert_eq!(scan.pool, Err(AbortReason::ThresholdMismatch));
    assert_eq!(
        scan.outcomes,
        vec![
            Outcome::Taken(plain_notes(2)),
            Outcome::Stopped(AbortReason::ThresholdMismatch, mismatch)
        ]
    );
    assert_eq!(decrypt(&set.file, &candidates, &abort), Err(Error::ThresholdMismatch));

    // an override is in use from the mismatch on: the third share, which
    // says 2, is then the one that differs
    let take3 = Policy { strict: false, on_threshold_mismatch: ThresholdPolicy::Override(3) };
    let scan = gather_shares(&header, &candidates, &take3);
    let later = ShareNotes { share_threshold: 2, threshold_mismatch: true, ..plain_notes(2) };
    assert_eq!(
        scan.outcomes,
        vec![Outcome::Taken(plain_notes(2)), Outcome::Taken(mismatch), Outcome::Taken(later)]
    );
    assert_eq!(scan.pool, Ok(SharePool { threshold: 3, shares: raw.clone() }));
    let opened = decrypt(&set.file, &candidates, &take3).unwrap();
    assert_eq!(opened.threshold, 3);
    assert_eq!(opened.plaintext, payload());

    let take4 = Policy { strict: false, on_threshold_mismatch: ThresholdPolicy::Override(4) };
    assert_eq!(decrypt(&set.file, &candidates, &take4), Err(Error::InsufficientShares));

    // without a mismatch no policy is asked
    let opened = decrypt(&set.file, &set.shares, &abort).unwrap();
    assert_eq!(opened.plaintext, payload());
}

#[test]
fn one_candidate_at_a_time() {
    let set = encrypt_with(&key(), &nonce(), None, 2, 3, &payload()).unwrap();
    let header = decode_file_header(&set.file).unwrap();
    let raw = share_from_file(&set.shares[0], &nonce()).unwrap().share_data;
    assert_eq!(
        examine_candidate(2, &header, &set.shares[0], &lenient()),
        CandidateStep::Take { threshold: 2, share: raw.clone(), notes: plain_notes(2) }
    );
    let differs = ShareNotes { share_threshold: 2, threshold_mismatch: true, ..plain_notes(2) };
    assert_eq!(
        examine_candidate(5, &header, &set.shares[0], &lenient()),
        CandidateStep::Take { threshold: 5, share: raw.clone(), notes: differs }
    );
    let take9 = Policy { strict: true, on_threshold_mismatch: ThresholdPolicy::Override(9) };
    assert_eq!(
        examine_candidate(5, &header, &set.shares[0], &take9),
        CandidateStep::Take { threshold: 9, share: raw, notes: differs }
    );
    let abort = Policy { strict: false, on_threshold_mismatch: ThresholdPolicy::Abort };
    assert_eq!(
        examine_candidate(5, &header, &set.shares[0], &abort),
        CandidateStep::Stop { reason: AbortReason::ThresholdMismatch, notes: differs }
    );
    assert_eq!(
        examine_candidate(2, &header, &set.file, &abort),
        CandidateStep::Skip(ShareRejection::NotAShare)
    );
}

#[test]
fn sealing_checks_the_configuration_first() {
    assert_eq!(
        encrypt(&payload(), 3, 2, true),
        Err(Error::Configuration(ConfigurationError::ThresholdExceedsPlayers))
    );
    assert_eq!(
        encrypt(&payload(), 0, 0, false),
        Err(Error::Configuration(ConfigurationError::ZeroPlayers))
    );
    assert_eq!(
        encrypt_with(&key(), &nonce(), None, 0, 7, &payload()),
        Err(Error::Configuration(ConfigurationError::ZeroThreshold))
    );
}

#[test]
fn the_containers_of_a_sealed_set() {
    let id = SigningIdentity::generate().unwrap();
    let set = encrypt_with(&key(), &nonce(), Some(&id), 2, 3, &payload()).unwrap();
    assert_eq!(set.nonce, nonce());
    assert_eq!(&set.file[..6], &[67, 67, 77, 1, 2, 1]);
    assert_eq!(&set.file[6..18], &nonce()[..]);
    assert_eq!(&set.file[18..50], &id.public_key()[..]);
    assert_eq!(set.file.len(), 114 + payload().len() + 16);
    assert_eq!(set.shares.len(), 3);
    for (i, share) in set.shares.iter().enumerate() {
        assert_eq!(&share[..7], &[67, 67, 77, 83, 1, 2, 1]);
        assert_eq!(&share[7..19], &nonce()[..]);
        assert_eq!(share[19], 0);
        assert_eq!(&share[20..52], &id.public_key()[..]);
        assert_eq!(share.len(), 116 + 33);
        assert_eq!(share[116] as usize, i + 1);
    }
    let bare = encrypt_with(&key(), &nonce(), None, 2, 3, &payload()).unwrap();
    assert_eq!(&bare.file[..6], &[67, 67, 77, 1, 2, 0]);
    assert_eq!(bare.file.len(), 18 + payload().len() + 16);
    assert_eq!(&bare.file[18..], &set.file[114..]);
    assert_eq!(bare.shares[0].len(), 20 + 33);
    let ciphertext = bare.file[18..].to_vec();
    assert_eq!(build_file_container(2, &nonce(), None, &ciphertext), bare.file);
}

#[test]
fn a_file_that_is_no_container_stops_the_operation() {
    let set = encrypt(&payload(), 2, 2, false).unwrap();
    assert_eq!(decrypt(&payload(), &set.shares, &lenient()), Err(Error::Format(FormatError::MissingMagic)));
    assert_eq!(decrypt(&[67, 67, 77], &set.shares, &lenient()), Err(Error::Format(FormatError::Truncated)));
    let signed = encrypt(&payload(), 2, 2, true).unwrap();
    assert_eq!(
        decrypt(&signed.file[..100], &signed.shares, &lenient()),
        Err(Error::Format(FormatError::Truncated))
    );
    let mut bad = signed.file.clone();
    bad[113] |= 0xE0;
    assert_eq!(
        decrypt(&bad, &signed.shares, &lenient()),
        Err(Error::Format(FormatError::BadSignature))
    );
}

#[test]
fn a_tampered_file() {
    let set = encrypt(&payload(), 2, 2, true).unwrap();
    let mut tampered = set.file.clone();
    let last = tampered.len() - 1;
    tampered[last] ^= 1;
    assert_eq!(decrypt(&tampered, &set.shares, &strict()), Err(Error::SignatureMismatch));
    assert_eq!(decrypt(&tampered, &set.shares, &lenient()), Err(Error::Authentication));

    let bare = encrypt(&payload(), 2, 2, false).unwrap();
    let mut tampered = bare.file.clone();
    tampered[20] ^= 1;
    assert_eq!(decrypt(&tampered, &bare.shares, &strict()), Err(Error::Authentication));
}

#[test]
fn a_file_signature_that_fails_is_reported_outside_strict_mode() {
    // the threshold byte is covered by the signature and not by the cipher
    let set = encrypt(&payload(), 2, 3, true).unwrap();
    let mut changed = set.file.clone();
    changed[4] = 3;
    let policy = Policy { strict: false, on_threshold_mismatch: ThresholdPolicy::UseFile };
    let opened = decrypt(&changed, &set.shares, &policy).unwrap();
    assert_eq!(opened.plaintext, payload());
    assert!(opened.file_signature_failed);
    assert_eq!(opened.threshold, 3);
    let strict = Policy { strict: true, on_threshold_mismatch: ThresholdPolicy::UseFile };
    assert_eq!(decrypt(&changed, &set.shares, &strict), Err(Error::SignatureMismatch));
}

#[test]
fn opening_with_a_pool() {
    let set = encrypt_with(&key(), &nonce(), None, 2, 3, &payload()).unwrap();
    let header = decode_file_header(&set.file).unwrap();
    let ciphertext = set.file[header.file_length()..].to_vec();
    let shares = split(&key(), 2, 3).unwrap();
    let pool = SharePool { threshold: 2, shares: shares.clone() };
    let opened = open_with_pool(&header, &ciphertext, &pool, true).unwrap();
    assert_eq!(opened.plaintext, payload());
    assert!(!opened.file_signature_failed);

    let pool = SharePool { threshold: 2, shares: vec![shares[0].clone()] };
    assert_eq!(open_with_pool(&header, &ciphertext, &pool, true), Err(Error::InsufficientShares));
    let pool = SharePool { threshold: 2, shares: vec![shares[0].clone(), vec![9]] };
    assert_eq!(open_with_pool(&header, &ciphertext, &pool, true), Err(Error::CorruptShares));
    // shares of a secret that is no key
    let pool = SharePool { threshold: 1, shares: vec![vec![1, 2, 3]] };
    assert_eq!(open_with_pool(&header, &ciphertext, &pool, true), Err(Error::CorruptShares));
    // shares of another key
    let other = KeyMaterial::from_bytes(&[7; 32]).unwrap();
    let pool = SharePool { threshold: 2, shares: split(&other, 2, 3).unwrap() };
    assert_eq!(open_with_pool(&header, &ciphertext, &pool, false), Err(Error::Authentication));
}

#[test]
fn a_signed_share_with_a_key_that_is_no_point() {
    let id = SigningIdentity::generate().unwrap();
    let contents = build_share_container(3, &nonce(), Some(&id), &[4, 10, 20]);
    let mut refused = None;
    for b in 0..=255u8 {
        let mut changed = contents.clone();
        for byte in &mut changed[20..52] {
            *byte = b;
        }
        if share_from_file(&changed, &nonce()) == Err(ShareRejection::Format(FormatError::BadPublicKey)) {
            refused = Some(changed);
            break;
        }
    }
    let changed = refused.unwrap();
    let set = encrypt_with(&key(), &nonce(), Some(&id), 1, 1, &payload()).unwrap();
    let header = decode_file_header(&set.file).unwrap();
    for policy in [lenient(), strict()] {
        assert_eq!(
            examine_candidate(1, &header, &changed, &policy),
            CandidateStep::Skip(ShareRejection::Format(FormatError::BadPublicKey))
        );
    }
}

#[test]
fn rejected_candidates_change_nothing() {
    let set = encrypt_with(&key(), &nonce(), None, 2, 3, &payload()).unwrap();
    let header = decode_file_header(&set.file).unwrap();
    let shares_only = gather_shares(&header, &set.shares, &strict());
    let mut mixed = Vec::new();
    for share in &set.shares {
        mixed.push(vec![1, 2, 3]);
        mixed.push(share.clone());
        mixed.push(set.file.clone());
        let mut other = share.clone();
        other[7] ^= 1;
        mixed.push(other);
    }
    let with_others = gather_shares(&header, &mixed, &strict());
    assert_eq!(with_others.pool, shares_only.pool);
    assert_eq!(with_others.outcomes.len(), 12);
    assert_eq!(with_others.outcomes[0], Outcome::Skipped(ShareRejection::Malformed));
    assert_eq!(with_others.outcomes[2], Outcome::Skipped(ShareRejection::NotAShare));
    assert_eq!(with_others.outcomes[3], Outcome::Skipped(ShareRejection::WrongFile));
}

#[test]
fn a_share_passes_when_its_key_is_the_files_and_its_signature_covers_its_fields() {
    let id = SigningIdentity::generate().unwrap();
    let key = id.public_key();
    let data = vec![9, 1, 2, 3];
    let message = [vec![67, 67, 77, 83, 1, 5, 1], nonce(), key.clone(), data.clone()].concat();
    let share = ShareFromFile {
        version: 1,
        threshold: 5,
        is_signed: true,
        nonce: nonce(),
        pub_key: Some(key.clone()),
        signature: Some(id.sign(&message)),
        share_data: data.clone(),
    };
    assert_eq!(share_signature_verification(true, &key, &share, true), SignatureVerdict::Verified);
    // the same share as a file: the padding byte stands in the file and is not signed
    let contents = build_share_container(5, &nonce(), Some(&id), &data);
    assert_eq!(contents[19], 0);
    assert_eq!(share_from_file(&contents, &nonce()), Ok(share.clone()));
    // signed over anything else, it is a mismatch
    let other = [vec![67, 67, 77, 83, 1, 5, 1], nonce(), vec![0], key.clone(), data].concat();
    let mut wrong = share;
    wrong.signature = Some(id.sign(&other));
    let failed = SignatureFindings { verification_failed: true, ..clean() };
    assert_eq!(share_signature_verification(true, &key, &wrong, true), SignatureVerdict::Refused(failed));
}

#[test]
fn a_stopped_scan_ends_with_the_candidate_that_stopped_it() {
    let set = encrypt_with(&key(), &nonce(), None, 2, 3, &payload()).unwrap();
    let header = decode_file_header(&set.file).unwrap();
    let raw = share_from_file(&set.shares[2], &nonce()).unwrap().share_data;
    let odd = build_share_container(7, &nonce(), None, &raw);
    let candidates =
        vec![vec![1], set.shares[0].clone(), odd, set.shares[1].clone(), vec![2], vec![3]];
    let abort = Policy { strict: true, on_threshold_mismatch: ThresholdPolicy::Abort };
    let scan = gather_shares(&header, &candidates, &abort);
    assert_eq!(scan.pool, Err(AbortReason::ThresholdMismatch));
    let mismatch = ShareNotes { share_threshold: 7, threshold_mismatch: true, ..plain_notes(7) };
    assert_eq!(
        scan.outcomes,
        vec![
            Outcome::Skipped(ShareRejection::Malformed),
            Outcome::Taken(plain_notes(2)),
            Outcome::Stopped(AbortReason::ThresholdMismatch, mismatch),
        ]
    );
}
