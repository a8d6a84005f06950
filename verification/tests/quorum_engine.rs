use freezer::{Error, GenesisConfig, Pallet, quorum_threshold};

fn pallet_with(validators: &[u64]) -> Pallet {
    let g = GenesisConfig { initial_validators: validators.to_vec() };
    g.build()
}

#[test]
fn quorum_table() {
    assert_eq!(quorum_threshold(1), 1);
    assert_eq!(quorum_threshold(3), 3);
    assert_eq!(quorum_threshold(4), 3);
    assert_eq!(quorum_threshold(5), 4);
    assert_eq!(quorum_threshold(10), 7);
}

#[test]
fn duplicate_confirmation_rejected() {
    let mut p = pallet_with(&[1, 2, 3]);
    let id = b"evt".to_vec();
    assert_eq!(p.unfreeze_verify(1, id.clone(), 42, 100), Ok(false));
    assert_eq!(p.confirmation_count(&id), Some(1));
    assert_eq!(
        p.unfreeze_verify(1, id.clone(), 42, 100),
        Err(Error::DuplicateConfirmation)
    );
    assert_eq!(p.confirmation_count(&id), Some(1));
}

#[test]
fn unauthorized_never_mutates() {
    let mut p = pallet_with(&[1, 2, 3]);
    let id = b"evt".to_vec();
    assert_eq!(
        p.unfreeze_verify(9, id.clone(), 42, 100),
        Err(Error::Unauthorized)
    );
    assert_eq!(p.confirmation_count(&id), None);
    assert_eq!(p.unfreeze_verify(1, id.clone(), 42, 100), Ok(false));
    assert_eq!(
        p.unfreeze_verify(9, id.clone(), 42, 100),
        Err(Error::Unauthorized)
    );
    assert_eq!(p.confirmation_count(&id), Some(1));
}

#[test]
fn end_to_end_four_validators() {
    // N = 4, so the quorum threshold is floor(8/3) + 1 = 3.
    let mut p = pallet_with(&[1, 2, 3, 4]);
    let id = b"evt-1".to_vec();
    let to = 77;
    assert_eq!(p.unfreeze_verify(1, id.clone(), to, 100), Ok(false));
    assert_eq!(p.confirmation_count(&id), Some(1));
    assert_eq!(p.unfreeze_verify(2, id.clone(), to, 100), Ok(false));
    assert_eq!(p.confirmation_count(&id), Some(2));
    // The third confirmation lands exactly on the threshold: Ready.
    assert_eq!(p.unfreeze_verify(3, id.clone(), to, 100), Ok(true));
    assert_eq!(p.confirmation_count(&id), Some(3));
    // The fourth is past the threshold: Pending again, and it completes the
    // full registry, so the record is pruned on this same call.
    assert_eq!(p.unfreeze_verify(4, id.clone(), to, 100), Ok(false));
    assert_eq!(p.confirmation_count(&id), None);
    // Pruning forgot the history: a repeat confirmer now seeds a new record.
    assert_eq!(p.unfreeze_verify(1, id.clone(), to, 100), Ok(false));
    assert_eq!(p.confirmation_count(&id), Some(1));
}

#[test]
fn single_validator_ready_and_pruned_at_once() {
    // N = 1: the only confirmation reaches the threshold (1) and the full
    // registry size on the same call.
    let mut p = pallet_with(&[8]);
    let id = b"solo".to_vec();
    assert_eq!(p.unfreeze_verify(8, id.clone(), 5, 9), Ok(true));
    assert_eq!(p.confirmation_count(&id), None);
}

#[test]
fn full_set_prunes_record() {
    // N = 2: the threshold is floor(4/3) + 1 = 2, reached together with the
    // full registry size.
    let mut p = pallet_with(&[1, 2]);
    let id = b"pair".to_vec();
    assert_eq!(p.unfreeze_verify(1, id.clone(), 5, 9), Ok(false));
    assert_eq!(p.unfreeze_verify(2, id.clone(), 5, 9), Ok(true));
    assert_eq!(p.confirmation_count(&id), None);
}

#[test]
fn quorum_equals_full_count() {
    // N = 3: the threshold is 3 == N, so Ready and pruning coincide.
    let mut p = pallet_with(&[1, 2, 3]);
    let id = b"all".to_vec();
    assert_eq!(p.unfreeze_verify(1, id.clone(), 5, 9), Ok(false));
    assert_eq!(p.unfreeze_verify(2, id.clone(), 5, 9), Ok(false));
    assert_eq!(p.unfreeze_verify(3, id.clone(), 5, 9), Ok(true));
    assert_eq!(p.confirmation_count(&id), None);
}

#[test]
fn first_confirmer_payload_wins() {
    // Later submissions' payloads are not cross-checked against the stored
    // one: a differing payload still counts as a confirmation.
    let mut p = pallet_with(&[1, 2, 3, 4]);
    let id = b"evt".to_vec();
    assert_eq!(p.unfreeze_verify(1, id.clone(), 77, 100), Ok(false));
    assert_eq!(p.unfreeze_verify(2, id.clone(), 77, 999), Ok(false));
    assert_eq!(p.confirmation_count(&id), Some(2));
}

#[test]
fn confirmations_per_id_are_independent() {
    let mut p = pallet_with(&[1, 2, 3]);
    let a = b"evt-a".to_vec();
    let b = b"evt-b".to_vec();
    assert_eq!(p.unfreeze_verify(1, a.clone(), 5, 9), Ok(false));
    assert_eq!(p.sc_call_verify(1, b.clone(), 6, b"data".to_vec()), Ok(false));
    assert_eq!(p.confirmation_count(&a), Some(1));
    assert_eq!(p.confirmation_count(&b), Some(1));
}

#[test]
fn other_payload_kinds_confirm() {
    let mut p = pallet_with(&[4]);
    assert_eq!(
        p.sc_call_verify(4, b"c".to_vec(), 10, b"call".to_vec()),
        Ok(true)
    );
    assert_eq!(p.transfer_wrapped_verify(4, b"w".to_vec(), 11, 500), Ok(true));
    assert_eq!(p.unfreeze_nft_verify(4, b"n".to_vec(), 12, 900), Ok(true));
}

#[test]
fn registry_queries() {
    let p = pallet_with(&[1, 2, 3]);
    assert!(p.is_validator(2));
    assert!(!p.is_validator(9));
    assert_eq!(p.count(), 3);
    assert_eq!(p.ensure_validator(3), Ok(()));
    assert_eq!(p.ensure_validator(9), Err(Error::Unauthorized));
}
