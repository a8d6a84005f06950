use freezer::weights::{SubstrateWeight, WeightInfo};
use freezer::{Error, Event, GenesisConfig};

#[test]
fn sequence_ids_start_at_zero_and_increase() {
    // The counter starts at 0 whatever the validator list, even an empty one.
    let mut p = GenesisConfig::default().build();
    assert_eq!(p.last_action_id(), 0);
    let e0 = p.send_sc_call(b"dst".to_vec(), b"ep".to_vec(), vec![]);
    let e1 = p.send_sc_call(b"dst".to_vec(), b"ep".to_vec(), vec![]);
    let e2 = p.send_sc_call(b"dst".to_vec(), b"ep".to_vec(), vec![]);
    assert_eq!(e0, Event::ScCall(0, b"dst".to_vec(), b"ep".to_vec(), vec![]));
    assert_eq!(e1, Event::ScCall(1, b"dst".to_vec(), b"ep".to_vec(), vec![]));
    assert_eq!(e2, Event::ScCall(2, b"dst".to_vec(), b"ep".to_vec(), vec![]));
    assert_eq!(p.last_action_id(), 3);

    let g = GenesisConfig { initial_validators: vec![1, 2, 3] };
    let mut q = g.build();
    assert_eq!(q.last_action_id(), 0);
    assert_eq!(
        q.send(b"d".to_vec(), 10, 10),
        Ok(Event::TransferFrozen(0, b"d".to_vec(), 10))
    );
    assert_eq!(
        q.send(b"d".to_vec(), 10, 10),
        Ok(Event::TransferFrozen(1, b"d".to_vec(), 10))
    );
}

#[test]
fn send_rejects_zero_value() {
    let mut p = GenesisConfig::default().build();
    assert_eq!(p.send(b"dst".to_vec(), 0, 100), Err(Error::InvalidValue));
    // A rejected request does not consume a sequence id.
    assert_eq!(p.last_action_id(), 0);
}

#[test]
fn send_rejects_overdraft() {
    let mut p = GenesisConfig::default().build();
    assert_eq!(p.send(b"dst".to_vec(), 150, 100), Err(Error::OutOfFunds));
    assert_eq!(p.last_action_id(), 0);
    assert_eq!(
        p.send(b"dst".to_vec(), 100, 100),
        Ok(Event::TransferFrozen(0, b"dst".to_vec(), 100))
    );
}

#[test]
fn send_nft_requires_ownership() {
    let mut p = GenesisConfig::default().build();
    assert_eq!(
        p.send_nft(5, b"dst".to_vec(), 900, 6),
        Err(Error::Unauthorized)
    );
    assert_eq!(p.last_action_id(), 0);
    assert_eq!(
        p.send_nft(5, b"dst".to_vec(), 900, 5),
        Ok(Event::TransferUniqueFrozen(0, b"dst".to_vec(), 900))
    );
}

#[test]
fn withdraw_wrapped_checks_value_and_balance() {
    let mut p = GenesisConfig::default().build();
    assert_eq!(
        p.withdraw_wrapped(b"dst".to_vec(), 0, 50),
        Err(Error::InvalidValue)
    );
    assert_eq!(
        p.withdraw_wrapped(b"dst".to_vec(), 60, 50),
        Err(Error::OutOfFunds)
    );
    assert_eq!(
        p.withdraw_wrapped(b"dst".to_vec(), 50, 50),
        Ok(Event::UnfreezeWrapped(0, b"dst".to_vec(), 50))
    );
}

#[test]
fn genesis_deduplicates_validators() {
    let g = GenesisConfig { initial_validators: vec![5, 5, 7] };
    let p = g.build();
    assert_eq!(p.count(), 2);
    assert!(p.is_validator(5));
    assert!(p.is_validator(7));
    assert!(!p.is_validator(6));
}

#[test]
fn empty_registry_authorizes_nobody() {
    let mut p = GenesisConfig::default().build();
    assert_eq!(p.count(), 0);
    assert_eq!(
        p.unfreeze_verify(1, b"evt".to_vec(), 2, 3),
        Err(Error::Unauthorized)
    );
}

#[test]
fn weight_schedule() {
    assert_eq!(SubstrateWeight::verify_action(), 206_909_000);
    assert_eq!(SubstrateWeight::erc1155_init(), 100_000_000_000);
    assert_eq!(SubstrateWeight::erc1155_create_token(), 100_000_000_000);
    assert_eq!(<() as WeightInfo>::verify_action(), 206_909_000);
    assert_eq!(<() as WeightInfo>::erc1155_init(), 100_000_000_000);
}
