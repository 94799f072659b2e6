//! End-to-end scenarios for the claim registry, driven through the public
//! entry points with `max_proof_len = 3`.

use poe::pallet::Pallet;
use poe::types::{ClaimRecord, Config, DispatchError, Error, Event, Origin};

fn new_pallet() -> Pallet {
    Pallet::new(Config { max_proof_len: 3 })
}

#[test]
fn create_claim_works() {
    let mut pallet = new_pallet();
    let claim = vec![0, 1];
    assert!(pallet.create_claim(Origin::Signed(1), claim.clone()).is_ok());
    assert_eq!(
        pallet.proofs(&claim),
        Some(ClaimRecord { owner: 1, recorded_height: pallet.block_number() })
    );
}

#[test]
fn create_claim_failed_when_claim_already_exist() {
    let mut pallet = new_pallet();
    let claim = vec![0, 1];
    let _ = pallet.create_claim(Origin::Signed(1), claim.clone());
    let before = pallet.clone();
    assert_eq!(
        pallet.create_claim(Origin::Signed(1), claim.clone()),
        Err(DispatchError::Module(Error::ProofAlreadyClaimed))
    );
    assert_eq!(pallet, before);
}

#[test]
fn revoke_claim_works() {
    let mut pallet = new_pallet();
    let claim = vec![0, 1];
    let _ = pallet.create_claim(Origin::Signed(1), claim.clone());

    assert!(pallet.revoke_claim(Origin::Signed(1), claim.clone()).is_ok());
    assert_eq!(pallet.contains_key(&claim), false);
}

#[test]
fn revoke_claim_failed_when_claim_is_not_exist() {
    let mut pallet = new_pallet();
    let claim = vec![0, 1];
    let before = pallet.clone();
    assert_eq!(
        pallet.revoke_claim(Origin::Signed(1), claim.clone()),
        Err(DispatchError::Module(Error::NoSuchProof))
    );
    assert_eq!(pallet, before);
}

#[test]
fn revoke_claim_failed_when_owner_is_wrong() {
    let mut pallet = new_pallet();
    let claim = vec![0, 1];
    let owner_1 = Origin::Signed(1);
    let owner_2 = Origin::Signed(2);
    let _ = pallet.create_claim(owner_1, claim.clone());
    let before = pallet.clone();
    assert_eq!(
        pallet.revoke_claim(owner_2, claim.clone()),
        Err(DispatchError::Module(Error::NotProofOwner))
    );
    assert_eq!(pallet, before);
}

#[test]
fn transfer_claim_works() {
    let mut pallet = new_pallet();
    let claim = vec![0, 1];
    let origin = Origin::Signed(1);
    let destination = 2;
    let _ = pallet.create_claim(origin, claim.clone());
    assert!(pallet.transfer_claim(origin, claim.clone(), destination).is_ok());
    assert_eq!(
        pallet.proofs(&claim),
        Some(ClaimRecord { owner: 2, recorded_height: pallet.block_number() })
    );
    assert_eq!(
        pallet.revoke_claim(origin, claim),
        Err(DispatchError::Module(Error::NotProofOwner))
    );
}

#[test]
fn transfer_claim_failed_when_owner_is_wrong() {
    let mut pallet = new_pallet();
    let claim = vec![0, 1];
    let owner_right = Origin::Signed(1);
    let owner_wrong = 2;
    let _ = pallet.create_claim(owner_right, claim.clone());
    let before = pallet.clone();
    assert_eq!(
        pallet.transfer_claim(Origin::Signed(owner_wrong), claim.clone(), owner_wrong),
        Err(DispatchError::Module(Error::NotProofOwner))
    );
    assert_eq!(pallet, before);
}

#[test]
fn transfer_claim_failed_when_claim_not_exist() {
    let mut pallet = new_pallet();
    let claim_red = vec![0, 1];
    let claim_blue = vec![2, 1];
    let origin = Origin::Signed(1);
    let destination = 2;
    let _ = pallet.create_claim(origin, claim_red);
    let before = pallet.clone();
    assert_eq!(
        pallet.transfer_claim(origin, claim_blue, destination),
        Err(DispatchError::Module(Error::NoSuchProof))
    );
    assert_eq!(pallet, before);
}

#[test]
fn create_claim_failed_when_claim_too_long() {
    let mut pallet = new_pallet();
    let claim = vec![0, 1, 2, 3];
    let before = pallet.clone();
    assert_eq!(
        pallet.create_claim(Origin::Signed(1), claim.clone()),
        Err(DispatchError::Module(Error::ClaimTooLong))
    );
    assert_eq!(pallet, before);
}

#[test]
fn create_claim_accepts_boundary_length() {
    let mut pallet = new_pallet();
    let claim = vec![7, 8, 9];
    assert!(pallet.create_claim(Origin::Signed(1), claim.clone()).is_ok());
    assert_eq!(
        pallet.proofs(&claim),
        Some(ClaimRecord { owner: 1, recorded_height: 0 })
    );
}

#[test]
fn create_claim_accepts_empty_proof() {
    let mut pallet = new_pallet();
    let claim: Vec<u8> = vec![];
    assert!(pallet.create_claim(Origin::Signed(1), claim.clone()).is_ok());
    assert!(pallet.contains_key(&claim));
}

#[test]
fn root_origin_is_rejected() {
    let mut pallet = new_pallet();
    let claim = vec![0, 1];
    assert_eq!(
        pallet.create_claim(Origin::Root, claim.clone()),
        Err(DispatchError::BadOrigin)
    );
    assert_eq!(
        pallet.revoke_claim(Origin::Root, claim.clone()),
        Err(DispatchError::BadOrigin)
    );
    assert_eq!(
        pallet.transfer_claim(Origin::Root, claim.clone(), 2),
        Err(DispatchError::BadOrigin)
    );
    assert!(pallet.events().is_empty());
    assert!(!pallet.contains_key(&claim));
}

#[test]
fn recorded_height_follows_block_number() {
    let mut pallet = new_pallet();
    let claim = vec![5];
    pallet.set_block_number(7);
    assert!(pallet.create_claim(Origin::Signed(1), claim.clone()).is_ok());
    assert_eq!(
        pallet.proofs(&claim),
        Some(ClaimRecord { owner: 1, recorded_height: 7 })
    );
    pallet.set_block_number(9);
    assert!(pallet.transfer_claim(Origin::Signed(1), claim.clone(), 2).is_ok());
    assert_eq!(
        pallet.proofs(&claim),
        Some(ClaimRecord { owner: 2, recorded_height: 9 })
    );
}

#[test]
fn transfer_to_self_refreshes_height() {
    let mut pallet = new_pallet();
    let claim = vec![5];
    pallet.set_block_number(3);
    assert!(pallet.create_claim(Origin::Signed(1), claim.clone()).is_ok());
    pallet.set_block_number(4);
    assert!(pallet.transfer_claim(Origin::Signed(1), claim.clone(), 1).is_ok());
    assert_eq!(
        pallet.proofs(&claim),
        Some(ClaimRecord { owner: 1, recorded_height: 4 })
    );
}

#[test]
fn claim_has_single_record_after_transfer() {
    let mut pallet = new_pallet();
    let claim = vec![0, 1];
    let _ = pallet.create_claim(Origin::Signed(1), claim.clone());
    let _ = pallet.transfer_claim(Origin::Signed(1), claim.clone(), 2);
    assert!(pallet.revoke_claim(Origin::Signed(2), claim.clone()).is_ok());
    assert!(!pallet.contains_key(&claim));
    assert_eq!(
        pallet.revoke_claim(Origin::Signed(2), claim.clone()),
        Err(DispatchError::Module(Error::NoSuchProof))
    );
}

#[test]
fn event_stream_matches_successful_calls() {
    let mut pallet = new_pallet();
    let red = vec![0, 1];
    let blue = vec![2, 1];
    assert!(pallet.create_claim(Origin::Signed(1), red.clone()).is_ok());
    assert!(pallet.create_claim(Origin::Signed(2), blue.clone()).is_ok());
    // Failed calls emit nothing.
    let _ = pallet.create_claim(Origin::Signed(3), red.clone());
    let _ = pallet.revoke_claim(Origin::Signed(2), red.clone());
    // Revoke emits; transfer deliberately emits nothing.
    assert!(pallet.revoke_claim(Origin::Signed(1), red.clone()).is_ok());
    assert!(pallet.transfer_claim(Origin::Signed(2), blue.clone(), 3).is_ok());
    assert_eq!(
        *pallet.events(),
        vec![
            Event::ClaimCreated(1, red.clone()),
            Event::ClaimCreated(2, blue.clone()),
            Event::ClaimRevoked(1, red.clone()),
        ]
    );
}

#[test]
fn failed_calls_leave_events_untouched() {
    let mut pallet = new_pallet();
    let claim = vec![0, 1];
    assert!(pallet.create_claim(Origin::Signed(1), claim.clone()).is_ok());
    let events_before = pallet.events().clone();
    let _ = pallet.create_claim(Origin::Signed(1), claim.clone());
    let _ = pallet.revoke_claim(Origin::Signed(2), claim.clone());
    let _ = pallet.transfer_claim(Origin::Signed(2), claim.clone(), 3);
    let _ = pallet.create_claim(Origin::Signed(1), vec![0, 1, 2, 3]);
    assert_eq!(*pallet.events(), events_before);
}
