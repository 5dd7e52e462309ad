use coinshift::lifecycle::{check_create_valid, create_swap, observe_swap, resolve_claim};
use coinshift::types::{
    Address, Init, OutPoint, ParentChainType, SwapError, SwapState, SwapTxId,
};

fn outpoint(tag: u8) -> OutPoint {
    OutPoint { txid: [tag; 32], vout: 0 }
}

fn base_init() -> Init {
    Init {
        parent_chain: ParentChainType::BTC,
        l1_recipient_address: String::from("bc1qexample"),
        l1_amount: Some(100_000),
        l2_recipient: Some(Address([7; 20])),
        is_open: false,
        l2_amount: 150_000_000,
        required_confirmations: None,
    }
}

#[test]
fn default_confirmations_per_chain() {
    assert_eq!(ParentChainType::BTC.default_confirmations(), 6);
    assert_eq!(ParentChainType::Signet.default_confirmations(), 1);
    assert_eq!(ParentChainType::Regtest.default_confirmations(), 1);
    assert_eq!(ParentChainType::BCH.default_confirmations(), 10);
    assert_eq!(ParentChainType::LTC.default_confirmations(), 12);
}

#[test]
fn create_defaults_confirmations_from_chain() {
    let inputs = vec![outpoint(1)];
    let (_, swap) = create_swap(&base_init(), &inputs).unwrap();
    assert_eq!(swap.required_confirmations, 6);
    assert_eq!(swap.state, SwapState::Pending);
    assert_eq!(swap.confirmations, 0);
    assert!(swap.l1_txid.is_none());

    let mut init = base_init();
    init.parent_chain = ParentChainType::Regtest;
    let (_, swap) = create_swap(&init, &inputs).unwrap();
    assert_eq!(swap.required_confirmations, 1);
}

#[test]
fn create_keeps_explicit_confirmations() {
    let mut init = base_init();
    init.required_confirmations = Some(3);
    let (_, swap) = create_swap(&init, &vec![outpoint(1)]).unwrap();
    assert_eq!(swap.required_confirmations, 3);
}

#[test]
fn create_rejects_zero_amount() {
    let mut init = base_init();
    init.l2_amount = 0;
    assert!(!check_create_valid(&init));
    assert!(matches!(
        create_swap(&init, &vec![outpoint(1)]),
        Err(SwapError::Validation)
    ));
}

#[test]
fn create_rejects_recipient_and_open_mismatch() {
    // Both a recipient and the open flag.
    let mut init = base_init();
    init.is_open = true;
    assert!(matches!(
        create_swap(&init, &vec![outpoint(1)]),
        Err(SwapError::Validation)
    ));
    // Neither a recipient nor the open flag.
    let mut init = base_init();
    init.l2_recipient = None;
    assert!(matches!(
        create_swap(&init, &vec![outpoint(1)]),
        Err(SwapError::Validation)
    ));
}

#[test]
fn create_rejects_zero_confirmation_requirement() {
    let mut init = base_init();
    init.required_confirmations = Some(0);
    assert!(matches!(
        create_swap(&init, &vec![outpoint(1)]),
        Err(SwapError::Validation)
    ));
}

#[test]
fn create_id_is_deterministic_in_inputs() {
    let (id1, _) = create_swap(&base_init(), &vec![outpoint(1)]).unwrap();
    let (id2, _) = create_swap(&base_init(), &vec![outpoint(1)]).unwrap();
    let (id3, _) = create_swap(&base_init(), &vec![outpoint(2)]).unwrap();
    assert_eq!(id1, id2);
    assert_ne!(id1, id3);
}

#[test]
fn observe_merges_monotonically() {
    let (_, swap) = create_swap(&base_init(), &vec![outpoint(1)]).unwrap();
    let txid = SwapTxId::FixedHash32([9; 32]);
    let s1 = observe_swap(&swap, txid.clone(), 2, None).unwrap();
    assert_eq!(s1.confirmations, 2);
    assert_eq!(s1.state, SwapState::Pending);
    assert_eq!(s1.l1_txid, Some(txid.clone()));
    // A lower report is a no-op on the counter.
    let s2 = observe_swap(&s1, txid.clone(), 1, None).unwrap();
    assert_eq!(s2.confirmations, 2);
    assert_eq!(s2.state, SwapState::Pending);
    // Reaching the requirement advances the state.
    let s3 = observe_swap(&s2, txid.clone(), 6, None).unwrap();
    assert_eq!(s3.confirmations, 6);
    assert_eq!(s3.state, SwapState::ReadyToClaim);
    // Past Pending, observation is rejected and nothing regresses.
    assert!(matches!(
        observe_swap(&s3, txid, 100, None),
        Err(SwapError::InvalidState)
    ));
}

#[test]
fn observe_two_counts_commute_below_requirement() {
    let (_, swap) = create_swap(&base_init(), &vec![outpoint(1)]).unwrap();
    let txid = SwapTxId::FixedHash32([9; 32]);
    let (c1, c2) = (2u32, 5u32);
    let a = observe_swap(&observe_swap(&swap, txid.clone(), c1, None).unwrap(), txid.clone(), c2, None)
        .unwrap();
    let b = observe_swap(&observe_swap(&swap, txid.clone(), c2, None).unwrap(), txid, c1, None)
        .unwrap();
    assert_eq!(a.confirmations, 5);
    assert_eq!(b.confirmations, 5);
    assert_eq!(a.state, b.state);
}

#[test]
fn resolve_claim_prefers_preset_recipient() {
    let (_, swap) = create_swap(&base_init(), &vec![outpoint(1)]).unwrap();
    let txid = SwapTxId::FixedHash32([9; 32]);
    let ready = observe_swap(&swap, txid, 6, None).unwrap();
    let outer = Address([42; 20]);
    let (claimed, recipient) = resolve_claim(&ready, Some(outer)).unwrap();
    // The outer claimer is ignored for a targeted swap.
    assert_eq!(recipient, Address([7; 20]));
    assert_eq!(claimed.state, SwapState::Claimed);
    assert_eq!(claimed.l1_claimer_address, None);
}

#[test]
fn resolve_claim_rejects_pending_and_claimed() {
    let (_, swap) = create_swap(&base_init(), &vec![outpoint(1)]).unwrap();
    assert!(matches!(
        resolve_claim(&swap, None),
        Err(SwapError::InvalidState)
    ));
    let txid = SwapTxId::FixedHash32([9; 32]);
    let ready = observe_swap(&swap, txid, 6, None).unwrap();
    let (claimed, _) = resolve_claim(&ready, None).unwrap();
    assert!(matches!(
        resolve_claim(&claimed, None),
        Err(SwapError::InvalidState)
    ));
}

#[test]
fn txid_from_bytes_classifies_width() {
    let fixed = SwapTxId::from_bytes(&vec![5u8; 32]);
    assert_eq!(fixed, SwapTxId::FixedHash32([5; 32]));
    let variable = SwapTxId::from_bytes(&vec![5u8; 20]);
    assert_eq!(variable, SwapTxId::VariableHash(vec![5u8; 20]));
}
