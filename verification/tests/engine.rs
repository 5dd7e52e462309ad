use coinshift::engine::SwapEngine;
use coinshift::types::{
    AccumulatorSnapshot, Address, Init, OutPoint, ParentChainType, SwapError, SwapState, SwapTxId,
};

fn outpoint(tag: u8) -> OutPoint {
    OutPoint { txid: [tag; 32], vout: 0 }
}

fn targeted_init(l2_amount: u64) -> Init {
    Init {
        parent_chain: ParentChainType::BTC,
        l1_recipient_address: String::from("bc1qexample"),
        l1_amount: None,
        l2_recipient: Some(Address([7; 20])),
        is_open: false,
        l2_amount,
        required_confirmations: None,
    }
}

fn open_init(l2_amount: u64) -> Init {
    Init {
        parent_chain: ParentChainType::Regtest,
        l1_recipient_address: String::from("bcrt1qexample"),
        l1_amount: None,
        l2_recipient: None,
        is_open: true,
        l2_amount,
        required_confirmations: None,
    }
}

/// Creates a swap through the assembler and returns its id.
fn create(engine: &mut SwapEngine, init: &Init, input_tag: u8) -> coinshift::types::SwapId {
    let wallet = vec![(outpoint(input_tag), init.l2_amount + 10_000)];
    let acc = AccumulatorSnapshot { members: vec![outpoint(input_tag)] };
    let (_, id) = engine
        .build_create_tx(&acc, &wallet, init, 0, Address([200; 20]))
        .unwrap();
    id
}

#[test]
fn recipient_xor_open_holds_on_every_record() {
    let mut engine = SwapEngine::new();
    create(&mut engine, &targeted_init(1_000), 1);
    create(&mut engine, &open_init(2_000), 2);
    for swap in engine.list_swaps() {
        assert_ne!(swap.l2_recipient.is_some(), swap.is_open);
    }
}

#[test]
fn observe_unknown_swap_fails_not_found() {
    let mut engine = SwapEngine::new();
    let r = engine.observe_l1(
        &coinshift::types::SwapId([3; 32]),
        SwapTxId::FixedHash32([9; 32]),
        5,
    );
    assert!(matches!(r, Err(SwapError::NotFound)));
}

#[test]
fn observe_commits_the_merged_record() {
    let mut engine = SwapEngine::new();
    let id = create(&mut engine, &targeted_init(1_000), 1);
    let txid = SwapTxId::FixedHash32([9; 32]);
    let returned = engine.observe_l1(&id, txid.clone(), 2).unwrap();
    assert_eq!(returned.confirmations, 2);
    let stored = engine.get_swap(&id).unwrap();
    assert_eq!(stored.confirmations, 2);
    assert_eq!(stored.l1_txid, Some(txid.clone()));
    assert_eq!(stored.state, SwapState::Pending);
    // Repeating the same observation changes nothing.
    let repeated = engine.observe_l1(&id, txid, 2).unwrap();
    assert_eq!(repeated, stored);
}

#[test]
fn observe_records_claimer_hint_on_open_swap() {
    let mut engine = SwapEngine::new();
    let id = create(&mut engine, &open_init(1_000), 1);
    let hint = Address([33; 20]);
    let txid = SwapTxId::VariableHash(vec![1, 2, 3]);
    let returned = engine.observe(&id, txid, 0, Some(hint)).unwrap();
    assert_eq!(returned.l1_claimer_address, Some(hint));
}

#[test]
fn claim_pending_swap_fails_invalid_state_and_changes_nothing() {
    let mut engine = SwapEngine::new();
    let id = create(&mut engine, &targeted_init(1_000), 1);
    let before_swaps: Vec<_> = engine.list_swaps().clone();
    let r = engine.claim_swap(&id, None);
    assert!(matches!(r, Err(SwapError::InvalidState)));
    let after_swaps: Vec<_> = engine.list_swaps().clone();
    assert_eq!(before_swaps, after_swaps);
}

#[test]
fn claim_unknown_swap_fails_not_found() {
    let mut engine = SwapEngine::new();
    let r = engine.claim_swap(&coinshift::types::SwapId([3; 32]), None);
    assert!(matches!(r, Err(SwapError::NotFound)));
}

#[test]
fn open_swap_claim_resolves_and_persists_claimer() {
    let mut engine = SwapEngine::new();
    let id = create(&mut engine, &open_init(50_000_000), 1);
    engine
        .observe_l1(&id, SwapTxId::FixedHash32([9; 32]), 1)
        .unwrap();
    assert_eq!(engine.get_swap(&id).unwrap().state, SwapState::ReadyToClaim);
    let claimer = Address([66; 20]);
    let (claimed, recipient) = engine.claim_swap(&id, Some(claimer)).unwrap();
    assert_eq!(recipient, claimer);
    assert_eq!(claimed.l1_claimer_address, Some(claimer));
    assert_eq!(claimed.state, SwapState::Claimed);
    assert_eq!(engine.get_swap(&id).unwrap().state, SwapState::Claimed);

    // A fresh equivalent open swap cannot be claimed without a claimer.
    let id2 = create(&mut engine, &open_init(50_000_000), 2);
    engine
        .observe_l1(&id2, SwapTxId::FixedHash32([9; 32]), 1)
        .unwrap();
    let r = engine.claim_swap(&id2, None);
    assert!(matches!(r, Err(SwapError::MissingClaimer)));
}

#[test]
fn claim_unlocks_the_swap_outputs() {
    let mut engine = SwapEngine::new();
    let init = targeted_init(1_000);
    let wallet = vec![(outpoint(1), 11_000)];
    let acc = AccumulatorSnapshot { members: vec![outpoint(1)] };
    let (tx, id) = engine
        .build_create_tx(&acc, &wallet, &init, 0, Address([200; 20]))
        .unwrap();
    let locked = OutPoint { txid: coinshift::digest::compute_txid(&tx), vout: 0 };
    assert_eq!(engine.is_output_locked_to(&locked), Some(id));
    engine
        .observe_l1(&id, SwapTxId::FixedHash32([9; 32]), 6)
        .unwrap();
    engine.claim_swap(&id, None).unwrap();
    assert_eq!(engine.is_output_locked_to(&locked), None);
}
