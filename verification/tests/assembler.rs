use coinshift::digest::{compute_txid, encode_outpoints};
use coinshift::engine::SwapEngine;
use coinshift::types::{
    AccumulatorSnapshot, Address, Init, OutPoint, OutputContent, ParentChainType, SwapError,
    SwapState, SwapTxId,
};

fn outpoint(tag: u8) -> OutPoint {
    OutPoint { txid: [tag; 32], vout: 0 }
}

fn targeted_init(l2_amount: u64, recipient: Address) -> Init {
    Init {
        parent_chain: ParentChainType::BTC,
        l1_recipient_address: String::from("bc1qexample"),
        l1_amount: Some(150_000),
        l2_recipient: Some(recipient),
        is_open: false,
        l2_amount,
        required_confirmations: None,
    }
}

#[test]
fn round_trip_create_observe_claim_pays_value_less_fee() {
    let recipient = Address([7; 20]);
    let mut engine = SwapEngine::new();
    let init = targeted_init(150_000_000, recipient);
    let wallet = vec![(outpoint(1), 100_000_000), (outpoint(2), 60_000_000)];
    let acc = AccumulatorSnapshot { members: vec![outpoint(1), outpoint(2)] };
    let change_address = Address([200; 20]);

    let (tx, id) = engine
        .build_create_tx(&acc, &wallet, &init, 1_000, change_address)
        .unwrap();
    // Both wallet outputs are needed; the swap-locked output carries the
    // promised amount exactly, the change absorbs the excess.
    assert_eq!(tx.inputs, vec![outpoint(1), outpoint(2)]);
    assert_eq!(
        tx.outputs,
        vec![
            OutputContent::SwapLocked { swap_id: id, value: 150_000_000 },
            OutputContent::Value { address: change_address, value: 9_999_000 },
        ]
    );
    assert_eq!(engine.get_swap(&id).unwrap().state, SwapState::Pending);

    // The oracle reports the required depth.
    engine
        .observe_l1(&id, SwapTxId::FixedHash32([9; 32]), 6)
        .unwrap();
    assert_eq!(engine.get_swap(&id).unwrap().state, SwapState::ReadyToClaim);

    // Claim the locked output.
    let locked = OutPoint { txid: compute_txid(&tx), vout: 0 };
    let tip = AccumulatorSnapshot { members: vec![locked] };
    let claim_tx = engine
        .build_claim_tx(&tip, &id, &vec![(locked, 150_000_000)], None, 1_000)
        .unwrap();
    assert_eq!(claim_tx.inputs, vec![locked]);
    assert_eq!(
        claim_tx.outputs,
        vec![OutputContent::Value { address: recipient, value: 149_999_000 }]
    );
    assert_eq!(engine.get_swap(&id).unwrap().state, SwapState::Claimed);
    assert_eq!(engine.is_output_locked_to(&locked), None);
}

#[test]
fn racing_creates_on_the_same_wallet_output_collide() {
    let mut engine = SwapEngine::new();
    let init = targeted_init(1_000, Address([7; 20]));
    let wallet = vec![(outpoint(1), 5_000)];
    let acc = AccumulatorSnapshot { members: vec![outpoint(1)] };
    let first = engine.build_create_tx(&acc, &wallet, &init, 0, Address([200; 20]));
    assert!(first.is_ok());
    let second = engine.build_create_tx(&acc, &wallet, &init, 0, Address([200; 20]));
    assert!(matches!(second, Err(SwapError::OutputAlreadyLocked)));
    // Exactly one record was committed.
    assert_eq!(engine.list_swaps().len(), 1);
}

#[test]
fn create_fails_validation_before_anything_else() {
    let mut engine = SwapEngine::new();
    let mut init = targeted_init(0, Address([7; 20]));
    init.l2_amount = 0;
    let r = engine.build_create_tx(
        &AccumulatorSnapshot { members: vec![] },
        &vec![],
        &init,
        0,
        Address([200; 20]),
    );
    assert!(matches!(r, Err(SwapError::Validation)));
}

#[test]
fn create_fails_when_wallet_cannot_cover_amount_plus_fee() {
    let mut engine = SwapEngine::new();
    let init = targeted_init(10_000, Address([7; 20]));
    let wallet = vec![(outpoint(1), 9_000)];
    let acc = AccumulatorSnapshot { members: vec![outpoint(1)] };
    let r = engine.build_create_tx(&acc, &wallet, &init, 1_500, Address([200; 20]));
    assert!(matches!(r, Err(SwapError::InsufficientFunds)));
    assert_eq!(engine.list_swaps().len(), 0);
}

#[test]
fn create_fails_on_stale_accumulator_view() {
    let mut engine = SwapEngine::new();
    let init = targeted_init(1_000, Address([7; 20]));
    let wallet = vec![(outpoint(1), 5_000)];
    let stale = AccumulatorSnapshot { members: vec![outpoint(9)] };
    let r = engine.build_create_tx(&stale, &wallet, &init, 0, Address([200; 20]));
    assert!(matches!(r, Err(SwapError::AccumulatorProof)));
}

#[test]
fn create_emits_no_change_output_on_exact_cover() {
    let mut engine = SwapEngine::new();
    let init = targeted_init(4_000, Address([7; 20]));
    let wallet = vec![(outpoint(1), 5_000)];
    let acc = AccumulatorSnapshot { members: vec![outpoint(1)] };
    let (tx, id) = engine
        .build_create_tx(&acc, &wallet, &init, 1_000, Address([200; 20]))
        .unwrap();
    assert_eq!(
        tx.outputs,
        vec![OutputContent::SwapLocked { swap_id: id, value: 4_000 }]
    );
}

#[test]
fn minted_id_is_the_digest_of_the_consumed_inputs() {
    let mut engine = SwapEngine::new();
    let init = targeted_init(1_000, Address([7; 20]));
    let wallet = vec![(outpoint(1), 5_000)];
    let acc = AccumulatorSnapshot { members: vec![outpoint(1)] };
    let (tx, id) = engine
        .build_create_tx(&acc, &wallet, &init, 0, Address([200; 20]))
        .unwrap();
    let preimage = encode_outpoints(&tx.inputs);
    let digest = <bitcoin::hashes::sha256::Hash as bitcoin::hashes::Hash>::hash(&preimage);
    let expected = <bitcoin::hashes::sha256::Hash as bitcoin::hashes::Hash>::to_byte_array(digest);
    assert_eq!(id.0, expected);
    // The encoding itself: 32 txid bytes then the output position.
    assert_eq!(preimage.len(), 36);
    assert_eq!(&preimage[..32], &[1u8; 32]);
    assert_eq!(&preimage[32..], &[0u8, 0, 0, 0]);
}

#[test]
fn claim_fails_accumulator_proof_on_absent_outpoint() {
    let mut engine = SwapEngine::new();
    let init = targeted_init(1_000, Address([7; 20]));
    let wallet = vec![(outpoint(1), 5_000)];
    let acc = AccumulatorSnapshot { members: vec![outpoint(1)] };
    let (tx, id) = engine
        .build_create_tx(&acc, &wallet, &init, 0, Address([200; 20]))
        .unwrap();
    engine
        .observe_l1(&id, SwapTxId::FixedHash32([9; 32]), 6)
        .unwrap();
    let locked = OutPoint { txid: compute_txid(&tx), vout: 0 };
    // The snapshot does not hold the locked outpoint.
    let stale = AccumulatorSnapshot { members: vec![outpoint(1)] };
    let r = engine.build_claim_tx(&stale, &id, &vec![(locked, 1_000)], None, 0);
    assert!(matches!(r, Err(SwapError::AccumulatorProof)));
    // No transaction was produced and nothing moved: the claim still works
    // against a fresh snapshot.
    assert_eq!(engine.get_swap(&id).unwrap().state, SwapState::ReadyToClaim);
    let tip = AccumulatorSnapshot { members: vec![locked] };
    assert!(engine
        .build_claim_tx(&tip, &id, &vec![(locked, 1_000)], None, 0)
        .is_ok());
}

#[test]
fn claim_rejects_empty_and_foreign_outpoints() {
    let mut engine = SwapEngine::new();
    let init = targeted_init(1_000, Address([7; 20]));
    let wallet = vec![(outpoint(1), 5_000)];
    let acc = AccumulatorSnapshot { members: vec![outpoint(1)] };
    let (_, id) = engine
        .build_create_tx(&acc, &wallet, &init, 0, Address([200; 20]))
        .unwrap();
    engine
        .observe_l1(&id, SwapTxId::FixedHash32([9; 32]), 6)
        .unwrap();
    let r = engine.build_claim_tx(&acc, &id, &vec![], None, 0);
    assert!(matches!(r, Err(SwapError::Validation)));
    // An outpoint not locked to this swap is refused.
    let foreign = outpoint(9);
    let tip = AccumulatorSnapshot { members: vec![foreign] };
    let r = engine.build_claim_tx(&tip, &id, &vec![(foreign, 1_000)], None, 0);
    assert!(matches!(r, Err(SwapError::NotFound)));
}

#[test]
fn claim_rejects_fee_above_locked_value() {
    let mut engine = SwapEngine::new();
    let init = targeted_init(1_000, Address([7; 20]));
    let wallet = vec![(outpoint(1), 5_000)];
    let acc = AccumulatorSnapshot { members: vec![outpoint(1)] };
    let (tx, id) = engine
        .build_create_tx(&acc, &wallet, &init, 0, Address([200; 20]))
        .unwrap();
    engine
        .observe_l1(&id, SwapTxId::FixedHash32([9; 32]), 6)
        .unwrap();
    let locked = OutPoint { txid: compute_txid(&tx), vout: 0 };
    let tip = AccumulatorSnapshot { members: vec![locked] };
    let r = engine.build_claim_tx(&tip, &id, &vec![(locked, 1_000)], None, 2_000);
    assert!(matches!(r, Err(SwapError::Validation)));
}
