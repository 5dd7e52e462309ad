use coinshift::lifecycle::create_swap;
use coinshift::lockindex::LockIndex;
use coinshift::registry::Registry;
use coinshift::types::{Address, Init, OutPoint, ParentChainType, SwapError, SwapId, SwapState};

fn outpoint(tag: u8) -> OutPoint {
    OutPoint { txid: [tag; 32], vout: 7 }
}

fn some_swap(input_tag: u8) -> (SwapId, coinshift::types::Swap) {
    let init = Init {
        parent_chain: ParentChainType::LTC,
        l1_recipient_address: String::from("ltc1qexample"),
        l1_amount: None,
        l2_recipient: Some(Address([7; 20])),
        is_open: false,
        l2_amount: 1_000,
        required_confirmations: Some(2),
    };
    create_swap(&init, &vec![outpoint(input_tag)]).unwrap()
}

#[test]
fn registry_put_get_and_overwrite() {
    let mut registry = Registry::new();
    let (id, swap) = some_swap(1);
    assert!(registry.get(&id).is_none());
    registry.put(swap.clone());
    let held = registry.get(&id).unwrap();
    assert_eq!(held, swap);
    assert_eq!(registry.list_all().len(), 1);
    // Overwriting under the same id keeps a single record.
    let mut advanced = swap;
    advanced.confirmations = 1;
    registry.put(advanced.clone());
    assert_eq!(registry.list_all().len(), 1);
    assert_eq!(registry.get(&id).unwrap().confirmations, 1);
    assert_eq!(advanced.state, SwapState::Pending);
}

#[test]
fn registry_holds_distinct_ids_side_by_side() {
    let mut registry = Registry::new();
    let (id1, swap1) = some_swap(1);
    let (id2, swap2) = some_swap(2);
    registry.put(swap1);
    registry.put(swap2);
    assert_ne!(id1, id2);
    assert_eq!(registry.list_all().len(), 2);
    assert!(registry.get(&id1).is_some());
    assert!(registry.get(&id2).is_some());
}

#[test]
fn lock_index_rejects_double_lock_and_unlocks() {
    let mut locks = LockIndex::new();
    let (id1, _) = some_swap(1);
    let (id2, _) = some_swap(2);
    let op = outpoint(3);
    assert_eq!(locks.lookup(&op), None);
    locks.lock(op, id1).unwrap();
    assert_eq!(locks.lookup(&op), Some(id1));
    // A second lock on the same outpoint fails, whatever the swap.
    assert!(matches!(locks.lock(op, id2), Err(SwapError::OutputAlreadyLocked)));
    assert_eq!(locks.lookup(&op), Some(id1));
    locks.unlock(&op);
    assert_eq!(locks.lookup(&op), None);
}

#[test]
fn lock_index_unlock_all_removes_only_the_swap() {
    let mut locks = LockIndex::new();
    let (id1, _) = some_swap(1);
    let (id2, _) = some_swap(2);
    locks.lock(outpoint(3), id1).unwrap();
    locks.lock(outpoint(4), id1).unwrap();
    locks.lock(outpoint(5), id2).unwrap();
    locks.unlock_all(&id1);
    assert_eq!(locks.lookup(&outpoint(3)), None);
    assert_eq!(locks.lookup(&outpoint(4)), None);
    assert_eq!(locks.lookup(&outpoint(5)), Some(id2));
}
