//! The transaction assembler: builds the two protocol transaction shapes.
//! A create spends wallet inputs into one swap-locked output and commits the
//! new record and its lock in one step; a claim spends verified locked
//! outputs into one payout and commits the Claimed record and the unlocks in
//! one step. Both emit candidates: downstream ledger validation is
//! authoritative, the assembler guarantees protocol shape.

use vstd::prelude::*;

use crate::digest::{compute_txid, spec_swap_id, spec_txid, spec_txid_of};
use crate::engine::SwapEngine;
use crate::lifecycle::{
    check_create_valid, claim_step, create_swap, create_valid, created_swap_model,
    resolved_recipient,
};
use crate::registry::find_model;
use crate::types::{
    swap_model_wf, AccumulatorSnapshot, Address, Init, OutPoint, OutputContent, Swap, SwapError,
    SwapId, SwapState, Transaction,
};

verus! {

/// The sum of the values carried by a list of unspent outputs.
pub open spec fn sum_values(utxos: Seq<(OutPoint, u64)>) -> int
    decreases utxos.len(),
{
    if utxos.len() == 0 {
        0
    } else {
        sum_values(utxos.drop_last()) + utxos.last().1
    }
}

/// The outpoints of a list of unspent outputs, in order.
pub open spec fn outpoints_of(utxos: Seq<(OutPoint, u64)>) -> Seq<OutPoint> {
    utxos.map_values(|p: (OutPoint, u64)| p.0)
}

/// No outpoint appears twice in the list.
pub open spec fn distinct_outpoints(utxos: Seq<(OutPoint, u64)>) -> bool {
    forall|i: int, j: int| 0 <= i < j < utxos.len() ==> utxos[i].0 != utxos[j].0
}

/// Every outpoint of the list is a member of the accumulator snapshot.
pub open spec fn all_members(acc: AccumulatorSnapshot, utxos: Seq<(OutPoint, u64)>) -> bool {
    forall|k: int| 0 <= k < utxos.len() ==> acc.contains_outpoint((#[trigger] utxos[k]).0)
}

/// Every outpoint of the list is locked to the named swap.
pub open spec fn all_locked_to(engine: SwapEngine, utxos: Seq<(OutPoint, u64)>, id: SwapId) -> bool {
    forall|k: int|
        0 <= k < utxos.len() ==> engine.lock_for((#[trigger] utxos[k]).0) == Option::Some(id)
}

/// Prefix sums grow with the prefix.
pub proof fn lemma_sum_take_monotone(utxos: Seq<(OutPoint, u64)>, a: int, b: int)
    requires
        0 <= a <= b <= utxos.len(),
    ensures
        sum_values(utxos.take(a)) <= sum_values(utxos.take(b)),
    decreases b - a,
{
    if a < b {
        lemma_sum_take_monotone(utxos, a, b - 1);
        assert(utxos.take(b).drop_last() =~= utxos.take(b - 1));
        assert(utxos.take(b).last() == utxos[b - 1]);
    }
}

/// The value a creation must cover: the locked amount plus the fee.
pub open spec fn create_target(init: Init, fee: u64) -> int {
    init.l2_amount + fee
}

/// `n` cuts the shortest prefix of the wallet's unspent outputs whose summed
/// value covers the target.
pub open spec fn covering_prefix(wallet: Seq<(OutPoint, u64)>, target: int, n: int) -> bool {
    &&& 0 < n <= wallet.len()
    &&& sum_values(wallet.take(n)) >= target
    &&& sum_values(wallet.take(n - 1)) < target
}

/// At most one prefix length is the shortest covering one.
pub proof fn lemma_covering_prefix_unique(
    wallet: Seq<(OutPoint, u64)>,
    target: int,
    n1: int,
    n2: int,
)
    requires
        covering_prefix(wallet, target, n1),
        covering_prefix(wallet, target, n2),
    ensures
        n1 == n2,
{
    if n1 < n2 {
        lemma_sum_take_monotone(wallet, n1, n2 - 1);
    }
    if n2 < n1 {
        lemma_sum_take_monotone(wallet, n2, n1 - 1);
    }
}

/// The outputs of a create transaction: the one swap-locked output carrying
/// the id and the locked amount, then change where the selected inputs
/// exceed the target.
pub open spec fn create_outputs(
    init: Init,
    fee: u64,
    selected_sum: int,
    id: SwapId,
    change_address: Address,
) -> Seq<OutputContent> {
    let locked = OutputContent::SwapLocked { swap_id: id, value: init.l2_amount };
    if selected_sum == create_target(init, fee) {
        seq![locked]
    } else {
        seq![
            locked,
            OutputContent::Value {
                address: change_address,
                value: (selected_sum - create_target(init, fee)) as u64,
            },
        ]
    }
}

/// Whether committing the creation built from the first `n` wallet outputs
/// would collide with state already held: the minted id is already
/// registered, or the new locked outpoint is already locked. Both mean the
/// consumed inputs already fund a swap: a race on the same wallet output.
pub open spec fn create_commit_blocked(
    engine: SwapEngine,
    wallet: Seq<(OutPoint, u64)>,
    init: Init,
    fee: u64,
    change_address: Address,
    n: int,
) -> bool {
    exists|sid: SwapId|
        (#[trigger] sid.0@) == spec_swap_id(outpoints_of(wallet.take(n))) && (engine.swap_model(
            sid,
        ) is Some || exists|op: OutPoint|
            op.vout == 0 && (#[trigger] op.txid@) == spec_txid_of(
                outpoints_of(wallet.take(n)),
                create_outputs(init, fee, sum_values(wallet.take(n)), sid, change_address),
            ) && engine.lock_for(op) is Some)
}

/// Selects the shortest prefix of the wallet's unspent outputs whose summed
/// value covers the locked amount plus the fee. Returns the selected
/// outpoints and their summed value, or nothing when the whole set cannot
/// cover the target.
fn select_covering(wallet_utxos: &Vec<(OutPoint, u64)>, l2_amount: u64, fee: u64) -> (r: Option<
    (Vec<OutPoint>, u128),
>)
    requires
        l2_amount >= 1,
    ensures
        r is None <==> sum_values(wallet_utxos@) < l2_amount + fee,
        r is Some ==> ({
            let pair = r->0;
            let n = pair.0@.len() as int;
            &&& covering_prefix(wallet_utxos@, l2_amount + fee, n)
            &&& pair.0@ == outpoints_of(wallet_utxos@.take(n))
            &&& pair.1 == sum_values(wallet_utxos@.take(n))
            &&& l2_amount + fee <= pair.1 <= l2_amount + fee + 0xffffffffffffffff
        }),
{
    let target: u128 = l2_amount as u128 + fee as u128;
    let mut selected: Vec<OutPoint> = Vec::new();
    let mut acc: u128 = 0;
    let mut n: usize = 0;
    let mut covered: bool = false;
    while n < wallet_utxos.len() && !covered
        invariant
            target == l2_amount + fee,
            n <= wallet_utxos@.len(),
            selected@.len() == n,
            selected@ == outpoints_of(wallet_utxos@.take(n as int)),
            acc == sum_values(wallet_utxos@.take(n as int)),
            acc as int <= l2_amount + fee + 0xffffffffffffffff,
            !covered ==> acc < target,
            covered ==> covering_prefix(wallet_utxos@, l2_amount + fee, n as int),
        decreases wallet_utxos@.len() - n,
    {
        proof {
            assert(wallet_utxos@.take(n + 1 as int).drop_last() =~= wallet_utxos@.take(n as int));
            assert(wallet_utxos@.take(n + 1 as int).last() == wallet_utxos@[n as int]);
        }
        selected.push(wallet_utxos[n].0);
        proof {
            assert(selected@ =~= outpoints_of(wallet_utxos@.take(n + 1 as int)));
        }
        acc = acc + wallet_utxos[n].1 as u128;
        n += 1;
        if acc >= target {
            covered = true;
        }
    }
    proof {
        assert(wallet_utxos@.take(wallet_utxos@.len() as int) =~= wallet_utxos@);
    }
    if covered {
        proof {
            lemma_sum_take_monotone(wallet_utxos@, n as int, wallet_utxos@.len() as int);
        }
        Some((selected, acc))
    } else {
        None
    }
}

/// Whether every outpoint of the list is a member of the snapshot.
fn all_outpoints_member(accumulator: &AccumulatorSnapshot, outpoints: &Vec<OutPoint>) -> (r: bool)
    ensures
        r == (forall|k: int|
            0 <= k < outpoints@.len() ==> accumulator.contains_outpoint(
                #[trigger] outpoints@[k],
            )),
{
    let mut k: usize = 0;
    while k < outpoints.len()
        invariant
            k <= outpoints@.len(),
            forall|a: int|
                0 <= a < k ==> accumulator.contains_outpoint(#[trigger] outpoints@[a]),
        decreases outpoints@.len() - k,
    {
        if !accumulator.proves_membership(&outpoints[k]) {
            return false;
        }
        k += 1;
    }
    true
}

impl SwapEngine {
    /// Commits a freshly minted Pending record together with the lock on its
    /// new output's outpoint, in one step. Fails with `OutputAlreadyLocked`
    /// exactly when the outpoint is already locked, and then changes nothing.
    fn commit_create(&mut self, swap: Swap, new_outpoint: OutPoint) -> (r: Result<(), SwapError>)
        requires
            old(self).wf(),
            swap_model_wf(swap@),
            !(swap@.state is Claimed),
            old(self).swap_model(swap.id) is None,
        ensures
            final(self).wf(),
            r is Ok <==> old(self).lock_for(new_outpoint) is None,
            r is Err ==> r->Err_0 == SwapError::OutputAlreadyLocked && *final(self) == *old(self),
            r is Ok ==> final(self).swap_model(swap.id) == Option::Some(swap@),
            r is Ok ==> forall|id2: SwapId|
                id2 != swap.id ==> final(self).swap_model(id2) == old(self).swap_model(id2),
            r is Ok ==> forall|op: OutPoint|
                #[trigger] final(self).lock_for(op) == if op == new_outpoint {
                    Option::Some(swap.id)
                } else {
                    old(self).lock_for(op)
                },
    {
        let sid = swap.id;
        let ghost old_engine = *self;
        match self.lock_index.lock(new_outpoint, sid) {
            Ok(()) => {},
            Err(_) => {
                return Err(SwapError::OutputAlreadyLocked);
            },
        }
        self.registry.put(swap);
        proof {
            // Every lock still points at a held, unclaimed record.
            assert forall|k2: int| 0 <= k2 < self.lock_index.locks().len() implies {
                let bound = find_model(
                    self.registry.models(),
                    (#[trigger] self.lock_index.locks()[k2]).1,
                );
                bound is Some && !(bound->0.state is Claimed)
            } by {
                let entry = self.lock_index.locks()[k2];
                if k2 < old_engine.lock_index.locks().len() {
                    assert(old_engine.lock_index.locks()[k2] == entry);
                    assert(find_model(old_engine.registry.models(), entry.1) is Some);
                    assert(!(find_model(old_engine.registry.models(), entry.1)->0.state
                        is Claimed));
                    assert(entry.1 != sid);
                    assert(self.registry.swap_model(entry.1) == old_engine.registry.swap_model(
                        entry.1,
                    ));
                } else {
                    assert(entry == (new_outpoint, sid));
                }
            }
        }
        Ok(())
    }

    /// Builds the create transaction for a new swap and commits the swap.
    /// Selects the shortest prefix of the wallet's unspent outputs covering
    /// the locked amount plus the fee, requires each selected input provable
    /// against the given accumulator snapshot, mints the id from the selected
    /// inputs, and emits a transaction with exactly one swap-locked output
    /// carrying the id and the locked amount, plus change. The new record and
    /// the lock on the new output's outpoint are committed in one step; an
    /// error changes nothing. Because the id and the new outpoint are
    /// deterministic in the consumed inputs, two creations racing on the same
    /// wallet output collide in the lock index: exactly one succeeds, the
    /// other fails with `OutputAlreadyLocked`.
    #[verifier::rlimit(50)]
    #[verifier::spinoff_prover]
    pub fn build_create_tx(
        &mut self,
        accumulator: &AccumulatorSnapshot,
        wallet_utxos: &Vec<(OutPoint, u64)>,
        init: &Init,
        fee: u64,
        change_address: Address,
    ) -> (r: Result<(Transaction, SwapId), SwapError>)
        requires
            old(self).wf(),
        ensures
            final(self).wf(),
            r is Err ==> *final(self) == *old(self),
            r == Err::<(Transaction, SwapId), SwapError>(SwapError::Validation) <==> !create_valid(
                *init,
            ),
            r == Err::<(Transaction, SwapId), SwapError>(SwapError::InsufficientFunds) <==> (
            create_valid(*init) && sum_values(wallet_utxos@) < create_target(*init, fee)),
            r == Err::<(Transaction, SwapId), SwapError>(SwapError::AccumulatorProof) <==> (
            create_valid(*init) && exists|n: int|
                #[trigger] covering_prefix(wallet_utxos@, create_target(*init, fee), n)
                    && !all_members(*accumulator, wallet_utxos@.take(n))),
            r == Err::<(Transaction, SwapId), SwapError>(SwapError::OutputAlreadyLocked) <==> (
            create_valid(*init) && exists|n: int|
                #[trigger] covering_prefix(wallet_utxos@, create_target(*init, fee), n)
                    && all_members(*accumulator, wallet_utxos@.take(n)) && create_commit_blocked(
                    *old(self),
                    wallet_utxos@,
                    *init,
                    fee,
                    change_address,
                    n,
                )),
            r is Ok <==> (create_valid(*init) && exists|n: int|
                #[trigger] covering_prefix(wallet_utxos@, create_target(*init, fee), n)
                    && all_members(*accumulator, wallet_utxos@.take(n)) && !create_commit_blocked(
                    *old(self),
                    wallet_utxos@,
                    *init,
                    fee,
                    change_address,
                    n,
                )),
            r is Ok ==> r->Ok_0.1.0@ == spec_swap_id(r->Ok_0.0.inputs@),
            r is Ok ==> exists|n: int|
                #[trigger] covering_prefix(wallet_utxos@, create_target(*init, fee), n)
                    && r->Ok_0.0.inputs@ == outpoints_of(wallet_utxos@.take(n))
                    && r->Ok_0.0.outputs@ == create_outputs(
                    *init,
                    fee,
                    sum_values(wallet_utxos@.take(n)),
                    r->Ok_0.1,
                    change_address,
                ),
            r is Ok ==> final(self).swap_model(r->Ok_0.1) == Option::Some(
                created_swap_model(*init, r->Ok_0.1),
            ),
            r is Ok ==> forall|id2: SwapId|
                id2 != r->Ok_0.1 ==> final(self).swap_model(id2) == old(self).swap_model(id2),
            r is Ok ==> forall|op: OutPoint|
                #[trigger] final(self).lock_for(op) == if op.vout == 0 && op.txid@ == spec_txid(
                    r->Ok_0.0,
                ) {
                    Option::Some(r->Ok_0.1)
                } else {
                    old(self).lock_for(op)
                },
    {
        if !check_create_valid(init) {
            return Err(SwapError::Validation);
        }
        let (selected, acc) = match select_covering(wallet_utxos, init.l2_amount, fee) {
            Option::Some(pair) => pair,
            Option::None => {
                proof {
                    assert(wallet_utxos@.take(wallet_utxos@.len() as int) =~= wallet_utxos@);
                    assert forall|n2: int|
                        !covering_prefix(wallet_utxos@, create_target(*init, fee), n2) by {
                        if covering_prefix(wallet_utxos@, create_target(*init, fee), n2) {
                            lemma_sum_take_monotone(
                                wallet_utxos@,
                                n2,
                                wallet_utxos@.len() as int,
                            );
                        }
                    }
                }
                return Err(SwapError::InsufficientFunds);
            },
        };
        let n = selected.len();
        let ghost nn = n as int;
        proof {
            assert(covering_prefix(wallet_utxos@, create_target(*init, fee), nn));
            assert(wallet_utxos@.take(wallet_utxos@.len() as int) =~= wallet_utxos@);
            lemma_sum_take_monotone(wallet_utxos@, nn, wallet_utxos@.len() as int);
            assert forall|n2: int|
                covering_prefix(wallet_utxos@, create_target(*init, fee), n2) implies n2
                == nn by {
                lemma_covering_prefix_unique(wallet_utxos@, create_target(*init, fee), n2, nn);
            }
        }
        if !all_outpoints_member(accumulator, &selected) {
            proof {
                let k = choose|k: int|
                    0 <= k < selected@.len() && !accumulator.contains_outpoint(selected@[k]);
                assert(wallet_utxos@.take(nn)[k].0 == selected@[k]);
                assert(!all_members(*accumulator, wallet_utxos@.take(nn)));
            }
            return Err(SwapError::AccumulatorProof);
        }
        proof {
            assert forall|k: int| 0 <= k < nn implies accumulator.contains_outpoint(
                (#[trigger] wallet_utxos@.take(nn)[k]).0,
            ) by {
                assert(wallet_utxos@.take(nn)[k].0 == selected@[k]);
            }
            assert(all_members(*accumulator, wallet_utxos@.take(nn)));
        }
        // Mint the id and the validated Pending record.
        let (sid, swap) = match create_swap(init, &selected) {
            Ok(pair) => pair,
            Err(_) => {
                proof {
                    assert(false);
                }
                return Err(SwapError::Validation);
            },
        };
        // The consumed inputs must not already fund a swap.
        let already = self.get_swap(&sid);
        if already.is_some() {
            proof {
                assert(sid.0@ == spec_swap_id(outpoints_of(wallet_utxos@.take(nn))));
                assert(old(self).swap_model(sid) is Some);
                assert(create_commit_blocked(
                    *old(self),
                    wallet_utxos@,
                    *init,
                    fee,
                    change_address,
                    nn,
                ));
            }
            return Err(SwapError::OutputAlreadyLocked);
        }
        // Assemble the candidate transaction.
        let target: u128 = init.l2_amount as u128 + fee as u128;
        let mut outputs: Vec<OutputContent> = Vec::new();
        outputs.push(OutputContent::SwapLocked { swap_id: sid, value: init.l2_amount });
        if acc > target {
            let change = (acc - target) as u64;
            outputs.push(OutputContent::Value { address: change_address, value: change });
        }
        let tx = Transaction { inputs: selected, outputs };
        proof {
            assert(tx.outputs@ =~= create_outputs(
                *init,
                fee,
                sum_values(wallet_utxos@.take(nn)),
                sid,
                change_address,
            ));
        }
        let txid = compute_txid(&tx);
        let new_outpoint = OutPoint { txid, vout: 0 };
        proof {
            assert(swap.id == sid);
        }
        match self.commit_create(swap, new_outpoint) {
            Ok(()) => {},
            Err(e) => {
                proof {
                    assert(sid.0@ == spec_swap_id(outpoints_of(wallet_utxos@.take(nn))));
                    assert(new_outpoint.txid@ == spec_txid_of(
                        outpoints_of(wallet_utxos@.take(nn)),
                        create_outputs(
                            *init,
                            fee,
                            sum_values(wallet_utxos@.take(nn)),
                            sid,
                            change_address,
                        ),
                    ));
                    assert(old(self).lock_for(new_outpoint) is Some);
                    assert(create_commit_blocked(
                        *old(self),
                        wallet_utxos@,
                        *init,
                        fee,
                        change_address,
                        nn,
                    ));
                }
                return Err(e);
            },
        }
        proof {
            // The committed state was not blocked: any id with the minted
            // bytes is the minted id, and any outpoint with the new
            // transaction's id bytes is the new outpoint.
            assert forall|sid2: SwapId|
                (#[trigger] sid2.0@) == spec_swap_id(outpoints_of(wallet_utxos@.take(nn)))
                    implies sid2 == sid by {
                assert(sid2.0@ == sid.0@);
                assert(sid2.0 =~= sid.0);
            }
            assert forall|op: OutPoint|
                op.vout == 0 && (#[trigger] op.txid@) == spec_txid(tx) implies op
                == new_outpoint by {
                assert(op.txid@ == new_outpoint.txid@);
                assert(op.txid =~= new_outpoint.txid);
            }
            assert(!create_commit_blocked(
                *old(self),
                wallet_utxos@,
                *init,
                fee,
                change_address,
                nn,
            ));
        }
        Ok((tx, sid))
    }

    /// Builds the claim transaction for a swap and commits the claim. Each
    /// supplied outpoint must be locked to the swap and provable against the
    /// given accumulator snapshot, so a claim can never be built from a stale
    /// or reorganized view; any failing outpoint aborts the whole build with
    /// nothing produced and nothing changed. On success the transaction
    /// spends every supplied outpoint into a single output paying the summed
    /// locked value less the fee to the resolved recipient, the record goes
    /// to Claimed, and every outpoint locked to the swap is unlocked in the
    /// same commit.
    pub fn build_claim_tx(
        &mut self,
        accumulator: &AccumulatorSnapshot,
        id: &SwapId,
        locked_outputs: &Vec<(OutPoint, u64)>,
        outer_claimer: Option<Address>,
        fee: u64,
    ) -> (r: Result<Transaction, SwapError>)
        requires
            old(self).wf(),
        ensures
            final(self).wf(),
            r is Err ==> *final(self) == *old(self),
            r is Ok <==> ({
                &&& locked_outputs@.len() > 0
                &&& distinct_outpoints(locked_outputs@)
                &&& old(self).swap_model(*id) is Some
                &&& all_locked_to(*old(self), locked_outputs@, *id)
                &&& all_members(*accumulator, locked_outputs@)
                &&& old(self).swap_model(*id)->0.state is ReadyToClaim
                &&& (old(self).swap_model(*id)->0.l2_recipient is Some || outer_claimer is Some)
                &&& fee <= sum_values(locked_outputs@)
                &&& sum_values(locked_outputs@) - fee <= u64::MAX
            }),
            r == Err::<Transaction, SwapError>(SwapError::Validation) <==> (locked_outputs@.len()
                == 0 || !distinct_outpoints(locked_outputs@) || ({
                &&& locked_outputs@.len() > 0
                &&& distinct_outpoints(locked_outputs@)
                &&& old(self).swap_model(*id) is Some
                &&& all_locked_to(*old(self), locked_outputs@, *id)
                &&& all_members(*accumulator, locked_outputs@)
                &&& old(self).swap_model(*id)->0.state is ReadyToClaim
                &&& (old(self).swap_model(*id)->0.l2_recipient is Some || outer_claimer is Some)
                &&& (fee > sum_values(locked_outputs@) || sum_values(locked_outputs@) - fee
                    > u64::MAX)
            })),
            r == Err::<Transaction, SwapError>(SwapError::NotFound) <==> (locked_outputs@.len() > 0
                && distinct_outpoints(locked_outputs@) && (old(self).swap_model(*id) is None
                || !all_locked_to(*old(self), locked_outputs@, *id))),
            r == Err::<Transaction, SwapError>(SwapError::AccumulatorProof) <==> (
            locked_outputs@.len() > 0 && distinct_outpoints(locked_outputs@) && old(
                self,
            ).swap_model(*id) is Some && all_locked_to(*old(self), locked_outputs@, *id)
                && !all_members(*accumulator, locked_outputs@)),
            r == Err::<Transaction, SwapError>(SwapError::InvalidState) <==> (locked_outputs@.len()
                > 0 && distinct_outpoints(locked_outputs@) && old(self).swap_model(*id) is Some
                && all_locked_to(*old(self), locked_outputs@, *id) && all_members(
                *accumulator,
                locked_outputs@,
            ) && !(old(self).swap_model(*id)->0.state is ReadyToClaim)),
            r == Err::<Transaction, SwapError>(SwapError::MissingClaimer) <==> (
            locked_outputs@.len() > 0 && distinct_outpoints(locked_outputs@) && old(
                self,
            ).swap_model(*id) is Some && all_locked_to(*old(self), locked_outputs@, *id)
                && all_members(*accumulator, locked_outputs@) && old(self).swap_model(
                *id,
            )->0.state is ReadyToClaim && old(self).swap_model(*id)->0.l2_recipient is None
                && outer_claimer is None),
            r is Ok ==> r->Ok_0.inputs@ == outpoints_of(locked_outputs@),
            r is Ok ==> r->Ok_0.outputs@ == seq![
                OutputContent::Value {
                    address: resolved_recipient(old(self).swap_model(*id)->0, outer_claimer),
                    value: (sum_values(locked_outputs@) - fee) as u64,
                },
            ],
            r is Ok ==> final(self).swap_model(*id) == Option::Some(
                claim_step(old(self).swap_model(*id)->0, outer_claimer),
            ),
            forall|id2: SwapId|
                id2 != *id ==> final(self).swap_model(id2) == old(self).swap_model(id2),
            r is Ok ==> forall|op: OutPoint|
                #[trigger] final(self).lock_for(op) == if old(self).lock_for(op) == Option::Some(
                    *id,
                ) {
                    Option::None::<SwapId>
                } else {
                    old(self).lock_for(op)
                },
    {
        if locked_outputs.len() == 0 {
            return Err(SwapError::Validation);
        }
        // No outpoint may be spent twice by one transaction.
        let mut i: usize = 0;
        while i < locked_outputs.len()
            invariant
                *self == *old(self),
                old(self).wf(),
                locked_outputs@.len() > 0,
                i <= locked_outputs@.len(),
                forall|a: int, b: int|
                    0 <= a < b < locked_outputs@.len() && a < i ==> locked_outputs@[a].0
                        != locked_outputs@[b].0,
            decreases locked_outputs@.len() - i,
        {
            let mut j: usize = i + 1;
            while j < locked_outputs.len()
                invariant
                    *self == *old(self),
                    old(self).wf(),
                    locked_outputs@.len() > 0,
                    i < j <= locked_outputs@.len(),
                    forall|b: int|
                        i < b < j ==> locked_outputs@[i as int].0 != locked_outputs@[b].0,
                decreases locked_outputs@.len() - j,
            {
                if locked_outputs[i].0.same_as(&locked_outputs[j].0) {
                    return Err(SwapError::Validation);
                }
                j += 1;
            }
            i += 1;
        }
        // The registry must hold the swap.
        let current = match self.get_swap(id) {
            Option::Some(swap) => swap,
            Option::None => {
                return Err(SwapError::NotFound);
            },
        };
        // Every supplied outpoint must be locked to this swap.
        let mut k: usize = 0;
        while k < locked_outputs.len()
            invariant
                *self == *old(self),
                old(self).wf(),
                locked_outputs@.len() > 0,
                distinct_outpoints(locked_outputs@),
                old(self).swap_model(*id) is Some,
                k <= locked_outputs@.len(),
                forall|a: int|
                    0 <= a < k ==> self.lock_for((#[trigger] locked_outputs@[a]).0)
                        == Option::Some(*id),
            decreases locked_outputs@.len() - k,
        {
            let bound = match self.is_output_locked_to(&locked_outputs[k].0) {
                Option::Some(bound) => bound,
                Option::None => {
                    return Err(SwapError::NotFound);
                },
            };
            if !bound.same_as(id) {
                return Err(SwapError::NotFound);
            }
            k += 1;
        }
        // Every supplied outpoint must still be provable at the chosen tip.
        let mut k: usize = 0;
        while k < locked_outputs.len()
            invariant
                *self == *old(self),
                old(self).wf(),
                locked_outputs@.len() > 0,
                distinct_outpoints(locked_outputs@),
                old(self).swap_model(*id) is Some,
                all_locked_to(*old(self), locked_outputs@, *id),
                k <= locked_outputs@.len(),
                forall|a: int|
                    0 <= a < k ==> accumulator.contains_outpoint(
                        (#[trigger] locked_outputs@[a]).0,
                    ),
            decreases locked_outputs@.len() - k,
        {
            if !accumulator.proves_membership(&locked_outputs[k].0) {
                return Err(SwapError::AccumulatorProof);
            }
            k += 1;
        }
        // The claim itself must resolve.
        match current.state {
            SwapState::ReadyToClaim => {},
            _ => {
                return Err(SwapError::InvalidState);
            },
        }
        if current.l2_recipient.is_none() && outer_claimer.is_none() {
            return Err(SwapError::MissingClaimer);
        }
        // The payout is the aggregate locked value less the fee.
        let mut total: u128 = 0;
        let mut k: usize = 0;
        while k < locked_outputs.len()
            invariant
                k <= locked_outputs@.len(),
                total == sum_values(locked_outputs@.take(k as int)),
                total as int <= k * 0xffffffffffffffff,
            decreases locked_outputs@.len() - k,
        {
            proof {
                assert(locked_outputs@.take(k + 1 as int).drop_last() =~= locked_outputs@.take(
                    k as int,
                ));
                assert(locked_outputs@.take(k + 1 as int).last() == locked_outputs@[k as int]);
            }
            total = total + locked_outputs[k].1 as u128;
            k += 1;
        }
        proof {
            assert(locked_outputs@.take(locked_outputs@.len() as int) =~= locked_outputs@);
        }
        if (fee as u128) > total {
            return Err(SwapError::Validation);
        }
        let payout_wide = total - fee as u128;
        if payout_wide > u64::MAX as u128 {
            return Err(SwapError::Validation);
        }
        let payout = payout_wide as u64;
        // All checks passed: commit the claim and assemble the spend.
        let recipient = match self.claim_swap(id, outer_claimer) {
            Ok((_, recipient)) => recipient,
            Err(_) => {
                proof {
                    assert(false);
                }
                return Err(SwapError::Validation);
            },
        };
        let mut inputs: Vec<OutPoint> = Vec::new();
        let mut k: usize = 0;
        while k < locked_outputs.len()
            invariant
                k <= locked_outputs@.len(),
                inputs@ == outpoints_of(locked_outputs@.take(k as int)),
            decreases locked_outputs@.len() - k,
        {
            inputs.push(locked_outputs[k].0);
            proof {
                assert(inputs@ =~= outpoints_of(locked_outputs@.take(k + 1 as int)));
            }
            k += 1;
        }
        proof {
            assert(locked_outputs@.take(locked_outputs@.len() as int) =~= locked_outputs@);
        }
        let mut outputs: Vec<OutputContent> = Vec::new();
        outputs.push(OutputContent::Value { address: recipient, value: payout });
        let tx = Transaction { inputs, outputs };
        proof {
            assert(tx.outputs@ =~= seq![
                OutputContent::Value {
                    address: resolved_recipient(old(self).swap_model(*id)->0, outer_claimer),
                    value: (sum_values(locked_outputs@) - fee) as u64,
                },
            ]);
        }
        Ok(tx)
    }
}

} // verus!
