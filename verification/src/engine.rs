//! The swap engine: the registry and the lock index behind one interface,
//! with the lifecycle transitions committed atomically. Every mutating
//! operation either applies in full or reports an error and changes nothing.

use vstd::prelude::*;

use crate::lifecycle::{claim_step, observe_step, resolve_claim, observe_swap, resolved_recipient};
use crate::lockindex::{lemma_lock_of_some_exists, LockIndex};
use crate::registry::{
    all_models_wf, find_model, lemma_find_model_some_exists, Registry,
};
use crate::types::{Address, OutPoint, Swap, SwapError, SwapId, SwapModel, SwapTxId};

verus! {

/// The swap engine. The registry owns the records; the lock index is derived
/// and never diverges from it: both mutate inside the same operation.
pub struct SwapEngine {
    pub registry: Registry,
    pub lock_index: LockIndex,
}

impl SwapEngine {
    /// The record held for an id.
    pub open spec fn swap_model(self, id: SwapId) -> Option<SwapModel> {
        self.registry.swap_model(id)
    }

    /// The swap an outpoint is locked to.
    pub open spec fn lock_for(self, outpoint: OutPoint) -> Option<SwapId> {
        self.lock_index.lock_for(outpoint)
    }

    /// Well-formedness, held at every observable snapshot: registry ids are
    /// unique, every record is valid, lock outpoints are unique, and every
    /// lock entry points at a held record that is not Claimed.
    pub open spec fn wf(self) -> bool {
        &&& self.registry.wf()
        &&& all_models_wf(self.registry.models())
        &&& self.lock_index.wf()
        &&& forall|k: int|
            0 <= k < self.lock_index.locks().len() ==> {
                let bound = find_model(
                    self.registry.models(),
                    (#[trigger] self.lock_index.locks()[k]).1,
                );
                bound is Some && !(bound->0.state is Claimed)
            }
    }

    /// An empty engine.
    pub fn new() -> (r: SwapEngine)
        ensures
            r.wf(),
            forall|id: SwapId| #[trigger] r.swap_model(id) is None,
            forall|op: OutPoint| #[trigger] r.lock_for(op) is None,
    {
        let r = SwapEngine { registry: Registry::new(), lock_index: LockIndex::new() };
        r
    }

    /// Reads the record held for an id, if any.
    pub fn get_swap(&self, id: &SwapId) -> (r: Option<Swap>)
        requires
            self.wf(),
        ensures
            r is Some <==> self.swap_model(*id) is Some,
            r is Some ==> r->0@ == self.swap_model(*id)->0,
    {
        self.registry.get(id)
    }

    /// All records held. Claimed records are retained for audit; order
    /// carries no meaning.
    pub fn list_swaps(&self) -> (r: &Vec<Swap>)
        ensures
            r@.len() == self.registry.models().len(),
            forall|i: int|
                0 <= i < r@.len() ==> (#[trigger] r@[i])@ == self.registry.models()[i],
    {
        self.registry.list_all()
    }

    /// The swap an outpoint is locked to, if any.
    pub fn is_output_locked_to(&self, outpoint: &OutPoint) -> (r: Option<SwapId>)
        requires
            self.wf(),
        ensures
            r == self.lock_for(*outpoint),
    {
        self.lock_index.lookup(outpoint)
    }

    /// Applies an oracle observation to the swap and commits the merged
    /// record: the reported transaction id is recorded, the confirmation
    /// counter merges monotonically, and the swap advances to ReadyToClaim
    /// once the merged counter reaches its requirement. Fails with `NotFound`
    /// exactly when the id is unknown and `InvalidState` exactly when the
    /// swap is past Pending; an error changes nothing.
    pub fn observe(
        &mut self,
        id: &SwapId,
        txid: SwapTxId,
        confirmations: u32,
        l1_claimer_hint: Option<Address>,
    ) -> (r: Result<Swap, SwapError>)
        requires
            old(self).wf(),
        ensures
            final(self).wf(),
            r is Ok <==> (old(self).swap_model(*id) is Some && old(self).swap_model(*id)->0.state
                is Pending),
            r == Err::<Swap, SwapError>(SwapError::NotFound) <==> old(self).swap_model(*id)
                is None,
            r == Err::<Swap, SwapError>(SwapError::InvalidState) <==> (old(self).swap_model(*id)
                is Some && !(old(self).swap_model(*id)->0.state is Pending)),
            r is Err ==> *final(self) == *old(self),
            r is Ok ==> r->Ok_0@ == observe_step(
                old(self).swap_model(*id)->0,
                txid@,
                confirmations,
                l1_claimer_hint,
            ),
            r is Ok ==> final(self).swap_model(*id) == Option::Some(r->Ok_0@),
            forall|id2: SwapId|
                id2 != *id ==> final(self).swap_model(id2) == old(self).swap_model(id2),
            forall|op: OutPoint| #[trigger] final(self).lock_for(op) == old(self).lock_for(op),
    {
        let current = match self.registry.get(id) {
            Option::Some(swap) => swap,
            Option::None => {
                return Err(SwapError::NotFound);
            },
        };
        proof {
            lemma_find_model_some_exists(self.registry.models(), *id);
        }
        let updated = match observe_swap(&current, txid, confirmations, l1_claimer_hint) {
            Ok(updated) => updated,
            Err(e) => {
                return Err(e);
            },
        };
        let result = updated.duplicate();
        let ghost new_model = updated@;
        let ghost old_engine = *self;
        proof {
            assert(updated.id == *id);
        }
        self.registry.put(updated);
        proof {
            assert forall|k: int| 0 <= k < self.lock_index.locks().len() implies {
                let bound = find_model(
                    self.registry.models(),
                    (#[trigger] self.lock_index.locks()[k]).1,
                );
                bound is Some && !(bound->0.state is Claimed)
            } by {
                let bound_id = self.lock_index.locks()[k].1;
                assert(old_engine.lock_index.locks()[k].1 == bound_id);
                assert(find_model(old_engine.registry.models(), bound_id) is Some);
                assert(!(find_model(old_engine.registry.models(), bound_id)->0.state is Claimed));
                if bound_id == *id {
                    assert(self.registry.swap_model(bound_id) == Option::Some(new_model));
                    assert(!(new_model.state is Claimed));
                } else {
                    assert(self.registry.swap_model(bound_id) == old_engine.registry.swap_model(
                        bound_id,
                    ));
                }
            }
        }
        Ok(result)
    }

    /// Applies an oracle observation without a claimer hint.
    pub fn observe_l1(&mut self, id: &SwapId, txid: SwapTxId, confirmations: u32) -> (r: Result<
        Swap,
        SwapError,
    >)
        requires
            old(self).wf(),
        ensures
            final(self).wf(),
            r is Ok <==> (old(self).swap_model(*id) is Some && old(self).swap_model(*id)->0.state
                is Pending),
            r == Err::<Swap, SwapError>(SwapError::NotFound) <==> old(self).swap_model(*id)
                is None,
            r == Err::<Swap, SwapError>(SwapError::InvalidState) <==> (old(self).swap_model(*id)
                is Some && !(old(self).swap_model(*id)->0.state is Pending)),
            r is Err ==> *final(self) == *old(self),
            r is Ok ==> r->Ok_0@ == observe_step(
                old(self).swap_model(*id)->0,
                txid@,
                confirmations,
                Option::None,
            ),
            r is Ok ==> final(self).swap_model(*id) == Option::Some(r->Ok_0@),
            forall|id2: SwapId|
                id2 != *id ==> final(self).swap_model(id2) == old(self).swap_model(id2),
            forall|op: OutPoint| #[trigger] final(self).lock_for(op) == old(self).lock_for(op),
    {
        self.observe(id, txid, confirmations, Option::None)
    }

    /// Resolves a claim and commits it: the record goes to Claimed, the
    /// resolved recipient is returned, and every outpoint locked to the swap
    /// is unlocked in the same commit. A record with a preset recipient pays
    /// that recipient and ignores any claimer argument; an open swap needs
    /// the claimer argument and persists it. Fails with `NotFound` exactly
    /// when the id is unknown, `InvalidState` exactly when the swap is not
    /// ReadyToClaim, and `MissingClaimer` exactly when an open swap is
    /// claimed without a claimer; an error changes nothing.
    pub fn claim_swap(&mut self, id: &SwapId, claimer: Option<Address>) -> (r: Result<
        (Swap, Address),
        SwapError,
    >)
        requires
            old(self).wf(),
        ensures
            final(self).wf(),
            r is Ok <==> (old(self).swap_model(*id) is Some && old(self).swap_model(*id)->0.state
                is ReadyToClaim && (old(self).swap_model(*id)->0.l2_recipient is Some || claimer
                is Some)),
            r == Err::<(Swap, Address), SwapError>(SwapError::NotFound) <==> old(self).swap_model(
                *id,
            ) is None,
            r == Err::<(Swap, Address), SwapError>(SwapError::InvalidState) <==> (old(
                self,
            ).swap_model(*id) is Some && !(old(self).swap_model(*id)->0.state is ReadyToClaim)),
            r == Err::<(Swap, Address), SwapError>(SwapError::MissingClaimer) <==> (old(
                self,
            ).swap_model(*id) is Some && old(self).swap_model(*id)->0.state is ReadyToClaim && old(
                self,
            ).swap_model(*id)->0.l2_recipient is None && claimer is None),
            r is Err ==> *final(self) == *old(self),
            r is Ok ==> r->Ok_0.0@ == claim_step(old(self).swap_model(*id)->0, claimer),
            r is Ok ==> r->Ok_0.1 == resolved_recipient(old(self).swap_model(*id)->0, claimer),
            r is Ok ==> final(self).swap_model(*id) == Option::Some(r->Ok_0.0@),
            forall|id2: SwapId|
                id2 != *id ==> final(self).swap_model(id2) == old(self).swap_model(id2),
            r is Ok ==> forall|op: OutPoint|
                #[trigger] final(self).lock_for(op) == if old(self).lock_for(op) == Option::Some(
                    *id,
                ) {
                    Option::None::<SwapId>
                } else {
                    old(self).lock_for(op)
                },
    {
        let current = match self.registry.get(id) {
            Option::Some(swap) => swap,
            Option::None => {
                return Err(SwapError::NotFound);
            },
        };
        proof {
            lemma_find_model_some_exists(self.registry.models(), *id);
        }
        let (claimed, recipient) = match resolve_claim(&current, claimer) {
            Ok(resolved) => resolved,
            Err(e) => {
                return Err(e);
            },
        };
        let result = claimed.duplicate();
        let ghost old_engine = *self;
        proof {
            assert(claimed.id == *id);
        }
        self.registry.put(claimed);
        self.lock_index.unlock_all(id);
        proof {
            assert forall|k: int| 0 <= k < self.lock_index.locks().len() implies {
                let bound = find_model(
                    self.registry.models(),
                    (#[trigger] self.lock_index.locks()[k]).1,
                );
                bound is Some && !(bound->0.state is Claimed)
            } by {
                let entry = self.lock_index.locks()[k];
                assert(old_engine.lock_index.locks().contains(entry));
                let j = choose|j: int|
                    0 <= j < old_engine.lock_index.locks().len()
                        && old_engine.lock_index.locks()[j] == entry;
                assert(find_model(old_engine.registry.models(), entry.1) is Some);
                assert(!(find_model(old_engine.registry.models(), entry.1)->0.state is Claimed));
                assert(entry.1 != *id);
                assert(self.registry.swap_model(entry.1) == old_engine.registry.swap_model(
                    entry.1,
                ));
            }
        }
        Ok((result, recipient))
    }
}

/// Law: exactly one of {preset recipient, open} holds of every record the
/// engine holds, at every observable snapshot.
pub proof fn lemma_recipient_xor_open(engine: SwapEngine, id: SwapId)
    requires
        engine.wf(),
        engine.swap_model(id) is Some,
    ensures
        (engine.swap_model(id)->0.l2_recipient is Some) == !engine.swap_model(id)->0.is_open,
{
    lemma_find_model_some_exists(engine.registry.models(), id);
}

/// Law: no outpoint is locked to two swaps at once: any two distinct lock
/// entries of a well-formed engine bind distinct outpoints, at every
/// observable snapshot.
pub proof fn lemma_lock_exclusive(engine: SwapEngine, i: int, j: int)
    requires
        engine.wf(),
        0 <= i < j < engine.lock_index.locks().len(),
    ensures
        engine.lock_index.locks()[i].0 != engine.lock_index.locks()[j].0,
{
}

/// Law: a lock entry never outlives its swap: every lock of a well-formed
/// engine binds its outpoint to a swap the registry holds, and that swap is
/// not Claimed.
pub proof fn lemma_lock_points_at_live_swap(engine: SwapEngine, outpoint: OutPoint)
    requires
        engine.wf(),
        engine.lock_for(outpoint) is Some,
    ensures
        engine.swap_model(engine.lock_for(outpoint)->0) is Some,
        !(engine.swap_model(engine.lock_for(outpoint)->0)->0.state is Claimed),
{
    lemma_lock_of_some_exists(engine.lock_index.locks(), outpoint);
}

} // verus!
