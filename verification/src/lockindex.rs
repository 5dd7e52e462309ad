//! The output lock index: the secondary index from a ledger outpoint to the
//! swap that encumbers it. An outpoint is locked to at most one swap at any
//! snapshot; entries are inserted atomically with swap creation and removed
//! atomically with the swap reaching Claimed.

use vstd::prelude::*;

use crate::types::{OutPoint, SwapError, SwapId};

verus! {

/// The swap an outpoint is locked to, or `None`.
pub open spec fn lock_of(entries: Seq<(OutPoint, SwapId)>, outpoint: OutPoint) -> Option<SwapId>
    decreases entries.len(),
{
    if entries.len() == 0 {
        Option::None
    } else if entries.last().0 == outpoint {
        Option::Some(entries.last().1)
    } else {
        lock_of(entries.drop_last(), outpoint)
    }
}

/// No two entries lock the same outpoint.
pub open spec fn unique_outpoints(entries: Seq<(OutPoint, SwapId)>) -> bool {
    forall|i: int, j: int| 0 <= i < j < entries.len() ==> entries[i].0 != entries[j].0
}

/// An entry at an index is the binding found for its outpoint, provided
/// outpoints are unique.
pub proof fn lemma_lock_of_at(entries: Seq<(OutPoint, SwapId)>, outpoint: OutPoint, i: int)
    requires
        unique_outpoints(entries),
        0 <= i < entries.len(),
        entries[i].0 == outpoint,
    ensures
        lock_of(entries, outpoint) == Option::Some(entries[i].1),
    decreases entries.len(),
{
    if i == entries.len() - 1 {
    } else {
        assert(entries.last().0 != outpoint);
        assert(entries.drop_last()[i] == entries[i]);
        lemma_lock_of_at(entries.drop_last(), outpoint, i);
    }
}

/// When no entry holds the outpoint, no binding is found.
pub proof fn lemma_lock_of_none(entries: Seq<(OutPoint, SwapId)>, outpoint: OutPoint)
    requires
        forall|j: int| 0 <= j < entries.len() ==> (#[trigger] entries[j]).0 != outpoint,
    ensures
        lock_of(entries, outpoint) is None,
    decreases entries.len(),
{
    if entries.len() > 0 {
        lemma_lock_of_none(entries.drop_last(), outpoint);
    }
}

/// A found binding stands at some index as an entry for its outpoint.
pub proof fn lemma_lock_of_some_exists(entries: Seq<(OutPoint, SwapId)>, outpoint: OutPoint)
    requires
        lock_of(entries, outpoint) is Some,
    ensures
        exists|i: int|
            0 <= i < entries.len() && entries[i] == (outpoint, lock_of(entries, outpoint)->0),
    decreases entries.len(),
{
    if entries.last().0 == outpoint {
        assert(entries[entries.len() - 1] == (outpoint, lock_of(entries, outpoint)->0));
    } else {
        lemma_lock_of_some_exists(entries.drop_last(), outpoint);
        let i = choose|i: int|
            0 <= i < entries.drop_last().len() && entries.drop_last()[i] == (
                outpoint,
                lock_of(entries.drop_last(), outpoint)->0,
            );
        assert(entries[i] == (outpoint, lock_of(entries, outpoint)->0));
    }
}

/// Appending an entry binds its outpoint and leaves every other binding.
pub proof fn lemma_lock_of_push(entries: Seq<(OutPoint, SwapId)>, entry: (OutPoint, SwapId))
    ensures
        forall|op: OutPoint|
            #[trigger] lock_of(entries.push(entry), op) == if entry.0 == op {
                Option::Some(entry.1)
            } else {
                lock_of(entries, op)
            },
{
    assert forall|op: OutPoint| #[trigger] lock_of(entries.push(entry), op) == (if entry.0 == op {
        Option::Some(entry.1)
    } else {
        lock_of(entries, op)
    }) by {
        assert(entries.push(entry).drop_last() =~= entries);
        assert(entries.push(entry).last() == entry);
    }
}

/// The output lock index.
pub struct LockIndex {
    entries: Vec<(OutPoint, SwapId)>,
}

impl LockIndex {
    /// The bindings held, in insertion order.
    pub closed spec fn locks(self) -> Seq<(OutPoint, SwapId)> {
        self.entries@
    }

    /// The swap an outpoint is locked to.
    pub open spec fn lock_for(self, outpoint: OutPoint) -> Option<SwapId> {
        lock_of(self.locks(), outpoint)
    }

    /// Well-formedness: outpoints are unique, so an outpoint is locked to at
    /// most one swap.
    pub open spec fn wf(self) -> bool {
        unique_outpoints(self.locks())
    }

    /// An empty index.
    pub fn new() -> (r: LockIndex)
        ensures
            r.wf(),
            r.locks() == Seq::<(OutPoint, SwapId)>::empty(),
    {
        LockIndex { entries: Vec::new() }
    }

    /// The swap an outpoint is locked to, read from a stable snapshot.
    pub fn lookup(&self, outpoint: &OutPoint) -> (r: Option<SwapId>)
        requires
            self.wf(),
        ensures
            r == self.lock_for(*outpoint),
    {
        let mut i: usize = 0;
        while i < self.entries.len()
            invariant
                self.wf(),
                i <= self.locks().len(),
                forall|j: int| 0 <= j < i ==> (#[trigger] self.locks()[j]).0 != *outpoint,
            decreases self.locks().len() - i,
        {
            if self.entries[i].0.same_as(outpoint) {
                proof {
                    lemma_lock_of_at(self.locks(), *outpoint, i as int);
                }
                return Some(self.entries[i].1);
            }
            i += 1;
        }
        proof {
            lemma_lock_of_none(self.locks(), *outpoint);
        }
        None
    }

    /// Locks an outpoint to a swap. Fails with `OutputAlreadyLocked` exactly
    /// when an entry for the outpoint already exists, and then changes
    /// nothing: of two creations racing on the same outpoint, exactly one
    /// succeeds.
    pub fn lock(&mut self, outpoint: OutPoint, id: SwapId) -> (r: Result<(), SwapError>)
        requires
            old(self).wf(),
        ensures
            final(self).wf(),
            r is Ok <==> old(self).lock_for(outpoint) is None,
            r is Err ==> r->Err_0 == SwapError::OutputAlreadyLocked && *final(self) == *old(self),
            r is Ok ==> final(self).locks() == old(self).locks().push((outpoint, id)),
            r is Ok ==> forall|op2: OutPoint|
                #[trigger] final(self).lock_for(op2) == if op2 == outpoint {
                    Option::Some(id)
                } else {
                    old(self).lock_for(op2)
                },
    {
        match self.lookup(&outpoint) {
            Option::Some(_) => Err(SwapError::OutputAlreadyLocked),
            Option::None => {
                proof {
                    lemma_lock_of_push(self.locks(), (outpoint, id));
                    let entries = self.locks();
                    let pushed = entries.push((outpoint, id));
                    assert forall|a: int, b: int| 0 <= a < b < pushed.len() implies pushed[a].0
                        != pushed[b].0 by {
                        if b < entries.len() {
                        } else {
                            assert(pushed[b] == (outpoint, id));
                            if entries[a].0 == outpoint {
                                lemma_lock_of_at(entries, outpoint, a);
                            }
                        }
                    }
                }
                self.entries.push((outpoint, id));
                Ok(())
            },
        }
    }

    /// Removes the entry for an outpoint, if any; called when the swap the
    /// outpoint was locked to reaches Claimed.
    pub fn unlock(&mut self, outpoint: &OutPoint)
        requires
            old(self).wf(),
        ensures
            final(self).wf(),
            forall|op2: OutPoint|
                #[trigger] final(self).lock_for(op2) == if op2 == *outpoint {
                    Option::None::<SwapId>
                } else {
                    old(self).lock_for(op2)
                },
            forall|k: int|
                0 <= k < final(self).locks().len() ==> old(self).locks().contains(
                    #[trigger] final(self).locks()[k],
                ),
    {
        let ghost old_entries = self.locks();
        let mut kept: Vec<(OutPoint, SwapId)> = Vec::new();
        let mut i: usize = 0;
        while i < self.entries.len()
            invariant
                unique_outpoints(old_entries),
                self.locks() == old_entries,
                i <= old_entries.len(),
                forall|op2: OutPoint|
                    #[trigger] lock_of(kept@, op2) == if op2 == *outpoint {
                        Option::None::<SwapId>
                    } else {
                        lock_of(old_entries.take(i as int), op2)
                    },
                forall|k: int|
                    0 <= k < kept@.len() ==> old_entries.contains(#[trigger] kept@[k]),
                unique_outpoints(kept@),
                forall|k: int|
                    0 <= k < kept@.len() ==> exists|j: int|
                        0 <= j < i && old_entries[j] == #[trigger] kept@[k],
            decreases old_entries.len() - i,
        {
            let entry = self.entries[i];
            proof {
                assert(old_entries.take(i + 1 as int).drop_last() =~= old_entries.take(i as int));
                assert(old_entries.take(i + 1 as int).last() == old_entries[i as int]);
                lemma_lock_of_push(old_entries.take(i as int), old_entries[i as int]);
                assert(old_entries.take(i + 1 as int) =~= old_entries.take(i as int).push(
                    old_entries[i as int],
                ));
            }
            if !entry.0.same_as(outpoint) {
                proof {
                    lemma_lock_of_push(kept@, old_entries[i as int]);
                    assert forall|a: int, b: int|
                        0 <= a < b < kept@.push(old_entries[i as int]).len() implies kept@.push(
                        old_entries[i as int],
                    )[a].0 != kept@.push(old_entries[i as int])[b].0 by {
                        let pushed = kept@.push(old_entries[i as int]);
                        if b < kept@.len() {
                        } else {
                            let j = choose|j: int| 0 <= j < i && old_entries[j] == kept@[a];
                            assert(old_entries[j].0 != old_entries[i as int].0);
                        }
                    }
                }
                kept.push(entry);
            }
            i += 1;
        }
        proof {
            assert(old_entries.take(old_entries.len() as int) =~= old_entries);
        }
        self.entries = kept;
    }

    /// Removes every entry locked to a swap; called within the same commit
    /// that takes the swap to Claimed, so no entry ever outlives its swap.
    pub fn unlock_all(&mut self, id: &SwapId)
        requires
            old(self).wf(),
        ensures
            final(self).wf(),
            forall|op2: OutPoint|
                #[trigger] final(self).lock_for(op2) == if old(self).lock_for(op2)
                    == Option::Some(*id) {
                    Option::None::<SwapId>
                } else {
                    old(self).lock_for(op2)
                },
            forall|k: int|
                0 <= k < final(self).locks().len() ==> old(self).locks().contains(
                    #[trigger] final(self).locks()[k],
                ),
            forall|k: int| 0 <= k < final(self).locks().len()
                ==> (#[trigger] final(self).locks()[k]).1 != *id,
    {
        let ghost old_entries = self.locks();
        let mut kept: Vec<(OutPoint, SwapId)> = Vec::new();
        let mut i: usize = 0;
        while i < self.entries.len()
            invariant
                unique_outpoints(old_entries),
                self.locks() == old_entries,
                i <= old_entries.len(),
                forall|op2: OutPoint|
                    #[trigger] lock_of(kept@, op2) == if lock_of(old_entries.take(i as int), op2)
                        == Option::Some(*id) {
                        Option::None::<SwapId>
                    } else {
                        lock_of(old_entries.take(i as int), op2)
                    },
                forall|k: int|
                    0 <= k < kept@.len() ==> old_entries.contains(#[trigger] kept@[k]),
                forall|k: int| 0 <= k < kept@.len() ==> (#[trigger] kept@[k]).1 != *id,
                unique_outpoints(kept@),
                forall|k: int|
                    0 <= k < kept@.len() ==> exists|j: int|
                        0 <= j < i && old_entries[j] == #[trigger] kept@[k],
            decreases old_entries.len() - i,
        {
            let entry = self.entries[i];
            proof {
                assert(old_entries.take(i + 1 as int).drop_last() =~= old_entries.take(i as int));
                assert(old_entries.take(i + 1 as int).last() == old_entries[i as int]);
                lemma_lock_of_push(old_entries.take(i as int), old_entries[i as int]);
                assert(old_entries.take(i + 1 as int) =~= old_entries.take(i as int).push(
                    old_entries[i as int],
                ));
                assert forall|j: int| 0 <= j < i implies (#[trigger] old_entries.take(
                    i as int,
                )[j]).0 != old_entries[i as int].0 by {
                    assert(old_entries[j].0 != old_entries[i as int].0);
                }
                lemma_lock_of_none(old_entries.take(i as int), old_entries[i as int].0);
            }
            if !entry.1.same_as(id) {
                proof {
                    lemma_lock_of_push(kept@, old_entries[i as int]);
                    assert forall|a: int, b: int|
                        0 <= a < b < kept@.push(old_entries[i as int]).len() implies kept@.push(
                        old_entries[i as int],
                    )[a].0 != kept@.push(old_entries[i as int])[b].0 by {
                        let pushed = kept@.push(old_entries[i as int]);
                        if b < kept@.len() {
                        } else {
                            let j = choose|j: int| 0 <= j < i && old_entries[j] == kept@[a];
                            assert(old_entries[j].0 != old_entries[i as int].0);
                        }
                    }
                }
                kept.push(entry);
            }
            i += 1;
        }
        proof {
            assert(old_entries.take(old_entries.len() as int) =~= old_entries);
        }
        self.entries = kept;
    }
}

} // verus!
