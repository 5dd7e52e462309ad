//! The swap registry: the durable keyed store of swap records. It performs
//! storage only; business validation lives in the lifecycle engine, and every
//! record it is handed is a validated transition result.

use vstd::prelude::*;
use vstd::pervasive::VecAdditionalExecFns;

use crate::types::{swap_model_wf, Swap, SwapId, SwapModel};

verus! {

/// The record held for `id`: the unique record with that id, or `None`.
pub open spec fn find_model(models: Seq<SwapModel>, id: SwapId) -> Option<SwapModel>
    decreases models.len(),
{
    if models.len() == 0 {
        Option::None
    } else if models.last().id == id {
        Option::Some(models.last())
    } else {
        find_model(models.drop_last(), id)
    }
}

/// No two records carry the same id.
pub open spec fn unique_ids(models: Seq<SwapModel>) -> bool {
    forall|i: int, j: int| 0 <= i < j < models.len() ==> models[i].id != models[j].id
}

/// Every record is well formed.
pub open spec fn all_models_wf(models: Seq<SwapModel>) -> bool {
    forall|i: int| 0 <= i < models.len() ==> swap_model_wf(#[trigger] models[i])
}

/// A record at an index is the record found for its id, provided ids are
/// unique.
pub proof fn lemma_find_model_at(models: Seq<SwapModel>, id: SwapId, i: int)
    requires
        unique_ids(models),
        0 <= i < models.len(),
        models[i].id == id,
    ensures
        find_model(models, id) == Option::Some(models[i]),
    decreases models.len(),
{
    if i == models.len() - 1 {
    } else {
        assert(models.last().id != id);
        assert(models.drop_last()[i] == models[i]);
        lemma_find_model_at(models.drop_last(), id, i);
    }
}

/// When no record carries the id, none is found.
pub proof fn lemma_find_model_none(models: Seq<SwapModel>, id: SwapId)
    requires
        forall|j: int| 0 <= j < models.len() ==> (#[trigger] models[j]).id != id,
    ensures
        find_model(models, id) is None,
    decreases models.len(),
{
    if models.len() > 0 {
        lemma_find_model_none(models.drop_last(), id);
    }
}

/// A found record stands at some index and carries the id it was found for.
pub proof fn lemma_find_model_some_exists(models: Seq<SwapModel>, id: SwapId)
    requires
        find_model(models, id) is Some,
    ensures
        (find_model(models, id)->0).id == id,
        exists|i: int|
            0 <= i < models.len() && models[i] == find_model(models, id)->0,
    decreases models.len(),
{
    if models.last().id == id {
        assert(models[models.len() - 1] == find_model(models, id)->0);
    } else {
        lemma_find_model_some_exists(models.drop_last(), id);
        let i = choose|i: int|
            0 <= i < models.drop_last().len() && models.drop_last()[i] == find_model(
                models.drop_last(),
                id,
            )->0;
        assert(models[i] == find_model(models, id)->0);
    }
}

/// Two stores that agree on every position, except where neither carries the
/// id, find the same record for it.
pub proof fn lemma_find_model_agree(a: Seq<SwapModel>, b: Seq<SwapModel>, id: SwapId)
    requires
        a.len() == b.len(),
        forall|j: int|
            0 <= j < a.len() ==> (#[trigger] a[j] == #[trigger] b[j] || (a[j].id != id && b[j].id
                != id)),
    ensures
        find_model(a, id) == find_model(b, id),
    decreases a.len(),
{
    if a.len() > 0 {
        assert(a.drop_last().len() == b.drop_last().len());
        assert forall|j: int| 0 <= j < a.drop_last().len() implies (#[trigger] a.drop_last()[j]
            == #[trigger] b.drop_last()[j] || (a.drop_last()[j].id != id && b.drop_last()[j].id
            != id)) by {
            assert(a[j] == b[j] || (a[j].id != id && b[j].id != id));
        }
        lemma_find_model_agree(a.drop_last(), b.drop_last(), id);
        assert(a[a.len() - 1] == b[a.len() - 1] || (a[a.len() - 1].id != id && b[a.len() - 1].id
            != id));
    }
}

/// The swap registry. Operations are storage only: `put` overwrites, `get`
/// and `list_all` read a stable snapshot.
pub struct Registry {
    swaps: Vec<Swap>,
}

impl Registry {
    /// The records held, as their ghost views, in insertion order.
    pub closed spec fn models(self) -> Seq<SwapModel> {
        self.swaps@.map_values(|s: Swap| s@)
    }

    /// The record held for an id.
    pub open spec fn swap_model(self, id: SwapId) -> Option<SwapModel> {
        find_model(self.models(), id)
    }

    /// Whether a record is held for an id.
    pub open spec fn has(self, id: SwapId) -> bool {
        self.swap_model(id) is Some
    }

    /// Well-formedness: ids are unique.
    pub open spec fn wf(self) -> bool {
        unique_ids(self.models())
    }

    /// An empty registry.
    pub fn new() -> (r: Registry)
        ensures
            r.wf(),
            r.models() == Seq::<SwapModel>::empty(),
    {
        let r = Registry { swaps: Vec::new() };
        proof {
            assert(r.models() =~= Seq::<SwapModel>::empty());
        }
        r
    }

    /// The index at which the record for `id` is held.
    fn find_index(&self, id: &SwapId) -> (r: Option<usize>)
        requires
            self.wf(),
        ensures
            r is Some ==> {
                &&& r->0 < self.models().len()
                &&& self.models()[r->0 as int].id == *id
                &&& self.swap_model(*id) == Option::Some(self.models()[r->0 as int])
            },
            r is None ==> {
                &&& forall|j: int|
                    0 <= j < self.models().len() ==> (#[trigger] self.models()[j]).id != *id
                &&& self.swap_model(*id) is None
            },
    {
        let mut i: usize = 0;
        while i < self.swaps.len()
            invariant
                self.wf(),
                i <= self.models().len(),
                self.models().len() == self.swaps@.len(),
                forall|j: int| 0 <= j < i ==> (#[trigger] self.models()[j]).id != *id,
            decreases self.swaps@.len() - i,
        {
            if self.swaps[i].id.same_as(id) {
                proof {
                    assert(self.models()[i as int].id == *id);
                    lemma_find_model_at(self.models(), *id, i as int);
                }
                return Some(i);
            }
            proof {
                assert(self.models()[i as int].id != *id);
            }
            i += 1;
        }
        proof {
            lemma_find_model_none(self.models(), *id);
        }
        None
    }

    /// Reads the record held for an id, if any.
    pub fn get(&self, id: &SwapId) -> (r: Option<Swap>)
        requires
            self.wf(),
        ensures
            r is Some <==> self.swap_model(*id) is Some,
            r is Some ==> r->0@ == self.swap_model(*id)->0,
    {
        match self.find_index(id) {
            Option::Some(i) => Option::Some(self.swaps[i].duplicate()),
            Option::None => Option::None,
        }
    }

    /// All records held, in insertion order. Order carries no meaning.
    pub fn list_all(&self) -> (r: &Vec<Swap>)
        ensures
            r@.len() == self.models().len(),
            forall|i: int| 0 <= i < r@.len() ==> (#[trigger] r@[i])@ == self.models()[i],
    {
        &self.swaps
    }

    /// Stores a record: overwrites the record with the same id, or appends a
    /// fresh one. Performs no business validation.
    pub fn put(&mut self, swap: Swap)
        requires
            old(self).wf(),
        ensures
            final(self).wf(),
            final(self).swap_model(swap.id) == Option::Some(swap@),
            forall|id2: SwapId|
                id2 != swap.id ==> final(self).swap_model(id2) == old(self).swap_model(id2),
            old(self).has(swap.id) ==> final(self).models().len() == old(self).models().len(),
            !old(self).has(swap.id) ==> final(self).models() == old(self).models().push(swap@),
            all_models_wf(old(self).models()) && swap_model_wf(swap@) ==> all_models_wf(
                final(self).models(),
            ),
    {
        let ghost old_models = self.models();
        match self.find_index(&swap.id) {
            Option::Some(i) => {
                let ghost m = swap@;
                self.swaps.set(i, swap);
                proof {
                    assert(final(self).models() =~= old_models.update(i as int, m));
                    let new_models = final(self).models();
                    assert forall|a: int, b: int| 0 <= a < b < new_models.len() implies
                        new_models[a].id != new_models[b].id by {
                        assert(old_models[a].id != old_models[b].id);
                        assert(new_models[a].id == old_models[a].id);
                        assert(new_models[b].id == old_models[b].id);
                    }
                    lemma_find_model_at(new_models, m.id, i as int);
                    assert forall|id2: SwapId| id2 != m.id implies find_model(new_models, id2)
                        == find_model(old_models, id2) by {
                        lemma_find_model_agree(new_models, old_models, id2);
                    }
                }
            },
            Option::None => {
                let ghost m = swap@;
                self.swaps.push(swap);
                proof {
                    assert(final(self).models() =~= old_models.push(m));
                    let new_models = final(self).models();
                    assert forall|a: int, b: int| 0 <= a < b < new_models.len() implies
                        new_models[a].id != new_models[b].id by {
                        if b < old_models.len() {
                            assert(old_models[a].id != old_models[b].id);
                        } else {
                            assert(new_models[b] == m);
                            assert(old_models[a].id != m.id);
                        }
                    }
                    assert(new_models.drop_last() =~= old_models);
                    assert(new_models.last() == m);
                    assert forall|id2: SwapId| id2 != m.id implies find_model(new_models, id2)
                        == find_model(old_models, id2) by {
                        assert(new_models.last().id != id2);
                    }
                }
            },
        }
    }
}

} // verus!
