//! The pure lifecycle engine: creation validation, confirmation-driven
//! advancement, and claim resolution. Every transition is a function from a
//! record and an event to the next record; committing the result is the
//! caller's responsibility.

use vstd::prelude::*;

use crate::digest::{mint_swap_id, spec_swap_id};
use crate::types::{
    spec_default_confirmations, swap_model_wf, Address, Init, OutPoint, Swap, SwapError, SwapId,
    SwapModel, SwapState, SwapTxId, SwapTxIdModel,
};

verus! {

/// Whether creation parameters are well formed: a positive locked amount,
/// exactly one of {recipient given, open}, and a positive confirmation
/// requirement where one is given.
pub open spec fn create_valid(init: Init) -> bool {
    &&& init.l2_amount > 0
    &&& (init.l2_recipient is Some <==> !init.is_open)
    &&& (init.required_confirmations is Some ==> init.required_confirmations->0 >= 1)
}

/// The confirmation requirement a creation settles on: the given one, or the
/// parent chain's default when none is given.
pub open spec fn settled_confirmations(init: Init) -> u32 {
    match init.required_confirmations {
        Option::Some(c) => c,
        Option::None => spec_default_confirmations(init.parent_chain),
    }
}

/// The Pending record minted by a valid creation.
pub open spec fn created_swap_model(init: Init, id: SwapId) -> SwapModel {
    SwapModel {
        id,
        parent_chain: init.parent_chain,
        l1_recipient_address: init.l1_recipient_address@,
        l1_amount: init.l1_amount,
        l2_recipient: init.l2_recipient,
        is_open: init.is_open,
        l2_amount: init.l2_amount,
        required_confirmations: settled_confirmations(init),
        l1_txid: Option::None,
        confirmations: 0,
        l1_claimer_address: Option::None,
        state: SwapState::Pending,
    }
}

/// Decides executably whether creation parameters are well formed.
pub fn check_create_valid(init: &Init) -> (r: bool)
    ensures
        r == create_valid(*init),
{
    if init.l2_amount == 0 {
        return false;
    }
    let ok_recipient = match &init.l2_recipient {
        Option::Some(_) => !init.is_open,
        Option::None => init.is_open,
    };
    if !ok_recipient {
        return false;
    }
    match init.required_confirmations {
        Option::Some(c) => c >= 1,
        Option::None => true,
    }
}

/// Validates creation parameters and mints the new Pending record. The id is
/// a digest of the inputs the creating transaction consumes, so it needs no
/// coordination and cannot be predicted before those inputs are chosen.
/// Fails with `Validation` exactly on malformed parameters; minting never
/// fails for "already exists".
pub fn create_swap(init: &Init, inputs: &Vec<OutPoint>) -> (r: Result<(SwapId, Swap), SwapError>)
    ensures
        r is Ok <==> create_valid(*init),
        r is Err ==> r->Err_0 == SwapError::Validation,
        r is Ok ==> r->Ok_0.0.0@ == spec_swap_id(inputs@),
        r is Ok ==> r->Ok_0.1@ == created_swap_model(*init, r->Ok_0.0),
        r is Ok ==> swap_model_wf(r->Ok_0.1@),
{
    if init.l2_amount == 0 {
        return Err(SwapError::Validation);
    }
    let ok_recipient = match &init.l2_recipient {
        Option::Some(_) => !init.is_open,
        Option::None => init.is_open,
    };
    if !ok_recipient {
        return Err(SwapError::Validation);
    }
    let required = match init.required_confirmations {
        Option::Some(c) => {
            if c == 0 {
                return Err(SwapError::Validation);
            }
            c
        },
        Option::None => init.parent_chain.default_confirmations(),
    };
    let id = mint_swap_id(inputs);
    let swap = Swap {
        id,
        parent_chain: init.parent_chain,
        l1_recipient_address: init.l1_recipient_address.clone(),
        l1_amount: init.l1_amount,
        l2_recipient: init.l2_recipient,
        is_open: init.is_open,
        l2_amount: init.l2_amount,
        required_confirmations: required,
        l1_txid: Option::None,
        confirmations: 0,
        l1_claimer_address: Option::None,
        state: SwapState::Pending,
    };
    Ok((id, swap))
}

/// The confirmation count after merging a reported count: the maximum of the
/// stored and the reported count, so repeated or out-of-order reports with
/// lower counts are no-ops on the counter.
pub open spec fn merged_confirmations(m: SwapModel, confirmations: u32) -> u32 {
    if confirmations > m.confirmations {
        confirmations
    } else {
        m.confirmations
    }
}

/// The record after an oracle observation lands on it. A record past Pending
/// is left as it is; a Pending record takes the reported transaction id,
/// merges the count monotonically, records a claimer hint on an open swap,
/// and advances to ReadyToClaim once the merged count reaches the
/// requirement.
pub open spec fn observe_step(
    m: SwapModel,
    txid: SwapTxIdModel,
    confirmations: u32,
    claimer_hint: Option<Address>,
) -> SwapModel {
    if m.state is Pending {
        SwapModel {
            l1_txid: Option::Some(txid),
            confirmations: merged_confirmations(m, confirmations),
            l1_claimer_address: if m.is_open && claimer_hint is Some {
                claimer_hint
            } else {
                m.l1_claimer_address
            },
            state: if merged_confirmations(m, confirmations) >= m.required_confirmations {
                SwapState::ReadyToClaim
            } else {
                SwapState::Pending
            },
            ..m
        }
    } else {
        m
    }
}

/// Applies an oracle observation to a record. Fails with `InvalidState`
/// exactly when the record is not Pending, and then changes nothing.
pub fn observe_swap(
    swap: &Swap,
    txid: SwapTxId,
    confirmations: u32,
    claimer_hint: Option<Address>,
) -> (r: Result<Swap, SwapError>)
    ensures
        r is Ok <==> swap@.state is Pending,
        r is Err ==> r->Err_0 == SwapError::InvalidState,
        r is Ok ==> r->Ok_0@ == observe_step(swap@, txid@, confirmations, claimer_hint),
        r is Ok && swap_model_wf(swap@) ==> swap_model_wf(r->Ok_0@),
{
    match swap.state {
        SwapState::Pending => {},
        _ => {
            return Err(SwapError::InvalidState);
        },
    }
    let merged = if confirmations > swap.confirmations {
        confirmations
    } else {
        swap.confirmations
    };
    let new_state = if merged >= swap.required_confirmations {
        SwapState::ReadyToClaim
    } else {
        SwapState::Pending
    };
    let new_claimer = if swap.is_open && claimer_hint.is_some() {
        claimer_hint
    } else {
        swap.l1_claimer_address
    };
    let updated = Swap {
        id: swap.id,
        parent_chain: swap.parent_chain,
        l1_recipient_address: swap.l1_recipient_address.clone(),
        l1_amount: swap.l1_amount,
        l2_recipient: swap.l2_recipient,
        is_open: swap.is_open,
        l2_amount: swap.l2_amount,
        required_confirmations: swap.required_confirmations,
        l1_txid: Option::Some(txid),
        confirmations: merged,
        l1_claimer_address: new_claimer,
        state: new_state,
    };
    proof {
        assert(updated@ =~= observe_step(swap@, txid@, confirmations, claimer_hint));
    }
    Ok(updated)
}

/// The recipient a claim resolves to: the record's own recipient where one
/// was set at creation (any outer claimer is ignored), else the claimer the
/// caller supplies.
pub open spec fn resolved_recipient(m: SwapModel, outer_claimer: Option<Address>) -> Address {
    if m.l2_recipient is Some {
        m.l2_recipient->0
    } else {
        outer_claimer->0
    }
}

/// The record after a claim resolves: Claimed, with the resolved claimer
/// persisted on an open swap.
pub open spec fn claim_step(m: SwapModel, outer_claimer: Option<Address>) -> SwapModel {
    SwapModel {
        state: SwapState::Claimed,
        l1_claimer_address: if m.is_open {
            Option::Some(resolved_recipient(m, outer_claimer))
        } else {
            m.l1_claimer_address
        },
        ..m
    }
}

/// Resolves a claim against a record. Fails with `InvalidState` exactly when
/// the record is not ReadyToClaim, with `MissingClaimer` exactly when an open
/// swap is claimed without a claimer; on success returns the Claimed record
/// and the resolved recipient. An error changes nothing.
pub fn resolve_claim(swap: &Swap, outer_claimer: Option<Address>) -> (r: Result<
    (Swap, Address),
    SwapError,
>)
    ensures
        r is Ok <==> (swap@.state is ReadyToClaim && (swap@.l2_recipient is Some || outer_claimer
            is Some)),
        r == Err::<(Swap, Address), SwapError>(SwapError::InvalidState) <==> !(swap@.state
            is ReadyToClaim),
        r == Err::<(Swap, Address), SwapError>(SwapError::MissingClaimer) <==> (swap@.state
            is ReadyToClaim && swap@.l2_recipient is None && outer_claimer is None),
        r is Ok ==> r->Ok_0.0@ == claim_step(swap@, outer_claimer),
        r is Ok ==> r->Ok_0.1 == resolved_recipient(swap@, outer_claimer),
        r is Ok && swap_model_wf(swap@) ==> swap_model_wf(r->Ok_0.0@),
{
    match swap.state {
        SwapState::ReadyToClaim => {},
        _ => {
            return Err(SwapError::InvalidState);
        },
    }
    let recipient = match swap.l2_recipient {
        Option::Some(addr) => addr,
        Option::None => {
            match outer_claimer {
                Option::Some(addr) => addr,
                Option::None => {
                    return Err(SwapError::MissingClaimer);
                },
            }
        },
    };
    let new_claimer = if swap.is_open {
        Option::Some(recipient)
    } else {
        swap.l1_claimer_address
    };
    let claimed = Swap {
        id: swap.id,
        parent_chain: swap.parent_chain,
        l1_recipient_address: swap.l1_recipient_address.clone(),
        l1_amount: swap.l1_amount,
        l2_recipient: swap.l2_recipient,
        is_open: swap.is_open,
        l2_amount: swap.l2_amount,
        required_confirmations: swap.required_confirmations,
        l1_txid: match &swap.l1_txid {
            Option::None => Option::None,
            Option::Some(t) => Option::Some(t.duplicate()),
        },
        confirmations: swap.confirmations,
        l1_claimer_address: new_claimer,
        state: SwapState::Claimed,
    };
    proof {
        assert(claimed@ =~= claim_step(swap@, outer_claimer));
    }
    Ok((claimed, recipient))
}

/// Law: an observation never decreases the confirmation counter and never
/// regresses the state; in particular a record that has reached ReadyToClaim
/// stays there or advances, never back to Pending.
pub proof fn lemma_observe_monotonic(
    m: SwapModel,
    txid: SwapTxIdModel,
    confirmations: u32,
    claimer_hint: Option<Address>,
)
    ensures
        observe_step(m, txid, confirmations, claimer_hint).confirmations >= m.confirmations,
        m.state is ReadyToClaim ==> observe_step(m, txid, confirmations, claimer_hint).state
            is ReadyToClaim,
        m.state is Claimed ==> observe_step(m, txid, confirmations, claimer_hint).state is Claimed,
        !(m.state is Pending) ==> observe_step(m, txid, confirmations, claimer_hint) == m,
{
}

/// Law: observation is idempotent. Applying the same observation twice gives
/// the record the first application gives.
pub proof fn lemma_observe_idempotent(
    m: SwapModel,
    txid: SwapTxIdModel,
    confirmations: u32,
    claimer_hint: Option<Address>,
)
    requires
        swap_model_wf(m),
    ensures
        observe_step(
            observe_step(m, txid, confirmations, claimer_hint),
            txid,
            confirmations,
            claimer_hint,
        ) == observe_step(m, txid, confirmations, claimer_hint),
{
    let m1 = observe_step(m, txid, confirmations, claimer_hint);
    if m.state is Pending && m1.state is Pending {
        assert(observe_step(m1, txid, confirmations, claimer_hint) =~= m1);
    }
}

/// Law: observations are monotonic and order-independent in the confirmation
/// counter. Two reports with counts `c1 < c2`, the lower one below the
/// requirement, leave the same counter and the same state in either order,
/// the counter being the merge of the stored count with `c2`.
pub proof fn lemma_observe_commutes(
    m: SwapModel,
    t1: SwapTxIdModel,
    c1: u32,
    h1: Option<Address>,
    t2: SwapTxIdModel,
    c2: u32,
    h2: Option<Address>,
)
    requires
        swap_model_wf(m),
        c1 < c2,
        c1 < m.required_confirmations,
    ensures
        observe_step(observe_step(m, t1, c1, h1), t2, c2, h2).confirmations == observe_step(
            observe_step(m, t2, c2, h2),
            t1,
            c1,
            h1,
        ).confirmations,
        observe_step(observe_step(m, t1, c1, h1), t2, c2, h2).state == observe_step(
            observe_step(m, t2, c2, h2),
            t1,
            c1,
            h1,
        ).state,
        m.state is Pending ==> observe_step(
            observe_step(m, t1, c1, h1),
            t2,
            c2,
            h2,
        ).confirmations == merged_confirmations(m, c2),
{
}

} // verus!
