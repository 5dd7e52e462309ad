//! Data model of the swap engine: identifiers, chain tags, swap records and
//! their ghost views, transactions, and the error taxonomy.

use vstd::prelude::*;

verus! {

/// Identifier of a swap: 32 bytes, minted deterministically from the inputs
/// consumed by the transaction that creates the swap.
#[derive(Clone, Copy, Debug, PartialEq, Eq, Hash)]
pub struct SwapId(pub [u8; 32]);

impl SwapId {
    /// Equality test on swap identifiers, proved equivalent to spec equality.
    pub fn same_as(&self, other: &SwapId) -> (r: bool)
        ensures
            r == (*self == *other),
    {
        let mut i: usize = 0;
        while i < 32
            invariant
                i <= 32,
                forall|j: int| 0 <= j < i ==> self.0@[j] == other.0@[j],
            decreases 32 - i,
        {
            if self.0[i] != other.0[i] {
                return false;
            }
            i += 1;
        }
        proof {
            assert(self.0 =~= other.0);
        }
        true
    }
}

/// An address on the sidechain ledger, held as its raw short-hash form.
#[derive(Clone, Copy, Debug, PartialEq, Eq, Hash)]
pub struct Address(pub [u8; 20]);

/// Identifier of a ledger output: the transaction that created it and the
/// position of the output within that transaction.
#[derive(Clone, Copy, Debug, PartialEq, Eq, Hash)]
pub struct OutPoint {
    pub txid: [u8; 32],
    pub vout: u32,
}

impl OutPoint {
    /// Equality test on outpoints, proved equivalent to spec equality.
    pub fn same_as(&self, other: &OutPoint) -> (r: bool)
        ensures
            r == (*self == *other),
    {
        if self.vout != other.vout {
            return false;
        }
        let mut i: usize = 0;
        while i < 32
            invariant
                i <= 32,
                forall|j: int| 0 <= j < i ==> self.txid@[j] == other.txid@[j],
            decreases 32 - i,
        {
            if self.txid[i] != other.txid[i] {
                return false;
            }
            i += 1;
        }
        proof {
            assert(self.txid =~= other.txid);
        }
        true
    }
}

/// The parent chains a swap can settle on. Each carries a default
/// confirmation threshold, used when a creator does not give one explicitly.
#[derive(Clone, Copy, Debug, PartialEq, Eq, Structural, Hash)]
pub enum ParentChainType {
    BTC,
    Signet,
    Regtest,
    BCH,
    LTC,
}

/// Default confirmation threshold of each parent chain.
pub open spec fn spec_default_confirmations(chain: ParentChainType) -> u32 {
    match chain {
        ParentChainType::BTC => 6,
        ParentChainType::Signet => 1,
        ParentChainType::Regtest => 1,
        ParentChainType::BCH => 10,
        ParentChainType::LTC => 12,
    }
}

impl ParentChainType {
    /// The confirmation threshold used when a creator gives none.
    pub fn default_confirmations(&self) -> (r: u32)
        ensures
            r == spec_default_confirmations(*self),
            r >= 1,
    {
        match self {
            ParentChainType::BTC => 6,
            ParentChainType::Signet => 1,
            ParentChainType::Regtest => 1,
            ParentChainType::BCH => 10,
            ParentChainType::LTC => 12,
        }
    }
}

/// A parent-chain transaction id: either the native 32-byte hash of
/// Bitcoin-family chains, or an id of another width.
#[derive(Clone, Debug, PartialEq, Eq)]
pub enum SwapTxId {
    FixedHash32([u8; 32]),
    VariableHash(Vec<u8>),
}

/// Ghost view of a parent-chain transaction id.
pub ghost enum SwapTxIdModel {
    FixedHash32(Seq<u8>),
    VariableHash(Seq<u8>),
}

impl View for SwapTxId {
    type V = SwapTxIdModel;

    open spec fn view(&self) -> SwapTxIdModel {
        match self {
            SwapTxId::FixedHash32(h) => SwapTxIdModel::FixedHash32(h@),
            SwapTxId::VariableHash(v) => SwapTxIdModel::VariableHash(v@),
        }
    }
}

/// Ghost view of an optional parent-chain transaction id.
pub open spec fn opt_txid_view(t: Option<SwapTxId>) -> Option<SwapTxIdModel> {
    match t {
        Option::None => Option::None,
        Option::Some(txid) => Option::Some(txid@),
    }
}

impl SwapTxId {
    /// A copy of this transaction id, equal to it view for view.
    pub fn duplicate(&self) -> (r: SwapTxId)
        ensures
            r@ == self@,
    {
        match self {
            SwapTxId::FixedHash32(h) => SwapTxId::FixedHash32(*h),
            SwapTxId::VariableHash(v) => SwapTxId::VariableHash(copy_bytes(v)),
        }
    }

    /// Classifies raw bytes: a 32-byte id is held as the fixed native hash,
    /// any other width as a variable-width id.
    pub fn from_bytes(bytes: &Vec<u8>) -> (r: SwapTxId)
        ensures
            bytes@.len() == 32 ==> r@ == SwapTxIdModel::FixedHash32(bytes@),
            bytes@.len() != 32 ==> r@ == SwapTxIdModel::VariableHash(bytes@),
    {
        if bytes.len() == 32 {
            let mut h: [u8; 32] = [0; 32];
            let mut i: usize = 0;
            while i < 32
                invariant
                    i <= 32,
                    bytes@.len() == 32,
                    forall|j: int| 0 <= j < i ==> h@[j] == bytes@[j],
                decreases 32 - i,
            {
                h[i] = bytes[i];
                i += 1;
            }
            proof {
                assert(h@ =~= bytes@);
            }
            SwapTxId::FixedHash32(h)
        } else {
            SwapTxId::VariableHash(copy_bytes(bytes))
        }
    }
}

/// A copy of a byte vector, equal to it view for view.
pub fn copy_bytes(v: &Vec<u8>) -> (r: Vec<u8>)
    ensures
        r@ == v@,
{
    let mut out: Vec<u8> = Vec::new();
    let mut i: usize = 0;
    while i < v.len()
        invariant
            i <= v@.len(),
            out@ == v@.take(i as int),
        decreases v@.len() - i,
    {
        out.push(v[i]);
        proof {
            assert(out@ =~= v@.take(i + 1 as int));
        }
        i += 1;
    }
    proof {
        assert(v@.take(v@.len() as int) =~= v@);
    }
    out
}

/// The lifecycle states of a swap. State only ever advances
/// Pending -> ReadyToClaim -> Claimed; Claimed is terminal.
#[derive(Clone, Copy, Debug, PartialEq, Eq, Structural, Hash)]
pub enum SwapState {
    Pending,
    ReadyToClaim,
    Claimed,
}

/// A swap record, as held by the registry.
#[derive(Clone, Debug, PartialEq, Eq)]
pub struct Swap {
    pub id: SwapId,
    pub parent_chain: ParentChainType,
    pub l1_recipient_address: String,
    pub l1_amount: Option<u64>,
    pub l2_recipient: Option<Address>,
    pub is_open: bool,
    pub l2_amount: u64,
    pub required_confirmations: u32,
    pub l1_txid: Option<SwapTxId>,
    pub confirmations: u32,
    pub l1_claimer_address: Option<Address>,
    pub state: SwapState,
}

/// Ghost view of a swap record.
#[verifier::ext_equal]
pub ghost struct SwapModel {
    pub id: SwapId,
    pub parent_chain: ParentChainType,
    pub l1_recipient_address: Seq<char>,
    pub l1_amount: Option<u64>,
    pub l2_recipient: Option<Address>,
    pub is_open: bool,
    pub l2_amount: u64,
    pub required_confirmations: u32,
    pub l1_txid: Option<SwapTxIdModel>,
    pub confirmations: u32,
    pub l1_claimer_address: Option<Address>,
    pub state: SwapState,
}

impl View for Swap {
    type V = SwapModel;

    open spec fn view(&self) -> SwapModel {
        SwapModel {
            id: self.id,
            parent_chain: self.parent_chain,
            l1_recipient_address: self.l1_recipient_address@,
            l1_amount: self.l1_amount,
            l2_recipient: self.l2_recipient,
            is_open: self.is_open,
            l2_amount: self.l2_amount,
            required_confirmations: self.required_confirmations,
            l1_txid: opt_txid_view(self.l1_txid),
            confirmations: self.confirmations,
            l1_claimer_address: self.l1_claimer_address,
            state: self.state,
        }
    }
}

/// Validity of a swap record. Every record the registry holds satisfies this
/// at every observable snapshot: the amount is positive, the confirmation
/// requirement is positive, exactly one of {recipient present, open} holds,
/// the confirmation counter agrees with the state, a record past Pending
/// carries the observed parent-chain transaction id, and a claimed open swap
/// carries its resolved claimer.
pub open spec fn swap_model_wf(m: SwapModel) -> bool {
    &&& m.l2_amount > 0
    &&& m.required_confirmations >= 1
    &&& (m.l2_recipient is Some <==> !m.is_open)
    &&& (m.state is Pending ==> m.confirmations < m.required_confirmations)
    &&& (!(m.state is Pending) ==> m.confirmations >= m.required_confirmations)
    &&& (!(m.state is Pending) ==> m.l1_txid is Some)
    &&& (m.state is Claimed && m.is_open ==> m.l1_claimer_address is Some)
}

impl Swap {
    /// A copy of this record, equal to it view for view.
    pub fn duplicate(&self) -> (r: Swap)
        ensures
            r@ == self@,
    {
        Swap {
            id: self.id,
            parent_chain: self.parent_chain,
            l1_recipient_address: self.l1_recipient_address.clone(),
            l1_amount: self.l1_amount,
            l2_recipient: self.l2_recipient,
            is_open: self.is_open,
            l2_amount: self.l2_amount,
            required_confirmations: self.required_confirmations,
            l1_txid: match &self.l1_txid {
                Option::None => Option::None,
                Option::Some(t) => Option::Some(t.duplicate()),
            },
            confirmations: self.confirmations,
            l1_claimer_address: self.l1_claimer_address,
            state: self.state,
        }
    }
}

/// The parameters from which a new swap record is initialized.
#[derive(Clone, Debug)]
pub struct Init {
    pub parent_chain: ParentChainType,
    pub l1_recipient_address: String,
    pub l1_amount: Option<u64>,
    pub l2_recipient: Option<Address>,
    pub is_open: bool,
    pub l2_amount: u64,
    pub required_confirmations: Option<u32>,
}

/// The error taxonomy of the engine. Every error is reported before any
/// mutation: no partial change is ever observable on an error path.
#[derive(Clone, Copy, Debug, PartialEq, Eq, Structural)]
pub enum SwapError {
    /// Malformed creation or claim parameters.
    Validation,
    /// The operation needs the swap in a state it is not in.
    InvalidState,
    /// Unknown swap id, or an outpoint not locked to the named swap.
    NotFound,
    /// An open swap was claimed without a claimer address.
    MissingClaimer,
    /// An outpoint fails membership against the given accumulator snapshot.
    AccumulatorProof,
    /// The outpoint is already locked to a swap.
    OutputAlreadyLocked,
    /// The supplied unspent outputs cannot cover the amount plus fee.
    InsufficientFunds,
}

/// What a ledger output carries: plain value to an address, or value locked
/// to a swap until that swap is claimed.
#[derive(Clone, Copy, Debug, PartialEq, Eq)]
pub enum OutputContent {
    Value { address: Address, value: u64 },
    SwapLocked { swap_id: SwapId, value: u64 },
}

/// A candidate ledger transaction, as the assembler emits it. Downstream
/// ledger validation is authoritative; the assembler guarantees protocol
/// shape only.
#[derive(Clone, Debug, PartialEq, Eq)]
pub struct Transaction {
    pub inputs: Vec<OutPoint>,
    pub outputs: Vec<OutputContent>,
}

/// A snapshot of the unspent-output accumulator at a chosen ledger tip,
/// abstracted to the set of outpoints whose membership it can prove. It is
/// fetched once per assembly and treated as immutable for that call.
#[derive(Clone, Debug)]
pub struct AccumulatorSnapshot {
    pub members: Vec<OutPoint>,
}

impl AccumulatorSnapshot {
    /// Whether the snapshot proves this outpoint part of the unspent set.
    pub open spec fn contains_outpoint(self, outpoint: OutPoint) -> bool {
        exists|i: int| 0 <= i < self.members@.len() && self.members@[i] == outpoint
    }

    /// Membership proof against the snapshot.
    pub fn proves_membership(&self, outpoint: &OutPoint) -> (r: bool)
        ensures
            r == self.contains_outpoint(*outpoint),
    {
        let mut i: usize = 0;
        while i < self.members.len()
            invariant
                i <= self.members@.len(),
                forall|j: int| 0 <= j < i ==> self.members@[j] != *outpoint,
            decreases self.members@.len() - i,
        {
            if self.members[i].same_as(outpoint) {
                return true;
            }
            i += 1;
        }
        false
    }
}

} // verus!
