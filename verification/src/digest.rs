//! Deterministic identifiers: the byte encodings of outpoints and
//! transactions, and the digest that mints swap ids and transaction ids
//! from them.

use vstd::prelude::*;

use crate::types::{OutPoint, OutputContent, SwapId, Transaction};

verus! {

/// The SHA-256 digest of a byte sequence. The digest is named, not written
/// out: it is a pure function of the input bytes, computed by an outside
/// crate.
pub uninterp spec fn sha256_of(bytes: Seq<u8>) -> Seq<u8>;

/// Relies on bitcoin::hashes::sha256::Hash::hash: the 32-byte SHA-256
/// digest of the input, a function of the input bytes alone.
#[verifier::external_body]
fn sha256(bytes: &Vec<u8>) -> (r: [u8; 32])
    ensures
        r@ == sha256_of(bytes@),
{
    let h = <bitcoin::hashes::sha256::Hash as bitcoin::hashes::Hash>::hash(bytes.as_slice());
    <bitcoin::hashes::sha256::Hash as bitcoin::hashes::Hash>::to_byte_array(h)
}

/// The four little-endian bytes of a 32-bit integer.
pub open spec fn u32_le_bytes(v: u32) -> Seq<u8> {
    seq![
        (v % 256) as u8,
        (v / 256 % 256) as u8,
        (v / 65536 % 256) as u8,
        (v / 16777216) as u8,
    ]
}

/// The eight little-endian bytes of a 64-bit integer.
pub open spec fn u64_le_bytes(v: u64) -> Seq<u8> {
    seq![
        (v % 256) as u8,
        (v / 256 % 256) as u8,
        (v / 65536 % 256) as u8,
        (v / 16777216 % 256) as u8,
        (v / 4294967296 % 256) as u8,
        (v / 1099511627776 % 256) as u8,
        (v / 281474976710656 % 256) as u8,
        (v / 72057594037927936) as u8,
    ]
}

/// The byte encoding of one outpoint: its 32 txid bytes, then its output
/// position in little-endian.
pub open spec fn outpoint_bytes(outpoint: OutPoint) -> Seq<u8> {
    outpoint.txid@ + u32_le_bytes(outpoint.vout)
}

/// The byte encoding of a sequence of outpoints, in order.
pub open spec fn outpoints_bytes(outpoints: Seq<OutPoint>) -> Seq<u8>
    decreases outpoints.len(),
{
    if outpoints.len() == 0 {
        Seq::empty()
    } else {
        outpoints_bytes(outpoints.drop_last()) + outpoint_bytes(outpoints.last())
    }
}

/// The byte encoding of one output: a tag byte, the address or swap id it
/// pays to, and its value in little-endian.
pub open spec fn output_bytes(output: OutputContent) -> Seq<u8> {
    match output {
        OutputContent::Value { address, value } => seq![0u8] + address.0@ + u64_le_bytes(value),
        OutputContent::SwapLocked { swap_id, value } => seq![1u8] + swap_id.0@ + u64_le_bytes(
            value,
        ),
    }
}

/// The byte encoding of a sequence of outputs, in order.
pub open spec fn outputs_bytes(outputs: Seq<OutputContent>) -> Seq<u8>
    decreases outputs.len(),
{
    if outputs.len() == 0 {
        Seq::empty()
    } else {
        outputs_bytes(outputs.drop_last()) + output_bytes(outputs.last())
    }
}

/// The byte encoding of a whole transaction: input count, inputs, output
/// count, outputs.
pub open spec fn tx_bytes_of(inputs: Seq<OutPoint>, outputs: Seq<OutputContent>) -> Seq<u8> {
    u64_le_bytes(inputs.len() as u64) + outpoints_bytes(inputs) + u64_le_bytes(
        outputs.len() as u64,
    ) + outputs_bytes(outputs)
}

/// The byte encoding of a transaction value.
pub open spec fn tx_bytes(tx: Transaction) -> Seq<u8> {
    tx_bytes_of(tx.inputs@, tx.outputs@)
}

/// The swap id minted for a creating transaction that consumes these inputs.
pub open spec fn spec_swap_id(inputs: Seq<OutPoint>) -> Seq<u8> {
    sha256_of(outpoints_bytes(inputs))
}

/// The id a transaction with these inputs and outputs would carry.
pub open spec fn spec_txid_of(inputs: Seq<OutPoint>, outputs: Seq<OutputContent>) -> Seq<u8> {
    sha256_of(tx_bytes_of(inputs, outputs))
}

/// The id of a transaction: the digest of its byte encoding.
pub open spec fn spec_txid(tx: Transaction) -> Seq<u8> {
    sha256_of(tx_bytes(tx))
}

proof fn lemma_outpoints_bytes_push(outpoints: Seq<OutPoint>, outpoint: OutPoint)
    ensures
        outpoints_bytes(outpoints.push(outpoint)) == outpoints_bytes(outpoints) + outpoint_bytes(
            outpoint,
        ),
{
    assert(outpoints.push(outpoint).drop_last() =~= outpoints);
    assert(outpoints.push(outpoint).last() == outpoint);
}

proof fn lemma_outputs_bytes_push(outputs: Seq<OutputContent>, output: OutputContent)
    ensures
        outputs_bytes(outputs.push(output)) == outputs_bytes(outputs) + output_bytes(output),
{
    assert(outputs.push(output).drop_last() =~= outputs);
    assert(outputs.push(output).last() == output);
}

/// Appends the four little-endian bytes of `v`.
fn push_u32_le(out: &mut Vec<u8>, v: u32)
    ensures
        final(out)@ == old(out)@ + u32_le_bytes(v),
{
    out.push((v % 256) as u8);
    out.push((v / 256 % 256) as u8);
    out.push((v / 65536 % 256) as u8);
    out.push((v / 16777216) as u8);
    proof {
        assert(final(out)@ =~= old(out)@ + u32_le_bytes(v));
    }
}

/// Appends the eight little-endian bytes of `v`.
fn push_u64_le(out: &mut Vec<u8>, v: u64)
    ensures
        final(out)@ == old(out)@ + u64_le_bytes(v),
{
    out.push((v % 256) as u8);
    out.push((v / 256 % 256) as u8);
    out.push((v / 65536 % 256) as u8);
    out.push((v / 16777216 % 256) as u8);
    out.push((v / 4294967296 % 256) as u8);
    out.push((v / 1099511627776 % 256) as u8);
    out.push((v / 281474976710656 % 256) as u8);
    out.push((v / 72057594037927936) as u8);
    proof {
        assert(final(out)@ =~= old(out)@ + u64_le_bytes(v));
    }
}

/// Appends the 32 bytes of a fixed-width array.
fn push_bytes32(out: &mut Vec<u8>, bytes: &[u8; 32])
    ensures
        final(out)@ == old(out)@ + bytes@,
{
    let mut i: usize = 0;
    while i < 32
        invariant
            i <= 32,
            out@ == old(out)@ + bytes@.take(i as int),
        decreases 32 - i,
    {
        out.push(bytes[i]);
        proof {
            assert(out@ =~= old(out)@ + bytes@.take(i + 1 as int));
        }
        i += 1;
    }
    proof {
        assert(bytes@.take(32) =~= bytes@);
    }
}

/// Appends the 20 bytes of an address.
fn push_bytes20(out: &mut Vec<u8>, bytes: &[u8; 20])
    ensures
        final(out)@ == old(out)@ + bytes@,
{
    let mut i: usize = 0;
    while i < 20
        invariant
            i <= 20,
            out@ == old(out)@ + bytes@.take(i as int),
        decreases 20 - i,
    {
        out.push(bytes[i]);
        proof {
            assert(out@ =~= old(out)@ + bytes@.take(i + 1 as int));
        }
        i += 1;
    }
    proof {
        assert(bytes@.take(20) =~= bytes@);
    }
}

/// Appends the encoding of one outpoint.
fn push_outpoint(out: &mut Vec<u8>, outpoint: &OutPoint)
    ensures
        final(out)@ == old(out)@ + outpoint_bytes(*outpoint),
{
    push_bytes32(out, &outpoint.txid);
    push_u32_le(out, outpoint.vout);
    proof {
        assert(final(out)@ =~= old(out)@ + outpoint_bytes(*outpoint));
    }
}

/// The byte encoding of a sequence of outpoints: the preimage from which a
/// swap id is minted.
pub fn encode_outpoints(outpoints: &Vec<OutPoint>) -> (r: Vec<u8>)
    ensures
        r@ == outpoints_bytes(outpoints@),
{
    let mut out: Vec<u8> = Vec::new();
    let mut i: usize = 0;
    while i < outpoints.len()
        invariant
            i <= outpoints@.len(),
            out@ == outpoints_bytes(outpoints@.take(i as int)),
        decreases outpoints@.len() - i,
    {
        push_outpoint(&mut out, &outpoints[i]);
        proof {
            assert(outpoints@.take(i + 1 as int) =~= outpoints@.take(i as int).push(
                outpoints@[i as int],
            ));
            lemma_outpoints_bytes_push(outpoints@.take(i as int), outpoints@[i as int]);
        }
        i += 1;
    }
    proof {
        assert(outpoints@.take(outpoints@.len() as int) =~= outpoints@);
    }
    out
}

/// Appends the encoding of one output.
fn push_output(out: &mut Vec<u8>, output: &OutputContent)
    ensures
        final(out)@ == old(out)@ + output_bytes(*output),
{
    match output {
        OutputContent::Value { address, value } => {
            out.push(0u8);
            push_bytes20(out, &address.0);
            push_u64_le(out, *value);
        },
        OutputContent::SwapLocked { swap_id, value } => {
            out.push(1u8);
            push_bytes32(out, &swap_id.0);
            push_u64_le(out, *value);
        },
    }
    proof {
        assert(final(out)@ =~= old(out)@ + output_bytes(*output));
    }
}

/// The byte encoding of a whole transaction: the preimage of its id.
pub fn encode_tx(tx: &Transaction) -> (r: Vec<u8>)
    ensures
        r@ == tx_bytes(*tx),
{
    let mut out: Vec<u8> = Vec::new();
    push_u64_le(&mut out, tx.inputs.len() as u64);
    let mut i: usize = 0;
    while i < tx.inputs.len()
        invariant
            i <= tx.inputs@.len(),
            out@ == u64_le_bytes(tx.inputs@.len() as u64) + outpoints_bytes(
                tx.inputs@.take(i as int),
            ),
        decreases tx.inputs@.len() - i,
    {
        push_outpoint(&mut out, &tx.inputs[i]);
        proof {
            assert(tx.inputs@.take(i + 1 as int) =~= tx.inputs@.take(i as int).push(
                tx.inputs@[i as int],
            ));
            lemma_outpoints_bytes_push(tx.inputs@.take(i as int), tx.inputs@[i as int]);
            assert(out@ =~= u64_le_bytes(tx.inputs@.len() as u64) + outpoints_bytes(
                tx.inputs@.take(i + 1 as int),
            ));
        }
        i += 1;
    }
    proof {
        assert(tx.inputs@.take(tx.inputs@.len() as int) =~= tx.inputs@);
    }
    push_u64_le(&mut out, tx.outputs.len() as u64);
    let ghost prefix: Seq<u8> = u64_le_bytes(tx.inputs@.len() as u64) + outpoints_bytes(tx.inputs@)
        + u64_le_bytes(tx.outputs@.len() as u64);
    let mut j: usize = 0;
    while j < tx.outputs.len()
        invariant
            j <= tx.outputs@.len(),
            out@ == prefix + outputs_bytes(tx.outputs@.take(j as int)),
        decreases tx.outputs@.len() - j,
    {
        push_output(&mut out, &tx.outputs[j]);
        proof {
            assert(tx.outputs@.take(j + 1 as int) =~= tx.outputs@.take(j as int).push(
                tx.outputs@[j as int],
            ));
            lemma_outputs_bytes_push(tx.outputs@.take(j as int), tx.outputs@[j as int]);
            assert(out@ =~= prefix + outputs_bytes(tx.outputs@.take(j + 1 as int)));
        }
        j += 1;
    }
    proof {
        assert(tx.outputs@.take(tx.outputs@.len() as int) =~= tx.outputs@);
        assert(out@ =~= tx_bytes(*tx));
    }
    out
}

/// Mints the swap id for a creating transaction that consumes these inputs.
/// The id is deterministic in the consumed inputs, so a race on the same
/// wallet output mints the same id and the same locked outpoint, and no
/// counter or coordination is needed.
pub fn mint_swap_id(inputs: &Vec<OutPoint>) -> (r: SwapId)
    ensures
        r.0@ == spec_swap_id(inputs@),
{
    let encoded = encode_outpoints(inputs);
    SwapId(sha256(&encoded))
}

/// Computes the id of an assembled transaction.
pub fn compute_txid(tx: &Transaction) -> (r: [u8; 32])
    ensures
        r@ == spec_txid(*tx),
{
    let encoded = encode_tx(tx);
    sha256(&encoded)
}

} // verus!
