//! Transactions and their consensus serialization.
use crate::script::{append_bytes, le_bytes, push_le};
use vstd::prelude::*;

verus! {

/// A reference to an output of an earlier transaction.
#[derive(Clone, Debug, PartialEq, Eq)]
pub struct OutPoint {
    /// The 32 bytes of the transaction id, in the order they are serialized.
    pub txid: Vec<u8>,
    pub vout: u32,
}

#[derive(Clone, Debug, PartialEq, Eq)]
pub struct TxIn {
    pub previous_output: OutPoint,
    pub script_sig: Vec<u8>,
    pub sequence: u32,
    pub witness: Vec<Vec<u8>>,
}

#[derive(Clone, Debug, PartialEq, Eq)]
pub struct TxOut {
    pub value: u64,
    pub script_pubkey: Vec<u8>,
}

#[derive(Clone, Debug, PartialEq, Eq)]
pub struct Transaction {
    pub version: u32,
    pub lock_time: u32,
    pub input: Vec<TxIn>,
    pub output: Vec<TxOut>,
}

/// The variable-length integer that prefixes counts and lengths.
pub open spec fn compact_size(n: nat) -> Seq<u8> {
    if n < 0xfd {
        seq![n as u8]
    } else if n <= 0xffff {
        seq![0xfdu8] + le_bytes(n, 2)
    } else if n <= 0xffff_ffff {
        seq![0xfeu8] + le_bytes(n, 4)
    } else {
        seq![0xffu8] + le_bytes(n, 8)
    }
}

/// Bytes with their length in front.
pub open spec fn var_bytes(b: Seq<u8>) -> Seq<u8> {
    compact_size(b.len()) + b
}

pub open spec fn ser_outpoint(o: OutPoint) -> Seq<u8> {
    o.txid@ + le_bytes(o.vout as nat, 4)
}

/// An input, with `script` in place of its signature script.
pub open spec fn ser_txin_with(i: TxIn, script: Seq<u8>) -> Seq<u8> {
    ser_outpoint(i.previous_output) + var_bytes(script) + le_bytes(i.sequence as nat, 4)
}

pub open spec fn ser_txin(i: TxIn) -> Seq<u8> {
    ser_txin_with(i, i.script_sig@)
}

pub open spec fn ser_txout(o: TxOut) -> Seq<u8> {
    le_bytes(o.value as nat, 8) + var_bytes(o.script_pubkey@)
}

pub open spec fn ser_inputs(s: Seq<TxIn>) -> Seq<u8>
    decreases s.len(),
{
    if s.len() == 0 {
        Seq::empty()
    } else {
        ser_inputs(s.drop_last()) + ser_txin(s.last())
    }
}

pub open spec fn ser_outputs(s: Seq<TxOut>) -> Seq<u8>
    decreases s.len(),
{
    if s.len() == 0 {
        Seq::empty()
    } else {
        ser_outputs(s.drop_last()) + ser_txout(s.last())
    }
}

/// The items of a witness stack, each with its length in front.
pub open spec fn ser_items(s: Seq<Vec<u8>>) -> Seq<u8>
    decreases s.len(),
{
    if s.len() == 0 {
        Seq::empty()
    } else {
        ser_items(s.drop_last()) + var_bytes(s.last()@)
    }
}

pub open spec fn ser_witness(w: Seq<Vec<u8>>) -> Seq<u8> {
    compact_size(w.len()) + ser_items(w)
}

pub open spec fn ser_witnesses(s: Seq<TxIn>) -> Seq<u8>
    decreases s.len(),
{
    if s.len() == 0 {
        Seq::empty()
    } else {
        ser_witnesses(s.drop_last()) + ser_witness(s.last().witness@)
    }
}

/// Whether some input carries a witness item.
pub open spec fn has_witness(tx: Transaction) -> bool {
    exists|j: int| 0 <= j < tx.input@.len() && #[trigger] tx.input@[j].witness@.len() > 0
}

/// The serialization without witnesses, which transaction ids and legacy
/// signature hashes commit to.
pub open spec fn ser_tx_base(tx: Transaction) -> Seq<u8> {
    le_bytes(tx.version as nat, 4) + compact_size(tx.input@.len()) + ser_inputs(tx.input@)
        + compact_size(tx.output@.len()) + ser_outputs(tx.output@) + le_bytes(tx.lock_time as nat, 4)
}

/// The consensus serialization: with the marker and flag bytes `0x00 0x01`
/// and the witnesses where some input carries one.
pub open spec fn ser_tx(tx: Transaction) -> Seq<u8> {
    if has_witness(tx) {
        le_bytes(tx.version as nat, 4) + seq![0x00u8, 0x01u8] + compact_size(tx.input@.len())
            + ser_inputs(tx.input@) + compact_size(tx.output@.len()) + ser_outputs(tx.output@)
            + ser_witnesses(tx.input@) + le_bytes(tx.lock_time as nat, 4)
    } else {
        ser_tx_base(tx)
    }
}

/// Appends a count or length in compact form.
pub fn push_compact(out: &mut Vec<u8>, n: u64)
    ensures
        final(out)@ == old(out)@ + compact_size(n as nat),
{
    let ghost start = out@;
    if n < 0xfd {
        out.push(n as u8);
    } else if n <= 0xffff {
        out.push(0xfd);
        push_le(out, n, 2);
    } else if n <= 0xffff_ffff {
        out.push(0xfe);
        push_le(out, n, 4);
    } else {
        out.push(0xff);
        push_le(out, n, 8);
    }
    assert(out@ =~= start + compact_size(n as nat));
}

/// Appends bytes with their length in front.
pub fn push_var_bytes(out: &mut Vec<u8>, b: &[u8])
    ensures
        final(out)@ == old(out)@ + var_bytes(b@),
{
    let ghost start = out@;
    push_compact(out, b.len() as u64);
    append_bytes(out, b);
    assert(out@ =~= start + var_bytes(b@));
}

pub fn push_outpoint(out: &mut Vec<u8>, o: &OutPoint)
    ensures
        final(out)@ == old(out)@ + ser_outpoint(*o),
{
    let ghost start = out@;
    append_bytes(out, o.txid.as_slice());
    push_le(out, o.vout as u64, 4);
    assert(out@ =~= start + ser_outpoint(*o));
}

/// Appends an input with `script` as its signature script.
pub fn push_txin_with(out: &mut Vec<u8>, i: &TxIn, script: &[u8])
    ensures
        final(out)@ == old(out)@ + ser_txin_with(*i, script@),
{
    let ghost start = out@;
    push_outpoint(out, &i.previous_output);
    push_var_bytes(out, script);
    push_le(out, i.sequence as u64, 4);
    assert(out@ =~= start + ser_txin_with(*i, script@));
}

pub fn push_txout(out: &mut Vec<u8>, o: &TxOut)
    ensures
        final(out)@ == old(out)@ + ser_txout(*o),
{
    let ghost start = out@;
    push_le(out, o.value, 8);
    push_var_bytes(out, o.script_pubkey.as_slice());
    assert(out@ =~= start + ser_txout(*o));
}

pub fn push_inputs(out: &mut Vec<u8>, ins: &Vec<TxIn>)
    ensures
        final(out)@ == old(out)@ + ser_inputs(ins@),
{
    let ghost start = out@;
    let mut k: usize = 0;
    while k < ins.len()
        invariant
            k <= ins@.len(),
            out@ == start + ser_inputs(ins@.take(k as int)),
        decreases ins@.len() - k,
    {
        push_txin_with(out, &ins[k], ins[k].script_sig.as_slice());
        assert(ins@.take(k + 1).drop_last() =~= ins@.take(k as int));
        k = k + 1;
        assert(out@ =~= start + ser_inputs(ins@.take(k as int)));
    }
    assert(ins@.take(k as int) =~= ins@);
}

pub fn push_outputs(out: &mut Vec<u8>, outs: &Vec<TxOut>)
    ensures
        final(out)@ == old(out)@ + ser_outputs(outs@),
{
    let ghost start = out@;
    let mut k: usize = 0;
    while k < outs.len()
        invariant
            k <= outs@.len(),
            out@ == start + ser_outputs(outs@.take(k as int)),
        decreases outs@.len() - k,
    {
        push_txout(out, &outs[k]);
        assert(outs@.take(k + 1).drop_last() =~= outs@.take(k as int));
        k = k + 1;
        assert(out@ =~= start + ser_outputs(outs@.take(k as int)));
    }
    assert(outs@.take(k as int) =~= outs@);
}

pub fn push_witness(out: &mut Vec<u8>, w: &Vec<Vec<u8>>)
    ensures
        final(out)@ == old(out)@ + ser_witness(w@),
{
    let ghost start = out@;
    push_compact(out, w.len() as u64);
    let ghost mid = out@;
    let mut k: usize = 0;
    while k < w.len()
        invariant
            k <= w@.len(),
            mid == start + compact_size(w@.len()),
            out@ == mid + ser_items(w@.take(k as int)),
        decreases w@.len() - k,
    {
        push_var_bytes(out, w[k].as_slice());
        assert(w@.take(k + 1).drop_last() =~= w@.take(k as int));
        k = k + 1;
        assert(out@ =~= mid + ser_items(w@.take(k as int)));
    }
    assert(w@.take(k as int) =~= w@);
    assert(out@ =~= start + ser_witness(w@));
}

pub fn push_witnesses(out: &mut Vec<u8>, ins: &Vec<TxIn>)
    ensures
        final(out)@ == old(out)@ + ser_witnesses(ins@),
{
    let ghost start = out@;
    let mut k: usize = 0;
    while k < ins.len()
        invariant
            k <= ins@.len(),
            out@ == start + ser_witnesses(ins@.take(k as int)),
        decreases ins@.len() - k,
    {
        push_witness(out, &ins[k].witness);
        assert(ins@.take(k + 1).drop_last() =~= ins@.take(k as int));
        k = k + 1;
        assert(out@ =~= start + ser_witnesses(ins@.take(k as int)));
    }
    assert(ins@.take(k as int) =~= ins@);
}

/// Whether some input carries a witness item.
pub fn carries_witness(tx: &Transaction) -> (r: bool)
    ensures
        r == has_witness(*tx),
{
    let mut k: usize = 0;
    while k < tx.input.len()
        invariant
            k <= tx.input@.len(),
            forall|j: int| 0 <= j < k ==> #[trigger] tx.input@[j].witness@.len() == 0,
        decreases tx.input@.len() - k,
    {
        if tx.input[k].witness.len() > 0 {
            return true;
        }
        k = k + 1;
    }
    false
}

/// The serialization without witnesses.
pub fn serialize_base(tx: &Transaction) -> (r: Vec<u8>)
    ensures
        r@ == ser_tx_base(*tx),
{
    let mut out: Vec<u8> = Vec::new();
    push_le(&mut out, tx.version as u64, 4);
    push_compact(&mut out, tx.input.len() as u64);
    push_inputs(&mut out, &tx.input);
    push_compact(&mut out, tx.output.len() as u64);
    push_outputs(&mut out, &tx.output);
    push_le(&mut out, tx.lock_time as u64, 4);
    assert(out@ =~= ser_tx_base(*tx));
    out
}

/// The consensus serialization of a transaction.
pub fn serialize(tx: &Transaction) -> (r: Vec<u8>)
    ensures
        r@ == ser_tx(*tx),
{
    if !carries_witness(tx) {
        return serialize_base(tx);
    }
    let mut out: Vec<u8> = Vec::new();
    push_le(&mut out, tx.version as u64, 4);
    out.push(0x00);
    out.push(0x01);
    push_compact(&mut out, tx.input.len() as u64);
    push_inputs(&mut out, &tx.input);
    push_compact(&mut out, tx.output.len() as u64);
    push_outputs(&mut out, &tx.output);
    push_witnesses(&mut out, &tx.input);
    push_le(&mut out, tx.lock_time as u64, 4);
    assert(out@ =~= ser_tx(*tx));
    out
}

} // verus!
