//! Signature hashes: legacy, segregated witness version 0 (BIP-143) and
//! Taproot (BIP-341), for SIGHASH_ALL and the Taproot default type.
use crate::error::SpendError;
use crate::hashes::{sha256, sha256_of, sha256d, sha256d_of, tag_bytes, tagged_hash, tagged_hash_of, Tag};
use crate::script::{append_bytes, le_bytes, push_le};
use crate::tx::{
    compact_size, push_compact, push_outpoint, push_outputs, push_txin_with, push_var_bytes,
    ser_outpoint, ser_outputs, ser_txin_with, var_bytes, Transaction, TxIn, TxOut,
};
use vstd::prelude::*;

verus! {

/// The sighash flag of SIGHASH_ALL.
pub const SIGHASH_ALL: u8 = 0x01;

/// What a signature commits to besides the transaction.
pub enum SighashMode {
    /// A spend of a script without witness; the script is the one being run.
    Legacy { script_code: Vec<u8> },
    /// A version 0 witness spend of an output worth `amount`.
    SegwitV0 { script_code: Vec<u8>, amount: u64 },
    /// A Taproot key-path spend; `prevouts` are the outputs that all inputs spend.
    TaprootKey { prevouts: Vec<TxOut> },
    /// A Taproot script-path spend of the leaf with hash `leaf_hash`.
    TaprootScript { prevouts: Vec<TxOut>, leaf_hash: Vec<u8> },
}

// ---------------------------------------------------------------------------
// Legacy
/// The inputs, with `sc` as the script of input `idx` and no script elsewhere.
pub open spec fn legacy_inputs(s: Seq<TxIn>, idx: int, sc: Seq<u8>) -> Seq<u8>
    decreases s.len(),
{
    if s.len() == 0 {
        Seq::empty()
    } else {
        legacy_inputs(s.drop_last(), idx, sc) + ser_txin_with(
            s.last(),
            if s.len() - 1 == idx {
                sc
            } else {
                Seq::empty()
            },
        )
    }
}

pub open spec fn legacy_preimage(tx: Transaction, idx: int, sc: Seq<u8>) -> Seq<u8> {
    le_bytes(tx.version as nat, 4) + compact_size(tx.input@.len()) + legacy_inputs(
        tx.input@,
        idx,
        sc,
    ) + compact_size(tx.output@.len()) + ser_outputs(tx.output@) + le_bytes(tx.lock_time as nat, 4)
        + le_bytes(SIGHASH_ALL as nat, 4)
}

// ---------------------------------------------------------------------------
// Shared parts of the witness hashes
pub open spec fn prevouts_bytes(s: Seq<TxIn>) -> Seq<u8>
    decreases s.len(),
{
    if s.len() == 0 {
        Seq::empty()
    } else {
        prevouts_bytes(s.drop_last()) + ser_outpoint(s.last().previous_output)
    }
}

pub open spec fn sequences_bytes(s: Seq<TxIn>) -> Seq<u8>
    decreases s.len(),
{
    if s.len() == 0 {
        Seq::empty()
    } else {
        sequences_bytes(s.drop_last()) + le_bytes(s.last().sequence as nat, 4)
    }
}

pub open spec fn amounts_bytes(s: Seq<TxOut>) -> Seq<u8>
    decreases s.len(),
{
    if s.len() == 0 {
        Seq::empty()
    } else {
        amounts_bytes(s.drop_last()) + le_bytes(s.last().value as nat, 8)
    }
}

pub open spec fn script_pubkeys_bytes(s: Seq<TxOut>) -> Seq<u8>
    decreases s.len(),
{
    if s.len() == 0 {
        Seq::empty()
    } else {
        script_pubkeys_bytes(s.drop_last()) + var_bytes(s.last().script_pubkey@)
    }
}

// ---------------------------------------------------------------------------
// BIP-143
pub open spec fn segwit_v0_preimage(tx: Transaction, idx: int, sc: Seq<u8>, amount: u64) -> Seq<
    u8,
> {
    let i = tx.input@[idx];
    le_bytes(tx.version as nat, 4) + sha256d_of(prevouts_bytes(tx.input@)) + sha256d_of(
        sequences_bytes(tx.input@),
    ) + ser_outpoint(i.previous_output) + var_bytes(sc) + le_bytes(amount as nat, 8) + le_bytes(
        i.sequence as nat,
        4,
    ) + sha256d_of(ser_outputs(tx.output@)) + le_bytes(tx.lock_time as nat, 4) + le_bytes(
        SIGHASH_ALL as nat,
        4,
    )
}

// ---------------------------------------------------------------------------
// BIP-341
/// The message of a Taproot signature with the default hash type and no
/// annex, with the epoch byte in front, where `amounts` and `spks` are the
/// serialized amounts and output scripts of the spent outputs; `leaf` is the
/// tap-leaf hash of a script-path spend.
pub open spec fn taproot_msg(
    tx: Transaction,
    idx: int,
    amounts: Seq<u8>,
    spks: Seq<u8>,
    leaf: Option<Seq<u8>>,
) -> Seq<u8> {
    seq![0x00u8, 0x00u8] + le_bytes(tx.version as nat, 4) + le_bytes(tx.lock_time as nat, 4)
        + sha256_of(prevouts_bytes(tx.input@)) + sha256_of(amounts) + sha256_of(spks) + sha256_of(
        sequences_bytes(tx.input@),
    ) + sha256_of(ser_outputs(tx.output@)) + seq![
        if leaf is Some {
            0x02u8
        } else {
            0x00u8
        },
    ] + le_bytes(idx as nat, 4) + match leaf {
        Some(h) => h + seq![0x00u8] + le_bytes(0xffff_ffff, 4),
        None => Seq::empty(),
    }
}

pub open spec fn taproot_preimage(
    tx: Transaction,
    idx: int,
    prevouts: Seq<TxOut>,
    leaf: Option<Seq<u8>>,
) -> Seq<u8> {
    taproot_msg(tx, idx, amounts_bytes(prevouts), script_pubkeys_bytes(prevouts), leaf)
}

/// With one spent output, its serialized amount and output script are those
/// of that output alone.
pub proof fn lemma_single_prevout(o: TxOut)
    ensures
        amounts_bytes(seq![o]) == le_bytes(o.value as nat, 8),
        script_pubkeys_bytes(seq![o]) == var_bytes(o.script_pubkey@),
{
    assert(seq![o].drop_last() =~= Seq::<TxOut>::empty());
    assert(seq![o].last() == o);
    assert(amounts_bytes(Seq::<TxOut>::empty()) == Seq::<u8>::empty());
    assert(script_pubkeys_bytes(Seq::<TxOut>::empty()) == Seq::<u8>::empty());
    assert(Seq::<u8>::empty() + le_bytes(o.value as nat, 8) =~= le_bytes(o.value as nat, 8));
    assert(Seq::<u8>::empty() + var_bytes(o.script_pubkey@) =~= var_bytes(o.script_pubkey@));
}

/// The digest that a signature on input `idx` of `tx` commits to, or `None`
/// where the index is past the inputs or the spent outputs do not match the
/// inputs one for one.
pub open spec fn sighash_spec(tx: Transaction, idx: int, mode: SighashMode) -> Option<Seq<u8>> {
    if !(0 <= idx < tx.input@.len()) {
        None
    } else {
        match mode {
            SighashMode::Legacy { script_code } => Some(
                sha256d_of(legacy_preimage(tx, idx, script_code@)),
            ),
            SighashMode::SegwitV0 { script_code, amount } => Some(
                sha256d_of(segwit_v0_preimage(tx, idx, script_code@, amount)),
            ),
            SighashMode::TaprootKey { prevouts } => if prevouts@.len() == tx.input@.len() {
                Some(
                    tagged_hash_of(
                        tag_bytes(Tag::TapSighash),
                        taproot_preimage(tx, idx, prevouts@, None),
                    ),
                )
            } else {
                None
            },
            SighashMode::TaprootScript { prevouts, leaf_hash } => if prevouts@.len()
                == tx.input@.len() {
                Some(
                    tagged_hash_of(
                        tag_bytes(Tag::TapSighash),
                        taproot_preimage(tx, idx, prevouts@, Some(leaf_hash@)),
                    ),
                )
            } else {
                None
            },
        }
    }
}

// ---------------------------------------------------------------------------
// Executable parts
fn push_legacy_inputs(out: &mut Vec<u8>, ins: &Vec<TxIn>, idx: usize, sc: &[u8])
    ensures
        final(out)@ == old(out)@ + legacy_inputs(ins@, idx as int, sc@),
{
    let ghost start = out@;
    let empty: Vec<u8> = Vec::new();
    let mut k: usize = 0;
    while k < ins.len()
        invariant
            k <= ins@.len(),
            empty@ == Seq::<u8>::empty(),
            out@ == start + legacy_inputs(ins@.take(k as int), idx as int, sc@),
        decreases ins@.len() - k,
    {
        if k == idx {
            push_txin_with(out, &ins[k], sc);
        } else {
            push_txin_with(out, &ins[k], empty.as_slice());
        }
        assert(ins@.take(k + 1).drop_last() =~= ins@.take(k as int));
        k = k + 1;
        assert(out@ =~= start + legacy_inputs(ins@.take(k as int), idx as int, sc@));
    }
    assert(ins@.take(k as int) =~= ins@);
}

fn prevouts_of(ins: &Vec<TxIn>) -> (r: Vec<u8>)
    ensures
        r@ == prevouts_bytes(ins@),
{
    let mut out: Vec<u8> = Vec::new();
    let mut k: usize = 0;
    while k < ins.len()
        invariant
            k <= ins@.len(),
            out@ == prevouts_bytes(ins@.take(k as int)),
        decreases ins@.len() - k,
    {
        push_outpoint(&mut out, &ins[k].previous_output);
        assert(ins@.take(k + 1).drop_last() =~= ins@.take(k as int));
        k = k + 1;
    }
    assert(ins@.take(k as int) =~= ins@);
    out
}

fn sequences_of(ins: &Vec<TxIn>) -> (r: Vec<u8>)
    ensures
        r@ == sequences_bytes(ins@),
{
    let mut out: Vec<u8> = Vec::new();
    let mut k: usize = 0;
    while k < ins.len()
        invariant
            k <= ins@.len(),
            out@ == sequences_bytes(ins@.take(k as int)),
        decreases ins@.len() - k,
    {
        push_le(&mut out, ins[k].sequence as u64, 4);
        assert(ins@.take(k + 1).drop_last() =~= ins@.take(k as int));
        k = k + 1;
    }
    assert(ins@.take(k as int) =~= ins@);
    out
}

fn amounts_of(ps: &Vec<TxOut>) -> (r: Vec<u8>)
    ensures
        r@ == amounts_bytes(ps@),
{
    let mut out: Vec<u8> = Vec::new();
    let mut k: usize = 0;
    while k < ps.len()
        invariant
            k <= ps@.len(),
            out@ == amounts_bytes(ps@.take(k as int)),
        decreases ps@.len() - k,
    {
        push_le(&mut out, ps[k].value, 8);
        assert(ps@.take(k + 1).drop_last() =~= ps@.take(k as int));
        k = k + 1;
    }
    assert(ps@.take(k as int) =~= ps@);
    out
}

fn script_pubkeys_of(ps: &Vec<TxOut>) -> (r: Vec<u8>)
    ensures
        r@ == script_pubkeys_bytes(ps@),
{
    let mut out: Vec<u8> = Vec::new();
    let mut k: usize = 0;
    while k < ps.len()
        invariant
            k <= ps@.len(),
            out@ == script_pubkeys_bytes(ps@.take(k as int)),
        decreases ps@.len() - k,
    {
        push_var_bytes(&mut out, ps[k].script_pubkey.as_slice());
        assert(ps@.take(k + 1).drop_last() =~= ps@.take(k as int));
        k = k + 1;
    }
    assert(ps@.take(k as int) =~= ps@);
    out
}

fn outputs_of(outs: &Vec<TxOut>) -> (r: Vec<u8>)
    ensures
        r@ == ser_outputs(outs@),
{
    let mut out: Vec<u8> = Vec::new();
    push_outputs(&mut out, outs);
    out
}

/// The legacy signature hash of input `idx` under SIGHASH_ALL.
pub fn legacy_sighash(tx: &Transaction, idx: usize, script_code: &[u8]) -> (r: Vec<u8>)
    requires
        idx < tx.input@.len(),
    ensures
        r@ == sha256d_of(legacy_preimage(*tx, idx as int, script_code@)),
        r@.len() == 32,
{
    let mut pre: Vec<u8> = Vec::new();
    push_le(&mut pre, tx.version as u64, 4);
    push_compact(&mut pre, tx.input.len() as u64);
    push_legacy_inputs(&mut pre, &tx.input, idx, script_code);
    push_compact(&mut pre, tx.output.len() as u64);
    push_outputs(&mut pre, &tx.output);
    push_le(&mut pre, tx.lock_time as u64, 4);
    push_le(&mut pre, SIGHASH_ALL as u64, 4);
    assert(pre@ =~= legacy_preimage(*tx, idx as int, script_code@));
    sha256d(pre.as_slice())
}

/// The BIP-143 signature hash of input `idx`, which spends `amount` under
/// `script_code`, under SIGHASH_ALL.
pub fn segwit_v0_sighash(tx: &Transaction, idx: usize, script_code: &[u8], amount: u64) -> (r:
    Vec<u8>)
    requires
        idx < tx.input@.len(),
    ensures
        r@ == sha256d_of(segwit_v0_preimage(*tx, idx as int, script_code@, amount)),
        r@.len() == 32,
{
    let hp = sha256d(prevouts_of(&tx.input).as_slice());
    let hs = sha256d(sequences_of(&tx.input).as_slice());
    let ho = sha256d(outputs_of(&tx.output).as_slice());
    let mut pre: Vec<u8> = Vec::new();
    push_le(&mut pre, tx.version as u64, 4);
    append_bytes(&mut pre, hp.as_slice());
    append_bytes(&mut pre, hs.as_slice());
    push_outpoint(&mut pre, &tx.input[idx].previous_output);
    push_var_bytes(&mut pre, script_code);
    push_le(&mut pre, amount, 8);
    push_le(&mut pre, tx.input[idx].sequence as u64, 4);
    append_bytes(&mut pre, ho.as_slice());
    push_le(&mut pre, tx.lock_time as u64, 4);
    push_le(&mut pre, SIGHASH_ALL as u64, 4);
    assert(pre@ =~= segwit_v0_preimage(*tx, idx as int, script_code@, amount));
    sha256d(pre.as_slice())
}

/// The BIP-341 signature hash of input `idx` with the default hash type; a
/// leaf hash makes it a script-path hash.
pub fn taproot_sighash(tx: &Transaction, idx: usize, prevouts: &Vec<TxOut>, leaf_hash: Option<&Vec<u8>>) -> (r: Vec<u8>)
    requires
        idx < tx.input@.len(),
    ensures
        r@ == tagged_hash_of(
            tag_bytes(Tag::TapSighash),
            taproot_preimage(*tx, idx as int, prevouts@, match leaf_hash {
                Some(h) => Some(h@),
                None => None,
            }),
        ),
        r@.len() == 32,
{
    let ghost leaf = match leaf_hash {
        Some(h) => Some(h@),
        None => None,
    };
    let sp = sha256(prevouts_of(&tx.input).as_slice());
    let sa = sha256(amounts_of(prevouts).as_slice());
    let sk = sha256(script_pubkeys_of(prevouts).as_slice());
    let ss = sha256(sequences_of(&tx.input).as_slice());
    let so = sha256(outputs_of(&tx.output).as_slice());
    let mut pre: Vec<u8> = Vec::new();
    pre.push(0x00);
    pre.push(0x00);
    push_le(&mut pre, tx.version as u64, 4);
    push_le(&mut pre, tx.lock_time as u64, 4);
    append_bytes(&mut pre, sp.as_slice());
    append_bytes(&mut pre, sa.as_slice());
    append_bytes(&mut pre, sk.as_slice());
    append_bytes(&mut pre, ss.as_slice());
    append_bytes(&mut pre, so.as_slice());
    let ghost mid = pre@;
    match leaf_hash {
        Some(h) => {
            pre.push(0x02);
            push_le(&mut pre, idx as u64, 4);
            append_bytes(&mut pre, h.as_slice());
            pre.push(0x00);
            push_le(&mut pre, 0xffff_ffff, 4);
        },
        None => {
            pre.push(0x00);
            push_le(&mut pre, idx as u64, 4);
        },
    }
    assert(pre@ =~= taproot_preimage(*tx, idx as int, prevouts@, leaf));
    tagged_hash(Tag::TapSighash, pre.as_slice())
}

/// The digest that a signature on input `idx` commits to, in the regime that
/// `mode` names.
pub fn signature_hash(tx: &Transaction, idx: usize, mode: &SighashMode) -> (r: Result<
    Vec<u8>,
    SpendError,
>)
    ensures
        match r {
            Ok(h) => sighash_spec(*tx, idx as int, *mode) == Some(h@),
            Err(e) => sighash_spec(*tx, idx as int, *mode) is None && e == SpendError::SighashError,
        },
{
    if idx >= tx.input.len() {
        return Err(SpendError::SighashError);
    }
    match mode {
        SighashMode::Legacy { script_code } => Ok(legacy_sighash(tx, idx, script_code.as_slice())),
        SighashMode::SegwitV0 { script_code, amount } => Ok(
            segwit_v0_sighash(tx, idx, script_code.as_slice(), *amount),
        ),
        SighashMode::TaprootKey { prevouts } => {
            if prevouts.len() != tx.input.len() {
                return Err(SpendError::SighashError);
            }
            Ok(taproot_sighash(tx, idx, prevouts, None))
        },
        SighashMode::TaprootScript { prevouts, leaf_hash } => {
            if prevouts.len() != tx.input.len() {
                return Err(SpendError::SighashError);
            }
            Ok(taproot_sighash(tx, idx, prevouts, Some(leaf_hash)))
        },
    }
}

} // verus!
