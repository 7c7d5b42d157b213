//! Parsing of serialized transactions.
use crate::script::{copy_bytes, copy_range, le_bytes, le_value, lemma_le_round_trip, pow256};
use crate::tx::{
    compact_size, has_witness, ser_inputs, ser_items, ser_outpoint, ser_outputs, ser_tx, ser_txin,
    ser_txin_with, ser_txout, ser_witness, ser_witnesses, var_bytes, OutPoint, Transaction, TxIn,
    TxOut,
};
use vstd::prelude::*;

verus! {

proof fn lemma_pow256_step(k: nat)
    ensures
        pow256(k + 1) == 256 * pow256(k),
{
}

proof fn lemma_pow256_eight()
    ensures
        pow256(8) == 0x1_0000_0000_0000_0000,
        pow256(7) == 0x1_0000_0000_0000_00,
        pow256(4) == 0x1_0000_0000,
        pow256(2) == 0x1_0000,
{
    reveal_with_fuel(pow256, 9);
}

/// The `w`-byte little-endian number at `at`.
fn read_le_n(b: &[u8], at: usize, w: usize) -> (r: u64)
    requires
        w <= 8,
        at + w <= b@.len(),
        b@.len() <= usize::MAX,
    ensures
        r as nat == le_value(b@.subrange(at as int, at + w)),
        (r as nat) < pow256(w as nat),
{
    proof {
        lemma_pow256_eight();
    }
    let mut v: u64 = 0;
    let mut j: usize = w;
    assert(b@.subrange(at + w, at + w) =~= Seq::<u8>::empty());
    while j > 0
        invariant
            j <= w <= 8,
            at + w <= b@.len(),
            b@.len() <= usize::MAX,
            v as nat == le_value(b@.subrange(at + j, at + w)),
            (v as nat) < pow256((w - j) as nat),
            pow256(8) == 0x1_0000_0000_0000_0000,
        decreases j,
    {
        let ghost s = b@.subrange(at + j - 1, at + w);
        assert(s.skip(1) =~= b@.subrange(at + j, at + w));
        assert(s[0] == b@[at + j - 1]);
        proof {
            lemma_pow256_step((w - j) as nat);
            lemma_pow256_mono((w - j + 1) as nat, 8);
            lemma_pow256_mono((w - j) as nat, 7);
            lemma_pow256_eight();
        }
        assert(v < 0x1_0000_0000_0000_00);
        let byte = b[at + j - 1] as u64;
        assert(byte + 256 * v <= 0xffff_ffff_ffff_ffff) by (nonlinear_arith)
            requires
                v < 0x1_0000_0000_0000_00,
                byte < 256,
        ;
        v = byte + 256 * v;
        j = j - 1;
    }
    v
}

proof fn lemma_pow256_mono(a: nat, b: nat)
    requires
        a <= b,
    ensures
        pow256(a) <= pow256(b),
    decreases b,
{
    if a < b {
        lemma_pow256_mono(a, (b - 1) as nat);
    }
}

/// A little-endian number read back gives its bytes.
proof fn lemma_read_le(s: Seq<u8>)
    ensures
        le_bytes(le_value(s), s.len()) == s,
    decreases s.len(),
{
    if s.len() > 0 {
        lemma_read_le(s.skip(1));
        let v = le_value(s);
        assert(v % 256 == s[0] as nat);
        assert(v / 256 == le_value(s.skip(1)));
        assert(le_bytes(v, s.len()) =~= seq![s[0]] + s.skip(1));
        assert(s =~= seq![s[0]] + s.skip(1));
    }
}

/// `x` stands in `b` at `pos`.
pub open spec fn starts_with(b: Seq<u8>, pos: int, x: Seq<u8>) -> bool {
    0 <= pos && pos + x.len() <= b.len() && b.subrange(pos, pos + x.len()) == x
}

proof fn lemma_starts_concat(b: Seq<u8>, pos: int, x: Seq<u8>, y: Seq<u8>)
    requires
        starts_with(b, pos, x + y),
    ensures
        starts_with(b, pos, x),
        starts_with(b, pos + x.len(), y),
{
    let whole = b.subrange(pos, pos + (x + y).len());
    assert(whole == x + y);
    assert(b.subrange(pos, pos + x.len()) =~= whole.subrange(0, x.len() as int));
    assert((x + y).subrange(0, x.len() as int) =~= x);
    assert(b.subrange(pos + x.len(), pos + x.len() + y.len()) =~= whole.subrange(
        x.len() as int,
        (x.len() + y.len()) as int,
    ));
    assert((x + y).subrange(x.len() as int, (x.len() + y.len()) as int) =~= y);
}

/// The fixed-width number at `pos` and the position after it.
fn read_fixed(b: &[u8], pos: usize, w: usize, Ghost(x): Ghost<nat>) -> (r: Option<(u64, usize)>)
    requires
        w <= 8,
    ensures
        match r {
            Some((v, next)) => next == pos + w && next <= b@.len() && b@.subrange(pos as int, next as int)
                == le_bytes(v as nat, w as nat) && (v as nat) < pow256(w as nat),
            None => true,
        },
        x < pow256(w as nat) && starts_with(b@, pos as int, le_bytes(x, w as nat)) ==> r == Some(
            (x as u64, (pos + w) as usize),
        ),
{
    proof {
        lemma_pow256_eight();
        lemma_pow256_mono(w as nat, 8);
        if x < pow256(w as nat) {
            lemma_le_round_trip(x, w as nat);
        }
    }
    if pos > b.len() || w > b.len() - pos {
        return None;
    }
    let v = read_le_n(b, pos, w);
    proof {
        lemma_read_le(b@.subrange(pos as int, pos + w));
    }
    Some((v, pos + w))
}

/// The count or length in compact form at `pos`, where it takes its
/// smallest form.
fn read_compact(b: &[u8], pos: usize, Ghost(x): Ghost<nat>) -> (r: Option<(u64, usize)>)
    ensures
        match r {
            Some((n, next)) => pos < next <= b@.len() && b@.subrange(pos as int, next as int)
                == compact_size(n as nat),
            None => true,
        },
        x < pow256(8) && starts_with(b@, pos as int, compact_size(x)) ==> r == Some(
            (x as u64, (pos + compact_size(x).len()) as usize),
        ),
{
    proof {
        lemma_pow256_eight();
    }
    let ghost hyp = x < pow256(8) && starts_with(b@, pos as int, compact_size(x));
    let ghost c = compact_size(x);
    proof {
        if hyp {
            assert(b@[pos as int] == c[0]) by {
                assert(b@.subrange(pos as int, pos + c.len())[0] == b@[pos as int]);
            }
        }
    }
    if pos >= b.len() {
        return None;
    }
    let first = b[pos];
    if first < 0xfd {
        assert(b@.subrange(pos as int, pos + 1) =~= seq![first]);
        return Some((first as u64, pos + 1));
    }
    let (w, least): (usize, u64) = if first == 0xfd {
        (2, 0xfd)
    } else if first == 0xfe {
        (4, 0x1_0000)
    } else {
        (8, 0x1_0000_0000)
    };
    proof {
        if hyp {
            lemma_starts_concat(b@, pos as int, seq![first], le_bytes(x, w as nat));
        }
    }
    match read_fixed(b, pos + 1, w, Ghost(x)) {
        Some((n, next)) => {
            if n < least {
                return None;
            }
            assert(b@.subrange(pos as int, next as int) =~= seq![first] + b@.subrange(
                pos + 1,
                next as int,
            ));
            Some((n, next))
        },
        None => None,
    }
}

/// The bytes with their length in front at `pos`.
fn read_var_bytes(b: &[u8], pos: usize, Ghost(x): Ghost<Seq<u8>>) -> (r: Option<(Vec<u8>, usize)>)
    ensures
        match r {
            Some((d, next)) => pos < next <= b@.len() && b@.subrange(pos as int, next as int)
                == var_bytes(d@),
            None => true,
        },
        x.len() < pow256(8) && starts_with(b@, pos as int, var_bytes(x)) ==> (r matches Some(
            (d, next),
        ) && d@ == x && next == pos + var_bytes(x).len()),
{
    let ghost hyp = x.len() < pow256(8) && starts_with(b@, pos as int, var_bytes(x));
    proof {
        if hyp {
            lemma_starts_concat(b@, pos as int, compact_size(x.len()), x);
        }
    }
    let (n, p) = read_compact(b, pos, Ghost(x.len()))?;
    if n > (b.len() - p) as u64 {
        return None;
    }
    let end = p + n as usize;
    let d = copy_range(b, p, end);
    assert(b@.subrange(pos as int, end as int) =~= b@.subrange(pos as int, p as int) + d@);
    Some((d, end))
}

pub open spec fn same_but_witness(a: TxIn, b: TxIn) -> bool {
    &&& a.previous_output.txid@ == b.previous_output.txid@
    &&& a.previous_output.vout == b.previous_output.vout
    &&& a.script_sig@ == b.script_sig@
    &&& a.sequence == b.sequence
}

/// Inputs that differ at most in their witnesses serialize alike.
proof fn lemma_inputs_ignore_witness(s1: Seq<TxIn>, s2: Seq<TxIn>)
    requires
        s1.len() == s2.len(),
        forall|k: int| 0 <= k < s1.len() ==> same_but_witness(#[trigger] s1[k], s2[k]),
    ensures
        ser_inputs(s1) == ser_inputs(s2),
    decreases s1.len(),
{
    if s1.len() > 0 {
        lemma_inputs_ignore_witness(s1.drop_last(), s2.drop_last());
        assert(s1.last() == s1[s1.len() - 1]);
    }
}

/// An input whose parts have lengths that a serialization can carry.
pub open spec fn txin_canonical(i: TxIn) -> bool {
    &&& i.previous_output.txid@.len() == 32
    &&& i.script_sig@.len() < pow256(8)
    &&& i.witness@.len() < pow256(8)
    &&& forall|k: int| 0 <= k < i.witness@.len() ==> (#[trigger] i.witness@[k])@.len() < pow256(8)
}

fn read_txin(b: &[u8], pos: usize, Ghost(x): Ghost<TxIn>) -> (r: Option<(TxIn, usize)>)
    ensures
        match r {
            Some((i, next)) => pos < next <= b@.len() && b@.subrange(pos as int, next as int)
                == ser_txin(i) && i.witness@.len() == 0,
            None => true,
        },
        txin_canonical(x) && starts_with(b@, pos as int, ser_txin(x)) ==> (r matches Some((i, next))
            && same_but_witness(i, x) && next == pos + ser_txin(x).len()),
{
    let ghost hyp = txin_canonical(x) && starts_with(b@, pos as int, ser_txin(x));
    let ghost t = x.previous_output.txid@;
    let ghost v = le_bytes(x.previous_output.vout as nat, 4);
    let ghost sv = var_bytes(x.script_sig@);
    let ghost q = le_bytes(x.sequence as nat, 4);
    proof {
        lemma_pow256_eight();
        lemma_le_round_trip(x.previous_output.vout as nat, 4);
        lemma_le_round_trip(x.sequence as nat, 4);
        if hyp {
            assert(ser_txin(x) =~= t + (v + (sv + q)));
            lemma_starts_concat(b@, pos as int, t, v + (sv + q));
            lemma_starts_concat(b@, pos + 32, v, sv + q);
            lemma_starts_concat(b@, pos + 36, sv, q);
        }
    }
    if pos > b.len() || 32 > b.len() - pos {
        return None;
    }
    let txid = copy_range(b, pos, pos + 32);
    let (vout, p1) = read_fixed(b, pos + 32, 4, Ghost(x.previous_output.vout as nat))?;
    let (script_sig, p2) = read_var_bytes(b, p1, Ghost(x.script_sig@))?;
    let (sequence, p3) = read_fixed(b, p2, 4, Ghost(x.sequence as nat))?;
    let i = TxIn {
        previous_output: OutPoint { txid, vout: vout as u32 },
        script_sig,
        sequence: sequence as u32,
        witness: Vec::new(),
    };
    assert(b@.subrange(pos as int, p3 as int) =~= b@.subrange(pos as int, pos + 32) + b@.subrange(
        pos + 32,
        p1 as int,
    ) + b@.subrange(p1 as int, p2 as int) + b@.subrange(p2 as int, p3 as int));
    Some((i, p3))
}

fn read_txout(b: &[u8], pos: usize, Ghost(x): Ghost<TxOut>) -> (r: Option<(TxOut, usize)>)
    ensures
        match r {
            Some((o, next)) => pos < next <= b@.len() && b@.subrange(pos as int, next as int)
                == ser_txout(o),
            None => true,
        },
        x.script_pubkey@.len() < pow256(8) && starts_with(b@, pos as int, ser_txout(x)) ==> (r matches Some(
            (o, next),
        ) && o.value == x.value && o.script_pubkey@ == x.script_pubkey@ && next == pos + ser_txout(x).len()),
{
    proof {
        lemma_pow256_eight();
        if x.script_pubkey@.len() < pow256(8) && starts_with(b@, pos as int, ser_txout(x)) {
            lemma_starts_concat(b@, pos as int, le_bytes(x.value as nat, 8), var_bytes(x.script_pubkey@));
        }
    }
    let (value, p1) = read_fixed(b, pos, 8, Ghost(x.value as nat))?;
    let (script_pubkey, p2) = read_var_bytes(b, p1, Ghost(x.script_pubkey@))?;
    assert(b@.subrange(pos as int, p2 as int) =~= b@.subrange(pos as int, p1 as int) + b@.subrange(
        p1 as int,
        p2 as int,
    ));
    Some((TxOut { value, script_pubkey }, p2))
}

pub open spec fn byte_views(w: Seq<Vec<u8>>) -> Seq<Seq<u8>> {
    w.map_values(|v: Vec<u8>| v@)
}

proof fn lemma_ser_items_views(a: Seq<Vec<u8>>, b: Seq<Vec<u8>>)
    requires
        byte_views(a) == byte_views(b),
    ensures
        ser_items(a) == ser_items(b),
    decreases a.len(),
{
    assert(a.len() == byte_views(a).len());
    assert(b.len() == byte_views(b).len());
    if a.len() > 0 {
        assert(byte_views(a.drop_last()) =~= byte_views(a).drop_last());
        assert(byte_views(b.drop_last()) =~= byte_views(b).drop_last());
        lemma_ser_items_views(a.drop_last(), b.drop_last());
        assert(a.last()@ == byte_views(a)[a.len() - 1]);
        assert(b.last()@ == byte_views(b)[b.len() - 1]);
    }
}

proof fn lemma_ser_items_take(w: Seq<Vec<u8>>, k: int)
    requires
        0 <= k < w.len(),
    ensures
        ser_items(w.take(k + 1)) == ser_items(w.take(k)) + var_bytes(w[k]@),
{
    assert(w.take(k + 1).drop_last() =~= w.take(k));
}

proof fn lemma_ser_items_concat(x: Seq<Vec<u8>>, y: Seq<Vec<u8>>)
    ensures
        ser_items(x + y) == ser_items(x) + ser_items(y),
    decreases y.len(),
{
    if y.len() == 0 {
        assert(x + y =~= x);
        assert(ser_items(x) + Seq::<u8>::empty() =~= ser_items(x));
    } else {
        lemma_ser_items_concat(x, y.drop_last());
        assert((x + y).drop_last() =~= x + y.drop_last());
        assert((x + y).last() == y.last());
    }
}

proof fn lemma_ser_items_split(w: Seq<Vec<u8>>, k: int)
    requires
        0 <= k <= w.len(),
    ensures
        ser_items(w) == ser_items(w.take(k)) + ser_items(w.skip(k)),
{
    lemma_ser_items_concat(w.take(k), w.skip(k));
    assert(w.take(k) + w.skip(k) =~= w);
}

fn read_witness(b: &[u8], pos: usize, Ghost(x): Ghost<Seq<Vec<u8>>>) -> (r: Option<(Vec<Vec<u8>>, usize)>)
    ensures
        match r {
            Some((w, next)) => pos < next <= b@.len() && b@.subrange(pos as int, next as int)
                == ser_witness(w@),
            None => true,
        },
        x.len() < pow256(8) && (forall|k: int| 0 <= k < x.len() ==> (#[trigger] x[k])@.len() < pow256(8))
            && starts_with(b@, pos as int, ser_witness(x)) ==> (r matches Some((w, next))
            && byte_views(w@) == byte_views(x) && next == pos + ser_witness(x).len()),
{
    let ghost hyp = x.len() < pow256(8) && (forall|k: int| 0 <= k < x.len() ==> (#[trigger] x[k])@.len() < pow256(8))
        && starts_with(b@, pos as int, ser_witness(x));
    proof {
        lemma_pow256_eight();
        if hyp {
            lemma_starts_concat(b@, pos as int, compact_size(x.len()), ser_items(x));
        }
    }
    let (n, p0) = read_compact(b, pos, Ghost(x.len()))?;
    let mut items: Vec<Vec<u8>> = Vec::new();
    let mut p = p0;
    let mut k: u64 = 0;
    assert(x.take(0) =~= Seq::<Vec<u8>>::empty());
    assert(items@ =~= Seq::<Vec<u8>>::empty());
    while k < n
        invariant
            pos < p0 <= p <= b@.len(),
            k <= n,
            items@.len() == k,
            b@.subrange(pos as int, p0 as int) == compact_size(n as nat),
            b@.subrange(p0 as int, p as int) == ser_items(items@),
            hyp ==> n == x.len() && starts_with(b@, p0 as int, ser_items(x)),
            hyp ==> forall|j: int| 0 <= j < x.len() ==> (#[trigger] x[j])@.len() < pow256(8),
            hyp == (x.len() < pow256(8) && (forall|j: int| 0 <= j < x.len() ==> (#[trigger] x[j])@.len() < pow256(8))
                && starts_with(b@, pos as int, ser_witness(x))),
            hyp ==> byte_views(items@) == byte_views(x.take(k as int)) && p == p0 + ser_items(
                x.take(k as int),
            ).len(),
        decreases n - k,
    {
        let ghost xk = if hyp { x[k as int]@ } else { Seq::<u8>::empty() };
        proof {
            if hyp {
                lemma_ser_items_split(x, k + 1);
                let rest = ser_items(x.skip(k + 1));
                lemma_ser_items_take(x, k as int);
                assert(ser_items(x) =~= ser_items(x.take(k as int)) + (var_bytes(xk) + rest));
                lemma_starts_concat(b@, p0 as int, ser_items(x.take(k as int)), var_bytes(xk) + rest);
                lemma_starts_concat(b@, p as int, var_bytes(xk), rest);
                assert(starts_with(b@, p as int, var_bytes(xk)));
                assert(xk.len() < pow256(8));
            }
        }
        let (d, next) = read_var_bytes(b, p, Ghost(xk))?;
        let ghost before = items@;
        items.push(d);
        assert(items@.drop_last() =~= before);
        assert(b@.subrange(p0 as int, next as int) =~= b@.subrange(p0 as int, p as int) + b@.subrange(
            p as int,
            next as int,
        ));
        proof {
            if hyp {
                lemma_ser_items_take(x, k as int);
                assert(byte_views(items@) =~= byte_views(before).push(d@));
                assert(byte_views(x.take(k + 1)) =~= byte_views(x.take(k as int)).push(x[k as int]@));
                assert(byte_views(items@) =~= byte_views(x.take(k + 1)));
            }
        }
        p = next;
        k = k + 1;
    }
    proof {
        if hyp {
            assert(x.take(k as int) =~= x);
        }
    }
    assert(b@.subrange(pos as int, p as int) =~= b@.subrange(pos as int, p0 as int) + b@.subrange(
        p0 as int,
        p as int,
    ));
    Some((items, p))
}

proof fn lemma_ser_inputs_concat(x: Seq<TxIn>, y: Seq<TxIn>)
    ensures
        ser_inputs(x + y) == ser_inputs(x) + ser_inputs(y),
    decreases y.len(),
{
    if y.len() == 0 {
        assert(x + y =~= x);
        assert(ser_inputs(x) + Seq::<u8>::empty() =~= ser_inputs(x));
    } else {
        lemma_ser_inputs_concat(x, y.drop_last());
        assert((x + y).drop_last() =~= x + y.drop_last());
        assert((x + y).last() == y.last());
    }
}

proof fn lemma_ser_outputs_concat(x: Seq<TxOut>, y: Seq<TxOut>)
    ensures
        ser_outputs(x + y) == ser_outputs(x) + ser_outputs(y),
    decreases y.len(),
{
    if y.len() == 0 {
        assert(x + y =~= x);
        assert(ser_outputs(x) + Seq::<u8>::empty() =~= ser_outputs(x));
    } else {
        lemma_ser_outputs_concat(x, y.drop_last());
        assert((x + y).drop_last() =~= x + y.drop_last());
        assert((x + y).last() == y.last());
    }
}

proof fn lemma_ser_witnesses_concat(x: Seq<TxIn>, y: Seq<TxIn>)
    ensures
        ser_witnesses(x + y) == ser_witnesses(x) + ser_witnesses(y),
    decreases y.len(),
{
    if y.len() == 0 {
        assert(x + y =~= x);
        assert(ser_witnesses(x) + Seq::<u8>::empty() =~= ser_witnesses(x));
    } else {
        lemma_ser_witnesses_concat(x, y.drop_last());
        assert((x + y).drop_last() =~= x + y.drop_last());
        assert((x + y).last() == y.last());
    }
}

/// Where item `k` of a serialized list stands: after the items before it,
/// and before those after it.
proof fn lemma_inputs_at(s: Seq<TxIn>, k: int)
    requires
        0 <= k < s.len(),
    ensures
        ser_inputs(s) == ser_inputs(s.take(k)) + (ser_txin(s[k]) + ser_inputs(s.skip(k + 1))),
        ser_witnesses(s) == ser_witnesses(s.take(k)) + (ser_witness(s[k].witness@) + ser_witnesses(
            s.skip(k + 1),
        )),
        ser_inputs(s.take(k + 1)) == ser_inputs(s.take(k)) + ser_txin(s[k]),
        ser_witnesses(s.take(k + 1)) == ser_witnesses(s.take(k)) + ser_witness(s[k].witness@),
{
    assert(s.take(k + 1).drop_last() =~= s.take(k));
    lemma_ser_inputs_concat(s.take(k + 1), s.skip(k + 1));
    lemma_ser_witnesses_concat(s.take(k + 1), s.skip(k + 1));
    assert(s.take(k + 1) + s.skip(k + 1) =~= s);
}

proof fn lemma_outputs_at(s: Seq<TxOut>, k: int)
    requires
        0 <= k < s.len(),
    ensures
        ser_outputs(s) == ser_outputs(s.take(k)) + (ser_txout(s[k]) + ser_outputs(s.skip(k + 1))),
        ser_outputs(s.take(k + 1)) == ser_outputs(s.take(k)) + ser_txout(s[k]),
{
    assert(s.take(k + 1).drop_last() =~= s.take(k));
    lemma_ser_outputs_concat(s.take(k + 1), s.skip(k + 1));
    assert(s.take(k + 1) + s.skip(k + 1) =~= s);
}

/// Outputs whose values and scripts agree serialize alike.
proof fn lemma_outputs_alike(s1: Seq<TxOut>, s2: Seq<TxOut>)
    requires
        s1.len() == s2.len(),
        forall|k: int|
            0 <= k < s1.len() ==> (#[trigger] s1[k]).value == s2[k].value && s1[k].script_pubkey@
                == s2[k].script_pubkey@,
    ensures
        ser_outputs(s1) == ser_outputs(s2),
    decreases s1.len(),
{
    if s1.len() > 0 {
        lemma_outputs_alike(s1.drop_last(), s2.drop_last());
        assert(s1.last() == s1[s1.len() - 1]);
    }
}

/// Inputs whose witnesses hold the same items serialize their witnesses
/// alike.
proof fn lemma_witnesses_alike(s1: Seq<TxIn>, s2: Seq<TxIn>)
    requires
        s1.len() == s2.len(),
        forall|k: int| 0 <= k < s1.len() ==> byte_views((#[trigger] s1[k]).witness@) == byte_views(s2[k].witness@),
    ensures
        ser_witnesses(s1) == ser_witnesses(s2),
        has_witness_seq(s1) == has_witness_seq(s2),
    decreases s1.len(),
{
    if s1.len() > 0 {
        lemma_witnesses_alike(s1.drop_last(), s2.drop_last());
        let k = s1.len() - 1;
        assert(s1.last() == s1[k]);
        assert(byte_views(s1[k].witness@) == byte_views(s2[k].witness@));
        assert(s1[k].witness@.len() == byte_views(s1[k].witness@).len());
        assert(s2[k].witness@.len() == byte_views(s2[k].witness@).len());
        lemma_ser_items_views(s1[k].witness@, s2[k].witness@);
    }
}

pub open spec fn has_witness_seq(s: Seq<TxIn>) -> bool
    decreases s.len(),
{
    if s.len() == 0 {
        false
    } else {
        has_witness_seq(s.drop_last()) || s.last().witness@.len() > 0
    }
}

proof fn lemma_has_witness_seq(s: Seq<TxIn>)
    ensures
        has_witness_seq(s) == exists|j: int| 0 <= j < s.len() && #[trigger] s[j].witness@.len() > 0,
    decreases s.len(),
{
    if s.len() > 0 {
        lemma_has_witness_seq(s.drop_last());
        if has_witness_seq(s.drop_last()) {
            let j = choose|j: int| 0 <= j < s.drop_last().len() && #[trigger] s.drop_last()[j].witness@.len() > 0;
            assert(s[j].witness@.len() > 0);
        }
        if exists|j: int| 0 <= j < s.len() && #[trigger] s[j].witness@.len() > 0 {
            let j = choose|j: int| 0 <= j < s.len() && #[trigger] s[j].witness@.len() > 0;
            if j < s.len() - 1 {
                assert(s.drop_last()[j].witness@.len() > 0);
            }
        }
    }
}

/// A transaction whose parts have lengths that a serialization can carry,
/// with at least one input, so that its serialization reads back one way.
pub open spec fn tx_canonical(tx: Transaction) -> bool {
    &&& 0 < tx.input@.len() < pow256(8)
    &&& tx.output@.len() < pow256(8)
    &&& forall|k: int| 0 <= k < tx.input@.len() ==> txin_canonical(#[trigger] tx.input@[k])
    &&& forall|k: int|
        0 <= k < tx.output@.len() ==> (#[trigger] tx.output@[k]).script_pubkey@.len() < pow256(8)
}

proof fn lemma_compact_first_nonzero(n: nat)
    requires
        n > 0,
    ensures
        compact_size(n)[0] != 0,
{
}

fn parse_inputs(b: &[u8], start: usize, n: u64, Ghost(xs): Ghost<Seq<TxIn>>) -> (r: Option<(Vec<TxIn>, usize)>)
    requires
        start <= b@.len(),
    ensures
        r matches Some((v, next)) ==> start <= next <= b@.len() && v@.len() == n && b@.subrange(
            start as int,
            next as int,
        ) == ser_inputs(v@) && forall|j: int| 0 <= j < v@.len() ==> (#[trigger] v@[j]).witness@.len() == 0,
        n == xs.len() && (forall|j: int| 0 <= j < xs.len() ==> txin_canonical(#[trigger] xs[j]))
            && starts_with(b@, start as int, ser_inputs(xs)) ==> (r matches Some((v, next)) && next
            == start + ser_inputs(xs).len() && forall|j: int|
            0 <= j < v@.len() ==> same_but_witness(#[trigger] v@[j], xs[j])),
{
    let ghost hyp = n == xs.len() && (forall|j: int| 0 <= j < xs.len() ==> txin_canonical(#[trigger] xs[j]))
        && starts_with(b@, start as int, ser_inputs(xs));
    let mut inputs: Vec<TxIn> = Vec::new();
    let mut p = start;
    let mut k: u64 = 0;
    assert(xs.take(0) =~= Seq::<TxIn>::empty());
    while k < n
        invariant
            start <= p <= b@.len(),
            k <= n,
            inputs@.len() == k,
            b@.subrange(start as int, p as int) == ser_inputs(inputs@),
            forall|j: int| 0 <= j < inputs@.len() ==> (#[trigger] inputs@[j]).witness@.len() == 0,
            hyp == (n == xs.len() && (forall|j: int| 0 <= j < xs.len() ==> txin_canonical(#[trigger] xs[j]))
                && starts_with(b@, start as int, ser_inputs(xs))),
            hyp ==> p == start + ser_inputs(xs.take(k as int)).len(),
            hyp ==> forall|j: int| 0 <= j < k ==> same_but_witness(#[trigger] inputs@[j], xs[j]),
        decreases n - k,
    {
        let ghost xk = xs[k as int];
        proof {
            if hyp {
                lemma_inputs_at(xs, k as int);
                lemma_starts_concat(b@, start as int, ser_inputs(xs.take(k as int)), ser_txin(xk) + ser_inputs(xs.skip(k + 1)));
                lemma_starts_concat(b@, p as int, ser_txin(xk), ser_inputs(xs.skip(k + 1)));
                assert(txin_canonical(xk));
            }
        }
        let (i, next) = read_txin(b, p, Ghost(xk))?;
        let ghost before = inputs@;
        inputs.push(i);
        assert(inputs@.drop_last() =~= before);
        assert(b@.subrange(start as int, next as int) =~= b@.subrange(start as int, p as int) + b@.subrange(
            p as int,
            next as int,
        ));
        p = next;
        k = k + 1;
    }
    proof {
        if hyp {
            assert(xs.take(k as int) =~= xs);
        }
    }
    Some((inputs, p))
}

fn parse_outputs(b: &[u8], start: usize, n: u64, Ghost(xo): Ghost<Seq<TxOut>>) -> (r: Option<(Vec<TxOut>, usize)>)
    requires
        start <= b@.len(),
    ensures
        r matches Some((v, next)) ==> start <= next <= b@.len() && v@.len() == n && b@.subrange(
            start as int,
            next as int,
        ) == ser_outputs(v@),
        n == xo.len() && (forall|j: int| 0 <= j < xo.len() ==> (#[trigger] xo[j]).script_pubkey@.len() < pow256(8))
            && starts_with(b@, start as int, ser_outputs(xo)) ==> (r matches Some((v, next)) && next
            == start + ser_outputs(xo).len() && ser_outputs(v@) == ser_outputs(xo)),
{
    let ghost hyp = n == xo.len() && (forall|j: int| 0 <= j < xo.len() ==> (#[trigger] xo[j]).script_pubkey@.len() < pow256(8))
        && starts_with(b@, start as int, ser_outputs(xo));
    let mut outputs: Vec<TxOut> = Vec::new();
    let mut p = start;
    let mut k: u64 = 0;
    assert(xo.take(0) =~= Seq::<TxOut>::empty());
    while k < n
        invariant
            start <= p <= b@.len(),
            k <= n,
            outputs@.len() == k,
            b@.subrange(start as int, p as int) == ser_outputs(outputs@),
            hyp == (n == xo.len() && (forall|j: int| 0 <= j < xo.len() ==> (#[trigger] xo[j]).script_pubkey@.len() < pow256(8))
                && starts_with(b@, start as int, ser_outputs(xo))),
            hyp ==> p == start + ser_outputs(xo.take(k as int)).len(),
            hyp ==> forall|j: int| 0 <= j < k ==> (#[trigger] outputs@[j]).value == xo[j].value
                && outputs@[j].script_pubkey@ == xo[j].script_pubkey@,
        decreases n - k,
    {
        let ghost xk = xo[k as int];
        proof {
            if hyp {
                lemma_outputs_at(xo, k as int);
                lemma_starts_concat(b@, start as int, ser_outputs(xo.take(k as int)), ser_txout(xk) + ser_outputs(xo.skip(k + 1)));
                lemma_starts_concat(b@, p as int, ser_txout(xk), ser_outputs(xo.skip(k + 1)));
            }
        }
        let (o, next) = read_txout(b, p, Ghost(xk))?;
        let ghost before = outputs@;
        outputs.push(o);
        assert(outputs@.drop_last() =~= before);
        assert(b@.subrange(start as int, next as int) =~= b@.subrange(start as int, p as int) + b@.subrange(
            p as int,
            next as int,
        ));
        p = next;
        k = k + 1;
    }
    proof {
        if hyp {
            assert(xo.take(k as int) =~= xo);
            lemma_outputs_alike(outputs@, xo);
        }
    }
    Some((outputs, p))
}

/// The inputs again, each with the witness read for it.
fn parse_witnesses(b: &[u8], start: usize, inputs: &Vec<TxIn>, Ghost(xs): Ghost<Seq<TxIn>>) -> (r: Option<(Vec<TxIn>, usize)>)
    requires
        start <= b@.len(),
    ensures
        r matches Some((v, next)) ==> start <= next <= b@.len() && v@.len() == inputs@.len()
            && b@.subrange(start as int, next as int) == ser_witnesses(v@) && forall|m: int|
            0 <= m < v@.len() ==> same_but_witness(#[trigger] v@[m], inputs@[m]),
        inputs@.len() == xs.len() && (forall|j: int| 0 <= j < xs.len() ==> txin_canonical(#[trigger] xs[j]))
            && starts_with(b@, start as int, ser_witnesses(xs)) ==> (r matches Some((v, next)) && next
            == start + ser_witnesses(xs).len() && ser_witnesses(v@) == ser_witnesses(xs)
            && has_witness_seq(v@) == has_witness_seq(xs)),
{
    let ghost hyp = inputs@.len() == xs.len() && (forall|j: int| 0 <= j < xs.len() ==> txin_canonical(#[trigger] xs[j]))
        && starts_with(b@, start as int, ser_witnesses(xs));
    let mut full: Vec<TxIn> = Vec::new();
    let mut p = start;
    let mut j: usize = 0;
    assert(xs.take(0) =~= Seq::<TxIn>::empty());
    while j < inputs.len()
        invariant
            start <= p <= b@.len(),
            j <= inputs@.len(),
            full@.len() == j,
            forall|m: int| 0 <= m < j ==> same_but_witness(#[trigger] full@[m], inputs@[m]),
            b@.subrange(start as int, p as int) == ser_witnesses(full@),
            hyp == (inputs@.len() == xs.len() && (forall|j: int| 0 <= j < xs.len() ==> txin_canonical(#[trigger] xs[j]))
                && starts_with(b@, start as int, ser_witnesses(xs))),
            hyp ==> p == start + ser_witnesses(xs.take(j as int)).len(),
            hyp ==> forall|m: int| 0 <= m < j ==> byte_views((#[trigger] full@[m]).witness@) == byte_views(xs[m].witness@),
        decreases inputs@.len() - j,
    {
        let ghost xw = xs[j as int].witness@;
        proof {
            if hyp {
                lemma_inputs_at(xs, j as int);
                lemma_starts_concat(b@, start as int, ser_witnesses(xs.take(j as int)), ser_witness(xw) + ser_witnesses(xs.skip(j + 1)));
                lemma_starts_concat(b@, p as int, ser_witness(xw), ser_witnesses(xs.skip(j + 1)));
                assert(txin_canonical(xs[j as int]));
            }
        }
        let (w, next) = read_witness(b, p, Ghost(xw))?;
        let src = &inputs[j];
        let fresh = TxIn {
            previous_output: OutPoint {
                txid: copy_bytes(&src.previous_output.txid),
                vout: src.previous_output.vout,
            },
            script_sig: copy_bytes(&src.script_sig),
            sequence: src.sequence,
            witness: w,
        };
        let ghost before = full@;
        full.push(fresh);
        assert(full@.drop_last() =~= before);
        assert(b@.subrange(start as int, next as int) =~= b@.subrange(start as int, p as int) + b@.subrange(
            p as int,
            next as int,
        ));
        p = next;
        j = j + 1;
    }
    proof {
        if hyp {
            assert(xs.take(j as int) =~= xs);
            lemma_witnesses_alike(full@, xs);
        }
    }
    Some((full, p))
}

/// The marker bytes of a witness serialization, or nothing.
pub open spec fn marker(segwit: bool) -> Seq<u8> {
    if segwit {
        seq![0x00u8, 0x01u8]
    } else {
        Seq::empty()
    }
}

pub open spec fn witness_part(tx: Transaction, segwit: bool) -> Seq<u8> {
    if segwit {
        ser_witnesses(tx.input@)
    } else {
        Seq::empty()
    }
}

/// The parts of a serialized transaction, in order.
pub open spec fn tx_parts(tx: Transaction, segwit: bool) -> Seq<Seq<u8>> {
    seq![
        le_bytes(tx.version as nat, 4),
        marker(segwit),
        compact_size(tx.input@.len()),
        ser_inputs(tx.input@),
        compact_size(tx.output@.len()),
        ser_outputs(tx.output@),
        witness_part(tx, segwit),
        le_bytes(tx.lock_time as nat, 4),
    ]
}

pub open spec fn join8(t: Seq<Seq<u8>>) -> Seq<u8> {
    t[0] + t[1] + t[2] + t[3] + t[4] + t[5] + t[6] + t[7]
}

proof fn lemma_tx_parts(tx: Transaction)
    ensures
        ser_tx(tx) == join8(tx_parts(tx, has_witness(tx))),
{
    let t = tx_parts(tx, has_witness(tx));
    if has_witness(tx) {
        assert(ser_tx(tx) =~= join8(t));
    } else {
        assert(t[1] =~= Seq::<u8>::empty());
        assert(t[6] =~= Seq::<u8>::empty());
        assert(ser_tx(tx) =~= join8(t));
    }
}

/// The parts joined from the left are the parts joined from the right.
proof fn lemma_join8_right(t: Seq<Seq<u8>>)
    requires
        t.len() == 8,
    ensures
        join8(t) == t[0] + (t[1] + (t[2] + (t[3] + (t[4] + (t[5] + (t[6] + t[7])))))),
{
    assert(join8(t) =~= t[0] + (t[1] + (t[2] + (t[3] + (t[4] + (t[5] + (t[6] + t[7])))))));
}

/// Bytes cut at the given positions into the parts of `tx` are its
/// serialization.
proof fn lemma_tx_from_parts(b: Seq<u8>, tx: Transaction, segwit: bool, ps: Seq<int>)
    requires
        ps.len() == 9,
        ps[0] == 0,
        ps[8] == b.len(),
        forall|i: int| 0 <= i < 8 ==> ps[i] <= #[trigger] ps[i + 1],
        forall|i: int| 0 <= i < 8 ==> b.subrange(ps[i], ps[i + 1]) == #[trigger] tx_parts(tx, segwit)[i],
        segwit == has_witness(tx),
    ensures
        b == ser_tx(tx),
{
    let t = tx_parts(tx, segwit);
    lemma_tx_parts(tx);
    assert forall|i: int| 0 <= i < 8 implies b.subrange(ps[i], ps[i + 1]) == #[trigger] t[i] by {}
    assert(b =~= b.subrange(ps[0], ps[1]) + b.subrange(ps[1], ps[2]) + b.subrange(ps[2], ps[3])
        + b.subrange(ps[3], ps[4]) + b.subrange(ps[4], ps[5]) + b.subrange(ps[5], ps[6]) + b.subrange(
        ps[6],
        ps[7],
    ) + b.subrange(ps[7], ps[8]));
}

#[verifier::rlimit(40)]
fn parse_tx_from(b: &[u8], Ghost(x): Ghost<Transaction>) -> (r: Option<Transaction>)
    ensures
        r matches Some(tx) ==> ser_tx(tx) == b@,
        tx_canonical(x) && ser_tx(x) == b@ ==> r is Some,
{
    let ghost hyp = tx_canonical(x) && ser_tx(x) == b@;
    let ghost xs = x.input@;
    let ghost xo = x.output@;
    let ghost hv = le_bytes(x.version as nat, 4);
    let ghost mid: Seq<u8> = marker(has_witness(x));
    let ghost ci = compact_size(xs.len());
    let ghost co = compact_size(xo.len());
    let ghost wit: Seq<u8> = witness_part(x, has_witness(x));
    let ghost tl = le_bytes(x.lock_time as nat, 4);
    proof {
        lemma_pow256_eight();
        lemma_le_round_trip(x.version as nat, 4);
        lemma_le_round_trip(x.lock_time as nat, 4);
        if hyp {
            lemma_tx_parts(x);
            lemma_join8_right(tx_parts(x, has_witness(x)));
            assert(b@ == hv + (mid + (ci + (ser_inputs(xs) + (co + (ser_outputs(xo) + (wit + tl)))))));
            assert(b@.subrange(0, b@.len() as int) =~= b@);
            assert(starts_with(b@, 0, b@));
            lemma_starts_concat(b@, 0, hv, mid + (ci + (ser_inputs(xs) + (co + (ser_outputs(xo) + (wit + tl))))));
            lemma_starts_concat(b@, 4, mid, ci + (ser_inputs(xs) + (co + (ser_outputs(xo) + (wit + tl)))));
            lemma_starts_concat(b@, (4 + mid.len()) as int, ci, ser_inputs(xs) + (co + (ser_outputs(xo) + (wit + tl))));
            lemma_compact_first_nonzero(xs.len());
        }
    }
    let (version, p1) = read_fixed(b, 0, 4, Ghost(x.version as nat))?;
    let segwit = p1 + 1 < b.len() && b[p1] == 0x00 && b[p1 + 1] == 0x01;
    proof {
        if hyp {
            if has_witness(x) {
                assert(b@[4] == b@.subrange(4, 6)[0]);
                assert(b@[5] == b@.subrange(4, 6)[1]);
            } else {
                assert(b@[4] == b@.subrange(4, (4 + ci.len()) as int)[0]);
            }
            assert(segwit == has_witness(x));
        }
    }
    let p2 = if segwit {
        p1 + 2
    } else {
        p1
    };
    let (nin, p3) = read_compact(b, p2, Ghost(xs.len()))?;
    proof {
        if hyp {
            lemma_starts_concat(b@, p3 as int, ser_inputs(xs), co + (ser_outputs(xo) + (wit + tl)));
        }
    }
    let (inputs, p4) = parse_inputs(b, p3, nin, Ghost(xs))?;
    proof {
        if hyp {
            lemma_starts_concat(b@, p4 as int, co, ser_outputs(xo) + (wit + tl));
        }
    }
    let (nout, p5) = read_compact(b, p4, Ghost(xo.len()))?;
    proof {
        if hyp {
            lemma_starts_concat(b@, p5 as int, ser_outputs(xo), wit + tl);
        }
    }
    let (outputs, p6) = parse_outputs(b, p5, nout, Ghost(xo))?;
    let ghost plain = inputs@;
    let (full, p7) = if segwit {
        proof {
            if hyp {
                lemma_starts_concat(b@, p6 as int, ser_witnesses(xs), tl);
            }
        }
        parse_witnesses(b, p6, &inputs, Ghost(xs))?
    } else {
        assert(ser_witnesses(Seq::<TxIn>::empty()) == Seq::<u8>::empty());
        assert(b@.subrange(p6 as int, p6 as int) =~= Seq::<u8>::empty());
        proof {
            if hyp {
                assert(wit + tl =~= tl);
            }
        }
        (inputs, p6)
    };
    proof {
        if segwit {
            lemma_inputs_ignore_witness(full@, plain);
        }
    }
    let (lock_time, p8) = read_fixed(b, p7, 4, Ghost(x.lock_time as nat))?;
    if p8 != b.len() {
        return None;
    }
    let tx = Transaction { version: version as u32, lock_time: lock_time as u32, input: full, output: outputs };
    proof {
        lemma_has_witness_seq(tx.input@);
        lemma_has_witness_seq(xs);
    }
    if segwit != crate::tx::carries_witness(&tx) {
        return None;
    }
    proof {
        assert(b@.subrange(p1 as int, p2 as int) =~= marker(segwit));
        let ps = seq![0int, p1 as int, p2 as int, p3 as int, p4 as int, p5 as int, p6 as int, p7 as int, p8 as int];
        let t = tx_parts(tx, segwit);
        assert(b@.subrange(ps[0], ps[1]) == t[0]);
        assert(b@.subrange(ps[1], ps[2]) == t[1]);
        assert(b@.subrange(ps[2], ps[3]) == t[2]);
        assert(b@.subrange(ps[3], ps[4]) == t[3]);
        assert(b@.subrange(ps[4], ps[5]) == t[4]);
        assert(b@.subrange(ps[5], ps[6]) == t[5]);
        assert(b@.subrange(ps[6], ps[7]) == t[6]);
        assert(b@.subrange(ps[7], ps[8]) == t[7]);
        lemma_tx_from_parts(b@, tx, segwit, ps);
    }
    Some(tx)
}

/// The transaction that `b` serializes. Serializing the result gives `b`
/// back, and every serialization of a transaction with at least one input
/// reads back.
pub fn parse_tx(b: &[u8]) -> (r: Option<Transaction>)
    ensures
        r matches Some(tx) ==> ser_tx(tx) == b@,
        (exists|t: Transaction| tx_canonical(t) && #[trigger] ser_tx(t) == b@) ==> r is Some,
{
    let ghost t = choose|t: Transaction| tx_canonical(t) && #[trigger] ser_tx(t) == b@;
    parse_tx_from(b, Ghost(t))
}

} // verus!
