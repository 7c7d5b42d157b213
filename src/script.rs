//! Script bytes: opcodes, minimal data pushes, and the parse of a script back
//! into its instructions.
use crate::error::{CompileFault, SpendError};
use vstd::prelude::*;

verus! {

pub const OP_0: u8 = 0x00;
pub const OP_PUSHDATA1: u8 = 0x4c;
pub const OP_PUSHDATA2: u8 = 0x4d;
pub const OP_PUSHDATA4: u8 = 0x4e;
pub const OP_1: u8 = 0x51;
pub const OP_IF: u8 = 0x63;
pub const OP_NOTIF: u8 = 0x64;
pub const OP_ELSE: u8 = 0x67;
pub const OP_ENDIF: u8 = 0x68;
pub const OP_VERIFY: u8 = 0x69;
pub const OP_IFDUP: u8 = 0x73;
pub const OP_DROP: u8 = 0x75;
pub const OP_DUP: u8 = 0x76;
pub const OP_EQUAL: u8 = 0x87;
pub const OP_EQUALVERIFY: u8 = 0x88;
pub const OP_NUMEQUAL: u8 = 0x9c;
pub const OP_HASH160: u8 = 0xa9;
pub const OP_CHECKSIG: u8 = 0xac;
pub const OP_CHECKMULTISIG: u8 = 0xae;
pub const OP_CHECKLOCKTIMEVERIFY: u8 = 0xb1;
pub const OP_CHECKSEQUENCEVERIFY: u8 = 0xb2;
pub const OP_CHECKSIGADD: u8 = 0xba;

/// The largest script the builder accepts, in bytes.
pub const MAX_SCRIPT_SIZE: usize = 10000;

/// One instruction of a script: an opcode that pushes nothing, or a data push.
#[derive(Clone, Debug, PartialEq, Eq)]
pub enum Instruction {
    Op(u8),
    Push(Vec<u8>),
}

/// The mathematical form of an instruction.
pub ghost enum Instr {
    Op(u8),
    Push(Seq<u8>),
}

impl View for Instruction {
    type V = Instr;

    open spec fn view(&self) -> Instr {
        match self {
            Instruction::Op(o) => Instr::Op(*o),
            Instruction::Push(d) => Instr::Push(d@),
        }
    }
}

pub open spec fn instrs_view(v: Seq<Instruction>) -> Seq<Instr> {
    v.map_values(|i: Instruction| i@)
}

pub open spec fn pow256(k: nat) -> nat
    decreases k,
{
    if k == 0 {
        1
    } else {
        256 * pow256((k - 1) as nat)
    }
}

/// `n` as `k` little-endian bytes (the high part is dropped).
pub open spec fn le_bytes(n: nat, k: nat) -> Seq<u8>
    decreases k,
{
    if k == 0 {
        Seq::empty()
    } else {
        seq![(n % 256) as u8] + le_bytes(n / 256, (k - 1) as nat)
    }
}

/// The number that little-endian bytes hold.
pub open spec fn le_value(s: Seq<u8>) -> nat
    decreases s.len(),
{
    if s.len() == 0 {
        0
    } else {
        s[0] as nat + 256 * le_value(s.skip(1))
    }
}

/// The opcode bytes that introduce a push of `n` bytes, in the smallest form.
pub open spec fn push_prefix(n: nat) -> Seq<u8> {
    if n <= 75 {
        seq![n as u8]
    } else if n <= 0xff {
        seq![OP_PUSHDATA1] + le_bytes(n, 1)
    } else if n <= 0xffff {
        seq![OP_PUSHDATA2] + le_bytes(n, 2)
    } else {
        seq![OP_PUSHDATA4] + le_bytes(n, 4)
    }
}

pub open spec fn encode_instr(i: Instr) -> Seq<u8> {
    match i {
        Instr::Op(o) => seq![o],
        Instr::Push(d) => push_prefix(d.len()) + d,
    }
}

/// The bytes of a script made of the given instructions.
pub open spec fn encode_script(s: Seq<Instr>) -> Seq<u8>
    decreases s.len(),
{
    if s.len() == 0 {
        Seq::empty()
    } else {
        encode_instr(s[0]) + encode_script(s.skip(1))
    }
}

/// An instruction that has an encoding: an opcode that is not a push opcode,
/// or data whose length fits four bytes.
pub open spec fn instr_wf(i: Instr) -> bool {
    match i {
        Instr::Op(o) => o > OP_PUSHDATA4,
        Instr::Push(d) => d.len() < pow256(4),
    }
}

pub open spec fn instrs_wf(s: Seq<Instr>) -> bool {
    forall|j: int| 0 <= j < s.len() ==> instr_wf(#[trigger] s[j])
}

/// A push of `w` length bytes after the opcode, with its length read from `b`.
pub open spec fn decode_push(b: Seq<u8>, w: nat, least: nat) -> Option<(Instr, nat)> {
    if 1 + w <= b.len() {
        let n = le_value(b.subrange(1, 1 + w as int));
        if least <= n && 1 + w + n <= b.len() {
            Some((Instr::Push(b.subrange(1 + w as int, 1 + w + n as int)), 1 + w + n))
        } else {
            None
        }
    } else {
        None
    }
}

/// The first instruction of `b` and the number of bytes it takes, where the
/// bytes start with an instruction in its smallest form.
pub open spec fn decode_first(b: Seq<u8>) -> Option<(Instr, nat)> {
    if b.len() == 0 {
        None
    } else {
        let o = b[0];
        if o > OP_PUSHDATA4 {
            Some((Instr::Op(o), 1))
        } else if o <= 75 {
            if 1 + o <= b.len() {
                Some((Instr::Push(b.subrange(1, 1 + o as int)), 1 + o as nat))
            } else {
                None
            }
        } else if o == OP_PUSHDATA1 {
            decode_push(b, 1, 76)
        } else if o == OP_PUSHDATA2 {
            decode_push(b, 2, 0x100)
        } else {
            decode_push(b, 4, 0x10000)
        }
    }
}

/// The instructions of a script, where every push takes its smallest form.
pub open spec fn parse_spec(b: Seq<u8>) -> Option<Seq<Instr>>
    decreases b.len(),
{
    if b.len() == 0 {
        Some(Seq::empty())
    } else {
        match decode_first(b) {
            Some((i, n)) => {
                if 0 < n <= b.len() {
                    match parse_spec(b.skip(n as int)) {
                        Some(rest) => Some(seq![i] + rest),
                        None => None,
                    }
                } else {
                    None
                }
            },
            None => None,
        }
    }
}

// ---------------------------------------------------------------------------
// Lemmas on little-endian numbers
proof fn lemma_le_bytes_len(n: nat, k: nat)
    ensures
        le_bytes(n, k).len() == k,
    decreases k,
{
    if k > 0 {
        lemma_le_bytes_len(n / 256, (k - 1) as nat);
    }
}

pub proof fn lemma_le_round_trip(n: nat, k: nat)
    requires
        n < pow256(k),
    ensures
        le_value(le_bytes(n, k)) == n,
        le_bytes(n, k).len() == k,
    decreases k,
{
    lemma_le_bytes_len(n, k);
    if k > 0 {
        let rest = le_bytes(n / 256, (k - 1) as nat);
        assert(n / 256 < pow256((k - 1) as nat));
        lemma_le_round_trip(n / 256, (k - 1) as nat);
        let s = le_bytes(n, k);
        assert(s.skip(1) =~= rest);
        assert(s[0] as nat == n % 256);
    }
}

proof fn lemma_le_value_bytes(s: Seq<u8>)
    ensures
        le_bytes(le_value(s), s.len()) == s,
        le_value(s) < pow256(s.len()),
    decreases s.len(),
{
    if s.len() > 0 {
        lemma_le_value_bytes(s.skip(1));
        let v = le_value(s);
        let t = le_value(s.skip(1));
        assert(v % 256 == s[0] as nat);
        assert(v / 256 == t);
        assert(le_bytes(v, s.len()) =~= seq![s[0]] + s.skip(1));
        assert(s =~= seq![s[0]] + s.skip(1));
    }
}

proof fn lemma_pow256_values()
    ensures
        pow256(1) == 0x100,
        pow256(2) == 0x10000,
        pow256(4) == 0x1_0000_0000,
{
    reveal_with_fuel(pow256, 5);
}

// ---------------------------------------------------------------------------
// Decoding the encoding of one instruction
proof fn lemma_decode_encoded(i: Instr, rest: Seq<u8>)
    requires
        instr_wf(i),
    ensures
        decode_first(encode_instr(i) + rest) == Some((i, encode_instr(i).len())),
        encode_instr(i).len() > 0,
{
    lemma_pow256_values();
    let b = encode_instr(i) + rest;
    match i {
        Instr::Op(o) => {
            assert(b[0] == o);
        },
        Instr::Push(d) => {
            let n = d.len();
            let pre = push_prefix(n);
            if n <= 75 {
                assert(b[0] == n as u8);
                assert(b.subrange(1, 1 + n as int) =~= d);
            } else {
                let w: nat = if n <= 0xff {
                    1
                } else if n <= 0xffff {
                    2
                } else {
                    4
                };
                lemma_le_round_trip(n, w);
                assert(pre =~= seq![pre[0]] + le_bytes(n, w));
                assert(b.subrange(1, 1 + w as int) =~= le_bytes(n, w));
                assert(b.subrange(1 + w as int, 1 + w + n as int) =~= d);
            }
        },
    }
}

// The bytes that an instruction decodes from are its encoding.
proof fn lemma_decoded_is_encoding(b: Seq<u8>)
    requires
        decode_first(b) is Some,
    ensures
        ({
            let (i, n) = decode_first(b).unwrap();
            &&& instr_wf(i)
            &&& 0 < n <= b.len()
            &&& b.take(n as int) == encode_instr(i)
        }),
{
    lemma_pow256_values();
    let (i, n) = decode_first(b).unwrap();
    let o = b[0];
    if o > OP_PUSHDATA4 {
        assert(b.take(1) =~= seq![o]);
    } else if o <= 75 {
        let d = b.subrange(1, 1 + o as int);
        assert(b.take(n as int) =~= seq![o] + d);
    } else {
        let w: nat = if o == OP_PUSHDATA1 {
            1
        } else if o == OP_PUSHDATA2 {
            2
        } else {
            4
        };
        let lb = b.subrange(1, 1 + w as int);
        let len = le_value(lb);
        lemma_le_value_bytes(lb);
        let d = b.subrange(1 + w as int, 1 + w + len as int);
        assert(i == Instr::Push(d));
        assert(push_prefix(len) =~= seq![o] + lb);
        assert(b.take(n as int) =~= push_prefix(len) + d);
    }
}


// ---------------------------------------------------------------------------
// The round trip between bytes and instructions
proof fn lemma_encode_script_concat(a: Seq<Instr>, b: Seq<Instr>)
    ensures
        encode_script(a + b) == encode_script(a) + encode_script(b),
    decreases a.len(),
{
    if a.len() == 0 {
        assert(a + b =~= b);
    } else {
        lemma_encode_script_concat(a.skip(1), b);
        assert((a + b).skip(1) =~= a.skip(1) + b);
        assert((a + b)[0] == a[0]);
    }
}

proof fn lemma_encode_script_push(a: Seq<Instr>, i: Instr)
    ensures
        encode_script(a.push(i)) == encode_script(a) + encode_instr(i),
{
    lemma_encode_script_concat(a, seq![i]);
    assert(a.push(i) =~= a + seq![i]);
    assert(seq![i].skip(1) =~= Seq::<Instr>::empty());
    assert(encode_script(Seq::<Instr>::empty()) == Seq::<u8>::empty());
    assert(encode_script(seq![i]) =~= encode_instr(i));
}

/// Parsing the bytes of well-formed instructions gives back those
/// instructions.
pub proof fn lemma_parse_encode(s: Seq<Instr>)
    requires
        instrs_wf(s),
    ensures
        parse_spec(encode_script(s)) == Some(s),
    decreases s.len(),
{
    if s.len() > 0 {
        let rest = s.skip(1);
        assert(instrs_wf(rest)) by {
            assert forall|j: int| 0 <= j < rest.len() implies instr_wf(#[trigger] rest[j]) by {
                assert(rest[j] == s[j + 1]);
            }
        }
        assert(instr_wf(s[0]));
        lemma_parse_encode(rest);
        lemma_decode_encoded(s[0], encode_script(rest));
        let b = encode_script(s);
        let n = encode_instr(s[0]).len();
        assert(b.skip(n as int) =~= encode_script(rest));
        assert(seq![s[0]] + rest =~= s);
    }
}

/// Serializing the instructions that a parse found gives back the parsed
/// bytes.
pub proof fn lemma_encode_parse(b: Seq<u8>)
    requires
        parse_spec(b) is Some,
    ensures
        encode_script(parse_spec(b).unwrap()) == b,
        instrs_wf(parse_spec(b).unwrap()),
    decreases b.len(),
{
    if b.len() > 0 {
        lemma_decoded_is_encoding(b);
        let (i, n) = decode_first(b).unwrap();
        let tail = b.skip(n as int);
        lemma_encode_parse(tail);
        let s = parse_spec(b).unwrap();
        let rs = parse_spec(tail).unwrap();
        assert(s == seq![i] + rs);
        assert(s.skip(1) =~= rs);
        assert(s[0] == i);
        assert(b =~= b.take(n as int) + tail);
        assert forall|j: int| 0 <= j < s.len() implies instr_wf(#[trigger] s[j]) by {
            if j > 0 {
                assert(s[j] == rs[j - 1]);
            }
        }
    }
}

// ---------------------------------------------------------------------------
// Building scripts
/// Appends `d` to `out`.
pub fn append_bytes(out: &mut Vec<u8>, d: &[u8])
    ensures
        final(out)@ == old(out)@ + d@,
{
    let mut i: usize = 0;
    while i < d.len()
        invariant
            i <= d@.len(),
            out@ == old(out)@ + d@.take(i as int),
        decreases d@.len() - i,
    {
        out.push(d[i]);
        i = i + 1;
        assert(d@.take(i as int) =~= d@.take(i - 1 as int).push(d@[i - 1]));
    }
    assert(d@.take(d@.len() as int) =~= d@);
}

/// Appends the `w` low bytes of `n`, least significant first.
pub fn push_le(out: &mut Vec<u8>, n: u64, w: usize)
    ensures
        final(out)@ == old(out)@ + le_bytes(n as nat, w as nat),
{
    let mut v: u64 = n;
    let mut i: usize = 0;
    while i < w
        invariant
            i <= w,
            out@ + le_bytes(v as nat, (w - i) as nat) == old(out)@ + le_bytes(n as nat, w as nat),
        decreases w - i,
    {
        let ghost before = out@;
        let ghost vv = v;
        let ghost ii = i;
        assert(le_bytes(vv as nat, (w - ii) as nat) == seq![(vv % 256) as u8] + le_bytes(
            (vv / 256) as nat,
            (w - ii - 1) as nat,
        ));
        out.push((v % 256) as u8);
        v = v / 256;
        i = i + 1;
        assert(out@ + le_bytes(v as nat, (w - i) as nat) =~= before + le_bytes(vv as nat, (w - ii) as nat));
    }
    assert(le_bytes(v as nat, 0) =~= Seq::<u8>::empty());
}

/// Appends the bytes of one instruction.
pub fn push_instruction(out: &mut Vec<u8>, i: &Instruction)
    requires
        instr_wf(i@),
    ensures
        final(out)@ == old(out)@ + encode_instr(i@),
{
    match i {
        Instruction::Op(o) => {
            out.push(*o);
        },
        Instruction::Push(d) => {
            proof {
                lemma_pow256_values();
            }
            let n = d.len();
            let ghost start = out@;
            if n <= 75 {
                out.push(n as u8);
            } else if n <= 0xff {
                out.push(OP_PUSHDATA1);
                push_le(out, n as u64, 1);
            } else if n <= 0xffff {
                out.push(OP_PUSHDATA2);
                push_le(out, n as u64, 2);
            } else {
                out.push(OP_PUSHDATA4);
                push_le(out, n as u64, 4);
            }
            assert(out@ =~= start + push_prefix(n as nat));
            append_bytes(out, d.as_slice());
            assert(out@ =~= start + (push_prefix(n as nat) + d@));
        },
    }
}

/// The bytes of a script made of `instrs`, refused when longer than the
/// script-size limit.
pub fn build_script(instrs: &Vec<Instruction>) -> (r: Result<Vec<u8>, SpendError>)
    requires
        instrs_wf(instrs_view(instrs@)),
    ensures
        match r {
            Ok(b) => b@ == encode_script(instrs_view(instrs@)) && b@.len() <= MAX_SCRIPT_SIZE,
            Err(e) => e == SpendError::CompileError(CompileFault::ScriptTooLong)
                && encode_script(instrs_view(instrs@)).len() > MAX_SCRIPT_SIZE,
        },
{
    let ghost all = instrs_view(instrs@);
    let mut out: Vec<u8> = Vec::new();
    let mut k: usize = 0;
    while k < instrs.len()
        invariant
            k <= instrs@.len(),
            all == instrs_view(instrs@),
            instrs_wf(all),
            out@ == encode_script(all.take(k as int)),
            out@.len() <= MAX_SCRIPT_SIZE,
        decreases instrs@.len() - k,
    {
        assert(instr_wf(all[k as int]));
        push_instruction(&mut out, &instrs[k]);
        proof {
            lemma_encode_script_push(all.take(k as int), all[k as int]);
            assert(all.take(k + 1) =~= all.take(k as int).push(all[k as int]));
        }
        k = k + 1;
        if out.len() > MAX_SCRIPT_SIZE {
            proof {
                lemma_encode_script_concat(all.take(k as int), all.skip(k as int));
                assert(all =~= all.take(k as int) + all.skip(k as int));
            }
            return Err(SpendError::CompileError(CompileFault::ScriptTooLong));
        }
    }
    assert(all.take(k as int) =~= all);
    Ok(out)
}


/// The bytes of a script made of `instrs`, whatever its length.
pub fn encode_instructions(instrs: &Vec<Instruction>) -> (r: Vec<u8>)
    requires
        instrs_wf(instrs_view(instrs@)),
    ensures
        r@ == encode_script(instrs_view(instrs@)),
{
    let ghost all = instrs_view(instrs@);
    let mut out: Vec<u8> = Vec::new();
    let mut k: usize = 0;
    while k < instrs.len()
        invariant
            k <= instrs@.len(),
            all == instrs_view(instrs@),
            instrs_wf(all),
            out@ == encode_script(all.take(k as int)),
        decreases instrs@.len() - k,
    {
        assert(instr_wf(all[k as int]));
        push_instruction(&mut out, &instrs[k]);
        proof {
            lemma_encode_script_push(all.take(k as int), all[k as int]);
            assert(all.take(k + 1) =~= all.take(k as int).push(all[k as int]));
        }
        k = k + 1;
    }
    assert(all.take(k as int) =~= all);
    out
}

/// The instruction that pushes the number `n` in its smallest form: `OP_0`,
/// `OP_1` to `OP_16`, or the little-endian bytes of the number with a sign
/// byte where the top bit is taken.
pub open spec fn int_instr(n: nat) -> Instr {
    if n == 0 {
        Instr::Push(Seq::empty())
    } else if n <= 16 {
        Instr::Op((0x50 + n) as u8)
    } else {
        Instr::Push(script_num(n))
    }
}

/// The shortest little-endian bytes of `n`.
pub open spec fn le_min(n: nat) -> Seq<u8>
    decreases n,
{
    if n == 0 {
        Seq::empty()
    } else {
        seq![(n % 256) as u8] + le_min(n / 256)
    }
}

/// The script-number bytes of a non-negative `n`.
pub open spec fn script_num(n: nat) -> Seq<u8> {
    let b = le_min(n);
    if b.len() > 0 && b.last() >= 0x80 {
        b.push(0)
    } else {
        b
    }
}

proof fn lemma_le_min_len(n: nat, k: nat)
    requires
        n < pow256(k),
    ensures
        le_min(n).len() <= k,
    decreases k,
{
    if n > 0 {
        lemma_le_min_len(n / 256, (k - 1) as nat);
    }
}

/// The instruction that pushes `n`.
pub fn int_instruction(n: u32) -> (r: Instruction)
    ensures
        r@ == int_instr(n as nat),
        instr_wf(r@),
{
    proof {
        lemma_pow256_values();
    }
    if n == 0 {
        Instruction::Push(Vec::new())
    } else if n <= 16 {
        Instruction::Op((0x50 + n) as u8)
    } else {
        let mut out: Vec<u8> = Vec::new();
        let mut v: u32 = n;
        while v > 0
            invariant
                out@ + le_min(v as nat) == le_min(n as nat),
            decreases v,
        {
            let ghost before = out@;
            let ghost vv = v;
            assert(le_min(vv as nat) == seq![(vv % 256) as u8] + le_min((vv / 256) as nat));
            out.push((v % 256) as u8);
            v = v / 256;
            assert(out@ + le_min(v as nat) =~= before + le_min(vv as nat));
        }
        assert(out@ =~= le_min(n as nat));
        if out[out.len() - 1] >= 0x80 {
            out.push(0);
        }
        proof {
            lemma_le_min_len(n as nat, 4);
        }
        Instruction::Push(out)
    }
}

// ---------------------------------------------------------------------------
// Parsing scripts
/// Copies `b[from..to]`.
pub fn copy_range(b: &[u8], from: usize, to: usize) -> (r: Vec<u8>)
    requires
        from <= to <= b@.len(),
    ensures
        r@ == b@.subrange(from as int, to as int),
{
    let mut out: Vec<u8> = Vec::new();
    append_bytes(&mut out, vstd::slice::slice_subrange(b, from, to));
    assert(out@ =~= b@.subrange(from as int, to as int));
    out
}

/// A copy of `b`.
pub fn copy_bytes(b: &Vec<u8>) -> (r: Vec<u8>)
    ensures
        r@ == b@,
{
    let r = copy_range(b.as_slice(), 0, b.len());
    assert(r@ =~= b@);
    r
}

fn read_le(b: &[u8], at: usize, w: usize) -> (r: u64)
    requires
        w == 1 || w == 2 || w == 4,
        at + w <= b@.len(),
    ensures
        r as nat == le_value(b@.subrange(at as int, at + w)),
{
    let ghost s = b@.subrange(at as int, at + w);
    reveal_with_fuel(le_value, 5);
    assert(s.skip(1).skip(1).skip(1).skip(1).len() == 0 || w != 4);
    if w == 1 {
        assert(s.skip(1).len() == 0);
        b[at] as u64
    } else if w == 2 {
        assert(s.skip(1).skip(1).len() == 0);
        b[at] as u64 + 256 * (b[at + 1] as u64)
    } else {
        assert(s.skip(1).skip(1).skip(1).skip(1).len() == 0);
        b[at] as u64 + 256 * (b[at + 1] as u64 + 256 * (b[at + 2] as u64 + 256 * (b[at + 3] as u64)))
    }
}

/// The first instruction at `pos` and the position after it.
fn decode_at(b: &[u8], pos: usize) -> (r: Option<(Instruction, usize)>)
    requires
        pos < b@.len(),
    ensures
        match r {
            Some((i, next)) => decode_first(b@.skip(pos as int)) == Some((i@, (next - pos) as nat))
                && pos < next <= b@.len(),
            None => decode_first(b@.skip(pos as int)) is None,
        },
{
    let ghost t = b@.skip(pos as int);
    let o = b[pos];
    assert(t[0] == o);
    if o > OP_PUSHDATA4 {
        return Some((Instruction::Op(o), pos + 1));
    }
    let len = b.len();
    if o <= 75 {
        if (o as usize) + 1 <= len - pos {
            let d = copy_range(b, pos + 1, pos + 1 + o as usize);
            assert(d@ =~= t.subrange(1, 1 + o as int));
            return Some((Instruction::Push(d), pos + 1 + o as usize));
        } else {
            return None;
        }
    }
    let w: usize = if o == OP_PUSHDATA1 {
        1
    } else if o == OP_PUSHDATA2 {
        2
    } else {
        4
    };
    let least: u64 = if o == OP_PUSHDATA1 {
        76
    } else if o == OP_PUSHDATA2 {
        0x100
    } else {
        0x10000
    };
    if w + 1 > len - pos {
        return None;
    }
    let n = read_le(b, pos + 1, w);
    assert(b@.subrange(pos + 1, pos + 1 + w) =~= t.subrange(1, 1 + w as int));
    if n < least || n > (len - pos - 1 - w) as u64 {
        return None;
    }
    let start = pos + 1 + w;
    let d = copy_range(b, start, start + n as usize);
    assert(d@ =~= t.subrange(1 + w as int, 1 + w + n as int));
    Some((Instruction::Push(d), start + n as usize))
}

/// The instructions of `b`, or `None` where `b` is cut short or holds a push
/// that is not in its smallest form.
pub fn parse_script(b: &[u8]) -> (r: Option<Vec<Instruction>>)
    ensures
        match r {
            Some(v) => parse_spec(b@) == Some(instrs_view(v@)),
            None => parse_spec(b@) is None,
        },
{
    let mut out: Vec<Instruction> = Vec::new();
    let mut pos: usize = 0;
    assert(b@.skip(0) =~= b@);
    assert(instrs_view(out@) =~= Seq::<Instr>::empty());
    proof {
        match parse_spec(b@) {
            Some(rest) => {
                assert(Seq::<Instr>::empty() + rest =~= rest);
            },
            None => {},
        }
    }
    while pos < b.len()
        invariant
            pos <= b@.len(),
            parse_spec(b@) == match parse_spec(b@.skip(pos as int)) {
                Some(rest) => Some(instrs_view(out@) + rest),
                None => None,
            },
        decreases b@.len() - pos,
    {
        let ghost t = b@.skip(pos as int);
        match decode_at(b, pos) {
            Some((i, next)) => {
                proof {
                    let n = (next - pos) as nat;
                    assert(t.skip(n as int) =~= b@.skip(next as int));
                    match parse_spec(b@.skip(next as int)) {
                        Some(rest) => {
                            assert(instrs_view(out@.push(i)) =~= instrs_view(out@).push(i@));
                            assert(instrs_view(out@) + (seq![i@] + rest) =~= instrs_view(out@).push(i@) + rest);
                        },
                        None => {},
                    }
                }
                out.push(i);
                pos = next;
            },
            None => {
                return None;
            },
        }
    }
    assert(b@.skip(pos as int) =~= Seq::<u8>::empty());
    assert(instrs_view(out@) + Seq::<Instr>::empty() =~= instrs_view(out@));
    Some(out)
}

}  // verus!
