//! Tapscript leaves: a key's signature, a key behind a time lock, and a
//! threshold of keys counted by `OP_CHECKSIGADD`.
use crate::error::SpendError;
use crate::policy::{key_views, multi_fault};
use crate::script::{
    build_script, copy_bytes, encode_instructions, encode_script, instrs_view, instrs_wf, int_instr,
    int_instruction, pow256, Instr, Instruction, OP_CHECKLOCKTIMEVERIFY, OP_CHECKSEQUENCEVERIFY,
    OP_CHECKSIG, OP_CHECKSIGADD, OP_DROP, OP_NUMEQUAL, MAX_SCRIPT_SIZE,
};
use vstd::prelude::*;

verus! {

/// `<x> OP_CHECKSIG`
pub open spec fn checksig_instrs(x: Seq<u8>) -> Seq<Instr> {
    seq![Instr::Push(x), Instr::Op(OP_CHECKSIG)]
}

/// `<n> OP_CHECKLOCKTIMEVERIFY OP_DROP <x> OP_CHECKSIG`, or with
/// `OP_CHECKSEQUENCEVERIFY` for a relative lock.
pub open spec fn locked_checksig_instrs(n: u32, relative: bool, x: Seq<u8>) -> Seq<Instr> {
    seq![
        int_instr(n as nat),
        Instr::Op(
            if relative {
                OP_CHECKSEQUENCEVERIFY
            } else {
                OP_CHECKLOCKTIMEVERIFY
            },
        ),
        Instr::Op(OP_DROP),
        Instr::Push(x),
        Instr::Op(OP_CHECKSIG),
    ]
}

/// `<x1> OP_CHECKSIG <x2> OP_CHECKSIGADD ... <xn> OP_CHECKSIGADD`
pub open spec fn checksigadd_instrs(xs: Seq<Seq<u8>>) -> Seq<Instr>
    decreases xs.len(),
{
    if xs.len() == 0 {
        Seq::empty()
    } else {
        checksigadd_instrs(xs.drop_last()) + seq![
            Instr::Push(xs.last()),
            Instr::Op(
                if xs.len() == 1 {
                    OP_CHECKSIG
                } else {
                    OP_CHECKSIGADD
                },
            ),
        ]
    }
}

/// The keys' checks, then `<k> OP_NUMEQUAL`.
pub open spec fn multi_a_instrs(k: u32, xs: Seq<Seq<u8>>) -> Seq<Instr> {
    checksigadd_instrs(xs) + seq![int_instr(k as nat), Instr::Op(OP_NUMEQUAL)]
}

proof fn lemma_pow256_four()
    ensures
        pow256(4) == 0x1_0000_0000,
{
    reveal_with_fuel(pow256, 5);
}

/// The leaf `<x> OP_CHECKSIG` of an x-only key.
pub fn checksig_leaf(x: &Vec<u8>) -> (r: Vec<u8>)
    requires
        x@.len() == 32,
    ensures
        r@ == encode_script(checksig_instrs(x@)),
{
    proof {
        lemma_pow256_four();
    }
    let instrs = vec![Instruction::Push(copy_bytes(x)), Instruction::Op(OP_CHECKSIG)];
    assert(instrs_view(instrs@) =~= checksig_instrs(x@));
    encode_instructions(&instrs)
}

/// The leaf of an x-only key that may sign once the lock `n` has passed:
/// absolute (`OP_CHECKLOCKTIMEVERIFY`) or relative (`OP_CHECKSEQUENCEVERIFY`).
pub fn locked_checksig_leaf(n: u32, relative: bool, x: &Vec<u8>) -> (r: Vec<u8>)
    requires
        x@.len() == 32,
    ensures
        r@ == encode_script(locked_checksig_instrs(n, relative, x@)),
{
    proof {
        lemma_pow256_four();
    }
    let op = if relative {
        OP_CHECKSEQUENCEVERIFY
    } else {
        OP_CHECKLOCKTIMEVERIFY
    };
    let instrs = vec![
        int_instruction(n),
        Instruction::Op(op),
        Instruction::Op(OP_DROP),
        Instruction::Push(copy_bytes(x)),
        Instruction::Op(OP_CHECKSIG),
    ];
    assert(instrs_view(instrs@) =~= locked_checksig_instrs(n, relative, x@));
    encode_instructions(&instrs)
}

/// The leaf that `k` signatures of the x-only keys satisfy, counted by
/// `OP_CHECKSIGADD`. Refused where the threshold or a key is invalid, and
/// where the script would pass the size limit.
pub fn multi_a_leaf(k: u32, keys: &Vec<Vec<u8>>) -> (r: Result<Vec<u8>, SpendError>)
    ensures
        match r {
            Ok(s) => multi_fault(k, keys@, true) is None && s@ == encode_script(
                multi_a_instrs(k, key_views(keys@)),
            ) && s@.len() <= MAX_SCRIPT_SIZE,
            Err(e) => match multi_fault(k, keys@, true) {
                Some(f) => e == SpendError::PolicyInvalid(f),
                None => encode_script(multi_a_instrs(k, key_views(keys@))).len() > MAX_SCRIPT_SIZE
                    && e is CompileError,
            },
        },
{
    match crate::policy::check_multi_fault(k, keys, true) {
        Some(f) => {
            return Err(SpendError::PolicyInvalid(f));
        },
        None => {},
    }
    proof {
        lemma_pow256_four();
    }
    let ghost kv = key_views(keys@);
    let mut instrs: Vec<Instruction> = Vec::new();
    let mut i: usize = 0;
    while i < keys.len()
        invariant
            i <= keys@.len(),
            kv == key_views(keys@),
            multi_fault(k, keys@, true) is None,
            pow256(4) == 0x1_0000_0000,
            instrs_view(instrs@) == checksigadd_instrs(kv.take(i as int)),
            instrs_wf(instrs_view(instrs@)),
        decreases keys@.len() - i,
    {
        assert(keys@[i as int]@.len() == 32);
        let op = if i == 0 {
            OP_CHECKSIG
        } else {
            OP_CHECKSIGADD
        };
        let ghost before = instrs_view(instrs@);
        instrs.push(Instruction::Push(copy_bytes(&keys[i])));
        instrs.push(Instruction::Op(op));
        assert(kv.take(i + 1).drop_last() =~= kv.take(i as int));
        assert(kv.take(i + 1).last() == keys@[i as int]@);
        assert(instrs_view(instrs@) =~= before + seq![Instr::Push(keys@[i as int]@), Instr::Op(op)]);
        i = i + 1;
    }
    instrs.push(int_instruction(k));
    instrs.push(Instruction::Op(OP_NUMEQUAL));
    assert(kv.take(i as int) =~= kv);
    assert(instrs_view(instrs@) =~= multi_a_instrs(k, kv));
    build_script(&instrs)
}

} // verus!
