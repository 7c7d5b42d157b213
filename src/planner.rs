//! The spend planner: from a compiled output, a chosen path and the output
//! being spent, a fully signed transaction paying one destination.
use crate::error::SpendError;
use crate::hashes::{hash160, hash160_of, sha256d_of, tag_bytes, tagged_hash_of, Tag};
use crate::keys::{pubkey_of, public_key, ecdsa_der_of, schnorr_sig_of, secret_tweak_of, sign_ecdsa, sign_schnorr, tweak_secret, SecretKey};
use crate::policy::{p2pkh_script, CompiledOutput, OutputPolicy, Policy};
use crate::script::{copy_bytes, encode_instructions, encode_script, Instr, Instruction, le_bytes, pow256, instrs_view, instrs_wf};
use crate::sighash::{
    legacy_preimage, legacy_sighash, lemma_single_prevout, segwit_v0_preimage, segwit_v0_sighash,
    taproot_msg, taproot_sighash, SIGHASH_ALL, legacy_inputs, prevouts_bytes, sequences_bytes,
};
use crate::taproot::{control_block_of, leaf_at, leaf_count, leaf_hash, leaf_hash_of, leaf_script, tweak_of, tap_tweak, TapTree, TaprootSpendInfo};
use crate::tx::{ser_outpoint, ser_txin_with, var_bytes, OutPoint, Transaction, TxIn, TxOut};
use vstd::prelude::*;

verus! {

/// The sequence number that enables the lock time and opts in to
/// replacement.
pub const SEQUENCE_ENABLE_LOCKTIME: u32 = 0xffff_fffd;

/// The time lock along the branch being spent.
#[derive(Clone, Copy, Debug, PartialEq, Eq)]
pub enum TimeLock {
    NoLock,
    /// An absolute lock: a height below 500 000 000, else a Unix time.
    After(u32),
    /// A relative lock in the encoding of BIP-68.
    Older(u32),
}

/// The path by which an output is spent. Each secret must be that of the
/// key it stands for in the output, or the path is refused.
#[derive(Debug)]
pub enum SpendPath {
    /// The key of a `Pkh`, `Wpkh` or `Wsh(Pk)` output, or the first branch of
    /// a `Wsh(Or(..))` output.
    Key(SecretKey),
    /// A multi-signature: one entry per key of the script, in its order,
    /// `None` where that key does not sign. The second branch of a
    /// `Wsh(Or(..))` output.
    Multi(Vec<Option<SecretKey>>),
    /// A Taproot key-path spend, by the secret of the internal key.
    TaprootKey(SecretKey),
    /// A Taproot script-path spend of leaf `leaf`, by one entry per key that
    /// the leaf checks, in the order of the script, and under `lock`.
    TaprootLeaf { leaf: u64, signers: Vec<Option<SecretKey>>, lock: TimeLock },
}

pub open spec fn lock_time_of(l: TimeLock) -> u32 {
    match l {
        TimeLock::After(h) => h,
        _ => 0,
    }
}

pub open spec fn sequence_of(l: TimeLock) -> u32 {
    match l {
        TimeLock::Older(v) => v,
        _ => SEQUENCE_ENABLE_LOCKTIME,
    }
}

/// The threshold, keys and lock of the second branch of a disjunction.
pub open spec fn multi_branch(b: Policy) -> Option<(u32, Seq<Vec<u8>>, TimeLock)> {
    match b {
        Policy::MultiLegacy { k, keys } => Some((k, keys@, TimeLock::NoLock)),
        Policy::And(m, l) => match *m {
            Policy::MultiLegacy { k, keys } => match *l {
                Policy::After(h) => Some((k, keys@, TimeLock::After(h))),
                Policy::Older(v) => Some((k, keys@, TimeLock::Older(v))),
                _ => None,
            },
            _ => None,
        },
        _ => None,
    }
}

/// A disjunction of a key and a multi-signature branch.
pub open spec fn key_or_multi(q: Policy) -> Option<(u32, Seq<Vec<u8>>, TimeLock)> {
    match q {
        Policy::Or(a, b) => match *a {
            Policy::Pk(_) => multi_branch(*b),
            _ => None,
        },
        _ => None,
    }
}

pub open spec fn count_some(s: Seq<Option<SecretKey>>) -> nat
    decreases s.len(),
{
    if s.len() == 0 {
        0
    } else {
        count_some(s.drop_last()) + if s.last() is Some {
            1nat
        } else {
            0nat
        }
    }
}

/// Each signer is the holder of the key in its place.
pub open spec fn signers_match(s: Seq<Option<SecretKey>>, keys: Seq<Vec<u8>>) -> bool {
    forall|i: int| 0 <= i < s.len() ==> (#[trigger] s[i] matches Some(sk) ==> pubkey_of(sk@) == keys[i]@)
}

/// One entry per key, exactly `k` of them signing, each by the key in its
/// place.
pub open spec fn signers_fit(s: Seq<Option<SecretKey>>, k: u32, keys: Seq<Vec<u8>>) -> bool {
    s.len() == keys.len() && count_some(s) == k && signers_match(s, keys)
}

/// The key of the first branch of a key-or-threshold disjunction.
pub open spec fn or_first_key(q: Policy) -> Option<Seq<u8>> {
    match q {
        Policy::Or(a, _) => match *a {
            Policy::Pk(k) => Some(k@),
            _ => None,
        },
        _ => None,
    }
}

/// Whether the path is one that the output's shape offers.
pub open spec fn path_fits(p: OutputPolicy, path: SpendPath) -> bool {
    match (p, path) {
        (OutputPolicy::Pkh(k), SpendPath::Key(sk)) => pubkey_of(sk@) == k@,
        (OutputPolicy::Wpkh(k), SpendPath::Key(sk)) => pubkey_of(sk@) == k@,
        (OutputPolicy::Sh(Policy::MultiLegacy { k, keys }), SpendPath::Multi(s)) => signers_fit(
            s@,
            k,
            keys@,
        ),
        (OutputPolicy::Wsh(Policy::MultiLegacy { k, keys }), SpendPath::Multi(s)) => signers_fit(
            s@,
            k,
            keys@,
        ),
        (OutputPolicy::Wsh(Policy::Pk(k)), SpendPath::Key(sk)) => pubkey_of(sk@) == k@,
        (OutputPolicy::Wsh(q), SpendPath::Key(sk)) => key_or_multi(q) is Some && or_first_key(q)
            == Some(pubkey_of(sk@)),
        (OutputPolicy::Wsh(q), SpendPath::Multi(s)) => match key_or_multi(q) {
            Some((k, keys, _)) => signers_fit(s@, k, keys),
            None => false,
        },
        (OutputPolicy::Tr { internal, .. }, SpendPath::TaprootKey(sk)) => pubkey_of(sk@).subrange(
            1,
            33,
        ) == internal@,
        (OutputPolicy::Tr { tree, .. }, SpendPath::TaprootLeaf { leaf, .. }) => tree matches Some(
            t,
        ) && leaf < leaf_count(t),
        _ => false,
    }
}

/// The lock of the branch that the path takes.
pub open spec fn path_lock(p: OutputPolicy, path: SpendPath) -> TimeLock {
    match (p, path) {
        (OutputPolicy::Wsh(q), SpendPath::Multi(_)) => match key_or_multi(q) {
            Some((_, _, l)) => l,
            None => TimeLock::NoLock,
        },
        (OutputPolicy::Tr { .. }, SpendPath::TaprootLeaf { lock, .. }) => lock,
        _ => TimeLock::NoLock,
    }
}

/// The transaction pays `value - fee` to `dest` from the one output
/// `prevout`, with the version, lock time and sequence that `lock` asks for.
pub open spec fn skeleton_ok(
    tx: Transaction,
    prevout: OutPoint,
    value: u64,
    dest: Seq<u8>,
    fee: u64,
    lock: TimeLock,
) -> bool {
    &&& tx.version == 2
    &&& tx.lock_time == lock_time_of(lock)
    &&& tx.input@.len() == 1
    &&& tx.output@.len() == 1
    &&& tx.input@[0].previous_output.txid@ == prevout.txid@
    &&& tx.input@[0].previous_output.vout == prevout.vout
    &&& tx.input@[0].sequence == sequence_of(lock)
    &&& tx.output@[0].value == value - fee
    &&& tx.output@[0].script_pubkey@ == dest
}

/// A DER signature with the SIGHASH_ALL byte after it.
pub open spec fn ecdsa_item(sk: Seq<u8>, d: Seq<u8>) -> Seq<u8> {
    ecdsa_der_of(sk, d).push(SIGHASH_ALL)
}

/// The signatures of the keys that sign, in key order.
pub open spec fn multi_items(s: Seq<Option<SecretKey>>, d: Seq<u8>) -> Seq<Seq<u8>>
    decreases s.len(),
{
    if s.len() == 0 {
        Seq::empty()
    } else {
        multi_items(s.drop_last(), d) + match s.last() {
            Some(k) => seq![ecdsa_item(k@, d)],
            None => Seq::empty(),
        }
    }
}

pub open spec fn tap_item(o: Option<SecretKey>, d: Seq<u8>) -> Seq<u8> {
    match o {
        Some(k) => schnorr_sig_of(k@, d),
        None => Seq::empty(),
    }
}

/// The Schnorr signatures of a leaf's keys, last key first, an empty item
/// for each key that does not sign.
pub open spec fn tap_items(s: Seq<Option<SecretKey>>, d: Seq<u8>) -> Seq<Seq<u8>>
    decreases s.len(),
{
    if s.len() == 0 {
        Seq::empty()
    } else {
        tap_items(s.skip(1), d) + seq![tap_item(s[0], d)]
    }
}

pub open spec fn pushes(items: Seq<Seq<u8>>) -> Seq<Instr> {
    items.map_values(|x: Seq<u8>| Instr::Push(x))
}

pub open spec fn items_view(w: Seq<Vec<u8>>) -> Seq<Seq<u8>> {
    w.map_values(|v: Vec<u8>| v@)
}

pub open spec fn legacy_digest(tx: Transaction, sc: Seq<u8>) -> Seq<u8> {
    sha256d_of(legacy_preimage(tx, 0, sc))
}

pub open spec fn v0_digest(tx: Transaction, sc: Seq<u8>, value: u64) -> Seq<u8> {
    sha256d_of(segwit_v0_preimage(tx, 0, sc, value))
}

pub open spec fn tap_digest(tx: Transaction, value: u64, spk: Seq<u8>, leaf: Option<Seq<u8>>) -> Seq<u8> {
    tagged_hash_of(tag_bytes(Tag::TapSighash), taproot_msg(tx, 0, le_bytes(value as nat, 8), var_bytes(spk), leaf))
}

pub open spec fn pkh_signed(tx: Transaction, k: Seq<u8>, sk: Seq<u8>, spk: Seq<u8>) -> bool {
    let i = tx.input@[0];
    let d = legacy_digest(tx, spk);
    &&& i.script_sig@ == encode_script(seq![Instr::Push(ecdsa_item(sk, d)), Instr::Push(k)])
    &&& i.witness@.len() == 0
}

pub open spec fn wpkh_signed(tx: Transaction, k: Seq<u8>, sk: Seq<u8>, value: u64) -> bool {
    let i = tx.input@[0];
    let d = v0_digest(tx, p2pkh_script(hash160_of(k)), value);
    &&& i.script_sig@.len() == 0
    &&& items_view(i.witness@) == seq![ecdsa_item(sk, d), k]
}

pub open spec fn sh_multi_signed(tx: Transaction, s: Seq<Option<SecretKey>>, redeem: Seq<u8>) -> bool {
    let i = tx.input@[0];
    let d = legacy_digest(tx, redeem);
    &&& i.script_sig@ == encode_script(
        seq![Instr::Push(Seq::empty())] + pushes(multi_items(s, d)) + seq![Instr::Push(redeem)],
    )
    &&& i.witness@.len() == 0
}

pub open spec fn wsh_key_signed(tx: Transaction, sk: Seq<u8>, ws: Seq<u8>, value: u64) -> bool {
    let i = tx.input@[0];
    let d = v0_digest(tx, ws, value);
    &&& i.script_sig@.len() == 0
    &&& items_view(i.witness@) == seq![ecdsa_item(sk, d), ws]
}

/// The witness of a multi-signature: the empty item that `OP_CHECKMULTISIG`
/// consumes, the signatures, an empty item that selects the second branch of
/// a disjunction, and the witness script.
pub open spec fn wsh_multi_signed(
    tx: Transaction,
    s: Seq<Option<SecretKey>>,
    ws: Seq<u8>,
    value: u64,
    in_or: bool,
) -> bool {
    let i = tx.input@[0];
    let d = v0_digest(tx, ws, value);
    &&& i.script_sig@.len() == 0
    &&& items_view(i.witness@) == seq![Seq::empty()] + multi_items(s, d) + if in_or {
        seq![Seq::empty(), ws]
    } else {
        seq![ws]
    }
}

pub open spec fn tr_key_signed(
    tx: Transaction,
    sk: Seq<u8>,
    internal: Seq<u8>,
    root: Option<Seq<u8>>,
    value: u64,
    spk: Seq<u8>,
) -> bool {
    let i = tx.input@[0];
    let d = tap_digest(tx, value, spk, None);
    &&& i.script_sig@.len() == 0
    &&& secret_tweak_of(sk, tweak_of(internal, root)) matches Some(tk) && items_view(i.witness@)
        == seq![schnorr_sig_of(tk, d)]
}

pub open spec fn tr_leaf_signed(
    tx: Transaction,
    signers: Seq<Option<SecretKey>>,
    internal: Seq<u8>,
    odd: bool,
    t: TapTree,
    leaf: nat,
    value: u64,
    spk: Seq<u8>,
) -> bool {
    let i = tx.input@[0];
    let script = leaf_at(t, leaf);
    let d = tap_digest(tx, value, spk, Some(leaf_hash_of(script)));
    &&& i.script_sig@.len() == 0
    &&& items_view(i.witness@) == tap_items(signers, d) + seq![
        script,
        control_block_of(internal, odd, t, leaf),
    ]
}

/// The one input of `tx` carries the script signature and witness that spend
/// the compiled output by the path, each signature over the digest of `tx`.
pub open spec fn authorized(c: CompiledOutput, path: SpendPath, tx: Transaction, value: u64) -> bool {
    let ws = match c.script {
        Some(s) => s@,
        None => Seq::empty(),
    };
    match (c.policy, path) {
        (OutputPolicy::Pkh(k), SpendPath::Key(sk)) => pkh_signed(tx, k@, sk@, c.script_pubkey@),
        (OutputPolicy::Wpkh(k), SpendPath::Key(sk)) => wpkh_signed(tx, k@, sk@, value),
        (OutputPolicy::Sh(_), SpendPath::Multi(s)) => sh_multi_signed(tx, s@, ws),
        (OutputPolicy::Wsh(_), SpendPath::Key(sk)) => wsh_key_signed(tx, sk@, ws, value),
        (OutputPolicy::Wsh(q), SpendPath::Multi(s)) => wsh_multi_signed(tx, s@, ws, value, q is Or),
        (OutputPolicy::Tr { internal, .. }, SpendPath::TaprootKey(sk)) => tr_key_signed(
            tx,
            sk@,
            internal@,
            c.taproot.unwrap().root_view(),
            value,
            c.script_pubkey@,
        ),
        (OutputPolicy::Tr { internal, tree }, SpendPath::TaprootLeaf { leaf, signers, .. }) => tr_leaf_signed(
            tx,
            signers@,
            internal@,
            c.taproot.unwrap().output_odd,
            tree.unwrap(),
            leaf as nat,
            value,
            c.script_pubkey@,
        ),
        _ => false,
    }
}

/// Whether the key-path tweak of the path's secret fails.
pub open spec fn tweak_fails(c: CompiledOutput, path: SpendPath) -> bool {
    match (c.policy, path) {
        (OutputPolicy::Tr { internal, .. }, SpendPath::TaprootKey(sk)) => secret_tweak_of(
            sk@,
            tweak_of(internal@, c.taproot.unwrap().root_view()),
        ) is None,
        _ => false,
    }
}

// ---------------------------------------------------------------------------
// Executable parts
fn count_signers(s: &Vec<Option<SecretKey>>) -> (r: usize)
    ensures
        r == count_some(s@),
{
    let mut n: usize = 0;
    let mut i: usize = 0;
    while i < s.len()
        invariant
            i <= s@.len(),
            n == count_some(s@.take(i as int)),
            n <= i,
        decreases s@.len() - i,
    {
        assert(s@.take(i + 1).drop_last() =~= s@.take(i as int));
        if s[i].is_some() {
            n = n + 1;
        }
        i = i + 1;
    }
    assert(s@.take(i as int) =~= s@);
    n
}

fn bytes_eq(a: &[u8], b: &[u8]) -> (r: bool)
    ensures
        r == (a@ == b@),
{
    if a.len() != b.len() {
        return false;
    }
    let mut i: usize = 0;
    while i < a.len()
        invariant
            a@.len() == b@.len(),
            i <= a@.len(),
            forall|j: int| 0 <= j < i ==> a@[j] == b@[j],
        decreases a@.len() - i,
    {
        if a[i] != b[i] {
            return false;
        }
        i = i + 1;
    }
    assert(a@ =~= b@);
    true
}

/// Whether `sk` is the secret of the compressed key `key`.
fn holds_key(sk: &SecretKey, key: &[u8]) -> (r: bool)
    ensures
        r == (pubkey_of(sk@) == key@),
{
    let p = public_key(sk);
    bytes_eq(p.as_slice(), key)
}

fn match_signers(s: &Vec<Option<SecretKey>>, keys: &Vec<Vec<u8>>) -> (r: bool)
    requires
        s@.len() == keys@.len(),
    ensures
        r == signers_match(s@, keys@),
{
    let mut i: usize = 0;
    while i < s.len()
        invariant
            s@.len() == keys@.len(),
            i <= s@.len(),
            forall|j: int| 0 <= j < i ==> (#[trigger] s@[j] matches Some(sk) ==> pubkey_of(sk@) == keys@[j]@),
        decreases s@.len() - i,
    {
        match &s[i] {
            Some(sk) => {
                if !holds_key(sk, keys[i].as_slice()) {
                    return false;
                }
            },
            None => {},
        }
        i = i + 1;
    }
    true
}

fn fits_multi(s: &Vec<Option<SecretKey>>, k: u32, keys: &Vec<Vec<u8>>) -> (r: bool)
    ensures
        r == signers_fit(s@, k, keys@),
{
    s.len() == keys.len() && count_signers(s) == k as usize && match_signers(s, keys)
}

/// The second branch of a disjunction, in the shape `multi_branch` takes.
fn branch_multi(b: &Policy) -> (r: Option<(u32, &Vec<Vec<u8>>, TimeLock)>)
    ensures
        match r {
            Some((k, keys, l)) => multi_branch(*b) == Some((k, keys@, l)),
            None => multi_branch(*b) is None,
        },
{
    match b {
        Policy::MultiLegacy { k, keys } => Some((*k, keys, TimeLock::NoLock)),
        Policy::And(m, l) => match &**m {
            Policy::MultiLegacy { k, keys } => match &**l {
                Policy::After(h) => Some((*k, keys, TimeLock::After(*h))),
                Policy::Older(v) => Some((*k, keys, TimeLock::Older(*v))),
                _ => None,
            },
            _ => None,
        },
        _ => None,
    }
}

fn disjunction(q: &Policy) -> (r: Option<(&Vec<u8>, u32, &Vec<Vec<u8>>, TimeLock)>)
    ensures
        match r {
            Some((a, k, keys, l)) => key_or_multi(*q) == Some((k, keys@, l)) && or_first_key(*q)
                == Some(a@),
            None => key_or_multi(*q) is None,
        },
{
    match q {
        Policy::Or(a, b) => match &**a {
            Policy::Pk(ak) => match branch_multi(b) {
                Some((k, keys, l)) => Some((ak, k, keys, l)),
                None => None,
            },
            _ => None,
        },
        _ => None,
    }
}

/// The lock of the path, where the output's shape offers the path.
fn check_path(c: &CompiledOutput, path: &SpendPath) -> (r: Option<TimeLock>)
    requires
        c.wf(),
    ensures
        match r {
            Some(l) => path_fits(c.policy, *path) && l == path_lock(c.policy, *path),
            None => !path_fits(c.policy, *path),
        },
{
    match (&c.policy, path) {
        (OutputPolicy::Pkh(k), SpendPath::Key(sk)) | (OutputPolicy::Wpkh(k), SpendPath::Key(sk)) => if holds_key(sk, k.as_slice()) {
            Some(TimeLock::NoLock)
        } else {
            None
        },
        (OutputPolicy::Sh(Policy::MultiLegacy { k, keys }), SpendPath::Multi(s)) => if fits_multi(
            s,
            *k,
            keys,
        ) {
            Some(TimeLock::NoLock)
        } else {
            None
        },
        (OutputPolicy::Wsh(Policy::MultiLegacy { k, keys }), SpendPath::Multi(s)) => if fits_multi(
            s,
            *k,
            keys,
        ) {
            Some(TimeLock::NoLock)
        } else {
            None
        },
        (OutputPolicy::Wsh(Policy::Pk(k)), SpendPath::Key(sk)) => if holds_key(sk, k.as_slice()) {
            Some(TimeLock::NoLock)
        } else {
            None
        },
        (OutputPolicy::Wsh(q), SpendPath::Key(sk)) => match disjunction(q) {
            Some((a, _, _, _)) => if holds_key(sk, a.as_slice()) {
                Some(TimeLock::NoLock)
            } else {
                None
            },
            None => None,
        },
        (OutputPolicy::Wsh(q), SpendPath::Multi(s)) => match disjunction(q) {
            Some((_, k, keys, l)) => if fits_multi(s, k, keys) {
                Some(l)
            } else {
                None
            },
            None => None,
        },
        (OutputPolicy::Tr { internal, .. }, SpendPath::TaprootKey(sk)) => {
            let x = crate::keys::x_only_public_key(sk);
            if bytes_eq(x.as_slice(), internal.as_slice()) {
                Some(TimeLock::NoLock)
            } else {
                None
            }
        },
        (OutputPolicy::Tr { tree, .. }, SpendPath::TaprootLeaf { leaf, lock, .. }) => match tree {
            Some(t) => {
                if *leaf < crate::taproot::count_leaves(t) {
                    Some(*lock)
                } else {
                    None
                }
            },
            None => None,
        },
        _ => None,
    }
}


fn ecdsa_sig_item(sk: &SecretKey, d: &Vec<u8>) -> (r: Vec<u8>)
    requires
        d@.len() == 32,
    ensures
        r@ == ecdsa_item(sk@, d@),
        r@.len() <= 73,
{
    let mut s = sign_ecdsa(sk, d.as_slice());
    s.push(SIGHASH_ALL);
    s
}

/// The ECDSA signatures of the signing keys, in key order.
fn multi_sigs(s: &Vec<Option<SecretKey>>, d: &Vec<u8>) -> (r: Vec<Vec<u8>>)
    requires
        d@.len() == 32,
    ensures
        items_view(r@) == multi_items(s@, d@),
        forall|j: int| 0 <= j < r@.len() ==> (#[trigger] r@[j])@.len() <= 73,
{
    let mut out: Vec<Vec<u8>> = Vec::new();
    let mut i: usize = 0;
    while i < s.len()
        invariant
            i <= s@.len(),
            d@.len() == 32,
            items_view(out@) == multi_items(s@.take(i as int), d@),
            forall|j: int| 0 <= j < out@.len() ==> (#[trigger] out@[j])@.len() <= 73,
        decreases s@.len() - i,
    {
        assert(s@.take(i + 1).drop_last() =~= s@.take(i as int));
        match &s[i] {
            Some(k) => {
                let item = ecdsa_sig_item(k, d);
                let ghost before = out@;
                out.push(item);
                assert(items_view(out@) =~= items_view(before) + seq![item@]);
            },
            None => {
                assert(multi_items(s@.take(i + 1), d@) =~= multi_items(s@.take(i as int), d@));
            },
        }
        i = i + 1;
    }
    assert(s@.take(i as int) =~= s@);
    out
}

/// The Schnorr signatures of a leaf's keys, last key first.
fn tap_sigs(s: &Vec<Option<SecretKey>>, d: &Vec<u8>) -> (r: Vec<Vec<u8>>)
    requires
        d@.len() == 32,
    ensures
        items_view(r@) == tap_items(s@, d@),
{
    let mut out: Vec<Vec<u8>> = Vec::new();
    let n = s.len();
    let mut j: usize = n;
    assert(s@.subrange(n as int, n as int) =~= Seq::<Option<SecretKey>>::empty());
    assert(items_view(out@) =~= Seq::<Seq<u8>>::empty());
    while j > 0
        invariant
            j <= n == s@.len(),
            d@.len() == 32,
            items_view(out@) == tap_items(s@.subrange(j as int, n as int), d@),
        decreases j,
    {
        let item: Vec<u8> = match &s[j - 1] {
            Some(k) => sign_schnorr(k, d.as_slice()),
            None => Vec::new(),
        };
        assert(item@ == tap_item(s@[j - 1], d@));
        let ghost before = out@;
        out.push(item);
        let ghost sub = s@.subrange(j - 1, n as int);
        assert(sub.skip(1) =~= s@.subrange(j as int, n as int));
        assert(sub[0] == s@[j - 1]);
        assert(items_view(out@) =~= items_view(before) + seq![item@]);
        j = j - 1;
    }
    assert(s@.subrange(0, n as int) =~= s@);
    out
}

/// The unsigned transaction: one input spending `prevout`, one output paying
/// `value - fee` to `dest`, and the lock time and sequence of `lock`.
pub fn skeleton(prevout: &OutPoint, value: u64, dest: &Vec<u8>, fee: u64, lock: TimeLock) -> (r:
    Transaction)
    requires
        fee <= value,
    ensures
        skeleton_ok(r, *prevout, value, dest@, fee, lock),
        r.input@[0].script_sig@.len() == 0,
        r.input@[0].witness@.len() == 0,
{
    let lock_time: u32 = match lock {
        TimeLock::After(h) => h,
        _ => 0,
    };
    let sequence: u32 = match lock {
        TimeLock::Older(v) => v,
        _ => SEQUENCE_ENABLE_LOCKTIME,
    };
    let input = TxIn {
        previous_output: OutPoint { txid: copy_bytes(&prevout.txid), vout: prevout.vout },
        script_sig: Vec::new(),
        sequence,
        witness: Vec::new(),
    };
    let output = TxOut { value: value - fee, script_pubkey: copy_bytes(dest) };
    Transaction { version: 2, lock_time, input: vec![input], output: vec![output] }
}

proof fn lemma_one_input(s: Seq<TxIn>, sc: Seq<u8>)
    requires
        s.len() == 1,
    ensures
        legacy_inputs(s, 0, sc) == ser_txin_with(s[0], sc),
        prevouts_bytes(s) == ser_outpoint(s[0].previous_output),
        sequences_bytes(s) == le_bytes(s[0].sequence as nat, 4),
{
    assert(s.drop_last() =~= Seq::<TxIn>::empty());
    assert(s.last() == s[0]);
    assert(legacy_inputs(Seq::<TxIn>::empty(), 0, sc) == Seq::<u8>::empty());
    assert(prevouts_bytes(Seq::<TxIn>::empty()) == Seq::<u8>::empty());
    assert(sequences_bytes(Seq::<TxIn>::empty()) == Seq::<u8>::empty());
    assert(Seq::<u8>::empty() + ser_txin_with(s[0], sc) =~= ser_txin_with(s[0], sc));
    assert(Seq::<u8>::empty() + ser_outpoint(s[0].previous_output) =~= ser_outpoint(
        s[0].previous_output,
    ));
    assert(Seq::<u8>::empty() + le_bytes(s[0].sequence as nat, 4) =~= le_bytes(
        s[0].sequence as nat,
        4,
    ));
}

/// Puts the script signature and witness into the one input; the digests of
/// the transaction stay as they were.
fn sign_into(tx: Transaction, script_sig: Vec<u8>, witness: Vec<Vec<u8>>) -> (r: Transaction)
    requires
        tx.input@.len() == 1,
    ensures
        r.version == tx.version,
        r.lock_time == tx.lock_time,
        r.output == tx.output,
        r.input@.len() == 1,
        r.input@[0].previous_output == tx.input@[0].previous_output,
        r.input@[0].sequence == tx.input@[0].sequence,
        r.input@[0].script_sig == script_sig,
        r.input@[0].witness == witness,
        forall|sc: Seq<u8>| legacy_preimage(r, 0, sc) == legacy_preimage(tx, 0, sc),
        forall|sc: Seq<u8>, v: u64| segwit_v0_preimage(r, 0, sc, v) == segwit_v0_preimage(tx, 0, sc, v),
        forall|a: Seq<u8>, b: Seq<u8>, l: Option<Seq<u8>>| taproot_msg(r, 0, a, b, l) == taproot_msg(tx, 0, a, b, l),
{
    let Transaction { version, lock_time, mut input, output } = tx;
    let old = input.pop().unwrap();
    let fresh = TxIn { previous_output: old.previous_output, script_sig, sequence: old.sequence, witness };
    let r = Transaction { version, lock_time, input: vec![fresh], output };
    proof {
        assert forall|sc: Seq<u8>| legacy_preimage(r, 0, sc) == legacy_preimage(tx, 0, sc) by {
            lemma_one_input(r.input@, sc);
            lemma_one_input(tx.input@, sc);
        }
        lemma_one_input(r.input@, Seq::empty());
        lemma_one_input(tx.input@, Seq::empty());
    }
    r
}

/// The fields that signing leaves as they were.
pub open spec fn same_skeleton(r: Transaction, tx: Transaction) -> bool {
    &&& r.version == tx.version
    &&& r.lock_time == tx.lock_time
    &&& r.output == tx.output
    &&& r.input@.len() == 1
    &&& r.input@[0].previous_output == tx.input@[0].previous_output
    &&& r.input@[0].sequence == tx.input@[0].sequence
}

fn sign_pkh(tx: Transaction, k: &Vec<u8>, sk: &SecretKey, spk: &Vec<u8>) -> (r: Transaction)
    requires
        tx.input@.len() == 1,
        k@.len() == 33,
    ensures
        same_skeleton(r, tx),
        pkh_signed(r, k@, sk@, spk@),
{
    let d = legacy_sighash(&tx, 0, spk.as_slice());
    let item = ecdsa_sig_item(sk, &d);
    let instrs = vec![Instruction::Push(item), Instruction::Push(copy_bytes(k))];
    proof {
        assert(instrs_view(instrs@) =~= seq![Instr::Push(ecdsa_item(sk@, d@)), Instr::Push(k@)]);
        pow256_four();
    }
    let ss = encode_instructions(&instrs);
    sign_into(tx, ss, Vec::new())
}

fn sign_wpkh(tx: Transaction, k: &Vec<u8>, sk: &SecretKey, value: u64) -> (r: Transaction)
    requires
        tx.input@.len() == 1,
    ensures
        same_skeleton(r, tx),
        wpkh_signed(r, k@, sk@, value),
{
    let h = hash160(k.as_slice());
    let mut sc: Vec<u8> = vec![0x76u8, 0xa9, 0x14];
    crate::script::append_bytes(&mut sc, h.as_slice());
    sc.push(0x88);
    sc.push(0xac);
    assert(sc@ =~= p2pkh_script(hash160_of(k@)));
    let d = segwit_v0_sighash(&tx, 0, sc.as_slice(), value);
    let item = ecdsa_sig_item(sk, &d);
    let w = vec![item, copy_bytes(k)];
    let r = sign_into(tx, Vec::new(), w);
    assert(items_view(r.input@[0].witness@) =~= seq![ecdsa_item(sk@, d@), k@]);
    r
}

fn sign_sh_multi(tx: Transaction, s: &Vec<Option<SecretKey>>, redeem: &Vec<u8>) -> (r: Transaction)
    requires
        tx.input@.len() == 1,
        redeem@.len() <= crate::script::MAX_SCRIPT_SIZE,
    ensures
        same_skeleton(r, tx),
        sh_multi_signed(r, s@, redeem@),
{
    let d = legacy_sighash(&tx, 0, redeem.as_slice());
    let sigs = multi_sigs(s, &d);
    let mut instrs: Vec<Instruction> = vec![Instruction::Push(Vec::new())];
    let mut i: usize = 0;
    proof {
        pow256_four();
        assert(instrs_view(instrs@) =~= seq![Instr::Push(Seq::empty())] + pushes(
            items_view(sigs@).take(0),
        ));
    }
    while i < sigs.len()
        invariant
            i <= sigs@.len(),
            instrs_view(instrs@) == seq![Instr::Push(Seq::empty())] + pushes(
                items_view(sigs@).take(i as int),
            ),
            instrs_wf(instrs_view(instrs@)),
            forall|j: int| 0 <= j < sigs@.len() ==> (#[trigger] sigs@[j])@.len() <= 73,
            pow256(4) == 0x1_0000_0000,
        decreases sigs@.len() - i,
    {
        let ghost before = instrs_view(instrs@);
        instrs.push(Instruction::Push(copy_bytes(&sigs[i])));
        assert(instrs_view(instrs@) =~= before.push(Instr::Push(sigs@[i as int]@)));
        assert(pushes(items_view(sigs@).take(i + 1)) =~= pushes(items_view(sigs@).take(i as int)).push(
            Instr::Push(sigs@[i as int]@),
        ));
        i = i + 1;
    }
    let ghost mid = instrs_view(instrs@);
    instrs.push(Instruction::Push(copy_bytes(redeem)));
    proof {
        assert(items_view(sigs@).take(i as int) =~= items_view(sigs@));
        assert(instrs_view(instrs@) =~= mid.push(Instr::Push(redeem@)));
        assert(instrs_view(instrs@) =~= seq![Instr::Push(Seq::empty())] + pushes(multi_items(s@, d@))
            + seq![Instr::Push(redeem@)]);
    }
    let ss = encode_instructions(&instrs);
    sign_into(tx, ss, Vec::new())
}

fn sign_wsh_key(tx: Transaction, sk: &SecretKey, ws: &Vec<u8>, value: u64) -> (r: Transaction)
    requires
        tx.input@.len() == 1,
    ensures
        same_skeleton(r, tx),
        wsh_key_signed(r, sk@, ws@, value),
{
    let d = segwit_v0_sighash(&tx, 0, ws.as_slice(), value);
    let item = ecdsa_sig_item(sk, &d);
    let w = vec![item, copy_bytes(ws)];
    let r = sign_into(tx, Vec::new(), w);
    assert(items_view(r.input@[0].witness@) =~= seq![ecdsa_item(sk@, d@), ws@]);
    r
}

fn sign_wsh_multi(tx: Transaction, s: &Vec<Option<SecretKey>>, ws: &Vec<u8>, value: u64, in_or: bool) -> (r: Transaction)
    requires
        tx.input@.len() == 1,
    ensures
        same_skeleton(r, tx),
        wsh_multi_signed(r, s@, ws@, value, in_or),
{
    let d = segwit_v0_sighash(&tx, 0, ws.as_slice(), value);
    let mut sigs = multi_sigs(s, &d);
    let mut w: Vec<Vec<u8>> = vec![Vec::new()];
    let ghost items = items_view(sigs@);
    w.append(&mut sigs);
    if in_or {
        w.push(Vec::new());
    }
    w.push(copy_bytes(ws));
    let r = sign_into(tx, Vec::new(), w);
    assert(items_view(r.input@[0].witness@) =~= seq![Seq::<u8>::empty()] + items + if in_or {
        seq![Seq::<u8>::empty(), ws@]
    } else {
        seq![ws@]
    });
    r
}

fn sign_tr_key(tx: Transaction, sk: &SecretKey, info: &TaprootSpendInfo, value: u64, spk: &Vec<u8>) -> (r: Option<Transaction>)
    requires
        tx.input@.len() == 1,
    ensures
        match r {
            Some(r) => same_skeleton(r, tx) && tr_key_signed(r, sk@, info.internal_key@, info.root_view(), value, spk@),
            None => secret_tweak_of(sk@, tweak_of(info.internal_key@, info.root_view())) is None,
        },
{
    let tweak = tap_tweak(info.internal_key.as_slice(), info.merkle_root.as_ref());
    let tk = match tweak_secret(sk, tweak.as_slice()) {
        Some(k) => k,
        None => {
            return None;
        },
    };
    let prevouts = vec![TxOut { value, script_pubkey: copy_bytes(spk) }];
    let d = taproot_sighash(&tx, 0, &prevouts, None);
    proof {
        lemma_single_prevout(prevouts@[0]);
        assert(prevouts@ =~= seq![prevouts@[0]]);
    }
    let ghost msg = taproot_msg(tx, 0, le_bytes(value as nat, 8), var_bytes(spk@), None);
    assert(d@ == tagged_hash_of(tag_bytes(Tag::TapSighash), msg));
    let sig = sign_schnorr(&tk, d.as_slice());
    let ghost sigv = sig@;
    let ghost tx0 = tx;
    let r = sign_into(tx, Vec::new(), vec![sig]);
    assert(taproot_msg(r, 0, le_bytes(value as nat, 8), var_bytes(spk@), None) == msg);
    assert(d@ == tap_digest(r, value, spk@, None));
    assert(items_view(r.input@[0].witness@) =~= seq![sigv]);
    Some(r)
}

fn sign_tr_leaf(
    tx: Transaction,
    signers: &Vec<Option<SecretKey>>,
    info: &TaprootSpendInfo,
    t: &TapTree,
    leaf: u64,
    value: u64,
    spk: &Vec<u8>,
) -> (r: Transaction)
    requires
        tx.input@.len() == 1,
        info.wf(Some(*t)),
        leaf < leaf_count(*t),
    ensures
        same_skeleton(r, tx),
        tr_leaf_signed(r, signers@, info.internal_key@, info.output_odd, *t, leaf as nat, value, spk@),
{
    let script = leaf_script(t, leaf);
    let lh = leaf_hash(script.as_slice());
    let prevouts = vec![TxOut { value, script_pubkey: copy_bytes(spk) }];
    let d = taproot_sighash(&tx, 0, &prevouts, Some(&lh));
    proof {
        lemma_single_prevout(prevouts@[0]);
        assert(prevouts@ =~= seq![prevouts@[0]]);
    }
    let ghost msg = taproot_msg(tx, 0, le_bytes(value as nat, 8), var_bytes(spk@), Some(lh@));
    assert(d@ == tagged_hash_of(tag_bytes(Tag::TapSighash), msg));
    let cb = match info.control_block(t, leaf) {
        Ok(b) => b,
        Err(_) => Vec::new(),
    };
    let mut w = tap_sigs(signers, &d);
    let ghost items = items_view(w@);
    let ghost sv = script@;
    let ghost cbv = cb@;
    w.push(script);
    w.push(cb);
    let r = sign_into(tx, Vec::new(), w);
    assert(taproot_msg(r, 0, le_bytes(value as nat, 8), var_bytes(spk@), Some(lh@)) == msg);
    assert(d@ == tap_digest(r, value, spk@, Some(leaf_hash_of(sv))));
    assert(items_view(r.input@[0].witness@) =~= items + seq![sv, cbv]);
    r
}

/// Plans and signs the spend of an output worth `value`, at `prevout`, by
/// `path`, paying `value - fee` to the output script `destination`.
pub fn plan_spend(
    c: &CompiledOutput,
    path: &SpendPath,
    prevout: &OutPoint,
    value: u64,
    destination: &Vec<u8>,
    fee: u64,
) -> (r: Result<Transaction, SpendError>)
    requires
        c.wf(),
        fee <= value,
    ensures
        match r {
            Ok(tx) => {
                &&& path_fits(c.policy, *path)
                &&& skeleton_ok(tx, *prevout, value, destination@, fee, path_lock(c.policy, *path))
                &&& authorized(*c, *path, tx, value)
            },
            Err(e) => {
                ||| (!path_fits(c.policy, *path) && e == SpendError::PathUnsatisfiable)
                ||| (path_fits(c.policy, *path) && tweak_fails(*c, *path) && e
                    == SpendError::SignError)
            },
        },
{
    let lock = match check_path(c, path) {
        Some(l) => l,
        None => {
            return Err(SpendError::PathUnsatisfiable);
        },
    };
    let tx = skeleton(prevout, value, destination, fee, lock);
    let empty: Vec<u8> = Vec::new();
    let ws: &Vec<u8> = match &c.script {
        Some(b) => b,
        None => &empty,
    };
    match (&c.policy, path) {
        (OutputPolicy::Pkh(k), SpendPath::Key(sk)) => Ok(sign_pkh(tx, k, sk, &c.script_pubkey)),
        (OutputPolicy::Wpkh(k), SpendPath::Key(sk)) => Ok(sign_wpkh(tx, k, sk, value)),
        (OutputPolicy::Sh(_), SpendPath::Multi(s)) => Ok(sign_sh_multi(tx, s, ws)),
        (OutputPolicy::Wsh(_), SpendPath::Key(sk)) => Ok(sign_wsh_key(tx, sk, ws, value)),
        (OutputPolicy::Wsh(q), SpendPath::Multi(s)) => {
            let in_or = match q {
                Policy::Or(..) => true,
                _ => false,
            };
            Ok(sign_wsh_multi(tx, s, ws, value, in_or))
        },
        (OutputPolicy::Tr { .. }, SpendPath::TaprootKey(sk)) => match &c.taproot {
            Some(info) => match sign_tr_key(tx, sk, info, value, &c.script_pubkey) {
                Some(r) => Ok(r),
                None => Err(SpendError::SignError),
            },
            None => Err(SpendError::PathUnsatisfiable),
        },
        (OutputPolicy::Tr { tree, .. }, SpendPath::TaprootLeaf { leaf, signers, .. }) => match (
            &c.taproot,
            tree,
        ) {
            (Some(info), Some(t)) => Ok(sign_tr_leaf(tx, signers, info, t, *leaf, value, &c.script_pubkey)),
            _ => Err(SpendError::PathUnsatisfiable),
        },
        _ => Err(SpendError::PathUnsatisfiable),
    }
}


/// The transaction fields that a branch's time lock asks for: an absolute
/// lock sets the lock time to its value and leaves the sequence below
/// `0xffffffff`, so that the lock time is enforced; a relative lock puts its
/// value in the sequence; no lock leaves the lock time at zero.
pub proof fn lemma_time_lock_fields(l: TimeLock)
    ensures
        l matches TimeLock::After(h) ==> lock_time_of(l) == h && sequence_of(l) <= 0xffff_fffe,
        l matches TimeLock::Older(v) ==> sequence_of(l) == v && lock_time_of(l) == 0,
        l is NoLock ==> lock_time_of(l) == 0 && sequence_of(l) == SEQUENCE_ENABLE_LOCKTIME,
{
}

/// In a spend of a key-or-threshold disjunction, the two branches carry
/// different witnesses: the key branch a signature and the script, the
/// threshold branch an empty item in the key's place, which makes the key's
/// check fail and selects the second branch.
pub proof fn lemma_branch_witnesses(c: CompiledOutput, path: SpendPath, tx: Transaction, value: u64)
    requires
        authorized(c, path, tx, value),
        c.policy matches OutputPolicy::Wsh(q) && q is Or,
    ensures
        path matches SpendPath::Key(_) ==> ({
            let w = items_view(tx.input@[0].witness@);
            w.len() == 2 && w[0].len() > 0 && w[0].last() == SIGHASH_ALL
        }),
        path matches SpendPath::Multi(s) ==> ({
            let w = items_view(tx.input@[0].witness@);
            w.len() >= 3 && w[0].len() == 0 && w[w.len() - 2].len() == 0
        }),
{
}

proof fn pow256_four()
    ensures
        pow256(4) == 0x1_0000_0000,
{
    reveal_with_fuel(pow256, 5);
}

} // verus!
