//! Spending policies, their descriptor text, and their compilation into an
//! output script and an address.
use crate::error::{CompileFault, PolicyFault, SpendError};
use crate::hashes::{hash160, hash160_of, sha256, sha256_of};
use crate::script::{append_bytes, MAX_SCRIPT_SIZE};
use crate::taproot::{depth, opt_tree, p2tr_script, tree_root, tweak_of, TapTree, TaprootSpendInfo, MAX_TREE_DEPTH};
use crate::keys::xonly_tweak_of;
use crate::text::{ascii_text, dec_ascii, decimal_string, hex_ascii, hex_string};
use vstd::prelude::*;

verus! {

/// The network an address is written for.
#[derive(Clone, Copy, Debug, PartialEq, Eq)]
pub enum Network {
    Mainnet,
    Testnet,
    Regtest,
    Signet,
}

/// The address text of an output script on a network, where it has one.
pub uninterp spec fn address_of(spk: Seq<u8>, net: Network) -> Option<Seq<char>>;

/// The script that the descriptor compiler gives for descriptor text: the
/// redeem script of `sh(..)`, the witness script of `wsh(..)`.
pub uninterp spec fn ms_script_of(desc: Seq<char>) -> Option<Seq<u8>>;

/// Relies on bitcoin's `Address::from_script` and the address's `Display`:
/// base58check for key and script hashes, bech32 or bech32m for witness
/// programs; `None` for a script with no address form.
#[verifier::external_body]
fn address_from_script(spk: &[u8], net: Network) -> (r: Option<String>)
    ensures
        match r {
            Some(a) => address_of(spk@, net) == Some(a@),
            None => address_of(spk@, net) is None,
        },
{
    let network = match net {
        Network::Mainnet => miniscript::bitcoin::Network::Bitcoin,
        Network::Testnet => miniscript::bitcoin::Network::Testnet,
        Network::Regtest => miniscript::bitcoin::Network::Regtest,
        Network::Signet => miniscript::bitcoin::Network::Signet,
    };
    let script = miniscript::bitcoin::Script::from_bytes(spk);
    miniscript::bitcoin::Address::from_script(script, network).ok().map(|a| a.to_string())
}

/// Relies on miniscript's `Descriptor::from_str` and `explicit_script`: the
/// script that a `sh(..)` or `wsh(..)` descriptor over compressed keys
/// compiles to; `None` where the text does not parse or type-check.
#[verifier::external_body]
fn descriptor_script(desc: &str) -> (r: Option<Vec<u8>>)
    ensures
        match r {
            Some(s) => ms_script_of(desc@) == Some(s@),
            None => ms_script_of(desc@) is None,
        },
{
    let d = <miniscript::Descriptor<miniscript::bitcoin::PublicKey> as std::str::FromStr>::from_str(desc).ok()?;
    d.explicit_script().ok().map(|s| s.to_bytes())
}

/// A spending condition.
#[derive(Debug)]
pub enum Policy {
    /// A signature of a compressed public key.
    Pk(Vec<u8>),
    /// `k` signatures of the compressed keys, by `OP_CHECKMULTISIG`.
    MultiLegacy { k: u32, keys: Vec<Vec<u8>> },
    /// `k` signatures of the x-only keys, by `OP_CHECKSIGADD`.
    MultiTaproot { k: u32, keys: Vec<Vec<u8>> },
    /// An absolute lock: a block height below 500 000 000, else a Unix time.
    After(u32),
    /// A relative lock, in the encoding of BIP-68.
    Older(u32),
    /// Both conditions.
    And(Box<Policy>, Box<Policy>),
    /// Either condition, the first being the likely one.
    Or(Box<Policy>, Box<Policy>),
}

/// The shape of an output and what it commits to.
#[derive(Debug)]
pub enum OutputPolicy {
    /// Pay to the hash of a compressed key.
    Pkh(Vec<u8>),
    /// Pay to the witness hash of a compressed key.
    Wpkh(Vec<u8>),
    /// Pay to the hash of the policy's script.
    Sh(Policy),
    /// Pay to the witness hash of the policy's script.
    Wsh(Policy),
    /// Pay to a Taproot output key: an x-only internal key and a tree of leaves.
    Tr { internal: Vec<u8>, tree: Option<TapTree> },
}

pub open spec fn key_ok(k: Seq<u8>) -> bool {
    k.len() == 33 && (k[0] == 2 || k[0] == 3)
}

pub open spec fn keys_ok(ks: Seq<Vec<u8>>, xonly: bool) -> bool {
    forall|i: int|
        0 <= i < ks.len() ==> if xonly {
            (#[trigger] ks[i])@.len() == 32
        } else {
            key_ok(ks[i]@)
        }
}

pub open spec fn lock_ok(n: u32) -> bool {
    0 < n < 0x8000_0000
}

pub open spec fn multi_fault(k: u32, ks: Seq<Vec<u8>>, xonly: bool) -> Option<PolicyFault> {
    if ks.len() > if xonly {
        999nat
    } else {
        20nat
    } {
        Some(PolicyFault::TooManyKeys)
    } else if k == 0 || k > ks.len() {
        Some(PolicyFault::BadThreshold)
    } else if !keys_ok(ks, xonly) {
        Some(PolicyFault::BadKey)
    } else {
        None
    }
}

/// The first fault of a policy, in the order of its text.
pub open spec fn policy_fault(p: Policy) -> Option<PolicyFault>
    decreases p,
{
    match p {
        Policy::Pk(k) => if key_ok(k@) {
            None
        } else {
            Some(PolicyFault::BadKey)
        },
        Policy::MultiLegacy { k, keys } => multi_fault(k, keys@, false),
        Policy::MultiTaproot { k, keys } => multi_fault(k, keys@, true),
        Policy::After(n) => if lock_ok(n) {
            None
        } else {
            Some(PolicyFault::BadLock)
        },
        Policy::Older(n) => if lock_ok(n) {
            None
        } else {
            Some(PolicyFault::BadLock)
        },
        Policy::And(a, b) => match policy_fault(*a) {
            Some(f) => Some(f),
            None => policy_fault(*b),
        },
        Policy::Or(a, b) => match policy_fault(*a) {
            Some(f) => Some(f),
            None => policy_fault(*b),
        },
    }
}

pub open spec fn hex_text(b: Seq<u8>) -> Seq<char> {
    ascii_text(hex_ascii(b))
}

pub open spec fn num_text(n: nat) -> Seq<char> {
    ascii_text(dec_ascii(n))
}

pub open spec fn key_views(ks: Seq<Vec<u8>>) -> Seq<Seq<u8>> {
    ks.map_values(|k: Vec<u8>| k@)
}

/// Each key's hex after a comma.
pub open spec fn keys_text(ks: Seq<Seq<u8>>) -> Seq<char>
    decreases ks.len(),
{
    if ks.len() == 0 {
        Seq::empty()
    } else {
        keys_text(ks.drop_last()) + ","@ + hex_text(ks.last())
    }
}

/// The miniscript text of a policy.
pub open spec fn policy_text(p: Policy) -> Seq<char>
    decreases p,
{
    match p {
        Policy::Pk(k) => "pk("@ + hex_text(k@) + ")"@,
        Policy::MultiLegacy { k, keys } => "multi("@ + num_text(k as nat) + keys_text(
            key_views(keys@),
        ) + ")"@,
        Policy::MultiTaproot { k, keys } => "multi_a("@ + num_text(k as nat) + keys_text(
            key_views(keys@),
        ) + ")"@,
        Policy::After(n) => "after("@ + num_text(n as nat) + ")"@,
        Policy::Older(n) => "older("@ + num_text(n as nat) + ")"@,
        Policy::And(a, b) => "and_v(v:"@ + policy_text(*a) + ","@ + policy_text(*b) + ")"@,
        Policy::Or(a, b) => "or_d("@ + policy_text(*a) + ","@ + policy_text(*b) + ")"@,
    }
}

/// The descriptor text of a script-hash output.
pub open spec fn sh_text(p: Policy) -> Seq<char> {
    "sh("@ + policy_text(p) + ")"@
}

pub open spec fn wsh_text(p: Policy) -> Seq<char> {
    "wsh("@ + policy_text(p) + ")"@
}

pub open spec fn p2pkh_script(h: Seq<u8>) -> Seq<u8> {
    seq![0x76u8, 0xa9u8, 0x14u8] + h + seq![0x88u8, 0xacu8]
}

pub open spec fn p2wpkh_script(h: Seq<u8>) -> Seq<u8> {
    seq![0x00u8, 0x14u8] + h
}

pub open spec fn p2sh_script(h: Seq<u8>) -> Seq<u8> {
    seq![0xa9u8, 0x14u8] + h + seq![0x87u8]
}

pub open spec fn p2wsh_script(h: Seq<u8>) -> Seq<u8> {
    seq![0x00u8, 0x20u8] + h
}

/// A script from the descriptor compiler, or the error it comes to.
pub open spec fn script_result(s: Option<Seq<u8>>) -> Result<Seq<u8>, SpendError> {
    match s {
        None => Err(SpendError::CompileError(CompileFault::UnsupportedNesting)),
        Some(b) => if b.len() > MAX_SCRIPT_SIZE {
            Err(SpendError::CompileError(CompileFault::ScriptTooLong))
        } else {
            Ok(b)
        },
    }
}

/// The output script and the redeem or witness script of an output policy,
/// or the error that compiling it comes to.
pub open spec fn compile_spec(p: OutputPolicy) -> Result<(Seq<u8>, Option<Seq<u8>>), SpendError> {
    match p {
        OutputPolicy::Pkh(k) => if key_ok(k@) {
            Ok((p2pkh_script(hash160_of(k@)), None))
        } else {
            Err(SpendError::PolicyInvalid(PolicyFault::BadKey))
        },
        OutputPolicy::Wpkh(k) => if key_ok(k@) {
            Ok((p2wpkh_script(hash160_of(k@)), None))
        } else {
            Err(SpendError::PolicyInvalid(PolicyFault::BadKey))
        },
        OutputPolicy::Sh(q) => match policy_fault(q) {
            Some(f) => Err(SpendError::PolicyInvalid(f)),
            None => match script_result(ms_script_of(sh_text(q))) {
                Ok(s) => Ok((p2sh_script(hash160_of(s)), Some(s))),
                Err(e) => Err(e),
            },
        },
        OutputPolicy::Wsh(q) => match policy_fault(q) {
            Some(f) => Err(SpendError::PolicyInvalid(f)),
            None => match script_result(ms_script_of(wsh_text(q))) {
                Ok(s) => Ok((p2wsh_script(sha256_of(s)), Some(s))),
                Err(e) => Err(e),
            },
        },
        OutputPolicy::Tr { internal, tree } => if internal@.len() != 32 {
            Err(SpendError::PolicyInvalid(PolicyFault::BadKey))
        } else if tree matches Some(t) && depth(t) > MAX_TREE_DEPTH {
            Err(SpendError::PolicyInvalid(PolicyFault::TreeTooDeep))
        } else {
            match xonly_tweak_of(internal@, tweak_of(internal@, tree_root(tree))) {
                Some((k, _)) => Ok((p2tr_script(k), None)),
                None => Err(SpendError::CompileError(CompileFault::BadTweak)),
            }
        },
    }
}

/// The address of an output policy on a network, or the error that
/// compiling it comes to.
pub open spec fn address_spec(p: OutputPolicy, net: Network) -> Result<Seq<char>, SpendError> {
    match compile_spec(p) {
        Ok((spk, _)) => match address_of(spk, net) {
            Some(a) => Ok(a),
            None => Err(SpendError::CompileError(CompileFault::NoAddress)),
        },
        Err(e) => Err(e),
    }
}

/// A compiled output.
#[derive(Debug)]
pub struct CompiledOutput {
    pub policy: OutputPolicy,
    pub network: Network,
    pub script_pubkey: Vec<u8>,
    /// The redeem script of a script-hash output, the witness script of a
    /// witness-script-hash output.
    pub script: Option<Vec<u8>>,
    pub taproot: Option<TaprootSpendInfo>,
    pub address: String,
}

impl CompiledOutput {
    /// The fields are what compiling the policy on the network gives.
    pub open spec fn wf(&self) -> bool {
        &&& compile_spec(self.policy) == Ok::<(Seq<u8>, Option<Seq<u8>>), SpendError>(
            (
                self.script_pubkey@,
                match self.script {
                    Some(s) => Some(s@),
                    None => None,
                },
            ),
        )
        &&& address_spec(self.policy, self.network) == Ok::<Seq<char>, SpendError>(self.address@)
        &&& match self.policy {
            OutputPolicy::Tr { internal, tree } => self.taproot matches Some(info) && info.wf(tree)
                && info.internal_key@ == internal@,
            _ => self.taproot is None,
        }
    }
}

// ---------------------------------------------------------------------------
// Executable parts
fn keys_valid(ks: &Vec<Vec<u8>>, xonly: bool) -> (r: bool)
    ensures
        r == keys_ok(ks@, xonly),
{
    let mut i: usize = 0;
    while i < ks.len()
        invariant
            i <= ks@.len(),
            forall|j: int|
                0 <= j < i ==> if xonly {
                    (#[trigger] ks@[j])@.len() == 32
                } else {
                    key_ok(ks@[j]@)
                },
        decreases ks@.len() - i,
    {
        let k = &ks[i];
        if xonly {
            if k.len() != 32 {
                return false;
            }
        } else if k.len() != 33 || (k[0] != 2 && k[0] != 3) {
            return false;
        }
        i = i + 1;
    }
    true
}

fn key_valid(k: &Vec<u8>) -> (r: bool)
    ensures
        r == key_ok(k@),
{
    k.len() == 33 && (k[0] == 2 || k[0] == 3)
}

pub fn check_multi_fault(k: u32, ks: &Vec<Vec<u8>>, xonly: bool) -> (r: Option<PolicyFault>)
    ensures
        r == multi_fault(k, ks@, xonly),
{
    let limit: usize = if xonly {
        999
    } else {
        20
    };
    if ks.len() > limit {
        Some(PolicyFault::TooManyKeys)
    } else if k == 0 || k as usize > ks.len() {
        Some(PolicyFault::BadThreshold)
    } else if !keys_valid(ks, xonly) {
        Some(PolicyFault::BadKey)
    } else {
        None
    }
}

/// The first fault of a policy, if it has one.
pub fn check_policy(p: &Policy) -> (r: Option<PolicyFault>)
    ensures
        r == policy_fault(*p),
    decreases p,
{
    match p {
        Policy::Pk(k) => if key_valid(k) {
            None
        } else {
            Some(PolicyFault::BadKey)
        },
        Policy::MultiLegacy { k, keys } => check_multi_fault(*k, keys, false),
        Policy::MultiTaproot { k, keys } => check_multi_fault(*k, keys, true),
        Policy::After(n) | Policy::Older(n) => if 0 < *n && *n < 0x8000_0000 {
            None
        } else {
            Some(PolicyFault::BadLock)
        },
        Policy::And(a, b) | Policy::Or(a, b) => match check_policy(a) {
            Some(f) => Some(f),
            None => check_policy(b),
        },
    }
}

fn push_keys_text(out: &mut String, ks: &Vec<Vec<u8>>)
    ensures
        final(out)@ == old(out)@ + keys_text(key_views(ks@)),
{
    let ghost start = out@;
    let ghost kv = key_views(ks@);
    let mut i: usize = 0;
    while i < ks.len()
        invariant
            i <= ks@.len(),
            kv == key_views(ks@),
            out@ == start + keys_text(kv.take(i as int)),
        decreases ks@.len() - i,
    {
        out.append(",");
        let h = hex_string(ks[i].as_slice());
        out.append(h.as_str());
        assert(kv.take(i + 1).drop_last() =~= kv.take(i as int));
        assert(kv.take(i + 1).last() == ks@[i as int]@);
        i = i + 1;
        assert(out@ =~= start + keys_text(kv.take(i as int)));
    }
    assert(kv.take(i as int) =~= kv);
}

/// Appends the miniscript text of a policy.
pub fn push_policy_text(out: &mut String, p: &Policy)
    ensures
        final(out)@ == old(out)@ + policy_text(*p),
    decreases p,
{
    let ghost start = out@;
    match p {
        Policy::Pk(k) => {
            out.append("pk(");
            out.append(hex_string(k.as_slice()).as_str());
            out.append(")");
        },
        Policy::MultiLegacy { k, keys } => {
            out.append("multi(");
            out.append(decimal_string(*k as u64).as_str());
            push_keys_text(out, keys);
            out.append(")");
        },
        Policy::MultiTaproot { k, keys } => {
            out.append("multi_a(");
            out.append(decimal_string(*k as u64).as_str());
            push_keys_text(out, keys);
            out.append(")");
        },
        Policy::After(n) => {
            out.append("after(");
            out.append(decimal_string(*n as u64).as_str());
            out.append(")");
        },
        Policy::Older(n) => {
            out.append("older(");
            out.append(decimal_string(*n as u64).as_str());
            out.append(")");
        },
        Policy::And(a, b) => {
            out.append("and_v(v:");
            push_policy_text(out, a);
            out.append(",");
            push_policy_text(out, b);
            out.append(")");
        },
        Policy::Or(a, b) => {
            out.append("or_d(");
            push_policy_text(out, a);
            out.append(",");
            push_policy_text(out, b);
            out.append(")");
        },
    }
    assert(out@ =~= start + policy_text(*p));
}

/// The descriptor text of a script-hash output (`witness` false) or a
/// witness-script-hash output of a policy.
pub fn descriptor_text(p: &Policy, witness: bool) -> (r: String)
    ensures
        r@ == if witness {
            wsh_text(*p)
        } else {
            sh_text(*p)
        },
{
    let mut out = String::new();
    if witness {
        out.append("wsh(");
    } else {
        out.append("sh(");
    }
    push_policy_text(&mut out, p);
    out.append(")");
    out
}

fn compiled_script(p: &Policy, witness: bool) -> (r: Result<Vec<u8>, SpendError>)
    ensures
        match r {
            Ok(s) => script_result(ms_script_of(if witness { wsh_text(*p) } else { sh_text(*p) }))
                == Ok::<Seq<u8>, SpendError>(s@),
            Err(e) => script_result(ms_script_of(if witness { wsh_text(*p) } else { sh_text(*p) }))
                == Err::<Seq<u8>, SpendError>(e),
        },
{
    let text = descriptor_text(p, witness);
    match descriptor_script(text.as_str()) {
        Some(s) => if s.len() > MAX_SCRIPT_SIZE {
            Err(SpendError::CompileError(CompileFault::ScriptTooLong))
        } else {
            Ok(s)
        },
        None => Err(SpendError::CompileError(CompileFault::UnsupportedNesting)),
    }
}

fn wrap_hash(prefix: &[u8], h: &[u8], suffix: &[u8]) -> (r: Vec<u8>)
    ensures
        r@ == prefix@ + h@ + suffix@,
{
    let mut s: Vec<u8> = Vec::new();
    append_bytes(&mut s, prefix);
    append_bytes(&mut s, h);
    append_bytes(&mut s, suffix);
    s
}

/// The output script and redeem or witness script of an output policy.
pub fn output_scripts(p: &OutputPolicy) -> (r: Result<(Vec<u8>, Option<Vec<u8>>, Option<TaprootSpendInfo>), SpendError>)
    ensures
        match r {
            Ok((spk, script, tap)) => compile_spec(*p) == Ok::<(Seq<u8>, Option<Seq<u8>>), SpendError>(
                (
                    spk@,
                    match script {
                        Some(s) => Some(s@),
                        None => None,
                    },
                ),
            ) && match *p {
                OutputPolicy::Tr { internal, tree } => tap matches Some(info) && info.wf(tree)
                    && info.internal_key@ == internal@,
                _ => tap is None,
            },
            Err(e) => compile_spec(*p) == Err::<(Seq<u8>, Option<Seq<u8>>), SpendError>(e),
        },
{
    match p {
        OutputPolicy::Pkh(k) => {
            if !key_valid(k) {
                return Err(SpendError::PolicyInvalid(PolicyFault::BadKey));
            }
            let h = hash160(k.as_slice());
            let spk = wrap_hash(&[0x76u8, 0xa9, 0x14], h.as_slice(), &[0x88u8, 0xac]);
            assert(spk@ =~= p2pkh_script(hash160_of(k@)));
            Ok((spk, None, None))
        },
        OutputPolicy::Wpkh(k) => {
            if !key_valid(k) {
                return Err(SpendError::PolicyInvalid(PolicyFault::BadKey));
            }
            let h = hash160(k.as_slice());
            let spk = wrap_hash(&[0x00u8, 0x14], h.as_slice(), &[]);
            assert(spk@ =~= p2wpkh_script(hash160_of(k@)));
            Ok((spk, None, None))
        },
        OutputPolicy::Sh(q) => {
            match check_policy(q) {
                Some(f) => {
                    return Err(SpendError::PolicyInvalid(f));
                },
                None => {},
            }
            let s = compiled_script(q, false)?;
            let h = hash160(s.as_slice());
            let spk = wrap_hash(&[0xa9u8, 0x14], h.as_slice(), &[0x87u8]);
            assert(spk@ =~= p2sh_script(hash160_of(s@)));
            Ok((spk, Some(s), None))
        },
        OutputPolicy::Wsh(q) => {
            match check_policy(q) {
                Some(f) => {
                    return Err(SpendError::PolicyInvalid(f));
                },
                None => {},
            }
            let s = compiled_script(q, true)?;
            let h = sha256(s.as_slice());
            let spk = wrap_hash(&[0x00u8, 0x20], h.as_slice(), &[]);
            assert(spk@ =~= p2wsh_script(sha256_of(s@)));
            Ok((spk, Some(s), None))
        },
        OutputPolicy::Tr { internal, tree } => {
            if internal.len() != 32 {
                return Err(SpendError::PolicyInvalid(PolicyFault::BadKey));
            }
            let tref = tree.as_ref();
            assert(opt_tree(tref) == *tree);
            let info = TaprootSpendInfo::new(internal.as_slice(), tref)?;
            let spk = wrap_hash(&[0x51u8, 0x20], info.output_key.as_slice(), &[]);
            assert(spk@ =~= p2tr_script(info.output_key@));
            Ok((spk, None, Some(info)))
        },
    }
}

/// Compiles an output policy for a network: its output script, its redeem or
/// witness script, its Taproot commitments, and its address.
pub fn compile(p: OutputPolicy, net: Network) -> (r: Result<CompiledOutput, SpendError>)
    ensures
        match r {
            Ok(c) => c.wf() && c.policy == p && c.network == net,
            Err(e) => address_spec(p, net) == Err::<Seq<char>, SpendError>(e),
        },
{
    let (spk, script, taproot) = output_scripts(&p)?;
    match address_from_script(spk.as_slice(), net) {
        Some(address) => Ok(CompiledOutput { policy: p, network: net, script_pubkey: spk, script, taproot, address }),
        None => Err(SpendError::CompileError(CompileFault::NoAddress)),
    }
}

/// The address of an output is a function of the policy and the network
/// alone: two compilations of one policy for one network give one address.
pub proof fn lemma_address_deterministic(p: OutputPolicy, q: OutputPolicy, net: Network)
    requires
        p == q,
    ensures
        address_spec(p, net) == address_spec(q, net),
        compile_spec(p) == compile_spec(q),
{
}

} // verus!
