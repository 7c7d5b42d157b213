//! A single key behind an absolute lock, paid to a witness script hash.
use crate::error::{PolicyFault, SpendError};
use crate::hashes::sha256_of;
use crate::keys::{pubkey_of, public_key, SecretKey};
use crate::policy::{address_of, compile, descriptor_text, hex_text, lock_ok, ms_script_of, num_text, p2wsh_script, Network, OutputPolicy, Policy};
use crate::script::{copy_bytes, MAX_SCRIPT_SIZE};
use vstd::prelude::*;

verus! {

/// The descriptor text of a key that may spend from height or time `h` on.
pub open spec fn cltv_text(key: Seq<u8>, h: u32) -> Seq<char> {
    "wsh("@ + ("and_v(v:"@ + ("pk("@ + hex_text(key) + ")"@) + ","@ + ("after("@ + num_text(
        h as nat,
    ) + ")"@) + ")"@) + ")"@
}

/// A single-key absolute-lock output for regtest: its descriptor text, the
/// secret and public key, and its address.
pub fn simple_cltv_descriptor(sk: SecretKey, block_height: u32) -> (r: Result<
    (String, SecretKey, Vec<u8>, String),
    SpendError,
>)
    ensures
        match r {
            Ok((desc, k, pk, address)) => {
                &&& lock_ok(block_height)
                &&& k@ == sk@
                &&& pk@ == pubkey_of(sk@)
                &&& desc@ == cltv_text(pk@, block_height)
                &&& ms_script_of(desc@) matches Some(s) && s.len() <= MAX_SCRIPT_SIZE
                    && address_of(p2wsh_script(sha256_of(s)), Network::Regtest) == Some(address@)
            },
            Err(e) => {
                ||| (!lock_ok(block_height) && e == SpendError::PolicyInvalid(PolicyFault::BadLock))
                ||| (lock_ok(block_height) && e is CompileError && !(ms_script_of(
                    cltv_text(pubkey_of(sk@), block_height),
                ) matches Some(s) && s.len() <= MAX_SCRIPT_SIZE && address_of(
                    p2wsh_script(sha256_of(s)),
                    Network::Regtest,
                ) is Some))
            },
        },
{
    let pk = public_key(&sk);
    let q = Policy::And(Box::new(Policy::Pk(copy_bytes(&pk))), Box::new(Policy::After(block_height)));
    let desc = descriptor_text(&q, true);
    proof {
        reveal_with_fuel(crate::policy::policy_text, 3);
        reveal_with_fuel(crate::policy::policy_fault, 3);
    }
    assert(desc@ == cltv_text(pk@, block_height));
    assert(crate::policy::wsh_text(q) == desc@);
    assert(crate::policy::policy_fault(q) is None <==> lock_ok(block_height));
    match compile(OutputPolicy::Wsh(q), Network::Regtest) {
        Ok(c) => Ok((desc, sk, pk, c.address)),
        Err(e) => Err(e),
    }
}

} // verus!
