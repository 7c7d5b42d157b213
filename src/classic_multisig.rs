//! A 2-of-3 multi-signature paid to a script hash.
use crate::error::SpendError;
use crate::hashes::hash160_of;
use crate::keys::{pubkey_of, public_key, SecretKey};
use crate::policy::{address_of, compile, descriptor_text, keys_text, key_views, ms_script_of, num_text, p2sh_script, Network, OutputPolicy, Policy};
use crate::script::MAX_SCRIPT_SIZE;
use vstd::prelude::*;

verus! {

/// A 2-of-3 script-hash multi-signature: its regtest address, its
/// descriptor, and its keys.
#[derive(Debug)]
pub struct MultisigInfo {
    pub address: String,
    pub descriptor: String,
    pub private_keys: Vec<SecretKey>,
    pub public_keys: Vec<Vec<u8>>,
}

/// The descriptor text of a 2-of-n multi-signature paid to a script hash.
pub open spec fn multisig_text(keys: Seq<Seq<u8>>) -> Seq<char> {
    "sh("@ + ("multi("@ + num_text(2) + keys_text(keys) + ")"@) + ")"@
}

/// The descriptor compiles, its script fits, and its hash has an address.
pub open spec fn multisig_compiles(text: Seq<char>) -> bool {
    ms_script_of(text) matches Some(s) && s.len() <= MAX_SCRIPT_SIZE && address_of(
        p2sh_script(hash160_of(s)),
        Network::Regtest,
    ) is Some
}

/// The 2-of-3 multi-signature of three secret keys, for regtest.
pub fn create_multisig(k1: SecretKey, k2: SecretKey, k3: SecretKey) -> (r: Result<
    MultisigInfo,
    SpendError,
>)
    ensures
        ({
            let pubs = seq![pubkey_of(k1@), pubkey_of(k2@), pubkey_of(k3@)];
            match r {
                Ok(info) => {
                    &&& key_views(info.public_keys@) == pubs
                    &&& info.private_keys@.len() == 3
                    &&& info.descriptor@ == multisig_text(pubs)
                    &&& multisig_compiles(info.descriptor@)
                    &&& ms_script_of(info.descriptor@) matches Some(s) && address_of(
                        p2sh_script(hash160_of(s)),
                        Network::Regtest,
                    ) == Some(info.address@)
                },
                Err(e) => !multisig_compiles(multisig_text(pubs)) && e is CompileError,
            }
        }),
{
    let p1 = public_key(&k1);
    let p2 = public_key(&k2);
    let p3 = public_key(&k3);
    let ghost pubs = seq![p1@, p2@, p3@];
    let keys = vec![p1, p2, p3];
    let public_keys = vec![crate::script::copy_bytes(&keys[0]), crate::script::copy_bytes(&keys[1]), crate::script::copy_bytes(&keys[2])];
    assert(key_views(keys@) =~= pubs);
    assert(key_views(public_keys@) =~= pubs);
    let q = Policy::MultiLegacy { k: 2, keys };
    let descriptor = descriptor_text(&q, false);
    assert(descriptor@ == multisig_text(pubs));
    match compile(OutputPolicy::Sh(q), Network::Regtest) {
        Ok(c) => {
            Ok(MultisigInfo { address: c.address, descriptor, private_keys: vec![k1, k2, k3], public_keys })
        },
        Err(e) => Err(e),
    }
}

} // verus!
