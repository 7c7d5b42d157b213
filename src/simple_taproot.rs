//! A Taproot output with one internal key and a single leaf.
use crate::error::{CompileFault, SpendError};
use crate::keys::{pubkey_of, x_only_public_key, xonly_tweak_of, SecretKey};
use crate::policy::{address_of, compile, CompiledOutput, Network, OutputPolicy};
use crate::script::OP_1;
use crate::taproot::{leaf_hash_of, p2tr_script, tweak_of, TapTree};
use vstd::prelude::*;

verus! {

/// The regtest Taproot output whose internal key is that of `sk` and whose
/// one leaf is the script `OP_TRUE`.
pub fn simple_taproot_output(sk: &SecretKey) -> (r: Result<CompiledOutput, SpendError>)
    ensures
        ({
            let internal = pubkey_of(sk@).subrange(1, 33);
            match r {
                Ok(c) => {
                    &&& c.wf()
                    &&& c.network == Network::Regtest
                    &&& c.policy matches OutputPolicy::Tr { internal: i, tree: Some(TapTree::Leaf(s)) }
                        && i@ == internal && s@ == seq![OP_1]
                },
                Err(e) => {
                    ||| (xonly_tweak_of(internal, tweak_of(internal, Some(leaf_hash_of(seq![OP_1]))))
                        is None && e == SpendError::CompileError(CompileFault::BadTweak))
                    ||| (xonly_tweak_of(internal, tweak_of(internal, Some(leaf_hash_of(seq![OP_1]))))
                        matches Some((k, _)) && address_of(p2tr_script(k), Network::Regtest) is None
                        && e == SpendError::CompileError(CompileFault::NoAddress))
                },
            }
        }),
{
    let internal = x_only_public_key(sk);
    let leaf = vec![OP_1];
    assert(leaf@ =~= seq![OP_1]);
    let ghost tree = TapTree::Leaf(leaf);
    assert(crate::taproot::depth(tree) == 0);
    assert(crate::taproot::root_of(tree) == leaf_hash_of(seq![OP_1]));
    compile(OutputPolicy::Tr { internal, tree: Some(TapTree::Leaf(leaf)) }, Network::Regtest)
}

} // verus!
