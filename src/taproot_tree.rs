//! A Taproot output whose key path stands for an aggregate of three keys and
//! whose script path is a timed 2-of-3 or a backup key.
use crate::error::{CompileFault, PolicyFault, SpendError};
use crate::keys::{pubkey_of, summed_of, summed_secret_bytes, valid_secret, x_only_public_key, SecretKey};
use crate::policy::{hex_text, num_text, Network};
use crate::text::{decimal_string, hex_string};
use vstd::prelude::*;

verus! {

/// The address that the descriptor compiler gives for Taproot descriptor
/// text over x-only keys, where it parses and type-checks.
pub uninterp spec fn tr_address_of(desc: Seq<char>, net: Network) -> Option<Seq<char>>;

/// Relies on miniscript's `Descriptor::<XOnlyPublicKey>::from_str` and
/// `address`: the address of a `tr(..)` descriptor; `None` where the text
/// does not parse or type-check.
#[verifier::external_body]
fn tr_descriptor_address(desc: &str, net: Network) -> (r: Option<String>)
    ensures
        match r {
            Some(a) => tr_address_of(desc@, net) == Some(a@),
            None => tr_address_of(desc@, net) is None,
        },
{
    let network = match net {
        Network::Mainnet => miniscript::bitcoin::Network::Bitcoin,
        Network::Testnet => miniscript::bitcoin::Network::Testnet,
        Network::Regtest => miniscript::bitcoin::Network::Regtest,
        Network::Signet => miniscript::bitcoin::Network::Signet,
    };
    let d = <miniscript::Descriptor<miniscript::bitcoin::secp256k1::XOnlyPublicKey> as std::str::FromStr>::from_str(desc).ok()?;
    d.address(network).ok().map(|a| a.to_string())
}

/// `tr(K,or_i(and_v(v:multi_a(2,A,B,C),after(n)),pk(D)))`
pub open spec fn tree_text(k: Seq<u8>, a: Seq<u8>, b: Seq<u8>, c: Seq<u8>, d: Seq<u8>, n: u32) -> Seq<char> {
    "tr("@ + hex_text(k) + ",or_i(and_v(v:multi_a(2,"@ + hex_text(a) + ","@ + hex_text(b) + ","@
        + hex_text(c) + "),after("@ + num_text(n as nat) + ")),pk("@ + hex_text(d) + ")))"@
}

pub open spec fn x_of(s: Seq<u8>) -> Seq<u8> {
    pubkey_of(s).subrange(1, 33)
}

/// The descriptor and regtest address of the output whose key path is the
/// byte-wise sum of the three secrets (a stand-in for MuSig2 aggregation,
/// never used to sign) and whose script path is any two of the three after
/// `lock`, or `backup` at any time.
pub fn musig_tree_descriptor(
    k1: &SecretKey,
    k2: &SecretKey,
    k3: &SecretKey,
    backup: &SecretKey,
    lock: u32,
) -> (r: Result<(String, String), SpendError>)
    ensures
        match r {
            Ok((desc, address)) => valid_secret(summed_of(k1@, k2@, k3@)) && desc@ == tree_text(
                    x_of(summed_of(k1@, k2@, k3@)),
                    x_of(k1@),
                    x_of(k2@),
                    x_of(k3@),
                    x_of(backup@),
                    lock,
                ) && tr_address_of(desc@, Network::Regtest) == Some(address@),
            Err(e) => {
                ||| (!valid_secret(summed_of(k1@, k2@, k3@)) && e == SpendError::PolicyInvalid(
                    PolicyFault::BadKey,
                ))
                ||| (valid_secret(summed_of(k1@, k2@, k3@)) && tr_address_of(
                    tree_text(
                        x_of(summed_of(k1@, k2@, k3@)),
                        x_of(k1@),
                        x_of(k2@),
                        x_of(k3@),
                        x_of(backup@),
                        lock,
                    ),
                    Network::Regtest,
                ) is None && e == SpendError::CompileError(CompileFault::UnsupportedNesting))
            },
        },
{
    let summed = summed_secret_bytes(k1, k2, k3);
    let agg = match SecretKey::from_bytes(summed.as_slice()) {
        Some(k) => k,
        None => {
            return Err(SpendError::PolicyInvalid(PolicyFault::BadKey));
        },
    };
    let mut desc = String::from_str("tr(");
    desc.append(hex_string(x_only_public_key(&agg).as_slice()).as_str());
    desc.append(",or_i(and_v(v:multi_a(2,");
    desc.append(hex_string(x_only_public_key(k1).as_slice()).as_str());
    desc.append(",");
    desc.append(hex_string(x_only_public_key(k2).as_slice()).as_str());
    desc.append(",");
    desc.append(hex_string(x_only_public_key(k3).as_slice()).as_str());
    desc.append("),after(");
    desc.append(decimal_string(lock as u64).as_str());
    desc.append(")),pk(");
    desc.append(hex_string(x_only_public_key(backup).as_slice()).as_str());
    desc.append(")))");
    assert(desc@ =~= tree_text(x_of(agg@), x_of(k1@), x_of(k2@), x_of(k3@), x_of(backup@), lock));
    match tr_descriptor_address(desc.as_str(), Network::Regtest) {
        Some(address) => Ok((desc, address)),
        None => Err(SpendError::CompileError(CompileFault::UnsupportedNesting)),
    }
}

} // verus!
