use bitcoin_scripts::classic_multisig::create_multisig;
use bitcoin_scripts::error::{CompileFault, PolicyFault, SpendError};
use bitcoin_scripts::keys::{x_only_public_key, SecretKey};
use bitcoin_scripts::policy::{compile, descriptor_text, Network, OutputPolicy, Policy};
use bitcoin_scripts::simple_taproot::simple_taproot_output;
use bitcoin_scripts::taproot::TapTree;
use bitcoin_scripts::timelock_cltv::simple_cltv_descriptor;

fn sk(b: u8) -> SecretKey {
    SecretKey::from_bytes(&[b; 32]).unwrap()
}

fn pk(b: u8) -> Vec<u8> {
    sk(b).derive_public()
}

fn ms_address(desc: &str) -> String {
    let d = <miniscript::Descriptor<bitcoin::PublicKey> as std::str::FromStr>::from_str(desc).unwrap();
    d.address(bitcoin::Network::Regtest).unwrap().to_string()
}

fn timelock_policy(lock: Policy) -> Policy {
    Policy::Or(
        Box::new(Policy::Pk(pk(8))),
        Box::new(Policy::And(
            Box::new(Policy::MultiLegacy { k: 2, keys: vec![pk(5), pk(6), pk(7)] }),
            Box::new(lock),
        )),
    )
}

#[test]
fn secret_keys_must_be_in_range() {
    assert!(SecretKey::from_bytes(&[0u8; 32]).is_none());
    assert!(SecretKey::from_bytes(&[0xffu8; 32]).is_none());
    assert!(SecretKey::from_bytes(&[1u8; 31]).is_none());
    assert!(SecretKey::from_bytes(&[1u8; 32]).is_some());
}

#[test]
fn descriptor_text_follows_the_policy() {
    let text = descriptor_text(&timelock_policy(Policy::After(10)), true);
    let expected = format!(
        "wsh(or_d(pk({}),and_v(v:multi(2,{},{},{}),after(10))))",
        hex::encode(pk(8)),
        hex::encode(pk(5)),
        hex::encode(pk(6)),
        hex::encode(pk(7))
    );
    assert_eq!(text, expected);
}

#[test]
fn wsh_addresses_match_miniscript() {
    for lock in [Policy::After(10), Policy::Older(10)] {
        let q = timelock_policy(lock);
        let text = descriptor_text(&q, true);
        let c = compile(OutputPolicy::Wsh(q), Network::Regtest).unwrap();
        assert_eq!(c.address, ms_address(&text));
        assert!(c.address.starts_with("bcrt1q"));
        assert_eq!(c.script_pubkey.len(), 34);
        assert_eq!(&c.script_pubkey[..2], &[0x00, 0x20]);
    }
}

#[test]
fn compiling_twice_gives_the_same_address() {
    let a = compile(OutputPolicy::Wsh(timelock_policy(Policy::After(10))), Network::Regtest).unwrap();
    let b = compile(OutputPolicy::Wsh(timelock_policy(Policy::After(10))), Network::Regtest).unwrap();
    assert_eq!(a.address, b.address);
    assert_eq!(a.script_pubkey, b.script_pubkey);
    let other = compile(OutputPolicy::Wsh(timelock_policy(Policy::After(11))), Network::Regtest).unwrap();
    assert_ne!(a.address, other.address);
}

#[test]
fn key_hash_outputs_match_rust_bitcoin() {
    let key = bitcoin::PublicKey::from_slice(&pk(1)).unwrap();
    let pkh = compile(OutputPolicy::Pkh(pk(1)), Network::Regtest).unwrap();
    assert_eq!(pkh.address, bitcoin::Address::p2pkh(&key, bitcoin::Network::Regtest).to_string());
    let wpkh = compile(OutputPolicy::Wpkh(pk(1)), Network::Mainnet).unwrap();
    assert_eq!(wpkh.address, bitcoin::Address::p2wpkh(&key, bitcoin::Network::Bitcoin).unwrap().to_string());
}

#[test]
fn taproot_addresses_are_bech32m() {
    let c = compile(OutputPolicy::Tr { internal: x_only_public_key(&sk(5)), tree: None }, Network::Regtest).unwrap();
    assert!(c.address.starts_with("bcrt1p"));
    let secp = bitcoin::secp256k1::Secp256k1::new();
    let internal = bitcoin::secp256k1::XOnlyPublicKey::from_slice(&x_only_public_key(&sk(5))).unwrap();
    assert_eq!(c.address, bitcoin::Address::p2tr(&secp, internal, None, bitcoin::Network::Regtest).to_string());
}

#[test]
fn invalid_policies_are_refused() {
    let bad_threshold = Policy::MultiLegacy { k: 4, keys: vec![pk(1), pk(2), pk(3)] };
    assert_eq!(compile(OutputPolicy::Sh(bad_threshold), Network::Regtest).unwrap_err(), SpendError::PolicyInvalid(PolicyFault::BadThreshold));
    let zero = Policy::MultiLegacy { k: 0, keys: vec![pk(1)] };
    assert_eq!(compile(OutputPolicy::Sh(zero), Network::Regtest).unwrap_err(), SpendError::PolicyInvalid(PolicyFault::BadThreshold));
    let many = Policy::MultiLegacy { k: 1, keys: vec![pk(1); 21] };
    assert_eq!(compile(OutputPolicy::Wsh(many), Network::Regtest).unwrap_err(), SpendError::PolicyInvalid(PolicyFault::TooManyKeys));
    let bad_key = Policy::Pk(vec![4u8; 33]);
    assert_eq!(compile(OutputPolicy::Wsh(bad_key), Network::Regtest).unwrap_err(), SpendError::PolicyInvalid(PolicyFault::BadKey));
    assert_eq!(compile(OutputPolicy::Wsh(timelock_policy(Policy::After(0))), Network::Regtest).unwrap_err(), SpendError::PolicyInvalid(PolicyFault::BadLock));
    assert_eq!(compile(OutputPolicy::Pkh(vec![2u8; 20]), Network::Regtest).unwrap_err(), SpendError::PolicyInvalid(PolicyFault::BadKey));
    assert_eq!(compile(OutputPolicy::Tr { internal: vec![1u8; 31], tree: None }, Network::Regtest).unwrap_err(), SpendError::PolicyInvalid(PolicyFault::BadKey));
}

#[test]
fn shapes_the_descriptor_compiler_refuses_are_compile_errors() {
    let lock_first = Policy::Or(Box::new(Policy::After(10)), Box::new(Policy::Pk(pk(1))));
    assert_eq!(compile(OutputPolicy::Wsh(lock_first), Network::Regtest).unwrap_err(), SpendError::CompileError(CompileFault::UnsupportedNesting));
    let tap_only = Policy::MultiTaproot { k: 1, keys: vec![x_only_public_key(&sk(1))] };
    assert_eq!(compile(OutputPolicy::Wsh(tap_only), Network::Regtest).unwrap_err(), SpendError::CompileError(CompileFault::UnsupportedNesting));
}

#[test]
fn create_multisig_builds_a_p2sh_address() {
    let info = create_multisig(sk(1), sk(2), sk(3)).unwrap();
    let expected = format!("sh(multi(2,{},{},{}))", hex::encode(pk(1)), hex::encode(pk(2)), hex::encode(pk(3)));
    assert_eq!(info.descriptor, expected);
    assert_eq!(info.address, ms_address(&expected));
    assert!(info.address.starts_with('2'));
    assert_eq!(info.public_keys, vec![pk(1), pk(2), pk(3)]);
    assert_eq!(info.private_keys.len(), 3);
}

#[test]
fn simple_cltv_descriptor_locks_one_key() {
    let (desc, k, p, address) = simple_cltv_descriptor(sk(9), 500).unwrap();
    assert_eq!(desc, format!("wsh(and_v(v:pk({}),after(500)))", hex::encode(pk(9))));
    assert_eq!(k, sk(9));
    assert_eq!(p, pk(9));
    assert_eq!(address, ms_address(&desc));
    assert_eq!(simple_cltv_descriptor(sk(9), 0).unwrap_err(), SpendError::PolicyInvalid(PolicyFault::BadLock));
}

#[test]
fn simple_taproot_output_commits_to_one_leaf() {
    let c = simple_taproot_output(&sk(4)).unwrap();
    let secp = bitcoin::secp256k1::Secp256k1::new();
    let internal = bitcoin::secp256k1::XOnlyPublicKey::from_slice(&x_only_public_key(&sk(4))).unwrap();
    let info = bitcoin::taproot::TaprootBuilder::new()
        .add_leaf(0, bitcoin::ScriptBuf::from_bytes(vec![0x51]))
        .unwrap()
        .finalize(&secp, internal)
        .unwrap();
    let expected = bitcoin::Address::p2tr_tweaked(info.output_key(), bitcoin::Network::Regtest);
    assert_eq!(c.address, expected.to_string());
    match &c.policy {
        OutputPolicy::Tr { tree: Some(TapTree::Leaf(s)), .. } => assert_eq!(s, &vec![0x51]),
        _ => panic!("not a one-leaf Taproot output"),
    }
}

#[test]
fn musig_tree_descriptor_matches_miniscript() {
    let (desc, address) = bitcoin_scripts::taproot_tree::musig_tree_descriptor(&sk(1), &sk(2), &sk(3), &sk(4), 500).unwrap();
    let agg = SecretKey::from_bytes(&[6u8; 32]).unwrap();
    let expected = format!(
        "tr({},or_i(and_v(v:multi_a(2,{},{},{}),after(500)),pk({})))",
        hex::encode(x_only_public_key(&agg)),
        hex::encode(x_only_public_key(&sk(1))),
        hex::encode(x_only_public_key(&sk(2))),
        hex::encode(x_only_public_key(&sk(3))),
        hex::encode(x_only_public_key(&sk(4)))
    );
    assert_eq!(desc, expected);
    let d = <miniscript::Descriptor<bitcoin::secp256k1::XOnlyPublicKey> as std::str::FromStr>::from_str(&expected).unwrap();
    assert_eq!(address, d.address(bitcoin::Network::Regtest).unwrap().to_string());
    assert!(address.starts_with("bcrt1p"));
}

#[test]
fn summed_key_outside_the_group_is_refused() {
    // 0x55 + 0x55 + 0x56 = 0x100: every byte of the sum is zero
    let r = bitcoin_scripts::taproot_tree::musig_tree_descriptor(&sk(0x55), &sk(0x55), &sk(0x56), &sk(4), 500);
    assert_eq!(r, Err(SpendError::PolicyInvalid(PolicyFault::BadKey)));
}
