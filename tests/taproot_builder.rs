use bitcoin_scripts::error::{CompileFault, PolicyFault, SpendError};
use bitcoin_scripts::keys::{x_only_public_key, SecretKey};
use bitcoin_scripts::taproot::{leaf_hash, merkle_root, TapTree, TaprootSpendInfo};

fn sk(b: u8) -> SecretKey {
    SecretKey::from_bytes(&[b; 32]).unwrap()
}

fn checksig_leaf(xonly: &[u8]) -> Vec<u8> {
    let mut s = vec![0x20];
    s.extend_from_slice(xonly);
    s.push(0xac);
    s
}

fn cltv_leaf(xonly: &[u8]) -> Vec<u8> {
    let mut s = vec![0x02, 0xc8, 0x00, 0xb1, 0x75, 0x20];
    s.extend_from_slice(xonly);
    s.push(0xac);
    s
}

fn branch(a: TapTree, b: TapTree) -> TapTree {
    TapTree::Branch(Box::new(a), Box::new(b))
}

fn btc_xonly(b: &[u8]) -> bitcoin::secp256k1::XOnlyPublicKey {
    bitcoin::secp256k1::XOnlyPublicKey::from_slice(b).unwrap()
}

#[test]
fn leaf_hash_and_output_key_match_rust_bitcoin() {
    let internal = x_only_public_key(&sk(5));
    let script = checksig_leaf(&x_only_public_key(&sk(2)));
    let info = TaprootSpendInfo::new(&internal, Some(&TapTree::Leaf(script.clone()))).unwrap();
    let secp = bitcoin::secp256k1::Secp256k1::new();
    let theirs = bitcoin::taproot::TaprootBuilder::new()
        .add_leaf(0, bitcoin::ScriptBuf::from_bytes(script.clone()))
        .unwrap()
        .finalize(&secp, btc_xonly(&internal))
        .unwrap();
    assert_eq!(info.output_key, theirs.output_key().to_inner().serialize().to_vec());
    assert_eq!(info.output_odd, theirs.output_key_parity() == bitcoin::secp256k1::Parity::Odd);
    let lh = bitcoin::taproot::TapLeafHash::from_script(bitcoin::Script::from_bytes(&script), bitcoin::taproot::LeafVersion::TapScript);
    assert_eq!(leaf_hash(&script), <bitcoin::taproot::TapLeafHash as bitcoin::hashes::Hash>::to_byte_array(lh).to_vec());
}

#[test]
fn control_blocks_match_rust_bitcoin() {
    let internal = x_only_public_key(&sk(7));
    let x = x_only_public_key(&sk(7));
    let l1 = checksig_leaf(&x);
    let l2 = cltv_leaf(&x);
    let tree = branch(TapTree::Leaf(l1.clone()), TapTree::Leaf(l2.clone()));
    let info = TaprootSpendInfo::new(&internal, Some(&tree)).unwrap();
    let secp = bitcoin::secp256k1::Secp256k1::new();
    let theirs = bitcoin::taproot::TaprootBuilder::new()
        .add_leaf(1, bitcoin::ScriptBuf::from_bytes(l1.clone()))
        .unwrap()
        .add_leaf(1, bitcoin::ScriptBuf::from_bytes(l2.clone()))
        .unwrap()
        .finalize(&secp, btc_xonly(&internal))
        .unwrap();
    assert_eq!(info.output_key, theirs.output_key().to_inner().serialize().to_vec());
    for (i, l) in [(0u64, &l1), (1u64, &l2)] {
        let cb = info.control_block(&tree, i).unwrap();
        let their_cb = theirs
            .control_block(&(bitcoin::ScriptBuf::from_bytes(l.clone()), bitcoin::taproot::LeafVersion::TapScript))
            .unwrap();
        assert_eq!(cb, their_cb.serialize());
        assert_eq!(cb.len(), 33 + 32);
        assert!(cb[0] == 0xc0 || cb[0] == 0xc1);
        assert_eq!(&cb[1..33], &internal[..]);
    }
    assert_eq!(info.control_block(&tree, 2), Err(SpendError::CompileError(CompileFault::UnknownLeaf)));
}

#[test]
fn output_key_ignores_leaf_order() {
    let internal = x_only_public_key(&sk(5));
    let a = checksig_leaf(&x_only_public_key(&sk(2)));
    let b = cltv_leaf(&x_only_public_key(&sk(3)));
    let c = vec![0x51];
    let t1 = branch(TapTree::Leaf(a.clone()), branch(TapTree::Leaf(b.clone()), TapTree::Leaf(c.clone())));
    let t2 = branch(branch(TapTree::Leaf(c), TapTree::Leaf(b)), TapTree::Leaf(a));
    assert_eq!(merkle_root(&t1), merkle_root(&t2));
    let i1 = TaprootSpendInfo::new(&internal, Some(&t1)).unwrap();
    let i2 = TaprootSpendInfo::new(&internal, Some(&t2)).unwrap();
    assert_eq!(i1.output_key, i2.output_key);
    assert_eq!(i1.output_odd, i2.output_odd);
}

#[test]
fn key_only_output_has_no_merkle_root() {
    let internal = x_only_public_key(&sk(5));
    let info = TaprootSpendInfo::new(&internal, None).unwrap();
    assert_eq!(info.merkle_root, None);
    let secp = bitcoin::secp256k1::Secp256k1::new();
    let theirs = bitcoin::taproot::TaprootBuilder::new().finalize(&secp, btc_xonly(&internal)).unwrap();
    assert_eq!(info.output_key, theirs.output_key().to_inner().serialize().to_vec());
}

#[test]
fn trees_deeper_than_eight_are_refused() {
    let internal = x_only_public_key(&sk(5));
    let mut t = TapTree::Leaf(vec![0x51]);
    for i in 0..9u8 {
        t = branch(t, TapTree::Leaf(vec![0x52 + (i % 10)]));
    }
    assert_eq!(TaprootSpendInfo::new(&internal, Some(&t)).unwrap_err(), SpendError::PolicyInvalid(PolicyFault::TreeTooDeep));
}

#[test]
fn bad_internal_key_cannot_be_tweaked() {
    let not_a_point = vec![0xffu8; 32];
    assert_eq!(TaprootSpendInfo::new(&not_a_point, None).unwrap_err(), SpendError::CompileError(CompileFault::BadTweak));
}

#[test]
fn signing_needs_a_32_byte_digest() {
    let k = sk(3);
    assert_eq!(k.sign_ecdsa(&[1u8; 31]), Err(SpendError::SignError));
    assert_eq!(k.sign_schnorr(&[1u8; 33]), Err(SpendError::SignError));
    let sig = k.sign_schnorr(&[1u8; 32]).unwrap();
    assert_eq!(sig.len(), 64);
    let der = k.sign_ecdsa(&[1u8; 32]).unwrap();
    assert_eq!(der[0], 0x30);
    let secp = bitcoin::secp256k1::Secp256k1::new();
    let msg = bitcoin::secp256k1::Message::from_slice(&[1u8; 32]).unwrap();
    let pk = bitcoin::secp256k1::PublicKey::from_slice(&k.derive_public()).unwrap();
    let s = bitcoin::secp256k1::ecdsa::Signature::from_der(&der).unwrap();
    assert!(secp.verify_ecdsa(&msg, &s, &pk).is_ok());
}

#[test]
fn tap_tweak_matches_rust_bitcoin() {
    let k = sk(5);
    let tweaked = k.tap_tweak(None).unwrap();
    let secp = bitcoin::secp256k1::Secp256k1::new();
    let pair = bitcoin::secp256k1::KeyPair::from_seckey_slice(&secp, &[5u8; 32]).unwrap();
    let theirs = bitcoin::key::TapTweak::tap_tweak(pair, &secp, None).to_inner();
    assert_eq!(tweaked.to_bytes(), theirs.secret_bytes().to_vec());
    let info = TaprootSpendInfo::new(&x_only_public_key(&k), None).unwrap();
    assert_eq!(x_only_public_key(&tweaked), info.output_key);
}
