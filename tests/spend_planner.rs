use bitcoin_scripts::error::SpendError;
use bitcoin_scripts::keys::{x_only_public_key, SecretKey};
use bitcoin_scripts::planner::{plan_spend, SpendPath, TimeLock};
use bitcoin_scripts::policy::{compile, CompiledOutput, Network, OutputPolicy, Policy};
use bitcoin_scripts::script::{parse_script, Instruction};
use bitcoin_scripts::taproot::TapTree;
use bitcoin_scripts::tx::{serialize, OutPoint, Transaction};

fn sk(b: u8) -> SecretKey {
    SecretKey::from_bytes(&[b; 32]).unwrap()
}

fn pk(b: u8) -> Vec<u8> {
    sk(b).derive_public()
}

fn funding() -> OutPoint {
    OutPoint { txid: (1u8..=32).collect(), vout: 1 }
}

fn destination() -> Vec<u8> {
    let mut s = vec![0x00, 0x14];
    s.extend_from_slice(&[0x11; 20]);
    s
}

const VALUE: u64 = 10_000_000;
const FEE: u64 = 100_000;

fn to_btc(tx: &Transaction) -> bitcoin::Transaction {
    bitcoin::consensus::encode::deserialize(&serialize(tx)).unwrap()
}

fn ecdsa_ok(sig_with_flag: &[u8], digest: &[u8], key: &[u8]) -> bool {
    let secp = bitcoin::secp256k1::Secp256k1::verification_only();
    assert_eq!(*sig_with_flag.last().unwrap(), 0x01);
    let sig = bitcoin::secp256k1::ecdsa::Signature::from_der(&sig_with_flag[..sig_with_flag.len() - 1]).unwrap();
    let msg = bitcoin::secp256k1::Message::from_slice(digest).unwrap();
    let key = bitcoin::secp256k1::PublicKey::from_slice(key).unwrap();
    secp.verify_ecdsa(&msg, &sig, &key).is_ok()
}

fn schnorr_ok(sig: &[u8], digest: &[u8], xonly: &[u8]) -> bool {
    let secp = bitcoin::secp256k1::Secp256k1::verification_only();
    let sig = bitcoin::secp256k1::schnorr::Signature::from_slice(sig).unwrap();
    let msg = bitcoin::secp256k1::Message::from_slice(digest).unwrap();
    let key = bitcoin::secp256k1::XOnlyPublicKey::from_slice(xonly).unwrap();
    secp.verify_schnorr(&sig, &msg, &key).is_ok()
}

fn segwit_digest(tx: &Transaction, ws: &[u8]) -> Vec<u8> {
    let btc = to_btc(tx);
    let mut cache = bitcoin::sighash::SighashCache::new(&btc);
    let h = cache
        .segwit_signature_hash(0, bitcoin::Script::from_bytes(ws), VALUE, bitcoin::sighash::EcdsaSighashType::All)
        .unwrap();
    <bitcoin::sighash::SegwitV0Sighash as bitcoin::hashes::Hash>::to_byte_array(h).to_vec()
}

fn prevout(c: &CompiledOutput) -> Vec<bitcoin::TxOut> {
    vec![bitcoin::TxOut { value: VALUE, script_pubkey: bitcoin::ScriptBuf::from_bytes(c.script_pubkey.clone()) }]
}

fn timelock_output(lock: Policy) -> CompiledOutput {
    let q = Policy::Or(
        Box::new(Policy::Pk(pk(8))),
        Box::new(Policy::And(
            Box::new(Policy::MultiLegacy { k: 2, keys: vec![pk(5), pk(6), pk(7)] }),
            Box::new(lock),
        )),
    );
    compile(OutputPolicy::Wsh(q), Network::Regtest).unwrap()
}

#[test]
fn legacy_two_of_three_multisig_spend() {
    let c = compile(OutputPolicy::Sh(Policy::MultiLegacy { k: 2, keys: vec![pk(1), pk(2), pk(3)] }), Network::Regtest).unwrap();
    let path = SpendPath::Multi(vec![Some(sk(1)), Some(sk(2)), None]);
    let tx = plan_spend(&c, &path, &funding(), VALUE, &destination(), FEE).unwrap();
    assert_eq!(tx.output[0].value, VALUE - FEE);
    assert_eq!(tx.lock_time, 0);
    assert_eq!(tx.input[0].sequence, 0xffff_fffd);
    assert!(tx.input[0].witness.is_empty());
    let redeem = c.script.clone().unwrap();
    let ins = parse_script(&tx.input[0].script_sig).unwrap();
    assert_eq!(ins.len(), 4);
    assert_eq!(ins[0], Instruction::Push(vec![]));
    assert_eq!(ins[3], Instruction::Push(redeem.clone()));
    let btc = to_btc(&tx);
    let cache = bitcoin::sighash::SighashCache::new(&btc);
    let h = cache.legacy_signature_hash(0, bitcoin::Script::from_bytes(&redeem), 1).unwrap();
    let digest = <bitcoin::sighash::LegacySighash as bitcoin::hashes::Hash>::to_byte_array(h);
    for (k, i) in [(1u8, 1usize), (2, 2)] {
        match &ins[i] {
            Instruction::Push(sig) => assert!(ecdsa_ok(sig, &digest, &pk(k))),
            _ => panic!("expected a signature push"),
        }
    }
}

#[test]
fn cltv_disjunction_backup_key_branch() {
    let c = timelock_output(Policy::After(10));
    let tx = plan_spend(&c, &SpendPath::Key(sk(8)), &funding(), VALUE, &destination(), FEE).unwrap();
    assert_eq!(tx.lock_time, 0);
    assert_eq!(tx.input[0].sequence, 0xffff_fffd);
    let ws = c.script.clone().unwrap();
    let w = &tx.input[0].witness;
    assert_eq!(w.len(), 2);
    assert_eq!(w[1], ws);
    assert!(ecdsa_ok(&w[0], &segwit_digest(&tx, &ws), &pk(8)));
}

#[test]
fn cltv_disjunction_timed_multisig_branch() {
    let c = timelock_output(Policy::After(10));
    let path = SpendPath::Multi(vec![Some(sk(5)), Some(sk(6)), None]);
    let tx = plan_spend(&c, &path, &funding(), VALUE, &destination(), FEE).unwrap();
    assert_eq!(tx.lock_time, 10);
    assert!(tx.input[0].sequence <= 0xffff_fffe);
    let ws = c.script.clone().unwrap();
    let w = &tx.input[0].witness;
    assert_eq!(w.len(), 5);
    assert!(w[0].is_empty());
    assert!(w[3].is_empty());
    assert_eq!(w[4], ws);
    let digest = segwit_digest(&tx, &ws);
    assert!(ecdsa_ok(&w[1], &digest, &pk(5)));
    assert!(ecdsa_ok(&w[2], &digest, &pk(6)));
}

#[test]
fn csv_disjunction_timed_multisig_branch() {
    let c = timelock_output(Policy::Older(10));
    let path = SpendPath::Multi(vec![None, Some(sk(6)), Some(sk(7))]);
    let tx = plan_spend(&c, &path, &funding(), VALUE, &destination(), FEE).unwrap();
    assert_eq!(tx.version, 2);
    assert_eq!(tx.input[0].sequence, 10);
    assert_eq!(tx.lock_time, 0);
    let ws = c.script.clone().unwrap();
    let digest = segwit_digest(&tx, &ws);
    let w = &tx.input[0].witness;
    assert!(ecdsa_ok(&w[1], &digest, &pk(6)));
    assert!(ecdsa_ok(&w[2], &digest, &pk(7)));
}

#[test]
fn taproot_key_path_spend() {
    let c = compile(OutputPolicy::Tr { internal: x_only_public_key(&sk(5)), tree: None }, Network::Regtest).unwrap();
    let tx = plan_spend(&c, &SpendPath::TaprootKey(sk(5)), &funding(), VALUE, &destination(), FEE).unwrap();
    let w = &tx.input[0].witness;
    assert_eq!(w.len(), 1);
    assert_eq!(w[0].len(), 64);
    let btc = to_btc(&tx);
    let mut cache = bitcoin::sighash::SighashCache::new(&btc);
    let h = cache
        .taproot_key_spend_signature_hash(0, &bitcoin::sighash::Prevouts::All(&prevout(&c)), bitcoin::sighash::TapSighashType::Default)
        .unwrap();
    let digest = <bitcoin::sighash::TapSighash as bitcoin::hashes::Hash>::to_byte_array(h);
    let output_key = &c.script_pubkey[2..];
    assert!(schnorr_ok(&w[0], &digest, output_key));
}

fn checksig_leaf(b: u8) -> Vec<u8> {
    let mut s = vec![0x20];
    s.extend_from_slice(&x_only_public_key(&sk(b)));
    s.push(0xac);
    s
}

fn script_digest(tx: &Transaction, c: &CompiledOutput, leaf: &[u8]) -> [u8; 32] {
    let btc = to_btc(tx);
    let mut cache = bitcoin::sighash::SighashCache::new(&btc);
    let lh = bitcoin::taproot::TapLeafHash::from_script(bitcoin::Script::from_bytes(leaf), bitcoin::taproot::LeafVersion::TapScript);
    let h = cache
        .taproot_script_spend_signature_hash(0, &bitcoin::sighash::Prevouts::All(&prevout(c)), lh, bitcoin::sighash::TapSighashType::Default)
        .unwrap();
    <bitcoin::sighash::TapSighash as bitcoin::hashes::Hash>::to_byte_array(h)
}

#[test]
fn taproot_single_leaf_script_spend() {
    let leaf = checksig_leaf(2);
    let internal = x_only_public_key(&sk(5));
    let c = compile(OutputPolicy::Tr { internal: internal.clone(), tree: Some(TapTree::Leaf(leaf.clone())) }, Network::Regtest).unwrap();
    let path = SpendPath::TaprootLeaf { leaf: 0, signers: vec![Some(sk(2))], lock: TimeLock::NoLock };
    let tx = plan_spend(&c, &path, &funding(), VALUE, &destination(), FEE).unwrap();
    let w = &tx.input[0].witness;
    assert_eq!(w.len(), 3);
    assert_eq!(w[1], leaf);
    let cb = &w[2];
    assert!(cb[0] == 0xc0 || cb[0] == 0xc1);
    assert_eq!(&cb[1..33], &internal[..]);
    assert_eq!(cb.len(), 33);
    assert!(schnorr_ok(&w[0], &script_digest(&tx, &c, &leaf), &x_only_public_key(&sk(2))));
}

#[test]
fn taproot_two_leaf_tree_with_cltv_leaf() {
    let x = x_only_public_key(&sk(7));
    let l1 = checksig_leaf(7);
    let mut l2 = vec![0x02, 0xc8, 0x00, 0xb1, 0x75, 0x20];
    l2.extend_from_slice(&x);
    l2.push(0xac);
    let tree = TapTree::Branch(Box::new(TapTree::Leaf(l1.clone())), Box::new(TapTree::Leaf(l2.clone())));
    let c = compile(OutputPolicy::Tr { internal: x.clone(), tree: Some(tree) }, Network::Regtest).unwrap();
    let first = plan_spend(&c, &SpendPath::TaprootLeaf { leaf: 0, signers: vec![Some(sk(7))], lock: TimeLock::NoLock }, &funding(), VALUE, &destination(), FEE).unwrap();
    assert_eq!(first.lock_time, 0);
    assert_eq!(first.input[0].witness[1], l1);
    assert!(schnorr_ok(&first.input[0].witness[0], &script_digest(&first, &c, &l1), &x));
    let second = plan_spend(&c, &SpendPath::TaprootLeaf { leaf: 1, signers: vec![Some(sk(7))], lock: TimeLock::After(200) }, &funding(), VALUE, &destination(), FEE).unwrap();
    assert_eq!(second.lock_time, 200);
    assert!(second.input[0].sequence <= 0xffff_fffe);
    assert_eq!(second.input[0].witness[1], l2);
    assert_eq!(second.input[0].witness[2].len(), 65);
    assert!(schnorr_ok(&second.input[0].witness[0], &script_digest(&second, &c, &l2), &x));
}

#[test]
fn paths_the_output_does_not_offer_are_unsatisfiable() {
    let c = timelock_output(Policy::After(10));
    let one_signer = SpendPath::Multi(vec![Some(sk(5)), None, None]);
    assert_eq!(plan_spend(&c, &one_signer, &funding(), VALUE, &destination(), FEE), Err(SpendError::PathUnsatisfiable));
    let short = SpendPath::Multi(vec![Some(sk(5)), Some(sk(6))]);
    assert_eq!(plan_spend(&c, &short, &funding(), VALUE, &destination(), FEE), Err(SpendError::PathUnsatisfiable));
    assert_eq!(plan_spend(&c, &SpendPath::TaprootKey(sk(5)), &funding(), VALUE, &destination(), FEE), Err(SpendError::PathUnsatisfiable));
    let key_only = compile(OutputPolicy::Tr { internal: x_only_public_key(&sk(5)), tree: None }, Network::Regtest).unwrap();
    let leaf = SpendPath::TaprootLeaf { leaf: 0, signers: vec![Some(sk(5))], lock: TimeLock::NoLock };
    assert_eq!(plan_spend(&key_only, &leaf, &funding(), VALUE, &destination(), FEE), Err(SpendError::PathUnsatisfiable));
}

#[test]
fn branch_witnesses_differ_between_paths() {
    let c = timelock_output(Policy::After(10));
    let a = plan_spend(&c, &SpendPath::Key(sk(8)), &funding(), VALUE, &destination(), FEE).unwrap();
    let b = plan_spend(&c, &SpendPath::Multi(vec![Some(sk(5)), Some(sk(6)), None]), &funding(), VALUE, &destination(), FEE).unwrap();
    assert_ne!(a.input[0].witness.len(), b.input[0].witness.len());
    let ws = c.script.clone().unwrap();
    assert!(!ecdsa_ok(&b.input[0].witness[1], &segwit_digest(&b, &ws), &pk(8)));
}

#[test]
fn signed_transactions_round_trip() {
    let c = timelock_output(Policy::Older(10));
    let tx = plan_spend(&c, &SpendPath::Multi(vec![Some(sk(5)), Some(sk(6)), None]), &funding(), VALUE, &destination(), FEE).unwrap();
    let bytes = serialize(&tx);
    let back: bitcoin::Transaction = bitcoin::consensus::encode::deserialize(&bytes).unwrap();
    assert_eq!(bitcoin::consensus::encode::serialize(&back), bytes);
}

#[test]
fn key_hash_spends_sign_with_the_committed_key() {
    let c = compile(OutputPolicy::Pkh(pk(1)), Network::Regtest).unwrap();
    let tx = plan_spend(&c, &SpendPath::Key(sk(1)), &funding(), VALUE, &destination(), FEE).unwrap();
    let ins = parse_script(&tx.input[0].script_sig).unwrap();
    assert_eq!(ins.len(), 2);
    assert_eq!(ins[1], Instruction::Push(pk(1)));
    let btc = to_btc(&tx);
    let cache = bitcoin::sighash::SighashCache::new(&btc);
    let h = cache.legacy_signature_hash(0, bitcoin::Script::from_bytes(&c.script_pubkey), 1).unwrap();
    let digest = <bitcoin::sighash::LegacySighash as bitcoin::hashes::Hash>::to_byte_array(h);
    match &ins[0] {
        Instruction::Push(sig) => assert!(ecdsa_ok(sig, &digest, &pk(1))),
        _ => panic!("expected a signature push"),
    }

    let w = compile(OutputPolicy::Wpkh(pk(2)), Network::Regtest).unwrap();
    let tx = plan_spend(&w, &SpendPath::Key(sk(2)), &funding(), VALUE, &destination(), FEE).unwrap();
    assert!(tx.input[0].script_sig.is_empty());
    assert_eq!(tx.input[0].witness.len(), 2);
    assert_eq!(tx.input[0].witness[1], pk(2));
    let mut code = vec![0x76, 0xa9, 0x14];
    code.extend_from_slice(&w.script_pubkey[2..]);
    code.extend_from_slice(&[0x88, 0xac]);
    assert!(ecdsa_ok(&tx.input[0].witness[0], &segwit_digest(&tx, &code), &pk(2)));
}

#[test]
fn fee_is_taken_from_the_single_input() {
    let c = compile(OutputPolicy::Wpkh(pk(2)), Network::Regtest).unwrap();
    let tx = plan_spend(&c, &SpendPath::Key(sk(2)), &funding(), 5000, &destination(), 5000).unwrap();
    assert_eq!(tx.output.len(), 1);
    assert_eq!(tx.output[0].value, 0);
    assert_eq!(tx.input.len(), 1);
    assert_eq!(tx.input[0].previous_output, funding());
}

#[test]
fn signers_must_hold_the_committed_keys() {
    let c = timelock_output(Policy::After(10));
    assert_eq!(plan_spend(&c, &SpendPath::Key(sk(5)), &funding(), VALUE, &destination(), FEE), Err(SpendError::PathUnsatisfiable));
    let swapped = SpendPath::Multi(vec![Some(sk(6)), Some(sk(5)), None]);
    assert_eq!(plan_spend(&c, &swapped, &funding(), VALUE, &destination(), FEE), Err(SpendError::PathUnsatisfiable));
    let tr = compile(OutputPolicy::Tr { internal: x_only_public_key(&sk(5)), tree: None }, Network::Regtest).unwrap();
    assert_eq!(plan_spend(&tr, &SpendPath::TaprootKey(sk(6)), &funding(), VALUE, &destination(), FEE), Err(SpendError::PathUnsatisfiable));
    let pkh = compile(OutputPolicy::Pkh(pk(1)), Network::Regtest).unwrap();
    assert_eq!(plan_spend(&pkh, &SpendPath::Key(sk(2)), &funding(), VALUE, &destination(), FEE), Err(SpendError::PathUnsatisfiable));
}
