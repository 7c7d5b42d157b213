use bitcoin_scripts::decode::parse_tx;
use bitcoin_scripts::error::{PolicyFault, SpendError};
use bitcoin_scripts::keys::{x_only_public_key, SecretKey};
use bitcoin_scripts::tapscript::{checksig_leaf, locked_checksig_leaf, multi_a_leaf};
use bitcoin_scripts::tx::{serialize, OutPoint, Transaction, TxIn, TxOut};

fn sk(b: u8) -> SecretKey {
    SecretKey::from_bytes(&[b; 32]).unwrap()
}

fn xonly(b: u8) -> Vec<u8> {
    x_only_public_key(&sk(b))
}

fn btc_x(b: u8) -> bitcoin::secp256k1::XOnlyPublicKey {
    bitcoin::secp256k1::XOnlyPublicKey::from_slice(&xonly(b)).unwrap()
}

#[test]
fn checksig_leaf_matches_rust_bitcoin_builder() {
    let theirs = bitcoin::blockdata::script::Builder::new()
        .push_x_only_key(&btc_x(2))
        .push_opcode(bitcoin::opcodes::all::OP_CHECKSIG)
        .into_script();
    assert_eq!(checksig_leaf(&xonly(2)), theirs.to_bytes());
}

#[test]
fn cltv_leaf_matches_rust_bitcoin_builder() {
    let theirs = bitcoin::blockdata::script::Builder::new()
        .push_int(200)
        .push_opcode(bitcoin::opcodes::all::OP_CLTV)
        .push_opcode(bitcoin::opcodes::all::OP_DROP)
        .push_x_only_key(&btc_x(7))
        .push_opcode(bitcoin::opcodes::all::OP_CHECKSIG)
        .into_script();
    assert_eq!(locked_checksig_leaf(200, false, &xonly(7)), theirs.to_bytes());
    let csv = locked_checksig_leaf(10, true, &xonly(7));
    assert_eq!(&csv[..3], &[0x5a, 0xb2, 0x75]);
}

#[test]
fn multi_a_leaf_matches_miniscript() {
    let text = format!("multi_a(2,{},{},{})", hex::encode(xonly(1)), hex::encode(xonly(2)), hex::encode(xonly(3)));
    let ms = <miniscript::Miniscript<bitcoin::secp256k1::XOnlyPublicKey, miniscript::Tap> as std::str::FromStr>::from_str(&text).unwrap();
    let ours = multi_a_leaf(2, &vec![xonly(1), xonly(2), xonly(3)]).unwrap();
    assert_eq!(ours, ms.encode().to_bytes());
    assert_eq!(multi_a_leaf(4, &vec![xonly(1), xonly(2), xonly(3)]), Err(SpendError::PolicyInvalid(PolicyFault::BadThreshold)));
    assert_eq!(multi_a_leaf(1, &vec![vec![1u8; 33]]), Err(SpendError::PolicyInvalid(PolicyFault::BadKey)));
}

fn sample(with_witness: bool) -> Transaction {
    Transaction {
        version: 2,
        lock_time: 200,
        input: vec![TxIn {
            previous_output: OutPoint { txid: vec![9u8; 32], vout: 3 },
            script_sig: if with_witness { vec![] } else { vec![0x00, 0x01, 0x02] },
            sequence: 0xffff_fffe,
            witness: if with_witness { vec![vec![0x30; 71], vec![], vec![0x51; 300]] } else { vec![] },
        }],
        output: vec![TxOut { value: 9_900_000, script_pubkey: vec![0x51, 0x20, 1, 2, 3] }],
    }
}

#[test]
fn parsing_a_serialized_transaction_gives_it_back() {
    for w in [false, true] {
        let tx = sample(w);
        let bytes = serialize(&tx);
        let back = parse_tx(&bytes).unwrap();
        assert_eq!(back, tx);
        assert_eq!(serialize(&back), bytes);
    }
}

#[test]
fn parse_refuses_truncated_or_trailing_bytes() {
    let bytes = serialize(&sample(true));
    assert_eq!(parse_tx(&bytes[..bytes.len() - 1]), None);
    let mut longer = bytes.clone();
    longer.push(0);
    assert_eq!(parse_tx(&longer), None);
    assert_eq!(parse_tx(&[]), None);
}

#[test]
fn parse_refuses_a_non_minimal_count() {
    let mut bytes = serialize(&sample(false));
    // the input count 1, written in three bytes instead of one
    bytes.splice(4..5, [0xfd, 0x01, 0x00]);
    assert_eq!(parse_tx(&bytes), None);
}
