use bitcoin_scripts::hashes::{sha256d, tagged_hash, Tag};
use bitcoin_scripts::sighash::{signature_hash, SighashMode};
use bitcoin_scripts::error::SpendError;
use bitcoin_scripts::tx::{serialize, OutPoint, Transaction, TxIn, TxOut};

fn sample_tx(with_witness: bool) -> Transaction {
    let witness = if with_witness { vec![vec![1u8, 2, 3], vec![], vec![0xaa; 80]] } else { vec![] };
    Transaction {
        version: 2,
        lock_time: 200,
        input: vec![
            TxIn {
                previous_output: OutPoint { txid: (0u8..32).collect(), vout: 1 },
                script_sig: vec![],
                sequence: 0xffff_fffd,
                witness,
            },
            TxIn {
                previous_output: OutPoint { txid: vec![0x42; 32], vout: 7 },
                script_sig: vec![0x51],
                sequence: 10,
                witness: vec![],
            },
        ],
        output: vec![
            TxOut { value: 9_900_000, script_pubkey: vec![0x00, 0x14, 1, 2, 3, 4, 5, 6, 7, 8, 9, 10, 11, 12, 13, 14, 15, 16, 17, 18, 19, 20] },
            TxOut { value: 1, script_pubkey: vec![0x6a] },
        ],
    }
}

fn to_btc(tx: &Transaction) -> bitcoin::Transaction {
    bitcoin::Transaction {
        version: tx.version as i32,
        lock_time: bitcoin::absolute::LockTime::from_consensus(tx.lock_time),
        input: tx
            .input
            .iter()
            .map(|i| {
                let mut arr = [0u8; 32];
                arr.copy_from_slice(&i.previous_output.txid);
                bitcoin::TxIn {
                    previous_output: bitcoin::OutPoint {
                        txid: <bitcoin::Txid as bitcoin::hashes::Hash>::from_byte_array(arr),
                        vout: i.previous_output.vout,
                    },
                    script_sig: bitcoin::ScriptBuf::from_bytes(i.script_sig.clone()),
                    sequence: bitcoin::Sequence(i.sequence),
                    witness: bitcoin::Witness::from_slice(&i.witness),
                }
            })
            .collect(),
        output: tx
            .output
            .iter()
            .map(|o| bitcoin::TxOut { value: o.value, script_pubkey: bitcoin::ScriptBuf::from_bytes(o.script_pubkey.clone()) })
            .collect(),
    }
}

#[test]
fn hashes_match_known_digests() {
    assert_eq!(hex::encode(sha256d(b"")), "5df6e0e2761359d30a8275058e299fcc0381534545f55cf43e41983f5d4c9456");
    assert_eq!(hex::encode(sha256d(b"abc")), "4f8b42c22dd3729b519ba6f68d2da7cc5b2d606d05daed5ad5128cc03e6c6358");
    let leaf = tagged_hash(Tag::TapLeaf, &[0xc0, 0x01, 0x51]);
    let theirs = bitcoin::taproot::TapLeafHash::from_script(bitcoin::Script::from_bytes(&[0x51]), bitcoin::taproot::LeafVersion::TapScript);
    assert_eq!(leaf, <bitcoin::taproot::TapLeafHash as bitcoin::hashes::Hash>::to_byte_array(theirs).to_vec());
}

#[test]
fn serialization_matches_consensus_encoding() {
    for w in [false, true] {
        let tx = sample_tx(w);
        assert_eq!(serialize(&tx), bitcoin::consensus::encode::serialize(&to_btc(&tx)));
    }
}

#[test]
fn witness_serialization_has_marker_and_flag() {
    let tx = sample_tx(true);
    let bytes = serialize(&tx);
    assert_eq!(&bytes[4..6], &[0x00, 0x01]);
    let plain = serialize(&sample_tx(false));
    assert_ne!(plain[4], 0x00);
}

#[test]
fn legacy_sighash_matches_rust_bitcoin() {
    let tx = sample_tx(false);
    let sc = vec![0x76, 0xa9, 0x14, 1, 2, 3, 4, 5, 6, 7, 8, 9, 10, 11, 12, 13, 14, 15, 16, 17, 18, 19, 20, 0x88, 0xac];
    let ours = signature_hash(&tx, 1, &SighashMode::Legacy { script_code: sc.clone() }).unwrap();
    let btc = to_btc(&tx);
    let cache = bitcoin::sighash::SighashCache::new(&btc);
    let theirs = cache.legacy_signature_hash(1, bitcoin::Script::from_bytes(&sc), 1).unwrap();
    assert_eq!(ours, <bitcoin::sighash::LegacySighash as bitcoin::hashes::Hash>::to_byte_array(theirs).to_vec());
}

#[test]
fn segwit_v0_sighash_matches_rust_bitcoin() {
    let tx = sample_tx(false);
    let sc = vec![0x51, 0xac];
    let ours = signature_hash(&tx, 0, &SighashMode::SegwitV0 { script_code: sc.clone(), amount: 10_000_000 }).unwrap();
    let btc = to_btc(&tx);
    let mut cache = bitcoin::sighash::SighashCache::new(&btc);
    let theirs = cache
        .segwit_signature_hash(0, bitcoin::Script::from_bytes(&sc), 10_000_000, bitcoin::sighash::EcdsaSighashType::All)
        .unwrap();
    assert_eq!(ours, <bitcoin::sighash::SegwitV0Sighash as bitcoin::hashes::Hash>::to_byte_array(theirs).to_vec());
}

#[test]
fn taproot_sighashes_match_rust_bitcoin() {
    let tx = sample_tx(false);
    let prevouts = vec![
        TxOut { value: 10_000_000, script_pubkey: [vec![0x51, 0x20], vec![5u8; 32]].concat() },
        TxOut { value: 20_000, script_pubkey: vec![0x00, 0x14, 9, 9, 9, 9, 9, 9, 9, 9, 9, 9, 9, 9, 9, 9, 9, 9, 9, 9, 9, 9] },
    ];
    let btc = to_btc(&tx);
    let btc_prev: Vec<bitcoin::TxOut> = prevouts
        .iter()
        .map(|o| bitcoin::TxOut { value: o.value, script_pubkey: bitcoin::ScriptBuf::from_bytes(o.script_pubkey.clone()) })
        .collect();
    let mut cache = bitcoin::sighash::SighashCache::new(&btc);
    let key = signature_hash(&tx, 0, &SighashMode::TaprootKey { prevouts: prevouts.clone() }).unwrap();
    let theirs = cache
        .taproot_key_spend_signature_hash(0, &bitcoin::sighash::Prevouts::All(&btc_prev), bitcoin::sighash::TapSighashType::Default)
        .unwrap();
    assert_eq!(key, <bitcoin::sighash::TapSighash as bitcoin::hashes::Hash>::to_byte_array(theirs).to_vec());
    let leaf = vec![0x77u8; 32];
    let script = signature_hash(&tx, 1, &SighashMode::TaprootScript { prevouts: prevouts.clone(), leaf_hash: leaf.clone() }).unwrap();
    let mut arr = [0u8; 32];
    arr.copy_from_slice(&leaf);
    let lh = <bitcoin::taproot::TapLeafHash as bitcoin::hashes::Hash>::from_byte_array(arr);
    let theirs = cache
        .taproot_script_spend_signature_hash(1, &bitcoin::sighash::Prevouts::All(&btc_prev), lh, bitcoin::sighash::TapSighashType::Default)
        .unwrap();
    assert_eq!(script, <bitcoin::sighash::TapSighash as bitcoin::hashes::Hash>::to_byte_array(theirs).to_vec());
}

#[test]
fn sighash_errors_on_bad_index_or_prevouts() {
    let tx = sample_tx(false);
    assert_eq!(signature_hash(&tx, 2, &SighashMode::Legacy { script_code: vec![] }), Err(SpendError::SighashError));
    let one = vec![TxOut { value: 1, script_pubkey: vec![0x51] }];
    assert_eq!(signature_hash(&tx, 0, &SighashMode::TaprootKey { prevouts: one }), Err(SpendError::SighashError));
}
