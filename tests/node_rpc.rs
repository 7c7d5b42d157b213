use bitcoin_scripts::error::SpendError;
use bitcoin_scripts::rpc::{find, rejection_error, wallet_call_outcome, BitcoinRPC};

#[test]
fn default_endpoint_and_credentials() {
    let rpc = BitcoinRPC::new();
    assert_eq!(rpc.url, "http://localhost:18443");
    assert_eq!(rpc.auth, "Yml0Y29pbjpsb2NhbHRlc3Q=");
}

#[test]
fn wallet_endpoint_trims_trailing_slashes() {
    let rpc = BitcoinRPC { url: "http://node:1//".to_string(), auth: "x".to_string() };
    let w = rpc.with_wallet("testwallet");
    assert_eq!(w.url, "http://node:1/wallet/testwallet");
    assert_eq!(w.auth, "x");
    assert_eq!(BitcoinRPC::new().with_wallet("a").url, "http://localhost:18443/wallet/a");
}

#[test]
fn existing_wallets_count_as_success() {
    assert_eq!(wallet_call_outcome(-4, "Wallet file verification failed. SQLiteDatabase: Unable to obtain an exclusive lock; Database already exists.".to_string()), Ok(()));
    assert_eq!(wallet_call_outcome(-35, "Wallet \"w\" is already loaded.".to_string()), Ok(()));
    assert_eq!(
        wallet_call_outcome(-18, "Requested wallet does not exist".to_string()),
        Err(SpendError::NodeRpcError { code: -18, message: "Requested wallet does not exist".to_string() })
    );
}

#[test]
fn non_final_rejections_are_recognized() {
    assert_eq!(rejection_error(-26, "non-final".to_string(), 200), SpendError::NonFinal { min_height_or_time: 200 });
    assert_eq!(
        rejection_error(-26, "mandatory-script-verify-flag-failed".to_string(), 0),
        SpendError::NodeRpcError { code: -26, message: "mandatory-script-verify-flag-failed".to_string() }
    );
}

#[test]
fn substring_search() {
    assert!(find("abcabd", "abd"));
    assert!(find("abc", ""));
    assert!(!find("ab", "abc"));
    assert!(!find("aab", "ba"));
}
