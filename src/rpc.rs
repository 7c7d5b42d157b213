//! What the library decides about the node: where requests go, how they are
//! authorized, and what a node's error means for a spend.
use crate::error::SpendError;
use vstd::prelude::*;

verus! {

/// The standard base64 text of the UTF-8 bytes of `s`, with padding.
pub uninterp spec fn base64_of(s: Seq<char>) -> Seq<char>;

/// Relies on base64's `STANDARD` engine `encode`: the padded base64 text of
/// the string's bytes.
#[verifier::external_body]
fn base64_text(s: &str) -> (r: String)
    ensures
        r@ == base64_of(s@),
{
    base64::Engine::encode(&base64::engine::general_purpose::STANDARD, s)
}

/// Whether `pat` occurs in `s`.
pub open spec fn contains(s: Seq<char>, pat: Seq<char>) -> bool {
    exists|i: int| 0 <= i && i + pat.len() <= s.len() && #[trigger] s.subrange(i, i + pat.len()) == pat
}

/// `s` without the `/` characters at its end.
pub open spec fn trim_slashes(s: Seq<char>) -> Seq<char>
    decreases s.len(),
{
    if s.len() > 0 && s.last() == '/' {
        trim_slashes(s.drop_last())
    } else {
        s
    }
}

fn occurs_at(s: &str, pat: &str, i: usize, len: usize) -> (r: bool)
    requires
        i + pat@.len() <= s@.len(),
        len == s@.len(),
    ensures
        r == (s@.subrange(i as int, i + pat@.len()) == pat@),
{
    let n = pat.unicode_len();
    let mut j: usize = 0;
    while j < n
        invariant
            n == pat@.len(),
            i + n <= s@.len(),
            len == s@.len(),
            j <= n,
            forall|m: int| 0 <= m < j ==> s@[i + m] == pat@[m],
        decreases n - j,
    {
        if s.get_char(i + j) != pat.get_char(j) {
            assert(s@.subrange(i as int, i + n)[j as int] != pat@[j as int]);
            return false;
        }
        j = j + 1;
    }
    assert(s@.subrange(i as int, i + n) =~= pat@);
    true
}

/// Whether `pat` occurs in `s`.
pub fn find(s: &str, pat: &str) -> (r: bool)
    ensures
        r == contains(s@, pat@),
{
    let n = s.unicode_len();
    let m = pat.unicode_len();
    if m > n {
        return false;
    }
    let mut i: usize = 0;
    while i < n - m
        invariant
            n == s@.len(),
            m == pat@.len(),
            m <= n,
            i <= n - m,
            forall|k: int| 0 <= k < i ==> #[trigger] s@.subrange(k, k + m) != pat@,
        decreases n - m - i,
    {
        if occurs_at(s, pat, i, n) {
            return true;
        }
        i = i + 1;
    }
    occurs_at(s, pat, i, n)
}

/// The endpoint of a node's JSON-RPC interface and its basic-auth token.
#[derive(Clone, Debug, PartialEq, Eq)]
pub struct BitcoinRPC {
    pub url: String,
    pub auth: String,
}

impl BitcoinRPC {
    /// The regtest node on this machine, with its test credentials.
    pub fn new() -> (r: BitcoinRPC)
        ensures
            r.url@ == "http://localhost:18443"@,
            r.auth@ == base64_of("bitcoin:localtest"@),
    {
        BitcoinRPC { url: String::from_str("http://localhost:18443"), auth: base64_text("bitcoin:localtest") }
    }

    /// The endpoint of one wallet of the same node: the URL without its
    /// trailing slashes, then `/wallet/` and the wallet's name.
    pub fn with_wallet(&self, wallet: &str) -> (r: BitcoinRPC)
        ensures
            r.url@ == trim_slashes(self.url@) + "/wallet/"@ + wallet@,
            r.auth@ == self.auth@,
    {
        let base = self.url.as_str();
        let mut n = base.unicode_len();
        assert(base@.subrange(0, n as int) =~= base@);
        while n > 0 && base.get_char(n - 1) == '/'
            invariant
                n <= base@.len(),
                trim_slashes(base@) == trim_slashes(base@.subrange(0, n as int)),
            decreases n,
        {
            assert(base@.subrange(0, n as int).drop_last() =~= base@.subrange(0, n - 1));
            n = n - 1;
        }
        let ghost kept = base@.subrange(0, n as int);
        assert(trim_slashes(kept) == kept);
        let mut url = String::from_str(base.substring_char(0, n));
        url.append("/wallet/");
        url.append(wallet);
        BitcoinRPC { url, auth: self.auth.clone() }
    }
}

/// What a node's error on `createwallet` or `loadwallet` means: the wallet
/// is there already, which is success, or the call failed.
pub fn wallet_call_outcome(code: i64, message: String) -> (r: Result<(), SpendError>)
    ensures
        r is Ok <==> (contains(message@, "Database already exists"@) || contains(
            message@,
            "already loaded"@,
        )),
        r matches Err(e) ==> e == (SpendError::NodeRpcError { code, message }),
{
    if find(message.as_str(), "Database already exists") || find(message.as_str(), "already loaded") {
        Ok(())
    } else {
        Err(SpendError::NodeRpcError { code, message })
    }
}

/// What a node's refusal of a transaction with lock time `lock_time` means:
/// not final yet, which mining or waiting cures, or another failure passed
/// on as it came.
pub fn rejection_error(code: i64, message: String, lock_time: u32) -> (r: SpendError)
    ensures
        contains(message@, "non-final"@) ==> r == (SpendError::NonFinal { min_height_or_time: lock_time }),
        !contains(message@, "non-final"@) ==> r == (SpendError::NodeRpcError { code, message }),
{
    if find(message.as_str(), "non-final") {
        SpendError::NonFinal { min_height_or_time: lock_time }
    } else {
        SpendError::NodeRpcError { code, message }
    }
}

} // verus!
