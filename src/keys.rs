//! Key material: secret scalars, compressed and x-only public keys, key
//! tweaking and signing, all over secp256k1.
use crate::error::SpendError;
use vstd::prelude::*;

verus! {

/// The number that big-endian bytes hold.
pub open spec fn be_value(s: Seq<u8>) -> nat
    decreases s.len(),
{
    if s.len() == 0 {
        0
    } else {
        be_value(s.drop_last()) * 256 + s.last() as nat
    }
}

/// The order of the secp256k1 group.
pub open spec fn curve_order() -> nat {
    0xFFFF_FFFF_FFFF_FFFF_FFFF_FFFF_FFFF_FFFE * 0x1_0000_0000_0000_0000 * 0x1_0000_0000_0000_0000
        + 0xBAAE_DCE6_AF48_A03B_BFD2_5E8C_D036_4141
}

/// A secret key: 32 big-endian bytes of a scalar in `[1, n - 1]`.
pub open spec fn valid_secret(s: Seq<u8>) -> bool {
    s.len() == 32 && 0 < be_value(s) < curve_order()
}

/// The compressed public key of the secret `s`.
pub uninterp spec fn pubkey_of(s: Seq<u8>) -> Seq<u8>;

/// The x-only key and the parity of its Y (odd is `true`) that adding
/// `t`·G to the point of the x-only key `x` gives, if it is a point.
pub uninterp spec fn xonly_tweak_of(x: Seq<u8>, t: Seq<u8>) -> Option<(Seq<u8>, bool)>;

/// The secret of the key pair of `s` after its x-only tweak by `t`.
pub uninterp spec fn secret_tweak_of(s: Seq<u8>, t: Seq<u8>) -> Option<Seq<u8>>;

/// The DER form of the low-S RFC 6979 ECDSA signature of `s` on `m`.
pub uninterp spec fn ecdsa_der_of(s: Seq<u8>, m: Seq<u8>) -> Seq<u8>;

/// The BIP-340 signature of `s` on `m`, without auxiliary randomness.
pub uninterp spec fn schnorr_sig_of(s: Seq<u8>, m: Seq<u8>) -> Seq<u8>;

/// Relies on secp256k1's `SecretKey::from_slice`: it accepts exactly 32 bytes
/// whose number lies in `[1, n - 1]`.
#[verifier::external_body]
fn secret_in_range(b: &[u8]) -> (r: bool)
    ensures
        r == valid_secret(b@),
{
    bitcoin::secp256k1::SecretKey::from_slice(b).is_ok()
}

/// A secret key.
#[derive(Debug, PartialEq, Eq)]
pub struct SecretKey {
    bytes: Vec<u8>,
}

impl SecretKey {
    /// Every secret key holds a scalar in `[1, n - 1]`.
    #[verifier::type_invariant]
    spec fn inv(&self) -> bool {
        valid_secret(self.bytes@)
    }
}

impl View for SecretKey {
    type V = Seq<u8>;

    closed spec fn view(&self) -> Seq<u8> {
        self.bytes@
    }
}

impl SecretKey {
    /// The key of `b`, where `b` is 32 bytes of a scalar in `[1, n - 1]`.
    pub fn from_bytes(b: &[u8]) -> (r: Option<SecretKey>)
        ensures
            r is Some <==> valid_secret(b@),
            r matches Some(k) ==> k@ == b@,
    {
        if secret_in_range(b) {
            let bytes = crate::script::copy_range(b, 0, b.len());
            assert(bytes@ =~= b@);
            Some(SecretKey { bytes })
        } else {
            None
        }
    }

    /// The 32 bytes of the key.
    pub fn to_bytes(&self) -> (r: Vec<u8>)
        ensures
            r@ == self@,
    {
        self.bytes.clone()
    }

    pub fn as_slice(&self) -> (r: &[u8])
        ensures
            r@ == self@,
    {
        self.bytes.as_slice()
    }
}

/// Relies on secp256k1's `PublicKey::from_secret_key` and `serialize`: the
/// 33-byte compressed point, whose first byte is 2 or 3.
#[verifier::external_body]
pub(crate) fn public_key(sk: &SecretKey) -> (r: Vec<u8>)
    ensures
        r@ == pubkey_of(sk@),
        r@.len() == 33,
        r@[0] == 2 || r@[0] == 3,
{
    let secp = bitcoin::secp256k1::Secp256k1::new();
    let k = bitcoin::secp256k1::SecretKey::from_slice(sk.as_slice()).unwrap();
    bitcoin::secp256k1::PublicKey::from_secret_key(&secp, &k).serialize().to_vec()
}

/// The x-only form of a compressed key: its X coordinate, and whether its Y
/// is odd.
pub fn x_only(pk: &[u8]) -> (r: (Vec<u8>, bool))
    requires
        pk@.len() == 33,
    ensures
        r.0@ == pk@.subrange(1, 33),
        r.1 == (pk@[0] == 3),
{
    (crate::script::copy_range(pk, 1, 33), pk[0] == 3)
}

/// The x-only public key of a secret key.
pub fn x_only_public_key(sk: &SecretKey) -> (r: Vec<u8>)
    ensures
        r@ == pubkey_of(sk@).subrange(1, 33),
        r@.len() == 32,
{
    let pk = public_key(sk);
    x_only(pk.as_slice()).0
}

/// Relies on secp256k1's `XOnlyPublicKey::add_tweak`: the x-only key
/// `x + t·G` and its parity; `None` where `x` is not a point's X, `t` is not
/// below the group order, or the sum is the point at infinity.
#[verifier::external_body]
pub(crate) fn tweak_x_only(x: &[u8], t: &[u8]) -> (r: Option<(Vec<u8>, bool)>)
    requires
        x@.len() == 32,
        t@.len() == 32,
    ensures
        match r {
            Some((k, odd)) => xonly_tweak_of(x@, t@) == Some((k@, odd)) && k@.len() == 32,
            None => xonly_tweak_of(x@, t@) is None,
        },
{
    let secp = bitcoin::secp256k1::Secp256k1::verification_only();
    let key = bitcoin::secp256k1::XOnlyPublicKey::from_slice(x).ok()?;
    let mut tb = [0u8; 32];
    tb.copy_from_slice(t);
    let scalar = bitcoin::secp256k1::Scalar::from_be_bytes(tb).ok()?;
    let (k, parity) = key.add_tweak(&secp, &scalar).ok()?;
    Some((k.serialize().to_vec(), parity == bitcoin::secp256k1::Parity::Odd))
}

/// Relies on secp256k1's `KeyPair::add_xonly_tweak`: the secret of the key
/// pair tweaked by `t` (negated first where its point has odd Y); `None`
/// where `t` is not below the group order or the result is zero.
#[verifier::external_body]
pub(crate) fn tweak_secret(sk: &SecretKey, t: &[u8]) -> (r: Option<SecretKey>)
    requires
        t@.len() == 32,
    ensures
        match r {
            Some(k) => secret_tweak_of(sk@, t@) == Some(k@) && valid_secret(k@),
            None => secret_tweak_of(sk@, t@) is None,
        },
{
    let secp = bitcoin::secp256k1::Secp256k1::new();
    let pair = bitcoin::secp256k1::KeyPair::from_seckey_slice(&secp, sk.as_slice()).unwrap();
    let mut tb = [0u8; 32];
    tb.copy_from_slice(t);
    let scalar = bitcoin::secp256k1::Scalar::from_be_bytes(tb).ok()?;
    let tweaked = pair.add_xonly_tweak(&secp, &scalar).ok()?;
    Some(SecretKey { bytes: tweaked.secret_bytes().to_vec() })
}

/// Relies on secp256k1's `Secp256k1::sign_ecdsa` and `Signature::serialize_der`:
/// a deterministic signature, at most 72 bytes in DER form.
#[verifier::external_body]
pub(crate) fn sign_ecdsa(sk: &SecretKey, digest: &[u8]) -> (r: Vec<u8>)
    requires
        digest@.len() == 32,
    ensures
        r@ == ecdsa_der_of(sk@, digest@),
        r@.len() <= 72,
{
    let secp = bitcoin::secp256k1::Secp256k1::signing_only();
    let k = bitcoin::secp256k1::SecretKey::from_slice(sk.as_slice()).unwrap();
    let msg = bitcoin::secp256k1::Message::from_slice(digest).unwrap();
    secp.sign_ecdsa(&msg, &k).serialize_der().to_vec()
}

/// Relies on secp256k1's `Secp256k1::sign_schnorr_no_aux_rand`: a 64-byte
/// BIP-340 signature.
#[verifier::external_body]
pub(crate) fn sign_schnorr(sk: &SecretKey, digest: &[u8]) -> (r: Vec<u8>)
    requires
        digest@.len() == 32,
    ensures
        r@ == schnorr_sig_of(sk@, digest@),
        r@.len() == 64,
{
    let secp = bitcoin::secp256k1::Secp256k1::signing_only();
    let pair = bitcoin::secp256k1::KeyPair::from_seckey_slice(&secp, sk.as_slice()).unwrap();
    let msg = bitcoin::secp256k1::Message::from_slice(digest).unwrap();
    secp.sign_schnorr_no_aux_rand(&msg, &pair).as_ref().to_vec()
}

/// The byte-wise sum of three 32-byte strings, modulo 256 in each byte.
pub open spec fn summed_of(a: Seq<u8>, b: Seq<u8>, c: Seq<u8>) -> Seq<u8> {
    Seq::new(32, |i: int| ((a[i] + b[i] + c[i]) % 256) as u8)
}

/// The byte-wise sum, modulo 256 in each byte, of three secrets. A stand-in
/// for key aggregation in demonstrations only: it is not MuSig2, the result
/// need not be a valid secret, and no signature should rest on it.
pub fn summed_secret_bytes(a: &SecretKey, b: &SecretKey, c: &SecretKey) -> (r: Vec<u8>)
    ensures
        r@ == summed_of(a@, b@, c@),
{
    proof {
        use_type_invariant(a);
        use_type_invariant(b);
        use_type_invariant(c);
    }
    let mut out: Vec<u8> = Vec::new();
    let mut i: usize = 0;
    while i < 32
        invariant
            i <= 32,
            a@.len() == 32 && b@.len() == 32 && c@.len() == 32,
            out@.len() == i,
            forall|j: int| 0 <= j < i ==> #[trigger] out@[j] == ((a@[j] + b@[j] + c@[j]) % 256) as u8,
        decreases 32 - i,
    {
        let total: u16 = a.bytes[i] as u16 + b.bytes[i] as u16 + c.bytes[i] as u16;
        out.push((total % 256) as u8);
        i = i + 1;
    }
    assert(out@ =~= summed_of(a@, b@, c@));
    out
}

impl SecretKey {
    /// The compressed public key: 33 bytes, the first 2 or 3.
    pub fn derive_public(&self) -> (r: Vec<u8>)
        ensures
            r@ == pubkey_of(self@),
            r@.len() == 33,
    {
        public_key(self)
    }

    /// The DER-encoded ECDSA signature of a 32-byte digest; any other length
    /// is refused. The sighash flag byte is the caller's to append.
    pub fn sign_ecdsa(&self, digest: &[u8]) -> (r: Result<Vec<u8>, SpendError>)
        ensures
            match r {
                Ok(s) => digest@.len() == 32 && s@ == ecdsa_der_of(self@, digest@),
                Err(e) => digest@.len() != 32 && e == SpendError::SignError,
            },
    {
        if digest.len() != 32 {
            return Err(SpendError::SignError);
        }
        Ok(sign_ecdsa(self, digest))
    }

    /// The 64-byte BIP-340 signature of a 32-byte digest; any other length is
    /// refused.
    pub fn sign_schnorr(&self, digest: &[u8]) -> (r: Result<Vec<u8>, SpendError>)
        ensures
            match r {
                Ok(s) => digest@.len() == 32 && s@ == schnorr_sig_of(self@, digest@) && s@.len() == 64,
                Err(e) => digest@.len() != 32 && e == SpendError::SignError,
            },
    {
        if digest.len() != 32 {
            return Err(SpendError::SignError);
        }
        Ok(sign_schnorr(self, digest))
    }

    /// The BIP-341 tweak of this key for a Merkle root, or for none: the
    /// secret whose x-only key is this key's output key. Fails where the
    /// tweak gives no valid key.
    pub fn tap_tweak(&self, merkle_root: Option<&Vec<u8>>) -> (r: Result<SecretKey, SpendError>)
        ensures
            ({
                let t = crate::taproot::tweak_of(
                    pubkey_of(self@).subrange(1, 33),
                    match merkle_root {
                        Some(h) => Some(h@),
                        None => None,
                    },
                );
                match r {
                    Ok(k) => secret_tweak_of(self@, t) == Some(k@),
                    Err(e) => secret_tweak_of(self@, t) is None && e == SpendError::SignError,
                }
            }),
    {
        let x = x_only_public_key(self);
        let t = crate::taproot::tap_tweak(x.as_slice(), merkle_root);
        match tweak_secret(self, t.as_slice()) {
            Some(k) => Ok(k),
            None => Err(SpendError::SignError),
        }
    }
}

} // verus!
