//! ASCII text: lowercase hexadecimal and decimal digits.
use vstd::prelude::*;

verus! {

pub open spec fn hex_digit(n: nat) -> u8 {
    if n < 10 {
        (48 + n) as u8
    } else {
        (87 + n) as u8
    }
}

/// Two lowercase hexadecimal digits per byte, high nibble first.
pub open spec fn hex_ascii(b: Seq<u8>) -> Seq<u8>
    decreases b.len(),
{
    if b.len() == 0 {
        Seq::empty()
    } else {
        hex_ascii(b.drop_last()) + seq![hex_digit(b.last() as nat / 16), hex_digit(b.last() as nat % 16)]
    }
}

/// The decimal digits of `n`, without leading zeros.
pub open spec fn dec_ascii(n: nat) -> Seq<u8>
    decreases n,
{
    if n < 10 {
        seq![(48 + n) as u8]
    } else {
        dec_ascii(n / 10) + seq![(48 + n % 10) as u8]
    }
}

pub open spec fn is_ascii_bytes(b: Seq<u8>) -> bool {
    forall|i: int| 0 <= i < b.len() ==> #[trigger] b[i] < 128
}

/// The characters of ASCII bytes.
pub open spec fn ascii_text(b: Seq<u8>) -> Seq<char> {
    b.map_values(|x: u8| x as char)
}

/// Relies on std's `String::from_utf8`: ASCII bytes are valid UTF-8, one
/// character per byte.
#[verifier::external_body]
pub(crate) fn ascii_string(b: Vec<u8>) -> (r: String)
    requires
        is_ascii_bytes(b@),
    ensures
        r@ == ascii_text(b@),
{
    String::from_utf8(b).unwrap()
}

fn nibble(n: u8) -> (r: u8)
    requires
        n < 16,
    ensures
        r == hex_digit(n as nat),
        r < 128,
{
    if n < 10 {
        48 + n
    } else {
        87 + n
    }
}

/// Appends the hexadecimal digits of `b`.
pub fn push_hex(out: &mut Vec<u8>, b: &[u8])
    requires
        is_ascii_bytes(old(out)@),
    ensures
        final(out)@ == old(out)@ + hex_ascii(b@),
        is_ascii_bytes(final(out)@),
{
    let ghost start = out@;
    let mut k: usize = 0;
    while k < b.len()
        invariant
            k <= b@.len(),
            out@ == start + hex_ascii(b@.take(k as int)),
            is_ascii_bytes(out@),
        decreases b@.len() - k,
    {
        out.push(nibble(b[k] / 16));
        out.push(nibble(b[k] % 16));
        assert(b@.take(k + 1).drop_last() =~= b@.take(k as int));
        k = k + 1;
        assert(out@ =~= start + hex_ascii(b@.take(k as int)));
    }
    assert(b@.take(k as int) =~= b@);
}

/// Appends the decimal digits of `n`.
pub fn push_decimal(out: &mut Vec<u8>, n: u64)
    requires
        is_ascii_bytes(old(out)@),
    ensures
        final(out)@ == old(out)@ + dec_ascii(n as nat),
        is_ascii_bytes(final(out)@),
    decreases n,
{
    let ghost start = out@;
    if n >= 10 {
        push_decimal(out, n / 10);
    }
    out.push((48 + n % 10) as u8);
    assert(out@ =~= start + dec_ascii(n as nat));
}

/// The hexadecimal text of `b`.
pub fn hex_string(b: &[u8]) -> (r: String)
    ensures
        r@ == ascii_text(hex_ascii(b@)),
{
    let mut out: Vec<u8> = Vec::new();
    push_hex(&mut out, b);
    assert(out@ =~= hex_ascii(b@));
    ascii_string(out)
}

/// The decimal text of `n`.
pub fn decimal_string(n: u64) -> (r: String)
    ensures
        r@ == ascii_text(dec_ascii(n as nat)),
{
    let mut out: Vec<u8> = Vec::new();
    push_decimal(&mut out, n);
    assert(out@ =~= dec_ascii(n as nat));
    ascii_string(out)
}

} // verus!
