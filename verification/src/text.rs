//! Textual forms used by the trade-id derivation: decimal digits of
//! integers and the lower-case hex form of a byte string.
use vstd::prelude::*;

verus! {

/// ASCII digits of `n` in decimal, most significant first.
pub open spec fn spec_decimal_u64(n: nat) -> Seq<u8>
    decreases n,
{
    if n < 10 {
        seq![(48 + n) as u8]
    } else {
        spec_decimal_u64(n / 10) + seq![(48 + n % 10) as u8]
    }
}

/// ASCII form of a signed value: a minus sign before the digits of the
/// magnitude when negative.
pub open spec fn spec_decimal_i64(n: int) -> Seq<u8> {
    if n < 0 {
        seq![45u8] + spec_decimal_u64((-n) as nat)
    } else {
        spec_decimal_u64(n as nat)
    }
}

/// Appends the decimal digits of `n` to `out`.
pub fn push_decimal_u64(out: &mut Vec<u8>, n: u64)
    ensures
        final(out)@ == old(out)@ + spec_decimal_u64(n as nat),
    decreases n,
{
    if n < 10 {
        out.push(48 + n as u8);
        assert(out@ =~= old(out)@ + spec_decimal_u64(n as nat));
    } else {
        assert(n / 10 < n && n % 10 < 10) by (nonlinear_arith)
            requires
                n >= 10,
        ;
        push_decimal_u64(out, n / 10);
        out.push(48 + (n % 10) as u8);
        assert(out@ =~= old(out)@ + spec_decimal_u64(n as nat));
    }
}

/// Appends the decimal form of `n`, minus sign included when negative.
pub fn push_decimal_i64(out: &mut Vec<u8>, n: i64)
    ensures
        final(out)@ == old(out)@ + spec_decimal_i64(n as int),
{
    if n < 0 {
        out.push(45);
        let m: u64 = (-(n as i128)) as u64;
        push_decimal_u64(out, m);
        assert(out@ =~= old(out)@ + spec_decimal_i64(n as int));
    } else {
        push_decimal_u64(out, n as u64);
    }
}

/// ASCII code of the lower-case hex digit for `d`, meaningful for `d < 16`.
pub open spec fn spec_hex_digit(d: u8) -> u8 {
    if d < 10 {
        (48 + d) as u8
    } else {
        (87 + d) as u8
    }
}

/// Lower-case hex form of a byte string: two digits for each byte.
pub open spec fn spec_hex_bytes(s: Seq<u8>) -> Seq<u8>
    decreases s.len(),
{
    if s.len() == 0 {
        seq![]
    } else {
        seq![spec_hex_digit(s[0] / 16), spec_hex_digit(s[0] % 16)] + spec_hex_bytes(
            s.drop_first(),
        )
    }
}

/// Every byte of a hex form is a printable ASCII code below 128.
pub proof fn lemma_hex_bytes_ascii(s: Seq<u8>)
    ensures
        forall|i: int| 0 <= i < spec_hex_bytes(s).len() ==> spec_hex_bytes(s)[i] < 128,
    decreases s.len(),
{
    if s.len() > 0 {
        lemma_hex_bytes_ascii(s.drop_first());
        assert forall|i: int| 0 <= i < spec_hex_bytes(s).len() implies spec_hex_bytes(s)[i]
            < 128 by {
            if i >= 2 {
                assert(spec_hex_bytes(s)[i] == spec_hex_bytes(s.drop_first())[i - 2]);
            }
        }
    }
}

fn hex_digit(d: u8) -> (r: u8)
    requires
        d < 16,
    ensures
        r == spec_hex_digit(d),
{
    if d < 10 {
        48 + d
    } else {
        87 + d
    }
}

/// Appends the lower-case hex form of `data` to `out`.
pub fn push_hex_bytes(out: &mut Vec<u8>, data: &Vec<u8>)
    ensures
        final(out)@ == old(out)@ + spec_hex_bytes(data@),
{
    let len = data.len();
    assert(data@.skip(0) == data@);
    for i in 0..len
        invariant
            len == data@.len(),
            out@ + spec_hex_bytes(data@.skip(i as int)) =~= old(out)@ + spec_hex_bytes(data@),
    {
        let b = data[i];
        out.push(hex_digit(b / 16));
        out.push(hex_digit(b % 16));
        assert(data@.skip(i as int).drop_first() == data@.skip(i + 1));
    }
    assert(out@ =~= old(out)@ + spec_hex_bytes(data@));
}

/// Character sequence of an ASCII byte string, byte for byte.
pub open spec fn spec_ascii_chars(bs: Seq<u8>) -> Seq<char> {
    bs.map_values(|b: u8| b as char)
}

/// Relies on String::from_utf8: bytes below 128 are valid UTF-8 and decode
/// to the same characters, one per byte.
#[verifier::external_body]
pub(crate) fn string_from_ascii(bytes: Vec<u8>) -> (r: String)
    requires
        forall|i: int| 0 <= i < bytes@.len() ==> bytes@[i] < 128,
    ensures
        r@ == spec_ascii_chars(bytes@),
{
    String::from_utf8(bytes).unwrap_or_default()
}

/// Appends the UTF-8 bytes of `s` to `out`.
pub fn push_str_bytes(out: &mut Vec<u8>, s: &String)
    ensures
        final(out)@ == old(out)@ + vstd::utf8::encode_utf8(s@),
{
    let bytes = s.as_str().as_bytes();
    let len = bytes.len();
    for i in 0..len
        invariant
            len == bytes@.len(),
            bytes@ == vstd::utf8::encode_utf8(s@),
            out@ == old(out)@ + bytes@.take(i as int),
    {
        out.push(bytes[i]);
        assert(out@ =~= old(out)@ + bytes@.take(i + 1));
    }
    assert(bytes@.take(len as int) =~= bytes@);
}

} // verus!
