//! Percent-encoding of query parameter values.
//!
//! The mathematical model works on the UTF-8 bytes of a string:
//! [`pct_encode_bytes`] keeps unreserved bytes and replaces every other
//! byte by `%` followed by two upper-case hex digits, and
//! [`pct_decode_bytes`] reverses that. [`pct_encode_str`] and
//! [`pct_decode_str`] lift both to character sequences through vstd's
//! UTF-8 model. The executable encoder is `urlencoding::encode` behind a
//! trusted wrapper whose contract is exactly [`pct_encode_str`].

use vstd::prelude::*;
use vstd::utf8::{decode_utf8, encode_utf8, valid_utf8};
use vstd::utf8::{
    decode_utf8_encode_utf8, encode_utf8_decode_utf8, is_leading_byte_width_1,
    length_of_first_scalar, pop_first_scalar, valid_first_scalar,
};

verus! {

/// True for the bytes that percent-encoding leaves intact: ASCII
/// alphanumerics and `-`, `_`, `.`, `~`.
pub open spec fn is_unreserved_byte(b: u8) -> bool {
    (0x41 <= b <= 0x5a)  // 'A' ..= 'Z'
    || (0x61 <= b <= 0x7a)  // 'a' ..= 'z'
    || (0x30 <= b <= 0x39)  // '0' ..= '9'
    || b == 0x2d  // '-'
    || b == 0x5f  // '_'
    || b == 0x2e  // '.'
    || b == 0x7e  // '~'
}

/// Upper-case hexadecimal digit for a value below 16.
pub open spec fn hex_digit(n: u8) -> u8
    recommends
        n < 16,
{
    if n < 10 {
        (0x30 + n) as u8  // '0' ..= '9'
    } else {
        (0x41 + (n - 10)) as u8  // 'A' ..= 'F'
    }
}

/// Percent-encoding of one byte: kept verbatim when unreserved, otherwise
/// `%` followed by the two upper-case hex digits of its value.
pub open spec fn pct_encode_byte(b: u8) -> Seq<u8> {
    if is_unreserved_byte(b) {
        seq![b]
    } else {
        seq![0x25u8, hex_digit(b / 16), hex_digit(b % 16)]
    }
}

/// Percent-encoding of a byte sequence, byte by byte.
pub open spec fn pct_encode_bytes(bs: Seq<u8>) -> Seq<u8>
    decreases bs.len(),
{
    if bs.len() == 0 {
        Seq::empty()
    } else {
        pct_encode_byte(bs[0]) + pct_encode_bytes(bs.drop_first())
    }
}

/// True for ASCII hexadecimal digits, either case.
pub open spec fn is_hex_digit(b: u8) -> bool {
    (0x30 <= b <= 0x39) || (0x41 <= b <= 0x46) || (0x61 <= b <= 0x66)
}

/// Numeric value of an ASCII hexadecimal digit, either case.
pub open spec fn hex_val(b: u8) -> u8
    recommends
        is_hex_digit(b),
{
    if 0x30 <= b <= 0x39 {
        (b - 0x30) as u8
    } else if 0x41 <= b <= 0x46 {
        (b - 0x41 + 10) as u8
    } else if 0x61 <= b <= 0x66 {
        (b - 0x61 + 10) as u8
    } else {
        0
    }
}

/// Percent-decoding of a byte sequence: `%` followed by two hex digits
/// becomes the byte they denote; every other byte is kept verbatim.
pub open spec fn pct_decode_bytes(bs: Seq<u8>) -> Seq<u8>
    decreases bs.len(),
{
    if bs.len() == 0 {
        Seq::empty()
    } else if bs[0] == 0x25 && bs.len() >= 3 && is_hex_digit(bs[1]) && is_hex_digit(bs[2]) {
        seq![(hex_val(bs[1]) * 16 + hex_val(bs[2])) as u8] + pct_decode_bytes(bs.skip(3))
    } else {
        seq![bs[0]] + pct_decode_bytes(bs.drop_first())
    }
}

/// Percent-encoding of a string, over the UTF-8 bytes of its characters.
/// The encoded bytes are all ASCII, so reading them back as characters is
/// UTF-8 decoding.
pub open spec fn pct_encode_str(s: Seq<char>) -> Seq<char> {
    decode_utf8(pct_encode_bytes(encode_utf8(s)))
}

/// Percent-decoding of a string, over the UTF-8 bytes of its characters.
pub open spec fn pct_decode_str(s: Seq<char>) -> Seq<char> {
    decode_utf8(pct_decode_bytes(encode_utf8(s)))
}

/// Relies on `urlencoding::encode`: it percent-encodes every byte of the
/// string's UTF-8 form except ASCII alphanumerics and `-`, `_`, `.`, `~`,
/// writing `%` followed by two upper-case hex digits for each encoded
/// byte.
#[verifier::external_body]
pub(crate) fn percent_encode(s: &str) -> (r: String)
    ensures
        r@ == pct_encode_str(s@),
{
    urlencoding::encode(s).into_owned()
}

/// Every byte that [`pct_encode_bytes`] emits is ASCII.
proof fn lemma_pct_encode_bytes_ascii(bs: Seq<u8>)
    ensures
        forall|i: int| 0 <= i < pct_encode_bytes(bs).len() ==> pct_encode_bytes(bs)[i] < 0x80,
    decreases bs.len(),
{
    if bs.len() != 0 {
        let e = pct_encode_byte(bs[0]);
        assert(forall|i: int| 0 <= i < e.len() ==> e[i] < 0x80);
        lemma_pct_encode_bytes_ascii(bs.drop_first());
        assert forall|i: int|
            0 <= i < pct_encode_bytes(bs).len() implies pct_encode_bytes(bs)[i] < 0x80 by {
            if i < e.len() {
                assert(pct_encode_bytes(bs)[i] == e[i]);
            } else {
                assert(pct_encode_bytes(bs)[i] == pct_encode_bytes(bs.drop_first())[i - e.len()]);
            }
        };
    }
}

/// No encoded value is left unescaped: every byte of a percent-encoded
/// value is an unreserved byte, a `%`, or a hex digit of an escape. In
/// particular the query separators `=`, `&`, `?` and `#` and the space
/// never appear in an encoded value.
pub proof fn lemma_pct_encoded_stays_escaped(bs: Seq<u8>)
    ensures
        forall|i: int| 0 <= i < pct_encode_bytes(bs).len() ==> is_unreserved_byte(
            #[trigger] pct_encode_bytes(bs)[i],
        ) || pct_encode_bytes(bs)[i] == 0x25 || is_hex_digit(pct_encode_bytes(bs)[i]),
    decreases bs.len(),
{
    if bs.len() != 0 {
        let e = pct_encode_byte(bs[0]);
        assert(forall|i: int| 0 <= i < e.len() ==> is_unreserved_byte(#[trigger] e[i]) || e[i]
            == 0x25 || is_hex_digit(e[i]));
        lemma_pct_encoded_stays_escaped(bs.drop_first());
        assert forall|i: int| 0 <= i < pct_encode_bytes(bs).len() implies is_unreserved_byte(
            #[trigger] pct_encode_bytes(bs)[i],
        ) || pct_encode_bytes(bs)[i] == 0x25 || is_hex_digit(pct_encode_bytes(bs)[i]) by {
            if i < e.len() {
                assert(pct_encode_bytes(bs)[i] == e[i]);
            } else {
                assert(pct_encode_bytes(bs)[i] == pct_encode_bytes(bs.drop_first())[i - e.len()]);
            }
        };
    }
}

/// A sequence of ASCII bytes is valid UTF-8.
proof fn lemma_ascii_valid_utf8(bs: Seq<u8>)
    requires
        forall|i: int| 0 <= i < bs.len() ==> bs[i] < 0x80,
    ensures
        valid_utf8(bs),
    decreases bs.len(),
{
    if bs.len() != 0 {
        let b0: u8 = bs[0];
        assert(is_leading_byte_width_1(b0));
        assert(b0 & 0x7F < 0x80) by (bit_vector);
        assert(valid_first_scalar(bs));
        assert(length_of_first_scalar(bs) == 1);
        assert(pop_first_scalar(bs) =~= bs.drop_first());
        lemma_ascii_valid_utf8(bs.drop_first());
    }
}

/// Percent-decoding undoes percent-encoding, byte for byte.
pub proof fn lemma_pct_decode_encode_bytes(bs: Seq<u8>)
    ensures
        pct_decode_bytes(pct_encode_bytes(bs)) == bs,
    decreases bs.len(),
{
    if bs.len() == 0 {
        assert(pct_decode_bytes(pct_encode_bytes(bs)) =~= bs);
    } else {
        let b: u8 = bs[0];
        let e = pct_encode_byte(b);
        let rest = pct_encode_bytes(bs.drop_first());
        lemma_pct_decode_encode_bytes(bs.drop_first());
        if is_unreserved_byte(b) {
            assert((e + rest).drop_first() =~= rest);
            assert(pct_decode_bytes(e + rest) =~= seq![b] + pct_decode_bytes(rest));
        } else {
            assert((e + rest)[0] == 0x25);
            assert((e + rest).len() >= 3);
            assert(is_hex_digit((e + rest)[1]));
            assert(is_hex_digit((e + rest)[2]));
            assert(hex_val(hex_digit(b / 16)) == b / 16);
            assert(hex_val(hex_digit(b % 16)) == b % 16);
            assert((hex_val((e + rest)[1]) * 16 + hex_val((e + rest)[2])) as u8 == b);
            assert((e + rest).skip(3) =~= rest);
            assert(pct_decode_bytes(e + rest) =~= seq![b] + pct_decode_bytes(rest));
        }
        assert(seq![b] + bs.drop_first() =~= bs);
        assert(pct_decode_bytes(pct_encode_bytes(bs)) =~= bs);
    }
}

/// Percent-decoding an encoded string yields the original string: the
/// encoded characters are re-read as their ASCII bytes, percent-decoded,
/// and UTF-8-decoded back to the original characters.
pub proof fn lemma_pct_round_trip(s: Seq<char>)
    ensures
        pct_decode_str(pct_encode_str(s)) == s,
{
    let eb = pct_encode_bytes(encode_utf8(s));
    lemma_pct_encode_bytes_ascii(encode_utf8(s));
    lemma_ascii_valid_utf8(eb);
    decode_utf8_encode_utf8(eb);
    assert(encode_utf8(pct_encode_str(s)) == eb);
    lemma_pct_decode_encode_bytes(encode_utf8(s));
    encode_utf8_decode_utf8(s);
}

} // verus!
