//! Hexadecimal text, as the `hex` crate writes and reads it. Keys,
//! signatures and ciphertexts travel in this form inside the text packets.

use vstd::prelude::*;

verus! {

/// The lowercase hexadecimal digit for `d < 16`.
pub open spec fn hex_digit(d: nat) -> char {
    if d < 10 {
        (d + 48) as char
    } else {
        (d + 87) as char
    }
}

pub open spec fn is_hex_char(c: char) -> bool {
    ||| '0' <= c <= '9'
    ||| 'a' <= c <= 'f'
    ||| 'A' <= c <= 'F'
}

/// The value of a hexadecimal digit of either case.
pub open spec fn hex_value(c: char) -> nat {
    if '0' <= c <= '9' {
        (c as u32 - 48) as nat
    } else if 'a' <= c <= 'f' {
        (c as u32 - 87) as nat
    } else {
        (c as u32 - 55) as nat
    }
}

/// Two lowercase hexadecimal digits per byte, high nibble first
/// (`hex::encode`).
pub open spec fn spec_hex_encode(b: Seq<u8>) -> Seq<char> {
    Seq::new(
        2 * b.len(),
        |i: int|
            if i % 2 == 0 {
                hex_digit((b[i / 2] / 16) as nat)
            } else {
                hex_digit((b[i / 2] % 16) as nat)
            },
    )
}

pub open spec fn all_hex(s: Seq<char>) -> bool {
    forall|i: int| 0 <= i < s.len() ==> is_hex_char(#[trigger] s[i])
}

/// The bytes that `hex::decode` reads from `s`: present when `s` has an even
/// number of hexadecimal digits of either case and nothing else.
pub open spec fn spec_hex_decode(s: Seq<char>) -> Option<Seq<u8>> {
    if s.len() % 2 == 0 && all_hex(s) {
        Some(
            Seq::new(
                s.len() / 2,
                |i: int| (hex_value(s[2 * i]) * 16 + hex_value(s[2 * i + 1])) as u8,
            ),
        )
    } else {
        None
    }
}

/// `hex::encode`: the lowercase hexadecimal text of `bytes`.
#[verifier::external_body]
pub(crate) fn hex_encode(bytes: &[u8]) -> (r: String)
    ensures
        r@ == spec_hex_encode(bytes@),
{
    hex::encode(bytes)
}

/// `hex::decode`: the bytes written in `s`, or `None` where the crate
/// returns an error. The crate reads the UTF-8 bytes of `s`; a character
/// that is not a hexadecimal digit makes some byte invalid, so the outcome
/// is the one stated here over characters. Which error the crate reports
/// (odd length or the first invalid character) is not kept.
#[verifier::external_body]
pub(crate) fn hex_decode(s: &str) -> (r: Option<Vec<u8>>)
    ensures
        r matches Some(v) ==> spec_hex_decode(s@) == Some(v@),
        r is None ==> spec_hex_decode(s@) is None,
{
    hex::decode(s).ok()
}

pub proof fn lemma_hex_digit(d: nat)
    requires
        d < 16,
    ensures
        is_hex_char(hex_digit(d)),
        hex_value(hex_digit(d)) == d,
        ('0' <= hex_digit(d) <= '9') || ('a' <= hex_digit(d) <= 'f'),
{
    if d < 10 {
        let u: int = d as int + 48;
        assert((u as char) as u32 == u);
    } else {
        let u: int = d as int + 87;
        assert((u as char) as u32 == u);
    }
}

/// Every character of hexadecimal text is a lowercase hexadecimal digit.
pub proof fn lemma_hex_encode_chars(b: Seq<u8>)
    ensures
        all_hex(spec_hex_encode(b)),
        forall|i: int|
            0 <= i < spec_hex_encode(b).len() ==> ('0' <= #[trigger] spec_hex_encode(b)[i] <= '9')
                || ('a' <= spec_hex_encode(b)[i] <= 'f'),
{
    let h = spec_hex_encode(b);
    assert forall|i: int| 0 <= i < h.len() implies is_hex_char(#[trigger] h[i]) && (('0' <= h[i]
        <= '9') || ('a' <= h[i] <= 'f')) by {
        lemma_hex_digit((b[i / 2] / 16) as nat);
        lemma_hex_digit((b[i / 2] % 16) as nat);
    }
}

/// Reading hexadecimal text gives back the bytes it was written from.
pub proof fn lemma_hex_roundtrip(b: Seq<u8>)
    ensures
        spec_hex_decode(spec_hex_encode(b)) == Some(b),
{
    let h = spec_hex_encode(b);
    lemma_hex_encode_chars(b);
    assert(h.len() % 2 == 0);
    let d = Seq::new(
        h.len() / 2,
        |i: int| (hex_value(h[2 * i]) * 16 + hex_value(h[2 * i + 1])) as u8,
    );
    assert forall|i: int| 0 <= i < b.len() implies d[i] == b[i] by {
        lemma_hex_digit((b[i] / 16) as nat);
        lemma_hex_digit((b[i] % 16) as nat);
        assert((2 * i) / 2 == i);
        assert((2 * i + 1) / 2 == i);
        assert((2 * i) % 2 == 0);
        assert((2 * i + 1) % 2 == 1);
        assert(h[2 * i] == hex_digit((b[i] / 16) as nat));
        assert(h[2 * i + 1] == hex_digit((b[i] % 16) as nat));
    }
    assert(d =~= b);
}

} // verus!
