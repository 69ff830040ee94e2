//! Decoding of hexadecimal text, as done by the `rustc-hex` crate.

use vstd::prelude::*;
use rustc_hex::FromHex;
use vstd::string::StringSliceAdditionalSpecFns;

verus! {

/// The bytes that hex text may hold between digits: space, carriage
/// return, line feed and tab.
pub open spec fn is_hex_space(b: u8) -> bool {
    b == 0x20 || b == 0x0d || b == 0x0a || b == 0x09
}

/// Whether `b` is an ASCII hexadecimal digit, in either case.
pub open spec fn is_hex_digit(b: u8) -> bool {
    (0x30 <= b <= 0x39) || (0x41 <= b <= 0x46) || (0x61 <= b <= 0x66)
}

/// The value of a hexadecimal digit.
pub open spec fn hex_digit_value(b: u8) -> int {
    if 0x30 <= b <= 0x39 {
        b - 0x30
    } else if 0x41 <= b <= 0x46 {
        b - 0x41 + 10
    } else {
        b - 0x61 + 10
    }
}

/// The bytes of `text` with the spacing left out.
pub open spec fn hex_digits(text: Seq<u8>) -> Seq<u8> {
    text.filter(|b: u8| !is_hex_space(b))
}

/// Whether `text` is hex: apart from spacing it holds only hexadecimal
/// digits, an even number of them.
pub open spec fn is_hex_text(text: Seq<u8>) -> bool {
    let d = hex_digits(text);
    &&& d.len() % 2 == 0
    &&& forall|i: int| 0 <= i < d.len() ==> is_hex_digit(#[trigger] d[i])
}

/// The bytes that hex text stands for: each pair of digits, high one first.
pub open spec fn hex_bytes(text: Seq<u8>) -> Seq<u8> {
    let d = hex_digits(text);
    Seq::new(
        d.len() / 2,
        |i: int| (16 * hex_digit_value(d[2 * i]) + hex_digit_value(d[2 * i + 1])) as u8,
    )
}

/// The raw body that `text` stands for: the bytes its hex encodes when
/// `is_hex` (none when it is not hex), else its own UTF-8 bytes.
pub open spec fn text_body(text: Seq<u8>, is_hex: bool) -> Option<Seq<u8>> {
    if !is_hex {
        Some(text)
    } else if is_hex_text(text) {
        Some(hex_bytes(text))
    } else {
        None
    }
}

/// Text handed in as plain text stands for its own bytes, whatever they
/// hold, hex digits included; only hex text handed in as hex is decoded.
pub proof fn lemma_plain_text_body(text: Seq<u8>)
    ensures
        text_body(text, false) == Some(text),
        is_hex_text(text) ==> text_body(text, true) == Some(hex_bytes(text)),
        !is_hex_text(text) ==> text_body(text, true) is None,
{
}

/// The contents of an optional byte vector.
pub open spec fn opt_bytes(o: Option<Vec<u8>>) -> Option<Seq<u8>> {
    match o {
        Some(v) => Some(v@),
        None => None,
    }
}

/// Decodes hex text into bytes; `None` where the text is not hex.
///
/// Trusted: calls `rustc_hex::FromHex::from_hex` on the text. Its source
/// reads the text byte by byte, skips space, `\r`, `\n` and `\t`, fails on
/// any other byte that is not a hex digit and on an odd number of digits,
/// and otherwise yields one byte per pair of digits, high digit first; the
/// contract says exactly that.
#[verifier::external_body]
fn decode_hex(text: &str) -> (bytes: Option<Vec<u8>>)
    ensures
        bytes is Some <==> is_hex_text(text.spec_bytes()),
        bytes matches Some(b) ==> b@ == hex_bytes(text.spec_bytes()),
{
    match text.from_hex::<Vec<u8>>() {
        Ok(bytes) => Some(bytes),
        Err(_) => None,
    }
}

/// The raw body of a transaction handed in as text: the bytes its hex
/// encodes when `is_hex`, else the text's own UTF-8 bytes; `None` when
/// `is_hex` and the text is not hex.
pub fn tx_body_from_text(text: &str, is_hex: bool) -> (body: Option<Vec<u8>>)
    ensures
        opt_bytes(body) == text_body(text.spec_bytes(), is_hex),
        !is_hex ==> (body matches Some(b) && b@ == text.spec_bytes()),
        is_hex ==> (body is Some <==> is_hex_text(text.spec_bytes())),
        is_hex ==> (body matches Some(b) ==> b@ == hex_bytes(text.spec_bytes())),
{
    if is_hex {
        decode_hex(text)
    } else {
        Some(vstd::slice::slice_to_vec(text.as_bytes()))
    }
}

} // verus!
