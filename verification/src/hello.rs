//! The hello packet of the `blo` protocol: an RLP list of two strings, a
//! greeting that names the receiving peer and a fixed genesis marker.

use vstd::prelude::*;
use rlp::{Rlp, RlpStream};
use crate::text::{decimal, lemma_decimal_len_u64, opt_text, push_decimal};
use vstd::utf8::encode_utf8;

verus! {

/// The shortest big-endian bytes of `n`: none for zero.
pub open spec fn be_bytes(n: nat) -> Seq<u8>
    decreases n,
{
    if n == 0 {
        Seq::empty()
    } else {
        be_bytes(n / 256).push((n % 256) as u8)
    }
}

/// The RLP encoding of a byte string: a single byte below 0x80 stands for
/// itself; up to 55 bytes follow a byte 0x80 plus their number; a longer
/// string follows 0xb7 plus the size of its length, and its length.
pub open spec fn rlp_string(s: Seq<u8>) -> Seq<u8> {
    if s.len() == 1 && s[0] < 0x80 {
        s
    } else if s.len() <= 55 {
        seq![(0x80 + s.len()) as u8] + s
    } else {
        seq![(0xb7 + be_bytes(s.len()).len()) as u8] + be_bytes(s.len()) + s
    }
}

/// The RLP encoding of a list whose items encode to `payload`: up to 55
/// bytes follow 0xc0 plus their number; more follow 0xf7 plus the size of
/// their length, and their length.
pub open spec fn rlp_list(payload: Seq<u8>) -> Seq<u8> {
    if payload.len() <= 55 {
        seq![(0xc0 + payload.len()) as u8] + payload
    } else {
        seq![(0xf7 + be_bytes(payload.len()).len()) as u8] + be_bytes(payload.len()) + payload
    }
}

/// The RLP encoding of a list of two strings, each taken by its UTF-8
/// bytes.
pub open spec fn rlp_string_pair(first: Seq<char>, second: Seq<char>) -> Seq<u8> {
    rlp_list(rlp_string(encode_utf8(first)) + rlp_string(encode_utf8(second)))
}

/// The bound on the two strings of a list below which their encoding is
/// stated: far more than a hello holds, and small enough that no length the
/// encoder writes reaches 2^32 bytes, past which it truncates lengths.
pub open spec fn small_pair(first: Seq<char>, second: Seq<char>) -> bool {
    first.len() + second.len() < 0x1000_0000
}

/// The item at `index` of the RLP list `data`, decoded as a UTF-8 string,
/// as `rlp::Rlp::at` followed by `as_val::<String>` gives it; `None` where
/// either fails.
pub uninterp spec fn rlp_list_string(data: Seq<u8>, index: usize) -> Option<Seq<char>>;

/// The greeting that a hello to `peer` carries: `hello, ` and the peer's
/// number in decimal.
pub open spec fn greeting(peer: nat) -> Seq<char> {
    "hello, "@ + decimal(peer)
}

/// The genesis marker that every hello carries.
pub open spec fn genesis_marker() -> Seq<char> {
    "111111111111111111111111111111111"@
}

/// The bytes of the hello packet sent to `peer`.
pub open spec fn hello_bytes(peer: nat) -> Seq<u8> {
    rlp_string_pair(greeting(peer), genesis_marker())
}

/// Encodes a list of two strings in RLP.
///
/// Trusted: calls `rlp::RlpStream::new_list(2)`, `append` for each string
/// and `out`. The contract states the bytes written for strings under the
/// `small_pair` bound; `BasicEncoder::insert_size` truncates lengths to 32
/// bits, so nothing is said of larger ones. The list is complete after two
/// appends, so `out` does not panic.
#[verifier::external_body]
fn rlp_encode_string_pair(first: &str, second: &str) -> (data: Vec<u8>)
    ensures
        small_pair(first@, second@) ==> data@ == rlp_string_pair(first@, second@),
{
    let mut stream = RlpStream::new_list(2);
    stream.append(&first);
    stream.append(&second);
    stream.out()
}

/// Decodes the string at `index` of an RLP list.
///
/// Trusted: calls `rlp::Rlp::new`, `Rlp::at` and `Rlp::as_val::<String>`,
/// which report malformed input as an error and do not panic. The contract
/// names the result, and states what the crate's encoder and decoder show
/// together: the two strings of a list encoded as `rlp_string_pair` states
/// decode back at indexes 0 and 1, for strings under the `small_pair` bound.
#[verifier::external_body]
fn rlp_decode_list_string(data: &[u8], index: usize) -> (s: Option<String>)
    ensures
        opt_text(s) == rlp_list_string(data@, index),
        forall|a: Seq<char>, b: Seq<char>|
            small_pair(a, b) && #[trigger] rlp_string_pair(a, b) == data@ ==> {
                &&& index == 0 ==> opt_text(s) == Some(a)
                &&& index == 1 ==> opt_text(s) == Some(b)
            },
{
    let item = Rlp::new(data);
    match item.at(index) {
        Ok(found) => found.as_val::<String>().ok(),
        Err(_) => None,
    }
}

/// The two strings of a hello are far under the `small_pair` bound.
pub proof fn lemma_hello_is_small(peer: nat)
    requires
        peer <= u64::MAX,
    ensures
        small_pair(greeting(peer), genesis_marker()),
{
    reveal_strlit("hello, ");
    reveal_strlit("111111111111111111111111111111111");
    lemma_decimal_len_u64(peer as u64);
}

/// The hello packet that greets `peer`.
pub fn hello_message(peer: usize) -> (data: Vec<u8>)
    ensures
        data@ == hello_bytes(peer as nat),
{
    let mut text = String::from_str("hello, ");
    push_decimal(&mut text, peer as u64);
    let marker = "111111111111111111111111111111111";
    proof {
        lemma_hello_is_small(peer as nat);
    }
    rlp_encode_string_pair(text.as_str(), marker)
}

/// The two strings of a hello packet, the greeting and the genesis marker;
/// `None` where `data` does not hold both.
pub fn decode_hello(data: &[u8]) -> (parts: Option<(String, String)>)
    ensures
        parts is Some <==> (rlp_list_string(data@, 0) is Some && rlp_list_string(data@, 1) is Some),
        parts matches Some((a, b)) ==> (Some(a@) == rlp_list_string(data@, 0) && Some(b@)
            == rlp_list_string(data@, 1)),
        forall|a: Seq<char>, b: Seq<char>|
            small_pair(a, b) && #[trigger] rlp_string_pair(a, b) == data@ ==> (parts matches Some((x, y)) && x@ == a
                && y@ == b),
{
    let first = rlp_decode_list_string(data, 0);
    let second = rlp_decode_list_string(data, 1);
    match (first, second) {
        (Some(a), Some(b)) => Some((a, b)),
        _ => None,
    }
}

} // verus!
