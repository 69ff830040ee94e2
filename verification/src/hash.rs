//! Keccak-256 digests, as computed by the `tiny-keccak` crate.

use vstd::prelude::*;
use tiny_keccak::{Hasher, Keccak};

verus! {

/// The Keccak-256 digest of a byte string (the original Keccak padding, as
/// used by Ethereum), as `tiny_keccak::Keccak::v256` computes it.
pub uninterp spec fn keccak256(data: Seq<u8>) -> Seq<u8>;

/// Do a keccak 256-bit hash and return result.
///
/// Trusted: runs `tiny_keccak::Keccak::v256`, `Hasher::update` and
/// `Hasher::finalize`; the contract claims that the 32 bytes written are
/// `keccak256` of the input, a function of the input alone.
#[verifier::external_body]
pub fn keccak_256(data: &[u8]) -> (digest: [u8; 32])
    ensures
        digest@ == keccak256(data@),
{
    let mut keccak = Keccak::v256();
    keccak.update(data);
    let mut output = [0u8; 32];
    keccak.finalize(&mut output);
    output
}

} // verus!
