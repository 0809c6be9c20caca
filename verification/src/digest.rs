//! SHA-2 digests, computed by the `crypto` crate.

use crypto::digest::Digest;
use crypto::sha2::{Sha256, Sha512};
use vstd::prelude::*;

verus! {

/// The SHA-256 digest of a byte string.
pub uninterp spec fn sha256(data: Seq<u8>) -> Seq<u8>;

/// The SHA-512 digest of a byte string.
pub uninterp spec fn sha512(data: Seq<u8>) -> Seq<u8>;

/// Number of bytes in a SHA-256 digest.
pub const SHA256_BYTES: usize = 32;

/// Number of bytes in a SHA-512 digest.
pub const SHA512_BYTES: usize = 64;

/// Whether a message of `len` bytes can be given to SHA-256: its length in
/// bits has to fit the 64-bit counter that the digest keeps.
pub open spec fn sha256_accepts(len: nat) -> bool {
    len < 0x2000_0000_0000_0000
}

/// Feeds `data` to a fresh `crypto::sha2::Sha256` (`Digest::input`) and reads
/// the digest with `Digest::result`. Trusted: the 32 bytes returned are the
/// SHA-256 digest of `data`. `input` panics when the bit count overflows 64
/// bits, which the precondition excludes.
#[verifier::external_body]
pub(crate) fn sha256_digest(data: &[u8]) -> (digest: Vec<u8>)
    requires
        sha256_accepts(data@.len()),
    ensures
        digest@ == sha256(data@),
        digest@.len() == SHA256_BYTES,
{
    let mut engine = Sha256::new();
    engine.input(data);
    let mut digest = vec![0u8; 32];
    engine.result(&mut digest);
    digest
}

/// Feeds `data` to a fresh `crypto::sha2::Sha512` (`Digest::input`) and reads
/// the digest with `Digest::result`. Trusted: the 64 bytes returned are the
/// SHA-512 digest of `data`. The bit counter is 128 bits wide, so no slice
/// can overflow it.
#[verifier::external_body]
pub(crate) fn sha512_digest(data: &[u8]) -> (digest: Vec<u8>)
    ensures
        digest@ == sha512(data@),
        digest@.len() == SHA512_BYTES,
{
    let mut engine = Sha512::new();
    engine.input(data);
    let mut digest = vec![0u8; 64];
    engine.result(&mut digest);
    digest
}

} // verus!
