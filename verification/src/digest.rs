//! The 64-byte content digest that binds package metadata to a library image.

use vstd::prelude::*;

verus! {

/// Width of a digest in bytes.
pub const DIGEST_LEN: usize = 64;

/// Largest input, in bytes, whose length in bits still fits in 64 bits.
pub const MAX_DIGEST_INPUT: u64 = 0x1fff_ffff_ffff_ffff;

/// The BLAKE-512 hash of `data`, as computed by `blake::hash` with a hash
/// length of 512 bits.
pub uninterp spec fn blake512(data: Seq<u8>) -> Seq<u8>;

/// Whether `data` is short enough to be hashed.
pub open spec fn hashable(data: Seq<u8>) -> bool {
    data.len() <= MAX_DIGEST_INPUT
}

/// Calls `blake::hash` with a hash length of 512 bits, which it accepts, and
/// hands out the 64 bytes it writes. The call computes the length in bits as
/// eight times the length in bytes; the bound on the input keeps that within
/// 64 bits.
#[verifier::external_body]
fn blake512_hash(data: &[u8]) -> (out: [u8; 64])
    requires
        hashable(data@),
    ensures
        out@ == blake512(data@),
{
    let mut out = [0u8; 64];
    blake::hash(512, data, &mut out).unwrap();
    out
}

/// Computes the digest of `data`.
pub fn digest(data: &[u8]) -> (out: [u8; 64])
    requires
        hashable(data@),
    ensures
        out@ == blake512(data@),
        out@.len() == DIGEST_LEN,
{
    blake512_hash(data)
}

} // verus!
