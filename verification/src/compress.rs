//! Zstandard compression of a serialized package.

use vstd::prelude::*;

verus! {

/// What `zstd::decode_all` makes of `data`: the decompressed bytes, or
/// nothing where it reports an error.
pub uninterp spec fn zstd_decoded(data: Seq<u8>) -> Option<Seq<u8>>;

/// The frame that `zstd::encode_all` writes for `data` at the default level,
/// or nothing where it reports an error.
pub uninterp spec fn zstd_encoded(data: Seq<u8>) -> Option<Seq<u8>>;

/// Calls `zstd::encode_all` at the default level. The frame it writes is
/// fixed by the data, and decompressing that frame gives the data back.
#[verifier::external_body]
pub(crate) fn zstd_encode(data: &[u8]) -> (frame: Option<Vec<u8>>)
    ensures
        frame is Some <==> zstd_encoded(data@) is Some,
        frame is Some ==> frame->0@ == zstd_encoded(data@)->0,
        frame is Some ==> zstd_decoded(frame->0@) == Some(data@),
{
    match zstd::encode_all(data, zstd::DEFAULT_COMPRESSION_LEVEL) {
        Ok(frame) => Some(frame),
        Err(_) => None,
    }
}

/// Calls `zstd::decode_all`.
#[verifier::external_body]
pub(crate) fn zstd_decode(frame: &[u8]) -> (data: Option<Vec<u8>>)
    ensures
        data is Some <==> zstd_decoded(frame@) is Some,
        data is Some ==> data->0@ == zstd_decoded(frame@)->0,
{
    match zstd::decode_all(frame) {
        Ok(data) => Some(data),
        Err(_) => None,
    }
}

} // verus!
