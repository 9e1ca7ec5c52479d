//! zstd compression of DATA contents, through the `zstd` crate.

use vstd::prelude::*;

verus! {

/// The zstd frame that `zstd::bulk::compress` makes of `data` at the default
/// level (compression is deterministic for a given library version and level).
pub uninterp spec fn zstd_compressed(data: Seq<u8>) -> Seq<u8>;

/// What `zstd::stream::decode_all` gives back of `frame`: the decompressed
/// bytes, or none when `frame` is not well-formed zstd.
pub uninterp spec fn zstd_decoded(frame: Seq<u8>) -> Option<Seq<u8>>;

/// `zstd::bulk::compress(data, 0)`: the zstd frame of `data` at the default
/// level, which decodes back to `data` (zstd is lossless). `None` when the
/// compressor fails (it can fail to set itself up, e.g. out of memory).
#[verifier::external_body]
pub(crate) fn zstd_compress(data: &[u8]) -> (r: Option<Vec<u8>>)
    ensures
        r matches Some(c) ==> c@ == zstd_compressed(data@) && zstd_decoded(c@) == Some(data@),
{
    zstd::bulk::compress(data, 0).ok()
}

/// `zstd::stream::decode_all(frame)`: the decompressed bytes of a zstd frame.
#[verifier::external_body]
pub(crate) fn zstd_decompress(frame: &[u8]) -> (r: Option<Vec<u8>>)
    ensures
        r is Some <==> zstd_decoded(frame@) is Some,
        r matches Some(d) ==> zstd_decoded(frame@) == Some(d@),
{
    zstd::stream::decode_all(frame).ok()
}

} // verus!
