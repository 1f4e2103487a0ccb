//! Decompression of payloads, done by the crates that implement each format.

use crate::codec::le_u32;
use crate::codec::read_le_u32;
use std::io::Read;
use vstd::prelude::*;
use vstd::slice::slice_subrange;

verus! {

/// What a Zstandard stream decoder produces from `data`, read to its end, or
/// `None` where it reports an error.
pub uninterp spec fn zstd_stream_plain(data: Seq<u8>) -> Option<Seq<u8>>;

/// The content of the Zstandard frames that `data` is made of, or `None`
/// where `data` is no such thing.
pub uninterp spec fn zstd_frames_plain(data: Seq<u8>) -> Option<Seq<u8>>;

/// What LZ4 block decompression produces from `data`, whose first four bytes
/// give the decompressed size, or `None` where it reports an error.
pub uninterp spec fn lz4_plain(data: Seq<u8>) -> Option<Seq<u8>>;

/// What an XZ stream decoder produces from `data`, read to its end, or `None`
/// where it reports an error.
pub uninterp spec fn xz_plain(data: Seq<u8>) -> Option<Seq<u8>>;

/// The longest run of bytes `0xFF` that an LZ4 block may hold here. A
/// length in a block is the sum of such a run and the byte after it; runs
/// up to this one keep every length below `2^31`.
pub const LZ4_MAX_RUN: usize = 8_000_000;

/// The number of bytes `0xFF` that lie directly before position `upto`.
pub open spec fn run_before(data: Seq<u8>, upto: int) -> int
    decreases upto,
{
    if upto <= 0 || data[upto - 1] != 0xff {
        0
    } else {
        1 + run_before(data, upto - 1)
    }
}

/// Whether a size-prepended LZ4 block can be handed to the decoder: it
/// holds no run of bytes `0xFF` longer than `LZ4_MAX_RUN`, and the size it
/// announces in its first four bytes is one that a buffer can have.
pub open spec fn lz4_decodable(data: Seq<u8>) -> bool {
    &&& forall|upto: int|
        0 <= upto <= data.len() ==> #[trigger] run_before(data, upto) <= LZ4_MAX_RUN
    &&& data.len() >= 4 ==> le_u32(data.subrange(0, 4)) <= isize::MAX
}

/// Tells whether a size-prepended LZ4 block can be handed to the decoder.
pub fn lz4_accepts(data: &[u8]) -> (yes: bool)
    ensures
        yes == lz4_decodable(data@),
{
    if data.len() >= 4 {
        let size = read_le_u32(slice_subrange(data, 0, 4));
        if size as usize > isize::MAX as usize {
            return false;
        }
    }
    let mut run: usize = 0;
    let mut at: usize = 0;
    while at < data.len()
        invariant
            0 <= at <= data@.len(),
            run == run_before(data@, at as int),
            run <= LZ4_MAX_RUN,
            forall|upto: int|
                0 <= upto <= at ==> #[trigger] run_before(data@, upto) <= LZ4_MAX_RUN,
        decreases data@.len() - at,
    {
        if data[at] == 0xff {
            run = run + 1;
            if run > LZ4_MAX_RUN {
                assert(run_before(data@, at + 1) > LZ4_MAX_RUN);
                return false;
            }
        } else {
            run = 0;
        }
        at = at + 1;
    }
    true
}

/// Calls `zstd::stream::decode_all`. Claimed: the outcome depends on the
/// input bytes alone.
#[verifier::external_body]
pub(crate) fn zstd_decode_all(data: &[u8]) -> (plain: Option<Vec<u8>>)
    ensures
        crate::crypto::bytes_of(plain) == zstd_stream_plain(data@),
{
    zstd::stream::decode_all(data).ok()
}

/// Calls `zstd::bulk::decompress`, which decompresses into a buffer with
/// room for at least `capacity` bytes. Claimed: what comes back is the
/// content of the frames, which depends on the input bytes alone; and where
/// nothing comes back, the input has no content or has more than `capacity`
/// bytes of it. Content longer than `capacity` may or may not come back.
/// Capacities that no allocation can have are left out.
#[verifier::external_body]
pub(crate) fn zstd_decompress(data: &[u8], capacity: usize) -> (plain: Option<Vec<u8>>)
    requires
        capacity <= isize::MAX,
    ensures
        plain is Some ==> crate::crypto::bytes_of(plain) == zstd_frames_plain(data@),
        plain is None ==> match zstd_frames_plain(data@) {
            Some(content) => content.len() > capacity,
            None => true,
        },
{
    zstd::bulk::decompress(data, capacity).ok()
}

/// Calls `lz4_flex::decompress_size_prepended`. Claimed: the outcome depends
/// on the input bytes alone. Left out are inputs on which the decoder's sum
/// of length bytes could leave its integer type, and announced sizes that no
/// buffer can have.
#[verifier::external_body]
pub(crate) fn lz4_decompress(data: &[u8]) -> (plain: Option<Vec<u8>>)
    requires
        lz4_decodable(data@),
    ensures
        crate::crypto::bytes_of(plain) == lz4_plain(data@),
{
    lz4_flex::decompress_size_prepended(data).ok()
}

/// Calls `xz2::read::XzDecoder::new` and reads the decoder to its end.
/// Claimed: the outcome depends on the input bytes alone.
#[verifier::external_body]
pub(crate) fn xz_decompress(data: &[u8]) -> (plain: Option<Vec<u8>>)
    ensures
        crate::crypto::bytes_of(plain) == xz_plain(data@),
{
    let mut out = Vec::new();
    xz2::read::XzDecoder::new(data).read_to_end(&mut out).ok()?;
    Some(out)
}

} // verus!
