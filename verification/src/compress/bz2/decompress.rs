//! Decompressing with libbz2.
use vstd::prelude::*;

use crate::compress::bz2::compress::{BZ_OK, BZ_STREAM_END};
use crate::compress::tick::StreamCounts;

verus! {

/// A decompressing stream.
#[derive(Debug, Clone, Copy, PartialEq, Eq, Structural)]
pub struct Decompress;

/// What one call of `BZ2_bzDecompress` did.
#[derive(Debug, Clone, Copy, PartialEq, Eq, Structural)]
pub struct DecompressTick {
    /// How many bytes it wrote.
    pub written: usize,
    /// How many bytes it read.
    pub consumed: usize,
    /// Whether the stream is complete.
    pub stream_end: bool,
}

impl Decompress {
    /// The stream, once `BZ2_bzDecompressInit` has returned `ret`.
    pub fn new(ret: i32) -> (r: Result<Self, i32>)
        ensures
            if ret == BZ_OK {
                r is Ok
            } else {
                r == Err::<Self, i32>(ret)
            },
    {
        if ret != BZ_OK {
            return Err(ret);
        }
        Ok(Decompress)
    }

    /// What a call of `BZ2_bzDecompress` that returned `ret` did.
    pub fn decompress_tick(&self, counts: &StreamCounts, ret: i32) -> (r: Result<DecompressTick, i32>)
        requires
            counts.plausible(),
        ensures
            if ret == BZ_OK || ret == BZ_STREAM_END {
                r matches Ok(tick) && tick.written == counts.written() && tick.consumed == counts.consumed()
                    && tick.stream_end == (ret == BZ_STREAM_END)
            } else {
                r == Err::<DecompressTick, i32>(ret)
            },
    {
        if ret == BZ_OK || ret == BZ_STREAM_END {
            Ok(
                DecompressTick {
                    written: counts.written_bytes(),
                    consumed: counts.consumed_bytes(),
                    stream_end: ret == BZ_STREAM_END,
                },
            )
        } else {
            Err(ret)
        }
    }
}

/// A call did what its counts say; it failed with any code but success and the end of the
/// stream.
pub proof fn law_bz_decompress(
    ret: i32,
    made: Result<Decompress, i32>,
    stream: Decompress,
    counts: &StreamCounts,
    r: Result<DecompressTick, i32>,
)
    requires
        call_ensures(Decompress::new, (ret,), made),
        counts.in_after <= counts.in_before && counts.out_after <= counts.out_before,
        call_ensures(Decompress::decompress_tick, (&stream, counts, ret), r),
    ensures
        made is Ok <==> ret == 0,
        made is Err ==> made->Err_0 == ret,
        r is Ok <==> ret == 0 || ret == 4,
        r is Ok ==> r->Ok_0.consumed + counts.in_after == counts.in_before && r->Ok_0.written + counts.out_after
            == counts.out_before && (r->Ok_0.stream_end <==> ret == 4),
        r is Err ==> r->Err_0 == ret,
{
}

}
