//! Decompressing with zlib.
use vstd::prelude::*;

use crate::compress::gz::compress;
use crate::compress::gz::compress::window_bits;
use crate::compress::gz::error::{Z_OK, Z_STREAM_END};
use crate::compress::tick::StreamCounts;

verus! {

/// What a decompressing stream is set up with.
#[derive(Debug, Clone, Copy, PartialEq, Eq, Structural)]
pub struct Decompress {
    /// The window size, and with it the wrapping to expect.
    pub window_bits: i32,
}

/// What one call of `inflate` did.
#[derive(Debug, Clone, Copy, PartialEq, Eq, Structural)]
pub struct InflateTick {
    /// How many bytes it wrote.
    pub written: usize,
    /// How many bytes it read.
    pub consumed: usize,
    /// Whether the stream is complete.
    pub stream_end: bool,
}

impl Decompress {
    /// What a stream is set up with that expects the zlib wrapping where `raw`, else
    /// the gzip one.
    pub fn new(raw: bool) -> (r: Self)
        ensures
            r.window_bits == compress::window_for(raw),
    {
        Decompress { window_bits: window_bits(raw) }
    }

    /// The stream, once `inflateInit2` has returned `ret`.
    pub fn started(self, ret: i32) -> (r: Result<Self, i32>)
        ensures
            if ret == Z_OK {
                r == Ok::<Self, i32>(self)
            } else {
                r == Err::<Self, i32>(ret)
            },
    {
        if ret != Z_OK {
            return Err(ret);
        }
        Ok(self)
    }

    /// What a call of `inflate` that returned `ret` did. Any other code than success
    /// and the end of the stream is an error, that no progress was possible too.
    pub fn inflate_tick(&self, counts: &StreamCounts, ret: i32) -> (r: Result<InflateTick, i32>)
        requires
            counts.plausible(),
        ensures
            if ret == Z_OK || ret == Z_STREAM_END {
                r matches Ok(tick) && tick.written == counts.written() && tick.consumed == counts.consumed()
                    && tick.stream_end == (ret == Z_STREAM_END)
            } else {
                r == Err::<InflateTick, i32>(ret)
            },
    {
        if ret == Z_OK || ret == Z_STREAM_END {
            Ok(
                InflateTick {
                    written: counts.written_bytes(),
                    consumed: counts.consumed_bytes(),
                    stream_end: ret == Z_STREAM_END,
                },
            )
        } else {
            Err(ret)
        }
    }
}

/// A stream expects the wrapping that a compressing one writes with the same flag. A call
/// did what its counts say; it failed with any code but success and the end of the stream.
pub proof fn law_inflate(
    raw: bool,
    bits: i32,
    made: Decompress,
    ret: i32,
    started: Result<Decompress, i32>,
    counts: &StreamCounts,
    r: Result<InflateTick, i32>,
)
    requires
        call_ensures(window_bits, (raw,), bits),
        call_ensures(Decompress::new, (raw,), made),
        call_ensures(Decompress::started, (made, ret), started),
        counts.in_after <= counts.in_before && counts.out_after <= counts.out_before,
        call_ensures(Decompress::inflate_tick, (&made, counts, ret), r),
    ensures
        made.window_bits == bits,
        started is Ok <==> ret == 0,
        started is Ok ==> started->Ok_0 == made,
        started is Err ==> started->Err_0 == ret,
        r is Ok <==> ret == 0 || ret == 1,
        r is Ok ==> r->Ok_0.consumed + counts.in_after == counts.in_before && r->Ok_0.written + counts.out_after
            == counts.out_before && (r->Ok_0.stream_end <==> ret == 1),
        r is Err ==> r->Err_0 == ret,
{
}

}
