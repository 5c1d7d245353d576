//! Compressing with zlib.
use vstd::prelude::*;

use crate::compress::gz::error::{Z_OK, Z_STREAM_END};
use crate::compress::tick::StreamCounts;

verus! {

/// How much memory zlib may use: as much as it can.
pub const MEM_LEVEL: i32 = 9;

/// The size of the window, as a power of two.
pub const WINDOW_BITS: i32 = 15;

/// What is added to the window size to ask for a gzip header and trailer.
pub const WANT_GZ: i32 = 16;

/// The error code for a level that zlib does not know.
pub const Z_STREAM_ERROR: i32 = -2;

/// The mode in which zlib takes input as it comes.
pub const Z_NO_FLUSH: i32 = 0;

/// The mode in which zlib ends the stream.
pub const Z_FINISH: i32 = 4;

/// What a compressing stream is set up with.
#[derive(Debug, Clone, Copy, PartialEq, Eq, Structural)]
pub struct Compress {
    pub level: i32,
    /// Whether the output has the zlib wrapping in place of the gzip one.
    pub raw: bool,
}

/// What one call of `deflate` did.
#[derive(Debug, Clone, Copy, PartialEq, Eq, Structural)]
pub struct DeflateTick {
    /// How many bytes it wrote.
    pub written: usize,
    /// How many bytes it read.
    pub consumed: usize,
    /// Whether the stream is complete.
    pub stream_end: bool,
}

/// The levels that zlib knows: from one to nine, zero for none, minus one for its
/// choice.
pub open spec fn valid_level(level: i32) -> bool {
    -1 <= level <= 9
}

/// The window size to ask for.
pub open spec fn window_for(raw: bool) -> i32 {
    if raw {
        15
    } else {
        31
    }
}

/// The window size to ask for, and with it the wrapping.
pub fn window_bits(raw: bool) -> (r: i32)
    ensures
        r == window_for(raw),
{
    if raw {
        WINDOW_BITS
    } else {
        WINDOW_BITS + WANT_GZ
    }
}

impl Compress {
    /// What a stream of the given level and wrapping is set up with; an error code
    /// for a level that zlib does not know.
    pub fn new(level: i32, raw: bool) -> (r: Result<Self, i32>)
        ensures
            if valid_level(level) {
                r == Ok::<Self, i32>(Compress { level, raw })
            } else {
                r == Err::<Self, i32>(Z_STREAM_ERROR)
            },
    {
        if level < -1 || level > 9 {
            return Err(Z_STREAM_ERROR);
        }
        Ok(Compress { level, raw })
    }

    /// The stream, once `deflateInit2` has returned `ret`.
    pub fn started(self, ret: i32) -> (r: Result<Self, i32>)
        ensures
            if ret == Z_OK {
                r == Ok::<Self, i32>(self)
            } else {
                r == Err::<Self, i32>(ret)
            },
    {
        if ret != Z_OK {
            return Err(ret);
        }
        Ok(self)
    }

    /// The mode to call `deflate` in.
    pub fn flush_mode(&self, finish: bool) -> (r: i32)
        ensures
            r == (if finish {
                Z_FINISH
            } else {
                Z_NO_FLUSH
            }),
    {
        if finish {
            Z_FINISH
        } else {
            Z_NO_FLUSH
        }
    }

    /// What a call of `deflate` that returned `ret` did. Any other code than success
    /// and the end of the stream is an error, that no progress was possible too.
    pub fn deflate_tick(&self, counts: &StreamCounts, ret: i32) -> (r: Result<DeflateTick, i32>)
        requires
            counts.plausible(),
        ensures
            if ret == Z_OK || ret == Z_STREAM_END {
                r matches Ok(tick) && tick.written == counts.written() && tick.consumed == counts.consumed()
                    && tick.stream_end == (ret == Z_STREAM_END)
            } else {
                r == Err::<DeflateTick, i32>(ret)
            },
    {
        if ret == Z_OK || ret == Z_STREAM_END {
            Ok(
                DeflateTick {
                    written: counts.written_bytes(),
                    consumed: counts.consumed_bytes(),
                    stream_end: ret == Z_STREAM_END,
                },
            )
        } else {
            Err(ret)
        }
    }
}

/// A stream is set up with the level and the wrapping it is asked for, where zlib knows the
/// level; the window is the largest, with the gzip wrapping asked for unless it is raw. The
/// last call ends the stream, the calls before it do not. A call did what its counts say;
/// it failed with any code but success and the end of the stream.
pub proof fn law_deflate(
    level: i32,
    raw: bool,
    bits: i32,
    made: Result<Compress, i32>,
    ret: i32,
    started: Result<Compress, i32>,
    stream: Compress,
    last: bool,
    mode: i32,
    counts: &StreamCounts,
    r: Result<DeflateTick, i32>,
)
    requires
        call_ensures(window_bits, (raw,), bits),
        call_ensures(Compress::new, (level, raw), made),
        call_ensures(Compress::started, (stream, ret), started),
        call_ensures(Compress::flush_mode, (&stream, last), mode),
        counts.in_after <= counts.in_before && counts.out_after <= counts.out_before,
        call_ensures(Compress::deflate_tick, (&stream, counts, ret), r),
    ensures
        bits == 15 + (if raw {
            0int
        } else {
            16int
        }),
        made is Ok <==> level == -1 || level == 0 || (1 <= level && level <= 9),
        made is Ok ==> made->Ok_0.level == level && made->Ok_0.raw == raw,
        made is Err ==> made->Err_0 == -2,
        started is Ok <==> ret == 0,
        started is Ok ==> started->Ok_0 == stream,
        started is Err ==> started->Err_0 == ret,
        mode == (if last {
            4int
        } else {
            0int
        }),
        r is Ok <==> ret == 0 || ret == 1,
        r is Ok ==> r->Ok_0.consumed + counts.in_after == counts.in_before && r->Ok_0.written + counts.out_after
            == counts.out_before && (r->Ok_0.stream_end <==> ret == 1),
        r is Err ==> r->Err_0 == ret,
{
}

}
