//! Compressing with libbz2.
use vstd::prelude::*;

use crate::compress::tick::StreamCounts;

verus! {

/// Success.
pub const BZ_OK: i32 = 0;

/// The call took input as it came.
pub const BZ_RUN_OK: i32 = 1;

/// The call wrote out what was pending.
pub const BZ_FLUSH_OK: i32 = 2;

/// The call began to end the stream.
pub const BZ_FINISH_OK: i32 = 3;

/// The end of the stream.
pub const BZ_STREAM_END: i32 = 4;

/// The error code for a level that libbz2 does not know.
pub const BZ_PARAM_ERROR: i32 = -2;

/// The mode in which libbz2 takes input as it comes.
pub const BZ_RUN: i32 = 0;

/// The mode in which libbz2 ends the stream.
pub const BZ_FINISH: i32 = 2;

/// What a compressing stream is set up with.
#[derive(Debug, Clone, Copy, PartialEq, Eq, Structural)]
pub struct Compress {
    pub level: i32,
}

/// What one call of `BZ2_bzCompress` did.
#[derive(Debug, Clone, Copy, PartialEq, Eq, Structural)]
pub struct CompressTick {
    /// How many bytes it wrote.
    pub written: usize,
    /// How many bytes it read.
    pub consumed: usize,
    /// Whether the stream is complete.
    pub stream_end: bool,
}

/// The levels that libbz2 knows.
pub open spec fn valid_level(level: i32) -> bool {
    1 <= level <= 9
}

/// Whether a code says that the stream goes on.
pub open spec fn goes_on(ret: i32) -> bool {
    ret == BZ_RUN_OK || ret == BZ_FLUSH_OK || ret == BZ_FINISH_OK
}

impl Compress {
    /// What a stream of the given level is set up with; an error code for a level
    /// that libbz2 does not know.
    pub fn new(level: i32) -> (r: Result<Self, i32>)
        ensures
            if valid_level(level) {
                r == Ok::<Self, i32>(Compress { level })
            } else {
                r == Err::<Self, i32>(BZ_PARAM_ERROR)
            },
    {
        if level < 1 || level > 9 {
            return Err(BZ_PARAM_ERROR);
        }
        Ok(Compress { level })
    }

    /// The stream, once `BZ2_bzCompressInit` has returned `ret`.
    pub fn started(self, ret: i32) -> (r: Result<Self, i32>)
        ensures
            if ret == BZ_OK {
                r == Ok::<Self, i32>(self)
            } else {
                r == Err::<Self, i32>(ret)
            },
    {
        if ret != BZ_OK {
            return Err(ret);
        }
        Ok(self)
    }

    /// The mode to call `BZ2_bzCompress` in.
    pub fn action(&self, finish: bool) -> (r: i32)
        ensures
            r == (if finish {
                BZ_FINISH
            } else {
                BZ_RUN
            }),
    {
        if finish {
            BZ_FINISH
        } else {
            BZ_RUN
        }
    }

    /// What a call of `BZ2_bzCompress` that returned `ret` did.
    pub fn compress_tick(&self, counts: &StreamCounts, ret: i32) -> (r: Result<CompressTick, i32>)
        requires
            counts.plausible(),
        ensures
            if goes_on(ret) || ret == BZ_STREAM_END {
                r matches Ok(tick) && tick.written == counts.written() && tick.consumed == counts.consumed()
                    && tick.stream_end == (ret == BZ_STREAM_END)
            } else {
                r == Err::<CompressTick, i32>(ret)
            },
    {
        if ret == BZ_RUN_OK || ret == BZ_FLUSH_OK || ret == BZ_FINISH_OK || ret == BZ_STREAM_END {
            Ok(
                CompressTick {
                    written: counts.written_bytes(),
                    consumed: counts.consumed_bytes(),
                    stream_end: ret == BZ_STREAM_END,
                },
            )
        } else {
            Err(ret)
        }
    }
}

/// A stream is set up with the level it is asked for, where libbz2 knows it. The last call
/// ends the stream, the calls before it do not. A call did what its counts say; the codes
/// from one to four say that it went well, the last of them that the stream is complete.
pub proof fn law_bz_compress(
    level: i32,
    made: Result<Compress, i32>,
    ret: i32,
    stream: Compress,
    started: Result<Compress, i32>,
    last: bool,
    mode: i32,
    counts: &StreamCounts,
    r: Result<CompressTick, i32>,
)
    requires
        call_ensures(Compress::new, (level,), made),
        call_ensures(Compress::started, (stream, ret), started),
        call_ensures(Compress::action, (&stream, last), mode),
        counts.in_after <= counts.in_before && counts.out_after <= counts.out_before,
        call_ensures(Compress::compress_tick, (&stream, counts, ret), r),
    ensures
        made is Ok <==> level > 0 && level < 10,
        made is Ok ==> made->Ok_0.level == level,
        made is Err ==> made->Err_0 == -2,
        started is Ok <==> ret == 0,
        started is Ok ==> started->Ok_0 == stream,
        started is Err ==> started->Err_0 == ret,
        mode == (if last {
            2int
        } else {
            0int
        }),
        r is Ok <==> 1 <= ret <= 4,
        r is Ok ==> r->Ok_0.consumed + counts.in_after == counts.in_before && r->Ok_0.written + counts.out_after
            == counts.out_before && (r->Ok_0.stream_end <==> ret == 4),
        r is Err ==> r->Err_0 == ret,
{
}

}
