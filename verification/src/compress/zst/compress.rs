//! Compressing with libzstd.
use vstd::prelude::*;

use crate::compress::zst::error;
use crate::compress::zst::error::checked;

verus! {

/// What a compressing stream is set up with.
#[derive(Debug, Clone, Copy, PartialEq, Eq, Structural)]
pub struct Compress {
    pub level: i32,
}

/// What one call of `ZSTD_compressStream` did.
#[derive(Debug, Clone, Copy, PartialEq, Eq, Structural)]
pub struct CompressTick {
    /// How many bytes it wrote.
    pub written: usize,
    /// How many bytes it read.
    pub consumed: usize,
}

/// What one call of `ZSTD_endStream` did.
#[derive(Debug, Clone, Copy, PartialEq, Eq, Structural)]
pub struct EndTick {
    /// How many bytes it wrote.
    pub written: usize,
    /// How many bytes are still to be written; zero where the frame is complete.
    pub remaining: usize,
}

impl Compress {
    /// The stream, where a context could be made for it (`created`) and setting it to
    /// the level returned `code`. Without a context the code is that of an error that
    /// is not known more closely.
    pub fn new(level: i32, created: bool, code: usize) -> (r: Result<Self, usize>)
        ensures
            if !created {
                r == Err::<Self, usize>(usize::MAX)
            } else if error::is_error(code) {
                r == Err::<Self, usize>(code)
            } else {
                r == Ok::<Self, usize>(Compress { level })
            },
    {
        if !created {
            return Err(usize::MAX);
        }
        match checked(code) {
            Ok(_) => Ok(Compress { level }),
            Err(code) => Err(code),
        }
    }

    /// What a call of `ZSTD_compressStream` that returned `code` did.
    pub fn compress_stream(&self, written: usize, consumed: usize, code: usize) -> (r: Result<CompressTick, usize>)
        ensures
            if error::is_error(code) {
                r == Err::<CompressTick, usize>(code)
            } else {
                r == Ok::<CompressTick, usize>(CompressTick { written, consumed })
            },
    {
        match checked(code) {
            Ok(_) => Ok(CompressTick { written, consumed }),
            Err(code) => Err(code),
        }
    }

    /// What a call of `ZSTD_endStream` that returned `code` did.
    pub fn end_stream(&self, written: usize, code: usize) -> (r: Result<EndTick, usize>)
        ensures
            if error::is_error(code) {
                r == Err::<EndTick, usize>(code)
            } else {
                r == Ok::<EndTick, usize>(EndTick { written, remaining: code })
            },
    {
        match checked(code) {
            Ok(remaining) => Ok(EndTick { written, remaining }),
            Err(code) => Err(code),
        }
    }
}

/// A stream needs a context, and a code that is no error for setting it up; it has the
/// level it was asked for. A call did what it says unless its code is an error; the one
/// that ends the stream leaves as many bytes as its code says.
pub proof fn law_zst_compress(
    level: i32,
    created: bool,
    code: usize,
    made: Result<Compress, usize>,
    stream: Compress,
    written: usize,
    consumed: usize,
    fed: Result<CompressTick, usize>,
    ended: Result<EndTick, usize>,
)
    requires
        call_ensures(Compress::new, (level, created, code), made),
        call_ensures(Compress::compress_stream, (&stream, written, consumed, code), fed),
        call_ensures(Compress::end_stream, (&stream, written, code), ended),
    ensures
        made is Ok <==> created && usize::MAX - code >= 119,
        made is Ok ==> made->Ok_0.level == level,
        !created ==> made->Err_0 == usize::MAX,
        created && made is Err ==> made->Err_0 == code,
        fed is Err <==> usize::MAX - code < 119,
        fed is Err ==> fed->Err_0 == code,
        fed is Ok ==> fed->Ok_0.written == written && fed->Ok_0.consumed == consumed,
        ended is Err <==> usize::MAX - code < 119,
        ended is Err ==> ended->Err_0 == code,
        ended is Ok ==> ended->Ok_0.written == written && ended->Ok_0.remaining == code,
{
}

}
