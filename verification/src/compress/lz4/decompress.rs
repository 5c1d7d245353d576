//! Decompressing with liblz4.
use vstd::prelude::*;

use crate::compress::lz4::error;
use crate::compress::lz4::error::checked;

verus! {

/// A decompressing stream.
#[derive(Debug, Clone, Copy, PartialEq, Eq, Structural)]
pub struct Decompress;

/// What one call of `LZ4F_decompress` did.
#[derive(Debug, Clone, Copy, PartialEq, Eq, Structural)]
pub struct DecompressTick {
    /// How many bytes it wrote.
    pub written: usize,
    /// How many bytes it read.
    pub consumed: usize,
    /// How many bytes the next call would like; zero where the frame is complete.
    pub hint: usize,
}

impl Decompress {
    /// The stream, once `LZ4F_createDecompressionContext` has returned `code`.
    pub fn new(code: usize) -> (r: Result<Self, usize>)
        ensures
            if error::is_error(code) {
                r == Err::<Self, usize>(code)
            } else {
                r is Ok
            },
    {
        match checked(code) {
            Ok(_) => Ok(Decompress),
            Err(code) => Err(code),
        }
    }

    /// What a call of `LZ4F_decompress` that returned `code` did.
    pub fn decompress_tick(&self, written: usize, consumed: usize, code: usize) -> (r: Result<DecompressTick, usize>)
        ensures
            if error::is_error(code) {
                r == Err::<DecompressTick, usize>(code)
            } else {
                r == Ok::<DecompressTick, usize>(DecompressTick { written, consumed, hint: code })
            },
    {
        match checked(code) {
            Ok(hint) => Ok(DecompressTick { written, consumed, hint }),
            Err(code) => Err(code),
        }
    }
}

/// A call did what it says, and asks for as many bytes as its code says, unless the code is
/// an error.
pub proof fn law_lz4_decompress(
    code: usize,
    made: Result<Decompress, usize>,
    stream: Decompress,
    written: usize,
    consumed: usize,
    r: Result<DecompressTick, usize>,
)
    requires
        call_ensures(Decompress::new, (code,), made),
        call_ensures(Decompress::decompress_tick, (&stream, written, consumed, code), r),
    ensures
        made is Err <==> usize::MAX - code < 23,
        made is Err ==> made->Err_0 == code,
        r is Err <==> usize::MAX - code < 23,
        r is Err ==> r->Err_0 == code,
        r is Ok ==> r->Ok_0.written == written && r->Ok_0.consumed == consumed && r->Ok_0.hint == code,
{
}

}
