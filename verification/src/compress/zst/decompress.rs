//! Decompressing with libzstd.
use vstd::prelude::*;

use crate::compress::zst::error;
use crate::compress::zst::error::checked;

verus! {

/// A decompressing stream.
#[derive(Debug, Clone, Copy, PartialEq, Eq, Structural)]
pub struct Decompress;

/// What one call of `ZSTD_decompressStream` did.
#[derive(Debug, Clone, Copy, PartialEq, Eq, Structural)]
pub struct DecompressTick {
    /// How many bytes it wrote.
    pub written: usize,
    /// How many bytes it read.
    pub consumed: usize,
    /// How many bytes the next call would like; zero where the frame is complete.
    pub hint: usize,
}

impl Decompress {
    /// The stream, where a context could be made for it (`created`) and setting it up
    /// returned `code`.
    pub fn new(created: bool, code: usize) -> (r: Result<Self, usize>)
        ensures
            if !created {
                r == Err::<Self, usize>(usize::MAX)
            } else if error::is_error(code) {
                r == Err::<Self, usize>(code)
            } else {
                r is Ok
            },
    {
        if !created {
            return Err(usize::MAX);
        }
        match checked(code) {
            Ok(_) => Ok(Decompress),
            Err(code) => Err(code),
        }
    }

    /// What a call of `ZSTD_decompressStream` that returned `code` did.
    pub fn decompress_stream(&self, written: usize, consumed: usize, code: usize) -> (r: Result<DecompressTick, usize>)
        ensures
            if error::is_error(code) {
                r == Err::<DecompressTick, usize>(code)
            } else {
                r == Ok::<DecompressTick, usize>(DecompressTick { written, consumed, hint: code })
            },
    {
        match checked(code) {
            Ok(hint) => Ok(DecompressTick { written, consumed, hint }),
            Err(code) => Err(code),
        }
    }
}

/// A stream needs a context, and a code that is no error for setting it up. A call did what
/// it says, and asks for as many bytes as its code says, unless the code is an error.
pub proof fn law_zst_decompress(
    created: bool,
    code: usize,
    made: Result<Decompress, usize>,
    stream: Decompress,
    written: usize,
    consumed: usize,
    r: Result<DecompressTick, usize>,
)
    requires
        call_ensures(Decompress::new, (created, code), made),
        call_ensures(Decompress::decompress_stream, (&stream, written, consumed, code), r),
    ensures
        made is Ok <==> created && usize::MAX - code >= 119,
        !created ==> made->Err_0 == usize::MAX,
        created && made is Err ==> made->Err_0 == code,
        r is Err <==> usize::MAX - code < 119,
        r is Err ==> r->Err_0 == code,
        r is Ok ==> r->Ok_0.written == written && r->Ok_0.consumed == consumed && r->Ok_0.hint == code,
{
}

}
