//! Compressing with liblz4.
use vstd::prelude::*;

use crate::compress::lz4::error;
use crate::compress::lz4::error::checked;

verus! {

/// What a compressing stream is set up with.
#[derive(Debug, Clone, Copy, PartialEq, Eq, Structural)]
pub struct Compress {
    /// The level, as the bits that liblz4 reads it from.
    pub compression_level: u32,
    /// Whether the frame ends with a checksum of its contents.
    pub content_checksum: bool,
}

/// The bits of a level.
pub open spec fn level_bits(level: i32) -> u32 {
    level as u32
}

/// What a call that returned `code` amounts to.
pub open spec fn outcome(code: usize) -> Result<usize, usize> {
    if error::is_error(code) {
        Err(code)
    } else {
        Ok(code)
    }
}

impl Compress {
    /// What a stream of the given level is set up with; where `raw`, its frame has no
    /// checksum.
    pub fn new(level: i32, raw: bool) -> (r: Self)
        ensures
            r.compression_level == level_bits(level),
            r.content_checksum == !raw,
    {
        Compress { compression_level: #[verifier::truncate] (level as u32), content_checksum: !raw }
    }

    /// The stream, once `LZ4F_createCompressionContext` has returned `code`.
    pub fn started(self, code: usize) -> (r: Result<Self, usize>)
        ensures
            if error::is_error(code) {
                r == Err::<Self, usize>(code)
            } else {
                r == Ok::<Self, usize>(self)
            },
    {
        match checked(code) {
            Ok(_) => Ok(self),
            Err(code) => Err(code),
        }
    }

    /// How many bytes of header `LZ4F_compressBegin` wrote.
    pub fn compress_begin(&self, code: usize) -> (r: Result<usize, usize>)
        ensures
            r == outcome(code),
    {
        checked(code)
    }

    /// How many bytes `LZ4F_compressUpdate` wrote.
    pub fn compress_update(&self, code: usize) -> (r: Result<usize, usize>)
        ensures
            r == outcome(code),
    {
        checked(code)
    }

    /// How many bytes `LZ4F_compressEnd` wrote.
    pub fn compress_end(&self, code: usize) -> (r: Result<usize, usize>)
        ensures
            r == outcome(code),
    {
        checked(code)
    }

    /// The level.
    pub fn level(&self) -> (r: i32)
        ensures
            level_bits(r) == self.compression_level,
    {
        let bits: u32 = self.compression_level;
        let level: i32 = #[verifier::truncate] (bits as i32);
        assert((bits as i32) as u32 == bits) by (bit_vector);
        level
    }
}

/// The level that a stream tells is the one it was set up with.
pub proof fn law_level_is_kept(a: i32, b: i32)
    ensures
        level_bits(a) == level_bits(b) ==> a == b,
{
    assert(a as u32 == b as u32 ==> a == b) by (bit_vector);
}

/// A stream tells the level it was set up with, and its frame has a checksum unless it is
/// raw. Each call wrote as many bytes as its code says, unless the code is an error.
pub proof fn law_lz4_compress(
    level: i32,
    raw: bool,
    stream: Compress,
    told: i32,
    code: usize,
    started: Result<Compress, usize>,
    begin: Result<usize, usize>,
    update: Result<usize, usize>,
    end: Result<usize, usize>,
)
    requires
        call_ensures(Compress::new, (level, raw), stream),
        call_ensures(Compress::level, (&stream,), told),
        call_ensures(Compress::started, (stream, code), started),
        call_ensures(Compress::compress_begin, (&stream, code), begin),
        call_ensures(Compress::compress_update, (&stream, code), update),
        call_ensures(Compress::compress_end, (&stream, code), end),
    ensures
        told == level,
        stream.content_checksum <==> !raw,
        started is Err <==> usize::MAX - code < 23,
        started is Ok ==> started->Ok_0 == stream,
        started is Err ==> started->Err_0 == code,
        begin == update && update == end,
        begin is Err <==> usize::MAX - code < 23,
        begin is Ok ==> begin->Ok_0 == code,
        begin is Err ==> begin->Err_0 == code,
{
    law_level_is_kept(level, told);
}

}
