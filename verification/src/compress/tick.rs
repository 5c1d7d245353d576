//! One call of a codec that counts what is left of its buffers.
use vstd::prelude::*;

verus! {

/// What a codec is told of a buffer of `len` bytes: it counts in 32 bits.
pub open spec fn offered(len: int) -> int {
    if len <= u32::MAX {
        len
    } else {
        u32::MAX as int
    }
}

/// What a codec is told of a buffer of `len` bytes.
pub fn avail(len: usize) -> (r: u32)
    ensures
        r == offered(len as int),
        r <= len,
{
    if len as u64 <= u32::MAX as u64 {
        len as u32
    } else {
        u32::MAX
    }
}

/// How many bytes of its buffers a codec had before and after a call.
#[derive(Debug, Clone, Copy, PartialEq, Eq, Structural)]
pub struct StreamCounts {
    pub in_before: u32,
    pub in_after: u32,
    pub out_before: u32,
    pub out_after: u32,
}

impl StreamCounts {
    /// A call uses its buffers up, it does not fill them.
    pub open spec fn plausible(self) -> bool {
        self.in_after <= self.in_before && self.out_after <= self.out_before
    }

    /// How many bytes the call read.
    pub open spec fn consumed(self) -> int {
        self.in_before - self.in_after
    }

    /// How many bytes it wrote.
    pub open spec fn written(self) -> int {
        self.out_before - self.out_after
    }

    /// How many bytes the call read.
    pub fn consumed_bytes(&self) -> (r: usize)
        requires
            self.plausible(),
        ensures
            r == self.consumed(),
    {
        (self.in_before - self.in_after) as usize
    }

    /// How many bytes it wrote.
    pub fn written_bytes(&self) -> (r: usize)
        requires
            self.plausible(),
        ensures
            r == self.written(),
    {
        (self.out_before - self.out_after) as usize
    }
}

/// A codec is offered a whole buffer as far as 32 bits can count it, and what a call used
/// of a buffer is the difference of what was left before and after it.
pub proof fn law_counts(len: usize, offer: u32, counts: &StreamCounts, consumed: usize, written: usize)
    requires
        call_ensures(avail, (len,), offer),
        counts.in_after <= counts.in_before,
        counts.out_after <= counts.out_before,
        call_ensures(StreamCounts::consumed_bytes, (counts,), consumed),
        call_ensures(StreamCounts::written_bytes, (counts,), written),
    ensures
        len <= 0xffff_ffff ==> offer == len,
        len > 0xffff_ffff ==> offer == 0xffff_ffff,
        counts.in_after + consumed == counts.in_before,
        counts.out_after + written == counts.out_before,
{
}

}
