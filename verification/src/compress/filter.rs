//! The filters around the codecs. A filter takes its whole input first; then its
//! codec is driven over it, call by call, until the stream is complete. The calls are
//! made elsewhere: a run says which one is next and takes up what it returned.
use vstd::prelude::*;

use crate::compress::bz2;
use crate::compress::gz;
use crate::compress::lz4;
use crate::compress::zst;
use crate::text;
use crate::text::{print_signed, print_unsigned};

verus! {

/// How large a buffer one call of a codec writes to.
pub const TICK_BUF: usize = 65536;

/// How many bytes the header of an LZ4 frame takes at most.
pub const HEADER_MAX: usize = 19;

/// How many bytes its trailer takes at most.
pub const TRAILER_MAX: usize = 8;

/// How a filter fails.
#[derive(Debug, Clone, PartialEq, Eq)]
pub enum IoError {
    /// The codec failed, with this message.
    Backend(String),
}

impl IoError {
    /// Whether the message is `text`.
    pub open spec fn says(self, text: Seq<char>) -> bool {
        self matches IoError::Backend(m) && m@ == text
    }
}

/// The error code of a codec.
#[derive(Debug, Clone, Copy, PartialEq, Eq, Structural)]
pub enum Code {
    Signed(i32),
    Unsigned(usize),
}

impl Code {
    /// The code in decimal.
    pub open spec fn text(self) -> Seq<char> {
        match self {
            Code::Signed(n) => text::signed_text(n as int),
            Code::Unsigned(n) => text::decimal(n as nat),
        }
    }
}

/// The words of a filter's errors.
pub struct Words {
    /// The codec could not be set up.
    pub init: &'static str,
    /// A call that reads input failed.
    pub feed: &'static str,
    /// A call that ends the stream failed.
    pub flush: &'static str,
    /// A call neither read nor wrote anything.
    pub stalled: &'static str,
}

/// The contents of [`Words`].
pub struct WordsView {
    pub init: Seq<char>,
    pub feed: Seq<char>,
    pub flush: Seq<char>,
    pub stalled: Seq<char>,
}

impl View for Words {
    type V = WordsView;

    open spec fn view(&self) -> WordsView {
        WordsView { init: self.init@, feed: self.feed@, flush: self.flush@, stalled: self.stalled@ }
    }
}

fn coded(words: &str, code: Code) -> (r: IoError)
    ensures
        r.says(words@ + code.text()),
{
    let mut m = words.to_owned();
    match code {
        Code::Signed(n) => {
            m.append(print_signed(n as i64).as_str());
        },
        Code::Unsigned(n) => {
            m.append(print_unsigned(n as u64).as_str());
        },
    }
    IoError::Backend(m)
}

fn append_front(out: &mut Vec<u8>, buf: &Vec<u8>, n: usize)
    requires
        n <= buf.len(),
    ensures
        final(out)@ == old(out)@ + buf@.take(n as int),
{
    let ghost start = out@;
    let mut i: usize = 0;
    while i < n
        invariant
            i <= n,
            n <= buf.len(),
            out@ == start + buf@.take(i as int),
        decreases n - i,
    {
        out.push(buf[i]);
        i += 1;
        assert(out@ =~= start + buf@.take(i as int));
    }
}

fn append_slice(out: &mut Vec<u8>, input: &[u8])
    ensures
        final(out)@ == old(out)@ + input@,
{
    let ghost start = out@;
    let n: usize = input.len();
    let mut i: usize = 0;
    while i < n
        invariant
            i <= n,
            n == input.len(),
            out@ == start + input@.take(i as int),
        decreases n - i,
    {
        out.push(input[i]);
        i += 1;
        assert(out@ =~= start + input@.take(i as int));
    }
    assert(input@.take(n as int) =~= input@);
}

/// Why a codec that returns zero for success could not be set up.
pub open spec fn signed_failure(ret: i32) -> Option<Code> {
    if ret == 0 {
        None
    } else {
        Some(Code::Signed(ret))
    }
}

/// Why liblz4 could not be set up.
pub open spec fn lz4_failure(code: usize) -> Option<Code> {
    if lz4::error::is_error(code) {
        Some(Code::Unsigned(code))
    } else {
        None
    }
}

/// Why libzstd could not be set up.
pub open spec fn zst_failure(created: bool, code: usize) -> Option<Code> {
    if !created {
        Some(Code::Unsigned(usize::MAX))
    } else if zst::error::is_error(code) {
        Some(Code::Unsigned(code))
    } else {
        None
    }
}

/// What one call of a codec did.
#[derive(Debug, Clone, Copy, PartialEq, Eq, Structural)]
pub struct Tick {
    /// How many bytes it wrote.
    pub written: usize,
    /// How many bytes it read.
    pub consumed: usize,
    /// Whether the stream is complete.
    pub ended: bool,
}

/// The call that a run makes next.
#[derive(Debug, Clone, Copy, PartialEq, Eq, Structural)]
pub enum Call {
    /// One that reads the input from this place on.
    Feed { from: usize },
    /// One that ends the stream.
    Flush,
    /// None: the stream is complete.
    Done,
}

/// A call that a run took up: what it did, and the bytes that it wrote.
pub struct CallView {
    pub tick: Tick,
    pub wrote: Seq<u8>,
}

/// How many bytes the calls read.
pub open spec fn read_by(calls: Seq<CallView>) -> nat
    decreases calls.len(),
{
    if calls.len() == 0 {
        0
    } else {
        read_by(calls.drop_last()) + calls.last().tick.consumed as nat
    }
}

/// What the calls wrote, one after the other.
pub open spec fn written_by(calls: Seq<CallView>) -> Seq<u8>
    decreases calls.len(),
{
    if calls.len() == 0 {
        Seq::<u8>::empty()
    } else {
        written_by(calls.drop_last()) + calls.last().wrote
    }
}

/// A call that wrote to the front of `buf`.
pub open spec fn call_of(tick: Tick, buf: Seq<u8>) -> CallView {
    CallView { tick, wrote: buf.take(tick.written as int) }
}

/// The output of a run is all that its calls wrote, in order: it stays so when one
/// more call is taken up.
pub proof fn law_output_is_what_was_written(base: Seq<u8>, out: Seq<u8>, calls: Seq<CallView>, call: CallView)
    requires
        out == base + written_by(calls),
    ensures
        out + call.wrote == base + written_by(calls.push(call)),
{
    assert(calls.push(call).drop_last() =~= calls);
    assert(out + call.wrote =~= base + (written_by(calls) + call.wrote));
}

/// How far a codec was driven over a whole input.
pub struct StreamView {
    /// The words of its errors.
    pub words: WordsView,
    /// How long the input is.
    pub len: int,
    /// How much of it was read.
    pub pos: int,
    /// Whether the stream is complete.
    pub ended: bool,
    /// The calls that were taken up.
    pub calls: Seq<CallView>,
}

impl StreamView {
    /// Whether no call was taken up yet, over an input of `len` bytes.
    pub open spec fn fresh(self, words: WordsView, len: int) -> bool {
        &&& self.words == words
        &&& self.len == len
        &&& self.pos == 0
        &&& !self.ended
        &&& self.calls.len() == 0
    }

    /// This stream once it took up one more call.
    pub open spec fn with_call(self, call: CallView, ended: bool) -> StreamView {
        StreamView { pos: self.pos + call.tick.consumed, ended, calls: self.calls.push(call), ..self }
    }
}

struct Stream {
    words: Words,
    len: usize,
    pos: usize,
    ended: bool,
    calls: Ghost<Seq<CallView>>,
}

impl View for Stream {
    type V = StreamView;

    closed spec fn view(&self) -> StreamView {
        StreamView {
            words: self.words@,
            len: self.len as int,
            pos: self.pos as int,
            ended: self.ended,
            calls: self.calls@,
        }
    }
}

impl Stream {
    #[verifier::type_invariant]
    spec fn inv(self) -> bool {
        self.pos <= self.len && self.pos == read_by(self.calls@)
    }

    fn start(words: Words, len: usize, init: Result<(), Code>) -> (r: Result<Self, IoError>)
        ensures
            match init {
                Err(code) => r matches Err(e) && e.says(words@.init + code.text()),
                Ok(_) => r matches Ok(stream) && stream@.fresh(words@, len as int),
            },
    {
        if let Err(code) = init {
            return Err(coded(words.init, code));
        }
        Ok(Stream { words, len, pos: 0, ended: false, calls: Ghost(Seq::empty()) })
    }

    fn taking(self, tick: Tick, buf: &Vec<u8>, ended: bool, out: &mut Vec<u8>) -> (r: Self)
        requires
            tick.written <= buf.len(),
            self@.pos + tick.consumed <= self@.len,
        ensures
            r@ == self@.with_call(call_of(tick, buf@), ended),
            final(out)@ == old(out)@ + call_of(tick, buf@).wrote,
    {
        proof {
            use_type_invariant(&self);
        }
        let ghost call = call_of(tick, buf@);
        let ghost before = self.calls@;
        let Stream { words, len, pos, ended: _, calls: _ } = self;
        append_front(out, buf, tick.written);
        proof {
            assert(before.push(call).drop_last() =~= before);
        }
        Stream { words, len, pos: pos + tick.consumed, ended, calls: Ghost(before.push(call)) }
    }
}

/// A compressing codec being driven over a whole input.
pub struct EncodeRun {
    stream: Stream,
}

impl View for EncodeRun {
    type V = StreamView;

    closed spec fn view(&self) -> StreamView {
        self.stream@
    }
}

impl EncodeRun {
    #[verifier::type_invariant]
    spec fn inv(self) -> bool {
        self@.ended ==> self@.pos == self@.len
    }

    /// A run over `len` bytes, once setting up the codec succeeded or failed.
    pub fn start(words: Words, len: usize, init: Result<(), Code>) -> (r: Result<Self, IoError>)
        ensures
            match init {
                Err(code) => r matches Err(e) && e.says(words@.init + code.text()),
                Ok(_) => r matches Ok(run) && run@.fresh(words@, len as int),
            },
    {
        match Stream::start(words, len, init) {
            Ok(stream) => Ok(EncodeRun { stream }),
            Err(e) => Err(e),
        }
    }

    /// The call to make next: the whole input is read before the stream is ended, each
    /// call going on where the last one stopped.
    pub fn next(&self) -> (r: Call)
        ensures
            0 <= self@.pos <= self@.len,
            self@.pos == read_by(self@.calls),
            if self@.ended {
                r == Call::Done && self@.pos == self@.len
            } else if self@.pos < self@.len {
                r matches Call::Feed { from } && from == self@.pos
            } else {
                r == Call::Flush
            },
    {
        proof {
            use_type_invariant(self);
            use_type_invariant(&self.stream);
        }
        if self.stream.ended {
            Call::Done
        } else if self.stream.pos < self.stream.len {
            Call::Feed { from: self.stream.pos }
        } else {
            Call::Flush
        }
    }

    /// Takes up what a call that reads input did; what it wrote is at the front of
    /// `buf` and is put behind `out`. One that neither read nor wrote anything fails the run.
    pub fn fed(self, result: Result<Tick, Code>, buf: &Vec<u8>, out: &mut Vec<u8>) -> (r: Result<Self, IoError>)
        requires
            !self@.ended,
            result matches Ok(tick) ==> tick.written <= buf.len() && self@.pos + tick.consumed <= self@.len,
        ensures
            match result {
                Err(code) => {
                    &&& r matches Err(e) && e.says(self@.words.feed + code.text())
                    &&& final(out)@ == old(out)@
                },
                Ok(tick) => if tick.consumed == 0 && tick.written == 0 {
                    &&& r matches Err(e) && e.says(self@.words.stalled)
                    &&& final(out)@ == old(out)@
                } else {
                    &&& r matches Ok(after) && after@ == self@.with_call(call_of(tick, buf@), false)
                    &&& final(out)@ == old(out)@ + call_of(tick, buf@).wrote
                },
            },
    {
        match result {
            Err(code) => Err(coded(self.stream.words.feed, code)),
            Ok(tick) => {
                if tick.consumed == 0 && tick.written == 0 {
                    return Err(IoError::Backend(self.stream.words.stalled.to_owned()));
                }
                Ok(EncodeRun { stream: self.stream.taking(tick, buf, false, out) })
            },
        }
    }

    /// Takes up what a call that ends the stream did; what it wrote is at the front of
    /// `buf` and is put behind `out`. There is no input left for it to read.
    pub fn flushed(self, result: Result<Tick, Code>, buf: &Vec<u8>, out: &mut Vec<u8>) -> (r: Result<Self, IoError>)
        requires
            !self@.ended,
            self@.pos == self@.len,
            result matches Ok(tick) ==> tick.written <= buf.len() && tick.consumed == 0,
        ensures
            match result {
                Err(code) => {
                    &&& r matches Err(e) && e.says(self@.words.flush + code.text())
                    &&& final(out)@ == old(out)@
                },
                Ok(tick) => {
                    &&& r matches Ok(after) && after@ == self@.with_call(call_of(tick, buf@), tick.ended)
                    &&& final(out)@ == old(out)@ + call_of(tick, buf@).wrote
                },
            },
    {
        match result {
            Err(code) => Err(coded(self.stream.words.flush, code)),
            Ok(tick) => Ok(EncodeRun { stream: self.stream.taking(tick, buf, tick.ended, out) }),
        }
    }
}

/// A decompressing codec being driven over a whole input.
pub struct DecodeRun {
    stream: Stream,
}

impl View for DecodeRun {
    type V = StreamView;

    closed spec fn view(&self) -> StreamView {
        self.stream@
    }
}

impl DecodeRun {
    /// A run over `len` bytes, once setting up the codec succeeded or failed.
    pub fn start(words: Words, len: usize, init: Result<(), Code>) -> (r: Result<Self, IoError>)
        ensures
            match init {
                Err(code) => r matches Err(e) && e.says(words@.init + code.text()),
                Ok(_) => r matches Ok(run) && run@.fresh(words@, len as int),
            },
    {
        match Stream::start(words, len, init) {
            Ok(stream) => Ok(DecodeRun { stream }),
            Err(e) => Err(e),
        }
    }

    /// The call to make next, which goes on where the last one stopped. Input that is
    /// left when the stream is complete is not read.
    pub fn next(&self) -> (r: Call)
        ensures
            0 <= self@.pos <= self@.len,
            self@.pos == read_by(self@.calls),
            if self@.ended {
                r == Call::Done
            } else {
                r matches Call::Feed { from } && from == self@.pos
            },
    {
        proof {
            use_type_invariant(&self.stream);
        }
        if self.stream.ended {
            Call::Done
        } else {
            Call::Feed { from: self.stream.pos }
        }
    }

    /// Takes up what a call did; what it wrote is at the front of `buf`. One that
    /// neither ended the stream nor read nor wrote anything fails the run: the input
    /// is not complete.
    pub fn fed(self, result: Result<Tick, Code>, buf: &Vec<u8>, out: &mut Vec<u8>) -> (r: Result<Self, IoError>)
        requires
            !self@.ended,
            result matches Ok(tick) ==> tick.written <= buf.len() && self@.pos + tick.consumed <= self@.len,
        ensures
            match result {
                Err(code) => {
                    &&& r matches Err(e) && e.says(self@.words.feed + code.text())
                    &&& final(out)@ == old(out)@
                },
                Ok(tick) => if !tick.ended && tick.consumed == 0 && tick.written == 0 {
                    &&& r matches Err(e) && e.says(self@.words.stalled)
                    &&& final(out)@ == old(out)@
                } else {
                    &&& r matches Ok(after) && after@ == self@.with_call(call_of(tick, buf@), tick.ended)
                    &&& final(out)@ == old(out)@ + call_of(tick, buf@).wrote
                },
            },
    {
        match result {
            Err(code) => Err(coded(self.stream.words.feed, code)),
            Ok(tick) => {
                if !tick.ended && tick.consumed == 0 && tick.written == 0 {
                    return Err(IoError::Backend(self.stream.words.stalled.to_owned()));
                }
                Ok(DecodeRun { stream: self.stream.taking(tick, buf, tick.ended, out) })
            },
        }
    }
}

/// The call that an LZ4 frame is written with next.
#[derive(Debug, Clone, Copy, PartialEq, Eq, Structural)]
pub enum FrameCall {
    /// The one that writes the header.
    Begin,
    /// The one that writes the contents.
    Update,
    /// The one that writes the trailer.
    End,
    /// None: the frame is complete.
    Done,
}

/// An LZ4 frame being written to a buffer: each call writes behind the one before.
pub struct FrameRun {
    has_input: bool,
    capacity: usize,
    total: usize,
    call: FrameCall,
}

/// The call after `call`: there are contents only where there is input.
pub open spec fn call_after(call: FrameCall, has_input: bool) -> FrameCall {
    match call {
        FrameCall::Begin => if has_input {
            FrameCall::Update
        } else {
            FrameCall::End
        },
        FrameCall::Update => FrameCall::End,
        FrameCall::End => FrameCall::Done,
        FrameCall::Done => FrameCall::Done,
    }
}

/// The words for a failed call.
pub open spec fn frame_words(call: FrameCall) -> Seq<char> {
    match call {
        FrameCall::Begin => "lz4 compress begin failed: liblz4 code "@,
        FrameCall::Update => "lz4 compress update failed: liblz4 code "@,
        FrameCall::End => "lz4 compress end failed: liblz4 code "@,
        FrameCall::Done => ""@,
    }
}

impl FrameRun {
    #[verifier::type_invariant]
    spec fn inv(self) -> bool {
        self.total <= self.capacity
    }

    /// Whether there is input.
    pub closed spec fn has_input(self) -> bool {
        self.has_input
    }

    /// How long the buffer is.
    pub closed spec fn capacity(self) -> int {
        self.capacity as int
    }

    /// How much of it was written.
    pub closed spec fn total(self) -> int {
        self.total as int
    }

    /// The call to make next.
    pub closed spec fn call(self) -> FrameCall {
        self.call
    }

    /// A frame for `len` bytes of input, once setting up the codec succeeded or
    /// failed; `bound` is how many bytes its contents may take. The buffer has room
    /// for them, a header and a trailer.
    pub fn start(len: usize, bound: usize, init: Result<(), Code>) -> (r: Result<Self, IoError>)
        requires
            HEADER_MAX + bound + TRAILER_MAX <= usize::MAX,
        ensures
            match init {
                Err(code) => r matches Err(e) && e.says("lz4 compress init failed: liblz4 code "@ + code.text()),
                Ok(_) => {
                    &&& r matches Ok(run)
                    &&& run.has_input() == (len > 0)
                    &&& run.capacity() == HEADER_MAX + bound + TRAILER_MAX
                    &&& run.total() == 0
                    &&& run.call() == FrameCall::Begin
                },
            },
    {
        if let Err(code) = init {
            return Err(coded("lz4 compress init failed: liblz4 code ", code));
        }
        Ok(
            FrameRun {
                has_input: len > 0,
                capacity: HEADER_MAX + bound + TRAILER_MAX,
                total: 0,
                call: FrameCall::Begin,
            },
        )
    }

    /// The call to make next, and where in the buffer it writes.
    pub fn next(&self) -> (r: (FrameCall, usize))
        ensures
            r.0 == self.call(),
            r.1 == self.total(),
            self.total() <= self.capacity(),
    {
        proof {
            use_type_invariant(self);
        }
        (self.call, self.total)
    }

    /// How long the buffer is to be.
    pub fn buffer_len(&self) -> (r: usize)
        ensures
            r == self.capacity(),
    {
        self.capacity
    }

    /// Takes up how many bytes the call wrote, or that it failed.
    pub fn called(&mut self, result: Result<usize, usize>) -> (r: Result<(), IoError>)
        requires
            old(self).call() != FrameCall::Done,
            result matches Ok(n) ==> old(self).total() + n <= old(self).capacity(),
        ensures
            match result {
                Err(code) => {
                    &&& r matches Err(e) && e.says(frame_words(old(self).call()) + text::decimal(code as nat))
                    &&& *final(self) == *old(self)
                },
                Ok(n) => {
                    &&& r is Ok
                    &&& final(self).has_input() == old(self).has_input()
                    &&& final(self).capacity() == old(self).capacity()
                    &&& final(self).total() == old(self).total() + n
                    &&& final(self).call() == call_after(old(self).call(), old(self).has_input())
                },
            },
    {
        match result {
            Err(code) => {
                let words = match self.call {
                    FrameCall::Begin => "lz4 compress begin failed: liblz4 code ",
                    FrameCall::Update => "lz4 compress update failed: liblz4 code ",
                    _ => "lz4 compress end failed: liblz4 code ",
                };
                Err(coded(words, Code::Unsigned(code)))
            },
            Ok(n) => {
                let call = match self.call {
                    FrameCall::Begin => if self.has_input {
                        FrameCall::Update
                    } else {
                        FrameCall::End
                    },
                    FrameCall::Update => FrameCall::End,
                    _ => FrameCall::Done,
                };
                let total: usize = self.total + n;
                self.total = total;
                self.call = call;
                Ok(())
            },
        }
    }

    /// Puts the frame that was written to `frame` behind `out`.
    pub fn finish(&self, frame: &Vec<u8>, out: &mut Vec<u8>)
        requires
            self.call() == FrameCall::Done,
            frame.len() == self.capacity(),
        ensures
            final(out)@ == old(out)@ + frame@.take(self.total()),
    {
        proof {
            use_type_invariant(self);
        }
        append_front(out, frame, self.total);
    }
}

/// A frame is written by a call for the header, one for the contents where there are
/// any, and one for the trailer.
pub proof fn law_frame_calls(has_input: bool)
    ensures
        call_after(FrameCall::Begin, has_input) == FrameCall::Update <==> has_input,
        has_input ==> call_after(call_after(FrameCall::Begin, has_input), has_input) == FrameCall::End,
        !has_input ==> call_after(FrameCall::Begin, has_input) == FrameCall::End,
        call_after(FrameCall::End, has_input) == FrameCall::Done,
{
}

/// The words of the errors of [`GzCompress`].
pub open spec fn gz_compress_words() -> WordsView {
    WordsView {
        init: "gz compress init failed: zlib code "@,
        feed: "gz deflate failed: zlib code "@,
        flush: "gz deflate flush failed: zlib code "@,
        stalled: "gz deflate made no progress"@,
    }
}

/// Compresses with zlib.
pub struct GzCompress {
    pub level: i32,
    /// Whether the output has the zlib wrapping in place of the gzip one.
    pub raw: bool,
    /// The input so far.
    pub pending: Vec<u8>,
}

impl GzCompress {
    /// A filter without input yet.
    pub fn new(level: i32, raw: bool) -> (r: Self)
        ensures
            r.level == level,
            r.raw == raw,
            r.pending@ == Seq::<u8>::empty(),
    {
        GzCompress { level, raw, pending: Vec::new() }
    }

    /// Takes more input; nothing is written before the input is complete.
    pub fn process(&mut self, input: &[u8], out: &mut Vec<u8>) -> (r: Result<(), IoError>)
        ensures
            r is Ok,
            final(self).level == old(self).level,
            final(self).raw == old(self).raw,
            final(self).pending@ == old(self).pending@ + input@,
            final(out)@ == old(out)@,
    {
        append_slice(&mut self.pending, input);
        Ok(())
    }

    /// The filter's name.
    pub fn name(&self) -> (r: &'static str)
        ensures
            r@ == "gz-compress"@,
    {
        "gz-compress"
    }

    /// The words of its errors.
    pub fn words() -> (r: Words)
        ensures
            r@ == gz_compress_words(),
    {
        Words {
            init: "gz compress init failed: zlib code ",
            feed: "gz deflate failed: zlib code ",
            flush: "gz deflate flush failed: zlib code ",
            stalled: "gz deflate made no progress",
        }
    }

    /// Starts to drive the codec over the input, once setting it up has returned `ret`.
    /// A level that the codec does not know fails with the code that it has for that.
    pub fn finish(&self, ret: i32) -> (r: Result<EncodeRun, IoError>)
        ensures
            if gz::compress::valid_level(self.level) && ret == 0 {
                r matches Ok(run) && run@.fresh(gz_compress_words(), self.pending.len() as int)
            } else {
                let code: int = if gz::compress::valid_level(self.level) {
                    ret as int
                } else {
                    -2
                };
                r matches Err(e) && e.says(gz_compress_words().init + text::signed_text(code))
            },
    {
        let stream = match gz::compress::Compress::new(self.level, self.raw) {
            Ok(stream) => stream.started(ret),
            Err(code) => Err(code),
        };
        let init = match stream {
            Ok(_) => Ok(()),
            Err(code) => Err(Code::Signed(code)),
        };
        EncodeRun::start(GzCompress::words(), self.pending.len(), init)
    }

    /// What a call did.
    pub fn tick(result: Result<gz::compress::DeflateTick, i32>) -> (r: Result<Tick, Code>)
        ensures
            match result {
                Ok(tick) => r == Ok::<Tick, Code>(
                    Tick { written: tick.written, consumed: tick.consumed, ended: tick.stream_end },
                ),
                Err(code) => r == Err::<Tick, Code>(Code::Signed(code)),
            },
    {
        match result {
            Ok(tick) => Ok(Tick { written: tick.written, consumed: tick.consumed, ended: tick.stream_end }),
            Err(code) => Err(Code::Signed(code)),
        }
    }
}

/// The words of the errors of [`GzDecompress`].
pub open spec fn gz_decompress_words() -> WordsView {
    WordsView {
        init: "gz decompress init failed: zlib code "@,
        feed: "gz inflate failed: zlib code "@,
        flush: ""@,
        stalled: "gz inflate truncated or made no progress"@,
    }
}

/// Decompresses with zlib.
pub struct GzDecompress {
    /// Whether the input has the zlib wrapping in place of the gzip one.
    pub raw: bool,
    /// The input so far.
    pub pending: Vec<u8>,
}

impl GzDecompress {
    /// A filter without input yet.
    pub fn new(raw: bool) -> (r: Self)
        ensures
            r.raw == raw,
            r.pending@ == Seq::<u8>::empty(),
    {
        GzDecompress { raw, pending: Vec::new() }
    }

    /// Takes more input; nothing is written before the input is complete.
    pub fn process(&mut self, input: &[u8], out: &mut Vec<u8>) -> (r: Result<(), IoError>)
        ensures
            r is Ok,
            final(self).raw == old(self).raw,
            final(self).pending@ == old(self).pending@ + input@,
            final(out)@ == old(out)@,
    {
        append_slice(&mut self.pending, input);
        Ok(())
    }

    /// The filter's name.
    pub fn name(&self) -> (r: &'static str)
        ensures
            r@ == "gz-decompress"@,
    {
        "gz-decompress"
    }

    /// The words of its errors.
    pub fn words() -> (r: Words)
        ensures
            r@ == gz_decompress_words(),
    {
        Words {
            init: "gz decompress init failed: zlib code ",
            feed: "gz inflate failed: zlib code ",
            flush: "",
            stalled: "gz inflate truncated or made no progress",
        }
    }

    /// Starts to drive the codec over the input, once setting it up has returned `ret`.
    pub fn finish(&self, ret: i32) -> (r: Result<DecodeRun, IoError>)
        ensures
            match signed_failure(ret) {
                Some(code) => r matches Err(e) && e.says(gz_decompress_words().init + code.text()),
                None => r matches Ok(run) && run@.fresh(gz_decompress_words(), self.pending.len() as int),
            },
    {
        let init = match gz::decompress::Decompress::new(self.raw).started(ret) {
            Ok(_) => Ok(()),
            Err(code) => Err(Code::Signed(code)),
        };
        DecodeRun::start(GzDecompress::words(), self.pending.len(), init)
    }

    /// What a call did.
    pub fn tick(result: Result<gz::decompress::InflateTick, i32>) -> (r: Result<Tick, Code>)
        ensures
            match result {
                Ok(tick) => r == Ok::<Tick, Code>(
                    Tick { written: tick.written, consumed: tick.consumed, ended: tick.stream_end },
                ),
                Err(code) => r == Err::<Tick, Code>(Code::Signed(code)),
            },
    {
        match result {
            Ok(tick) => Ok(Tick { written: tick.written, consumed: tick.consumed, ended: tick.stream_end }),
            Err(code) => Err(Code::Signed(code)),
        }
    }
}

/// The words of the errors of [`Bz2Compress`].
pub open spec fn bz2_compress_words() -> WordsView {
    WordsView {
        init: "bz2 compress init failed: libbz2 code "@,
        feed: "bz2 compress failed: libbz2 code "@,
        flush: "bz2 compress flush failed: libbz2 code "@,
        stalled: "bz2 compress made no progress"@,
    }
}

/// Compresses with libbz2.
pub struct Bz2Compress {
    pub level: i32,
    /// The input so far.
    pub pending: Vec<u8>,
}

impl Bz2Compress {
    /// A filter without input yet.
    pub fn new(level: i32) -> (r: Self)
        ensures
            r.level == level,
            r.pending@ == Seq::<u8>::empty(),
    {
        Bz2Compress { level, pending: Vec::new() }
    }

    /// Takes more input; nothing is written before the input is complete.
    pub fn process(&mut self, input: &[u8], out: &mut Vec<u8>) -> (r: Result<(), IoError>)
        ensures
            r is Ok,
            final(self).level == old(self).level,
            final(self).pending@ == old(self).pending@ + input@,
            final(out)@ == old(out)@,
    {
        append_slice(&mut self.pending, input);
        Ok(())
    }

    /// The filter's name.
    pub fn name(&self) -> (r: &'static str)
        ensures
            r@ == "bz2-compress"@,
    {
        "bz2-compress"
    }

    /// The words of its errors.
    pub fn words() -> (r: Words)
        ensures
            r@ == bz2_compress_words(),
    {
        Words {
            init: "bz2 compress init failed: libbz2 code ",
            feed: "bz2 compress failed: libbz2 code ",
            flush: "bz2 compress flush failed: libbz2 code ",
            stalled: "bz2 compress made no progress",
        }
    }

    /// Starts to drive the codec over the input, once setting it up has returned `ret`.
    /// A level that the codec does not know fails with the code that it has for that.
    pub fn finish(&self, ret: i32) -> (r: Result<EncodeRun, IoError>)
        ensures
            if bz2::compress::valid_level(self.level) && ret == 0 {
                r matches Ok(run) && run@.fresh(bz2_compress_words(), self.pending.len() as int)
            } else {
                let code: int = if bz2::compress::valid_level(self.level) {
                    ret as int
                } else {
                    -2
                };
                r matches Err(e) && e.says(bz2_compress_words().init + text::signed_text(code))
            },
    {
        let stream = match bz2::compress::Compress::new(self.level) {
            Ok(stream) => stream.started(ret),
            Err(code) => Err(code),
        };
        let init = match stream {
            Ok(_) => Ok(()),
            Err(code) => Err(Code::Signed(code)),
        };
        EncodeRun::start(Bz2Compress::words(), self.pending.len(), init)
    }

    /// What a call did.
    pub fn tick(result: Result<bz2::compress::CompressTick, i32>) -> (r: Result<Tick, Code>)
        ensures
            match result {
                Ok(tick) => r == Ok::<Tick, Code>(
                    Tick { written: tick.written, consumed: tick.consumed, ended: tick.stream_end },
                ),
                Err(code) => r == Err::<Tick, Code>(Code::Signed(code)),
            },
    {
        match result {
            Ok(tick) => Ok(Tick { written: tick.written, consumed: tick.consumed, ended: tick.stream_end }),
            Err(code) => Err(Code::Signed(code)),
        }
    }
}

/// The words of the errors of [`Bz2Decompress`].
pub open spec fn bz2_decompress_words() -> WordsView {
    WordsView {
        init: "bz2 decompress init failed: libbz2 code "@,
        feed: "bz2 decompress failed: libbz2 code "@,
        flush: ""@,
        stalled: "bz2 decompress truncated or made no progress"@,
    }
}

/// Decompresses with libbz2.
pub struct Bz2Decompress {
    /// The input so far.
    pub pending: Vec<u8>,
}

impl Bz2Decompress {
    /// A filter without input yet.
    pub fn new() -> (r: Self)
        ensures
            r.pending@ == Seq::<u8>::empty(),
    {
        Bz2Decompress { pending: Vec::new() }
    }

    /// Takes more input; nothing is written before the input is complete.
    pub fn process(&mut self, input: &[u8], out: &mut Vec<u8>) -> (r: Result<(), IoError>)
        ensures
            r is Ok,
            final(self).pending@ == old(self).pending@ + input@,
            final(out)@ == old(out)@,
    {
        append_slice(&mut self.pending, input);
        Ok(())
    }

    /// The filter's name.
    pub fn name(&self) -> (r: &'static str)
        ensures
            r@ == "bz2-decompress"@,
    {
        "bz2-decompress"
    }

    /// The words of its errors.
    pub fn words() -> (r: Words)
        ensures
            r@ == bz2_decompress_words(),
    {
        Words {
            init: "bz2 decompress init failed: libbz2 code ",
            feed: "bz2 decompress failed: libbz2 code ",
            flush: "",
            stalled: "bz2 decompress truncated or made no progress",
        }
    }

    /// Starts to drive the codec over the input, once setting it up has returned `ret`.
    pub fn finish(&self, ret: i32) -> (r: Result<DecodeRun, IoError>)
        ensures
            match signed_failure(ret) {
                Some(code) => r matches Err(e) && e.says(bz2_decompress_words().init + code.text()),
                None => r matches Ok(run) && run@.fresh(bz2_decompress_words(), self.pending.len() as int),
            },
    {
        let init = match bz2::decompress::Decompress::new(ret) {
            Ok(_) => Ok(()),
            Err(code) => Err(Code::Signed(code)),
        };
        DecodeRun::start(Bz2Decompress::words(), self.pending.len(), init)
    }

    /// What a call did.
    pub fn tick(result: Result<bz2::decompress::DecompressTick, i32>) -> (r: Result<Tick, Code>)
        ensures
            match result {
                Ok(tick) => r == Ok::<Tick, Code>(
                    Tick { written: tick.written, consumed: tick.consumed, ended: tick.stream_end },
                ),
                Err(code) => r == Err::<Tick, Code>(Code::Signed(code)),
            },
    {
        match result {
            Ok(tick) => Ok(Tick { written: tick.written, consumed: tick.consumed, ended: tick.stream_end }),
            Err(code) => Err(Code::Signed(code)),
        }
    }
}

impl Default for Bz2Decompress {
    /// A filter without input yet.
    fn default() -> (r: Self)
        ensures
            r.pending@ == Seq::<u8>::empty(),
    {
        Bz2Decompress::new()
    }
}

/// Compresses with liblz4, to one frame.
pub struct Lz4Compress {
    pub level: i32,
    /// Whether the frame goes without a checksum.
    pub raw: bool,
    /// The input so far.
    pub pending: Vec<u8>,
}

impl Lz4Compress {
    /// A filter without input yet.
    pub fn new(level: i32, raw: bool) -> (r: Self)
        ensures
            r.level == level,
            r.raw == raw,
            r.pending@ == Seq::<u8>::empty(),
    {
        Lz4Compress { level, raw, pending: Vec::new() }
    }

    /// Takes more input; nothing is written before the input is complete.
    pub fn process(&mut self, input: &[u8], out: &mut Vec<u8>) -> (r: Result<(), IoError>)
        ensures
            r is Ok,
            final(self).level == old(self).level,
            final(self).raw == old(self).raw,
            final(self).pending@ == old(self).pending@ + input@,
            final(out)@ == old(out)@,
    {
        append_slice(&mut self.pending, input);
        Ok(())
    }

    /// The filter's name.
    pub fn name(&self) -> (r: &'static str)
        ensures
            r@ == "lz4-compress"@,
    {
        "lz4-compress"
    }

    /// Starts to write the frame, once setting up the codec has returned `code`; `bound`
    /// is how many bytes the contents may take.
    pub fn finish(&self, code: usize, bound: usize) -> (r: Result<FrameRun, IoError>)
        requires
            HEADER_MAX + bound + TRAILER_MAX <= usize::MAX,
        ensures
            match lz4_failure(code) {
                Some(code) => r matches Err(e) && e.says("lz4 compress init failed: liblz4 code "@ + code.text()),
                None => {
                    &&& r matches Ok(run)
                    &&& run.has_input() == (self.pending.len() > 0)
                    &&& run.capacity() == HEADER_MAX + bound + TRAILER_MAX
                    &&& run.total() == 0
                    &&& run.call() == FrameCall::Begin
                },
            },
    {
        let init = match lz4::compress::Compress::new(self.level, self.raw).started(code) {
            Ok(_) => Ok(()),
            Err(code) => Err(Code::Unsigned(code)),
        };
        FrameRun::start(self.pending.len(), bound, init)
    }
}

/// The words of the errors of [`Lz4Decompress`].
pub open spec fn lz4_decompress_words() -> WordsView {
    WordsView {
        init: "lz4 decompress init failed: liblz4 code "@,
        feed: "lz4 decompress failed: liblz4 code "@,
        flush: ""@,
        stalled: "lz4 decompress truncated or made no progress"@,
    }
}

/// Decompresses with liblz4.
pub struct Lz4Decompress {
    /// The input so far.
    pub pending: Vec<u8>,
}

impl Lz4Decompress {
    /// A filter without input yet.
    pub fn new() -> (r: Self)
        ensures
            r.pending@ == Seq::<u8>::empty(),
    {
        Lz4Decompress { pending: Vec::new() }
    }

    /// Takes more input; nothing is written before the input is complete.
    pub fn process(&mut self, input: &[u8], out: &mut Vec<u8>) -> (r: Result<(), IoError>)
        ensures
            r is Ok,
            final(self).pending@ == old(self).pending@ + input@,
            final(out)@ == old(out)@,
    {
        append_slice(&mut self.pending, input);
        Ok(())
    }

    /// The filter's name.
    pub fn name(&self) -> (r: &'static str)
        ensures
            r@ == "lz4-decompress"@,
    {
        "lz4-decompress"
    }

    /// The words of its errors.
    pub fn words() -> (r: Words)
        ensures
            r@ == lz4_decompress_words(),
    {
        Words {
            init: "lz4 decompress init failed: liblz4 code ",
            feed: "lz4 decompress failed: liblz4 code ",
            flush: "",
            stalled: "lz4 decompress truncated or made no progress",
        }
    }

    /// Starts to drive the codec over the input, once setting it up has returned `code`.
    pub fn finish(&self, code: usize) -> (r: Result<DecodeRun, IoError>)
        ensures
            match lz4_failure(code) {
                Some(code) => r matches Err(e) && e.says(lz4_decompress_words().init + code.text()),
                None => r matches Ok(run) && run@.fresh(lz4_decompress_words(), self.pending.len() as int),
            },
    {
        let init = match lz4::decompress::Decompress::new(code) {
            Ok(_) => Ok(()),
            Err(code) => Err(Code::Unsigned(code)),
        };
        DecodeRun::start(Lz4Decompress::words(), self.pending.len(), init)
    }

    /// What a call did; the stream is complete where no more bytes are asked for.
    pub fn tick(result: Result<lz4::decompress::DecompressTick, usize>) -> (r: Result<Tick, Code>)
        ensures
            match result {
                Ok(tick) => r == Ok::<Tick, Code>(
                    Tick { written: tick.written, consumed: tick.consumed, ended: tick.hint == 0 },
                ),
                Err(code) => r == Err::<Tick, Code>(Code::Unsigned(code)),
            },
    {
        match result {
            Ok(tick) => Ok(Tick { written: tick.written, consumed: tick.consumed, ended: tick.hint == 0 }),
            Err(code) => Err(Code::Unsigned(code)),
        }
    }
}

impl Default for Lz4Decompress {
    /// A filter without input yet.
    fn default() -> (r: Self)
        ensures
            r.pending@ == Seq::<u8>::empty(),
    {
        Lz4Decompress::new()
    }
}

/// The words of the errors of [`ZstCompress`].
pub open spec fn zst_compress_words() -> WordsView {
    WordsView {
        init: "zst compress init failed: libzstd code "@,
        feed: "zst compress failed: libzstd code "@,
        flush: "zst compress end failed: libzstd code "@,
        stalled: "zst compress made no progress"@,
    }
}

/// Compresses with libzstd.
pub struct ZstCompress {
    pub level: i32,
    /// The input so far.
    pub pending: Vec<u8>,
}

impl ZstCompress {
    /// A filter without input yet.
    pub fn new(level: i32) -> (r: Self)
        ensures
            r.level == level,
            r.pending@ == Seq::<u8>::empty(),
    {
        ZstCompress { level, pending: Vec::new() }
    }

    /// Takes more input; nothing is written before the input is complete.
    pub fn process(&mut self, input: &[u8], out: &mut Vec<u8>) -> (r: Result<(), IoError>)
        ensures
            r is Ok,
            final(self).level == old(self).level,
            final(self).pending@ == old(self).pending@ + input@,
            final(out)@ == old(out)@,
    {
        append_slice(&mut self.pending, input);
        Ok(())
    }

    /// The filter's name.
    pub fn name(&self) -> (r: &'static str)
        ensures
            r@ == "zst-compress"@,
    {
        "zst-compress"
    }

    /// The words of its errors.
    pub fn words() -> (r: Words)
        ensures
            r@ == zst_compress_words(),
    {
        Words {
            init: "zst compress init failed: libzstd code ",
            feed: "zst compress failed: libzstd code ",
            flush: "zst compress end failed: libzstd code ",
            stalled: "zst compress made no progress",
        }
    }

    /// Starts to drive the codec over the input, where it could be made (`created`) and
    /// setting it up has returned `code`.
    pub fn finish(&self, created: bool, code: usize) -> (r: Result<EncodeRun, IoError>)
        ensures
            match zst_failure(created, code) {
                Some(code) => r matches Err(e) && e.says(zst_compress_words().init + code.text()),
                None => r matches Ok(run) && run@.fresh(zst_compress_words(), self.pending.len() as int),
            },
    {
        let init = match zst::compress::Compress::new(self.level, created, code) {
            Ok(_) => Ok(()),
            Err(code) => Err(Code::Unsigned(code)),
        };
        EncodeRun::start(ZstCompress::words(), self.pending.len(), init)
    }

    /// What a call that reads input did.
    pub fn tick(result: Result<zst::compress::CompressTick, usize>) -> (r: Result<Tick, Code>)
        ensures
            match result {
                Ok(tick) => r == Ok::<Tick, Code>(
                    Tick { written: tick.written, consumed: tick.consumed, ended: false },
                ),
                Err(code) => r == Err::<Tick, Code>(Code::Unsigned(code)),
            },
    {
        match result {
            Ok(tick) => Ok(Tick { written: tick.written, consumed: tick.consumed, ended: false }),
            Err(code) => Err(Code::Unsigned(code)),
        }
    }

    /// What a call that ends the stream did.
    pub fn end_tick(result: Result<zst::compress::EndTick, usize>) -> (r: Result<Tick, Code>)
        ensures
            match result {
                Ok(tick) => r == Ok::<Tick, Code>(
                    Tick { written: tick.written, consumed: 0, ended: tick.remaining == 0 },
                ),
                Err(code) => r == Err::<Tick, Code>(Code::Unsigned(code)),
            },
    {
        match result {
            Ok(tick) => Ok(Tick { written: tick.written, consumed: 0, ended: tick.remaining == 0 }),
            Err(code) => Err(Code::Unsigned(code)),
        }
    }
}

/// The words of the errors of [`ZstDecompress`].
pub open spec fn zst_decompress_words() -> WordsView {
    WordsView {
        init: "zst decompress init failed: libzstd code "@,
        feed: "zst decompress failed: libzstd code "@,
        flush: ""@,
        stalled: "zst decompress truncated or made no progress"@,
    }
}

/// Decompresses with libzstd.
pub struct ZstDecompress {
    /// The input so far.
    pub pending: Vec<u8>,
}

impl ZstDecompress {
    /// A filter without input yet.
    pub fn new() -> (r: Self)
        ensures
            r.pending@ == Seq::<u8>::empty(),
    {
        ZstDecompress { pending: Vec::new() }
    }

    /// Takes more input; nothing is written before the input is complete.
    pub fn process(&mut self, input: &[u8], out: &mut Vec<u8>) -> (r: Result<(), IoError>)
        ensures
            r is Ok,
            final(self).pending@ == old(self).pending@ + input@,
            final(out)@ == old(out)@,
    {
        append_slice(&mut self.pending, input);
        Ok(())
    }

    /// The filter's name.
    pub fn name(&self) -> (r: &'static str)
        ensures
            r@ == "zst-decompress"@,
    {
        "zst-decompress"
    }

    /// The words of its errors.
    pub fn words() -> (r: Words)
        ensures
            r@ == zst_decompress_words(),
    {
        Words {
            init: "zst decompress init failed: libzstd code ",
            feed: "zst decompress failed: libzstd code ",
            flush: "",
            stalled: "zst decompress truncated or made no progress",
        }
    }

    /// Starts to drive the codec over the input, where it could be made (`created`) and
    /// setting it up has returned `code`.
    pub fn finish(&self, created: bool, code: usize) -> (r: Result<DecodeRun, IoError>)
        ensures
            match zst_failure(created, code) {
                Some(code) => r matches Err(e) && e.says(zst_decompress_words().init + code.text()),
                None => r matches Ok(run) && run@.fresh(zst_decompress_words(), self.pending.len() as int),
            },
    {
        let init = match zst::decompress::Decompress::new(created, code) {
            Ok(_) => Ok(()),
            Err(code) => Err(Code::Unsigned(code)),
        };
        DecodeRun::start(ZstDecompress::words(), self.pending.len(), init)
    }

    /// What a call did; the stream is complete where no more bytes are asked for.
    pub fn tick(result: Result<zst::decompress::DecompressTick, usize>) -> (r: Result<Tick, Code>)
        ensures
            match result {
                Ok(tick) => r == Ok::<Tick, Code>(
                    Tick { written: tick.written, consumed: tick.consumed, ended: tick.hint == 0 },
                ),
                Err(code) => r == Err::<Tick, Code>(Code::Unsigned(code)),
            },
    {
        match result {
            Ok(tick) => Ok(Tick { written: tick.written, consumed: tick.consumed, ended: tick.hint == 0 }),
            Err(code) => Err(Code::Unsigned(code)),
        }
    }
}

impl Default for ZstDecompress {
    /// A filter without input yet.
    fn default() -> (r: Self)
        ensures
            r.pending@ == Seq::<u8>::empty(),
    {
        ZstDecompress::new()
    }
}

/// What the calls of a run read adds up, and what they wrote stands one after the other.
pub proof fn law_calls_add_up(calls: Seq<CallView>, call: CallView)
    ensures
        read_by(Seq::<CallView>::empty()) == 0,
        written_by(Seq::<CallView>::empty()).len() == 0,
        read_by(calls.push(call)) == read_by(calls) + call.tick.consumed,
        written_by(calls.push(call)) == written_by(calls) + call.wrote,
{
    assert(calls.push(call).drop_last() =~= calls);
}

/// A compressing run reads all its input before it ends the stream: it feeds from where it
/// stopped while there is input, then it flushes, and it is done once the stream is
/// complete.
pub proof fn law_encoding_reads_all_first(run: &EncodeRun, r: Call)
    requires
        call_ensures(EncodeRun::next, (run,), r),
    ensures
        r matches Call::Feed { from } ==> from == run@.pos && run@.pos < run@.len && !run@.ended,
        r is Flush ==> run@.pos == run@.len && !run@.ended,
        r is Done <==> run@.ended,
        r is Done ==> run@.pos == run@.len,
        run@.pos < run@.len ==> r is Feed,
{
}

/// A decompressing run feeds from where it stopped until the stream is complete.
pub proof fn law_decoding_stops_with_the_stream(run: &DecodeRun, r: Call)
    requires
        call_ensures(DecodeRun::next, (run,), r),
    ensures
        r is Done <==> run@.ended,
        !run@.ended ==> r is Feed && r->from == run@.pos,
{
}

/// A run takes up what a call did: it goes on behind what the call read, and what the call
/// wrote to the front of its buffer stands behind the output. A call that failed, or that
/// did nothing, fails the run and leaves the output as it was.
pub proof fn law_encoding_takes_up_calls(
    run: EncodeRun,
    tick: Tick,
    code: Code,
    buf: &Vec<u8>,
    out: &mut Vec<u8>,
    fed: Result<EncodeRun, IoError>,
    failed: &mut Vec<u8>,
    failure: Result<EncodeRun, IoError>,
)
    requires
        !run@.ended,
        tick.written <= buf.len(),
        run@.pos + tick.consumed <= run@.len,
        call_ensures(EncodeRun::fed, (run, Ok::<Tick, Code>(tick), buf, out), fed),
        call_ensures(EncodeRun::fed, (run, Err::<Tick, Code>(code), buf, failed), failure),
    ensures
        fed is Ok <==> tick.consumed > 0 || tick.written > 0,
        fed is Ok ==> fed->Ok_0@.pos == run@.pos + tick.consumed && !fed->Ok_0@.ended && fed->Ok_0@.len == run@.len,
        fed is Ok ==> final(out)@ == old(out)@ + buf@.subrange(0, tick.written as int),
        fed is Err ==> final(out)@ == old(out)@ && fed->Err_0.says(run@.words.stalled),
        failure is Err && final(failed)@ == old(failed)@,
        failure->Err_0.says(
            run@.words.feed + (match code {
                Code::Signed(n) => text::signed_text(n as int),
                Code::Unsigned(n) => text::decimal(n as nat),
            }),
        ),
{
    assert(buf@.take(tick.written as int) =~= buf@.subrange(0, tick.written as int));
}

/// The call that ends the stream reads nothing, and the run is at its end where it says so.
pub proof fn law_encoding_ends(
    run: EncodeRun,
    tick: Tick,
    code: Code,
    buf: &Vec<u8>,
    out: &mut Vec<u8>,
    r: Result<EncodeRun, IoError>,
    failed: &mut Vec<u8>,
    failure: Result<EncodeRun, IoError>,
)
    requires
        !run@.ended,
        run@.pos == run@.len,
        tick.written <= buf.len(),
        tick.consumed == 0,
        call_ensures(EncodeRun::flushed, (run, Ok::<Tick, Code>(tick), buf, out), r),
        call_ensures(EncodeRun::flushed, (run, Err::<Tick, Code>(code), buf, failed), failure),
    ensures
        r is Ok,
        r->Ok_0@.ended == tick.ended,
        r->Ok_0@.pos == run@.pos && r->Ok_0@.len == run@.len,
        final(out)@ == old(out)@ + buf@.subrange(0, tick.written as int),
        failure is Err && final(failed)@ == old(failed)@,
        failure->Err_0.says(
            run@.words.flush + (match code {
                Code::Signed(n) => text::signed_text(n as int),
                Code::Unsigned(n) => text::decimal(n as nat),
            }),
        ),
{
    assert(buf@.take(tick.written as int) =~= buf@.subrange(0, tick.written as int));
}

/// The same of a decompressing run, which a call that ends the stream never fails.
pub proof fn law_decoding_takes_up_calls(
    run: DecodeRun,
    tick: Tick,
    code: Code,
    buf: &Vec<u8>,
    out: &mut Vec<u8>,
    fed: Result<DecodeRun, IoError>,
    failed: &mut Vec<u8>,
    failure: Result<DecodeRun, IoError>,
)
    requires
        !run@.ended,
        tick.written <= buf.len(),
        run@.pos + tick.consumed <= run@.len,
        call_ensures(DecodeRun::fed, (run, Ok::<Tick, Code>(tick), buf, out), fed),
        call_ensures(DecodeRun::fed, (run, Err::<Tick, Code>(code), buf, failed), failure),
    ensures
        fed is Ok <==> tick.ended || tick.consumed > 0 || tick.written > 0,
        fed is Ok ==> fed->Ok_0@.pos == run@.pos + tick.consumed && fed->Ok_0@.ended == tick.ended && fed->Ok_0@.len == run@.len,
        fed is Ok ==> final(out)@ == old(out)@ + buf@.subrange(0, tick.written as int),
        fed is Err ==> final(out)@ == old(out)@ && fed->Err_0.says(run@.words.stalled),
        failure is Err && final(failed)@ == old(failed)@,
        failure->Err_0.says(
            run@.words.feed + (match code {
                Code::Signed(n) => text::signed_text(n as int),
                Code::Unsigned(n) => text::decimal(n as nat),
            }),
        ),
{
    assert(buf@.take(tick.written as int) =~= buf@.subrange(0, tick.written as int));
}

/// A run starts at the front of its input unless the codec could not be set up.
pub proof fn law_runs_start_in_front(
    words: Words,
    len: usize,
    code: Code,
    encode: Result<EncodeRun, IoError>,
    decode: Result<DecodeRun, IoError>,
    failures: (Result<EncodeRun, IoError>, Result<DecodeRun, IoError>),
)
    requires
        call_ensures(EncodeRun::start, (words, len, Ok::<(), Code>(())), encode),
        call_ensures(DecodeRun::start, (words, len, Ok::<(), Code>(())), decode),
        call_ensures(EncodeRun::start, (words, len, Err::<(), Code>(code)), failures.0),
        call_ensures(DecodeRun::start, (words, len, Err::<(), Code>(code)), failures.1),
    ensures
        encode is Ok && encode->Ok_0@.pos == 0 && encode->Ok_0@.len == len && !encode->Ok_0@.ended,
        decode is Ok && decode->Ok_0@.pos == 0 && decode->Ok_0@.len == len && !decode->Ok_0@.ended,
        encode->Ok_0@.words.feed == words.feed@ && encode->Ok_0@.words.flush == words.flush@ && encode->Ok_0@.words.stalled
            == words.stalled@,
        decode->Ok_0@.words.feed == words.feed@ && decode->Ok_0@.words.stalled == words.stalled@,
        failures.0 is Err && failures.1 is Err,
        failures.0->Err_0.says(
            words.init@ + (match code {
                Code::Signed(n) => text::signed_text(n as int),
                Code::Unsigned(n) => text::decimal(n as nat),
            }),
        ),
        failures.1->Err_0.says(
            words.init@ + (match code {
                Code::Signed(n) => text::signed_text(n as int),
                Code::Unsigned(n) => text::decimal(n as nat),
            }),
        ),
{
    assert(encode->Ok_0@.words == words@ && decode->Ok_0@.words == words@);
}

/// A frame's buffer has room for a header of 19 bytes, the contents and a trailer of 8, and
/// is written from its front: header, contents where there is input, trailer, each call
/// behind the one before. What was written is what the output gets.
pub proof fn law_frame_is_written(
    len: usize,
    bound: usize,
    made: Result<FrameRun, IoError>,
    run: &mut FrameRun,
    n: usize,
    called: Result<(), IoError>,
    ended: &FrameRun,
    frame: &Vec<u8>,
    out: &mut Vec<u8>,
)
    requires
        19 + bound + 8 <= usize::MAX,
        call_ensures(FrameRun::start, (len, bound, Ok::<(), Code>(())), made),
        run.call() != FrameCall::Done,
        run.total() + n <= run.capacity(),
        call_ensures(FrameRun::called, (run, Ok::<usize, usize>(n)), called),
        ended.call() == FrameCall::Done,
        frame.len() == ended.capacity(),
        call_ensures(FrameRun::finish, (ended, frame, out), ()),
    ensures
        made is Ok,
        made->Ok_0.capacity() == 19 + bound + 8,
        made->Ok_0.total() == 0,
        made->Ok_0.call() == FrameCall::Begin,
        made->Ok_0.has_input() <==> len > 0,
        called is Ok,
        final(run).total() == old(run).total() + n,
        old(run).call() == FrameCall::Begin && old(run).has_input() ==> final(run).call() == FrameCall::Update,
        old(run).call() == FrameCall::Begin && !old(run).has_input() ==> final(run).call() == FrameCall::End,
        old(run).call() == FrameCall::Update ==> final(run).call() == FrameCall::End,
        old(run).call() == FrameCall::End ==> final(run).call() == FrameCall::Done,
        final(run).has_input() == old(run).has_input() && final(run).capacity() == old(run).capacity(),
        final(out)@ == old(out)@ + frame@.take(ended.total()),
{
}

/// A call of a frame that failed is named in the error, with its code.
pub proof fn law_frame_failures(run: &mut FrameRun, code: usize, r: Result<(), IoError>)
    requires
        run.call() != FrameCall::Done,
        call_ensures(FrameRun::called, (run, Err::<usize, usize>(code)), r),
    ensures
        r is Err,
        *final(run) == *old(run),
        old(run).call() == FrameCall::Begin ==> r->Err_0.says("lz4 compress begin failed: liblz4 code "@ + text::decimal(code as nat)),
        old(run).call() == FrameCall::Update ==> r->Err_0.says(
            "lz4 compress update failed: liblz4 code "@ + text::decimal(code as nat),
        ),
        old(run).call() == FrameCall::End ==> r->Err_0.says("lz4 compress end failed: liblz4 code "@ + text::decimal(code as nat)),
{
}

/// Every filter keeps its input, all of it and in order, and writes nothing before the
/// input is complete.
pub proof fn law_filters_keep_their_input(
    input: &[u8],
    gz: (&mut GzCompress, &mut GzDecompress),
    bz2: (&mut Bz2Compress, &mut Bz2Decompress),
    lz4: (&mut Lz4Compress, &mut Lz4Decompress),
    zst: (&mut ZstCompress, &mut ZstDecompress),
    out: &mut Vec<u8>,
    r: Result<(), IoError>,
)
    requires
        call_ensures(GzCompress::process, (gz.0, input, out), r),
        call_ensures(GzDecompress::process, (gz.1, input, out), r),
        call_ensures(Bz2Compress::process, (bz2.0, input, out), r),
        call_ensures(Bz2Decompress::process, (bz2.1, input, out), r),
        call_ensures(Lz4Compress::process, (lz4.0, input, out), r),
        call_ensures(Lz4Decompress::process, (lz4.1, input, out), r),
        call_ensures(ZstCompress::process, (zst.0, input, out), r),
        call_ensures(ZstDecompress::process, (zst.1, input, out), r),
    ensures
        r is Ok,
        final(out)@ == old(out)@,
        final(gz.0).pending@ == old(gz.0).pending@ + input@ && final(gz.0).level == old(gz.0).level && final(gz.0).raw
            == old(gz.0).raw,
        final(gz.1).pending@ == old(gz.1).pending@ + input@ && final(gz.1).raw == old(gz.1).raw,
        final(bz2.0).pending@ == old(bz2.0).pending@ + input@ && final(bz2.0).level == old(bz2.0).level,
        final(bz2.1).pending@ == old(bz2.1).pending@ + input@,
        final(lz4.0).pending@ == old(lz4.0).pending@ + input@ && final(lz4.0).level == old(lz4.0).level && final(lz4.0).raw
            == old(lz4.0).raw,
        final(lz4.1).pending@ == old(lz4.1).pending@ + input@,
        final(zst.0).pending@ == old(zst.0).pending@ + input@ && final(zst.0).level == old(zst.0).level,
        final(zst.1).pending@ == old(zst.1).pending@ + input@,
{
}

/// A filter starts without input, with the level and the flag it was given.
pub proof fn law_filters_start_empty(
    level: i32,
    raw: bool,
    gz: (GzCompress, GzDecompress),
    bz2: (Bz2Compress, Bz2Decompress),
    lz4: (Lz4Compress, Lz4Decompress),
    zst: (ZstCompress, ZstDecompress),
)
    requires
        call_ensures(GzCompress::new, (level, raw), gz.0),
        call_ensures(GzDecompress::new, (raw,), gz.1),
        call_ensures(Bz2Compress::new, (level,), bz2.0),
        call_ensures(Bz2Decompress::new, (), bz2.1),
        call_ensures(Lz4Compress::new, (level, raw), lz4.0),
        call_ensures(Lz4Decompress::new, (), lz4.1),
        call_ensures(ZstCompress::new, (level,), zst.0),
        call_ensures(ZstDecompress::new, (), zst.1),
    ensures
        gz.0.level == level && gz.0.raw == raw && gz.0.pending.len() == 0,
        gz.1.raw == raw && gz.1.pending.len() == 0,
        bz2.0.level == level && bz2.0.pending.len() == 0 && bz2.1.pending.len() == 0,
        lz4.0.level == level && lz4.0.raw == raw && lz4.0.pending.len() == 0 && lz4.1.pending.len() == 0,
        zst.0.level == level && zst.0.pending.len() == 0 && zst.1.pending.len() == 0,
{
}

/// A compressing filter's run covers its whole input where the codec knows the level and
/// was set up; else its error gives the code, that for a level where the level is unknown.
pub proof fn law_compressing_covers_the_input(
    gz: &GzCompress,
    bz2: &Bz2Compress,
    zst: &ZstCompress,
    lz4: &Lz4Compress,
    ret: i32,
    created: bool,
    code: usize,
    bound: usize,
    a: Result<EncodeRun, IoError>,
    b: Result<EncodeRun, IoError>,
    c: Result<EncodeRun, IoError>,
    d: Result<FrameRun, IoError>,
)
    requires
        19 + bound + 8 <= usize::MAX,
        call_ensures(GzCompress::finish, (gz, ret), a),
        call_ensures(Bz2Compress::finish, (bz2, ret), b),
        call_ensures(ZstCompress::finish, (zst, created, code), c),
        call_ensures(Lz4Compress::finish, (lz4, code, bound), d),
    ensures
        a is Ok <==> -1 <= gz.level <= 9 && ret == 0,
        a is Ok ==> a->Ok_0@.len == gz.pending.len() && a->Ok_0@.pos == 0 && !a->Ok_0@.ended,
        a is Err && -1 <= gz.level <= 9 ==> a->Err_0.says("gz compress init failed: zlib code "@ + text::signed_text(ret as int)),
        !(-1 <= gz.level <= 9) ==> a->Err_0.says("gz compress init failed: zlib code "@ + text::signed_text(-2)),
        b is Ok <==> 1 <= bz2.level <= 9 && ret == 0,
        b is Ok ==> b->Ok_0@.len == bz2.pending.len() && b->Ok_0@.pos == 0 && !b->Ok_0@.ended,
        b is Err && 1 <= bz2.level <= 9 ==> b->Err_0.says("bz2 compress init failed: libbz2 code "@ + text::signed_text(ret as int)),
        !(1 <= bz2.level <= 9) ==> b->Err_0.says("bz2 compress init failed: libbz2 code "@ + text::signed_text(-2)),
        c is Ok <==> created && usize::MAX - code >= 119,
        c is Ok ==> c->Ok_0@.len == zst.pending.len() && c->Ok_0@.pos == 0 && !c->Ok_0@.ended,
        c is Err && created ==> c->Err_0.says("zst compress init failed: libzstd code "@ + text::decimal(code as nat)),
        !created ==> c->Err_0.says("zst compress init failed: libzstd code "@ + text::decimal(usize::MAX as nat)),
        d is Ok <==> usize::MAX - code >= 23,
        d is Ok ==> d->Ok_0.has_input() == (lz4.pending.len() > 0) && d->Ok_0.capacity() == 19 + bound + 8 && d->Ok_0.total() == 0,
        d is Err ==> d->Err_0.says("lz4 compress init failed: liblz4 code "@ + text::decimal(code as nat)),
{
}

/// A decompressing filter's run covers its whole input where the codec was set up; else
/// its error gives the code.
pub proof fn law_decompressing_covers_the_input(
    gz: &GzDecompress,
    bz2: &Bz2Decompress,
    lz4: &Lz4Decompress,
    zst: &ZstDecompress,
    ret: i32,
    created: bool,
    code: usize,
    a: Result<DecodeRun, IoError>,
    b: Result<DecodeRun, IoError>,
    c: Result<DecodeRun, IoError>,
    d: Result<DecodeRun, IoError>,
)
    requires
        call_ensures(GzDecompress::finish, (gz, ret), a),
        call_ensures(Bz2Decompress::finish, (bz2, ret), b),
        call_ensures(Lz4Decompress::finish, (lz4, code), c),
        call_ensures(ZstDecompress::finish, (zst, created, code), d),
    ensures
        a is Ok <==> ret == 0,
        b is Ok <==> ret == 0,
        c is Ok <==> usize::MAX - code >= 23,
        d is Ok <==> created && usize::MAX - code >= 119,
        a is Ok ==> a->Ok_0@.len == gz.pending.len() && a->Ok_0@.pos == 0 && !a->Ok_0@.ended,
        b is Ok ==> b->Ok_0@.len == bz2.pending.len() && b->Ok_0@.pos == 0 && !b->Ok_0@.ended,
        c is Ok ==> c->Ok_0@.len == lz4.pending.len() && c->Ok_0@.pos == 0 && !c->Ok_0@.ended,
        d is Ok ==> d->Ok_0@.len == zst.pending.len() && d->Ok_0@.pos == 0 && !d->Ok_0@.ended,
        a is Err ==> a->Err_0.says("gz decompress init failed: zlib code "@ + text::signed_text(ret as int)),
        b is Err ==> b->Err_0.says("bz2 decompress init failed: libbz2 code "@ + text::signed_text(ret as int)),
        c is Err ==> c->Err_0.says("lz4 decompress init failed: liblz4 code "@ + text::decimal(code as nat)),
        d is Err && created ==> d->Err_0.says("zst decompress init failed: libzstd code "@ + text::decimal(code as nat)),
        !created ==> d->Err_0.says("zst decompress init failed: libzstd code "@ + text::decimal(usize::MAX as nat)),
{
}

/// What a call of a codec did is handed on as it is: what it wrote and read, and whether
/// the stream is complete, which liblz4 and libzstd say by asking for no more bytes.
pub proof fn law_ticks_are_handed_on(
    deflate: gz::compress::DeflateTick,
    inflate: gz::decompress::InflateTick,
    pack: bz2::compress::CompressTick,
    unpack: bz2::decompress::DecompressTick,
    lz4: lz4::decompress::DecompressTick,
    fed: zst::compress::CompressTick,
    end: zst::compress::EndTick,
    zst: zst::decompress::DecompressTick,
    r: (Result<Tick, Code>, Result<Tick, Code>, Result<Tick, Code>, Result<Tick, Code>),
    q: (Result<Tick, Code>, Result<Tick, Code>, Result<Tick, Code>, Result<Tick, Code>),
)
    requires
        call_ensures(GzCompress::tick, (Ok::<gz::compress::DeflateTick, i32>(deflate),), r.0),
        call_ensures(GzDecompress::tick, (Ok::<gz::decompress::InflateTick, i32>(inflate),), r.1),
        call_ensures(Bz2Compress::tick, (Ok::<bz2::compress::CompressTick, i32>(pack),), r.2),
        call_ensures(Bz2Decompress::tick, (Ok::<bz2::decompress::DecompressTick, i32>(unpack),), r.3),
        call_ensures(Lz4Decompress::tick, (Ok::<lz4::decompress::DecompressTick, usize>(lz4),), q.0),
        call_ensures(ZstCompress::tick, (Ok::<zst::compress::CompressTick, usize>(fed),), q.1),
        call_ensures(ZstCompress::end_tick, (Ok::<zst::compress::EndTick, usize>(end),), q.2),
        call_ensures(ZstDecompress::tick, (Ok::<zst::decompress::DecompressTick, usize>(zst),), q.3),
    ensures
        r.0 is Ok && r.0->Ok_0.written == deflate.written && r.0->Ok_0.consumed == deflate.consumed && r.0->Ok_0.ended
            == deflate.stream_end,
        r.1 is Ok && r.1->Ok_0.written == inflate.written && r.1->Ok_0.consumed == inflate.consumed && r.1->Ok_0.ended
            == inflate.stream_end,
        r.2 is Ok && r.2->Ok_0.written == pack.written && r.2->Ok_0.consumed == pack.consumed && r.2->Ok_0.ended
            == pack.stream_end,
        r.3 is Ok && r.3->Ok_0.written == unpack.written && r.3->Ok_0.consumed == unpack.consumed && r.3->Ok_0.ended
            == unpack.stream_end,
        q.0 is Ok && q.0->Ok_0.written == lz4.written && q.0->Ok_0.consumed == lz4.consumed && (q.0->Ok_0.ended <==> lz4.hint == 0),
        q.1 is Ok && q.1->Ok_0.written == fed.written && q.1->Ok_0.consumed == fed.consumed && !q.1->Ok_0.ended,
        q.2 is Ok && q.2->Ok_0.written == end.written && q.2->Ok_0.consumed == 0 && (q.2->Ok_0.ended <==> end.remaining == 0),
        q.3 is Ok && q.3->Ok_0.written == zst.written && q.3->Ok_0.consumed == zst.consumed && (q.3->Ok_0.ended <==> zst.hint == 0),
{
}

/// A code that a call failed with is handed on as it is.
pub proof fn law_codes_are_handed_on(
    ret: i32,
    code: usize,
    r: (Result<Tick, Code>, Result<Tick, Code>, Result<Tick, Code>, Result<Tick, Code>),
    q: (Result<Tick, Code>, Result<Tick, Code>, Result<Tick, Code>, Result<Tick, Code>),
)
    requires
        call_ensures(GzCompress::tick, (Err::<gz::compress::DeflateTick, i32>(ret),), r.0),
        call_ensures(GzDecompress::tick, (Err::<gz::decompress::InflateTick, i32>(ret),), r.1),
        call_ensures(Bz2Compress::tick, (Err::<bz2::compress::CompressTick, i32>(ret),), r.2),
        call_ensures(Bz2Decompress::tick, (Err::<bz2::decompress::DecompressTick, i32>(ret),), r.3),
        call_ensures(Lz4Decompress::tick, (Err::<lz4::decompress::DecompressTick, usize>(code),), q.0),
        call_ensures(ZstCompress::tick, (Err::<zst::compress::CompressTick, usize>(code),), q.1),
        call_ensures(ZstCompress::end_tick, (Err::<zst::compress::EndTick, usize>(code),), q.2),
        call_ensures(ZstDecompress::tick, (Err::<zst::decompress::DecompressTick, usize>(code),), q.3),
    ensures
        r.0 == Err::<Tick, Code>(Code::Signed(ret)),
        r.1 == r.0 && r.2 == r.0 && r.3 == r.0,
        q.0 == Err::<Tick, Code>(Code::Unsigned(code)),
        q.1 == q.0 && q.2 == q.0 && q.3 == q.0,
{
}

/// The names of the filters and the words of their errors.
pub proof fn law_names_and_words(
    gz: (&GzCompress, &GzDecompress),
    bz2: (&Bz2Compress, &Bz2Decompress),
    lz4: (&Lz4Compress, &Lz4Decompress),
    zst: (&ZstCompress, &ZstDecompress),
    names: (&str, &str, &str, &str),
    others: (&str, &str, &str, &str),
    words: (Words, Words, Words, Words),
    more: (Words, Words, Words),
)
    requires
        call_ensures(GzCompress::name, (gz.0,), names.0),
        call_ensures(GzDecompress::name, (gz.1,), names.1),
        call_ensures(Bz2Compress::name, (bz2.0,), names.2),
        call_ensures(Bz2Decompress::name, (bz2.1,), names.3),
        call_ensures(Lz4Compress::name, (lz4.0,), others.0),
        call_ensures(Lz4Decompress::name, (lz4.1,), others.1),
        call_ensures(ZstCompress::name, (zst.0,), others.2),
        call_ensures(ZstDecompress::name, (zst.1,), others.3),
        call_ensures(GzCompress::words, (), words.0),
        call_ensures(GzDecompress::words, (), words.1),
        call_ensures(Bz2Compress::words, (), words.2),
        call_ensures(Bz2Decompress::words, (), words.3),
        call_ensures(Lz4Decompress::words, (), more.0),
        call_ensures(ZstCompress::words, (), more.1),
        call_ensures(ZstDecompress::words, (), more.2),
    ensures
        names.0@ == "gz-compress"@ && names.1@ == "gz-decompress"@ && names.2@ == "bz2-compress"@ && names.3@ == "bz2-decompress"@,
        others.0@ == "lz4-compress"@ && others.1@ == "lz4-decompress"@ && others.2@ == "zst-compress"@ && others.3@
            == "zst-decompress"@,
        words.0.feed@ == "gz deflate failed: zlib code "@ && words.0.flush@ == "gz deflate flush failed: zlib code "@
            && words.0.stalled@ == "gz deflate made no progress"@,
        words.1.feed@ == "gz inflate failed: zlib code "@ && words.1.stalled@ == "gz inflate truncated or made no progress"@,
        words.2.feed@ == "bz2 compress failed: libbz2 code "@ && words.2.flush@ == "bz2 compress flush failed: libbz2 code "@
            && words.2.stalled@ == "bz2 compress made no progress"@,
        words.3.feed@ == "bz2 decompress failed: libbz2 code "@ && words.3.stalled@
            == "bz2 decompress truncated or made no progress"@,
        more.0.feed@ == "lz4 decompress failed: liblz4 code "@ && more.0.stalled@ == "lz4 decompress truncated or made no progress"@,
        more.1.feed@ == "zst compress failed: libzstd code "@ && more.1.flush@ == "zst compress end failed: libzstd code "@
            && more.1.stalled@ == "zst compress made no progress"@,
        more.2.feed@ == "zst decompress failed: libzstd code "@ && more.2.stalled@ == "zst decompress truncated or made no progress"@,
{
    assert(words.0@ == gz_compress_words());
    assert(words.1@ == gz_decompress_words());
    assert(words.2@ == bz2_compress_words());
    assert(words.3@ == bz2_decompress_words());
    assert(more.0@ == lz4_decompress_words());
    assert(more.1@ == zst_compress_words());
    assert(more.2@ == zst_decompress_words());
}

/// A frame's buffer is as large as the run needs it.
pub proof fn law_frame_buffer(len: usize, bound: usize, made: Result<FrameRun, IoError>, n: usize)
    requires
        19 + bound + 8 <= usize::MAX,
        call_ensures(FrameRun::start, (len, bound, Ok::<(), Code>(())), made),
        made is Ok ==> call_ensures(FrameRun::buffer_len, (&made->Ok_0,), n),
    ensures
        n == 19 + bound + 8,
{
}

}
