//! What the return codes of zlib mean.
use vstd::prelude::*;

verus! {

/// Success.
pub const Z_OK: i32 = 0;

/// The end of the stream.
pub const Z_STREAM_END: i32 = 1;

/// The category of an error.
#[derive(Debug, Clone, Copy, PartialEq, Eq, Structural, Hash)]
pub enum ErrorKind {
    /// Something that should not happen.
    Assert,
    /// Malformed input.
    Format,
    /// No memory.
    Memory,
}

/// What a return code means.
#[derive(Debug, Clone, Copy, PartialEq, Eq)]
pub enum Classification {
    /// No error: the code is handed on.
    Accepted { code: i32 },
    /// An error of a category, with a short message.
    Throw { code: i32, kind: ErrorKind, message: &'static str },
}

/// Whether a code is no error: success, or the end of the stream.
pub open spec fn accepted(code: i32) -> bool {
    code == Z_OK || code == Z_STREAM_END
}

/// The category and the message of a code that is an error.
pub open spec fn meaning(code: i32) -> (ErrorKind, Seq<char>) {
    if code == 2 {
        (ErrorKind::Assert, "need dictionary"@)
    } else if code == -1 {
        (ErrorKind::Assert, "file error"@)
    } else if code == -2 {
        (ErrorKind::Format, "stream error"@)
    } else if code == -3 {
        (ErrorKind::Format, "data error"@)
    } else if code == -4 {
        (ErrorKind::Memory, "insufficient memory"@)
    } else if code == -5 {
        (ErrorKind::Assert, "no space in buffer"@)
    } else if code == -6 {
        (ErrorKind::Format, "incompatible version"@)
    } else {
        (ErrorKind::Assert, "unknown error"@)
    }
}

/// What a return code means.
pub fn classify(code: i32) -> (r: Classification)
    ensures
        if accepted(code) {
            r == (Classification::Accepted { code })
        } else {
            r matches Classification::Throw { code: c, kind, message } && c == code && kind == meaning(code).0 && message@
                == meaning(code).1
        },
{
    if code == Z_OK || code == Z_STREAM_END {
        return Classification::Accepted { code };
    }
    let (kind, message): (ErrorKind, &'static str) = if code == 2 {
        (ErrorKind::Assert, "need dictionary")
    } else if code == -1 {
        (ErrorKind::Assert, "file error")
    } else if code == -2 {
        (ErrorKind::Format, "stream error")
    } else if code == -3 {
        (ErrorKind::Format, "data error")
    } else if code == -4 {
        (ErrorKind::Memory, "insufficient memory")
    } else if code == -5 {
        (ErrorKind::Assert, "no space in buffer")
    } else if code == -6 {
        (ErrorKind::Format, "incompatible version")
    } else {
        (ErrorKind::Assert, "unknown error")
    };
    Classification::Throw { code, kind, message }
}

/// Success and the end of the stream are the two codes that are no error; each code that
/// zlib has for an error is of its category and has its message, and any other is unknown.
pub proof fn law_zlib_codes(code: i32, r: Classification)
    requires
        call_ensures(classify, (code,), r),
    ensures
        r is Accepted <==> code == 0 || code == 1,
        r is Accepted ==> r->Accepted_code == code,
        r is Throw ==> r->Throw_code == code,
        r is Throw ==> (r->kind is Format <==> code == -2 || code == -3 || code == -6),
        r is Throw ==> (r->kind is Memory <==> code == -4),
        code == 2 ==> r->message@ == "need dictionary"@,
        code == -1 ==> r->message@ == "file error"@,
        code == -2 ==> r->message@ == "stream error"@,
        code == -3 ==> r->message@ == "data error"@,
        code == -4 ==> r->message@ == "insufficient memory"@,
        code == -5 ==> r->message@ == "no space in buffer"@,
        code == -6 ==> r->message@ == "incompatible version"@,
        code < -6 || code > 2 ==> r->message@ == "unknown error"@,
{
}

}
