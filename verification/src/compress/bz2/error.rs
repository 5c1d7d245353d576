//! What the return codes of libbz2 mean.
use vstd::prelude::*;

verus! {

/// The category of an error.
#[derive(Debug, Clone, Copy, PartialEq, Eq, Structural, Hash)]
pub enum ErrorKind {
    /// Something that should not happen.
    Assert,
    /// Malformed input.
    Format,
    /// No memory.
    Memory,
}

/// What a return code means.
#[derive(Debug, Clone, Copy, PartialEq, Eq)]
pub enum Classification {
    /// No error: the code is handed on.
    Accepted { code: i32 },
    /// An error of a category, with a short message.
    Throw { code: i32, kind: ErrorKind, message: &'static str },
}

/// Whether a code is no error: any that is not negative.
pub open spec fn accepted(code: i32) -> bool {
    code >= 0
}

/// The category and the message of a code that is an error.
pub open spec fn meaning(code: i32) -> (ErrorKind, Seq<char>) {
    if code == -1 {
        (ErrorKind::Assert, "sequence error"@)
    } else if code == -2 {
        (ErrorKind::Assert, "parameter error"@)
    } else if code == -3 {
        (ErrorKind::Memory, "memory error"@)
    } else if code == -4 {
        (ErrorKind::Format, "data error"@)
    } else if code == -5 {
        (ErrorKind::Format, "data error magic"@)
    } else if code == -6 {
        (ErrorKind::Assert, "io error"@)
    } else if code == -7 {
        (ErrorKind::Assert, "unexpected eof"@)
    } else if code == -8 {
        (ErrorKind::Assert, "outbuff full"@)
    } else if code == -9 {
        (ErrorKind::Assert, "config error"@)
    } else {
        (ErrorKind::Assert, "unknown error"@)
    }
}

/// What a return code means.
pub fn classify(code: i32) -> (r: Classification)
    ensures
        if accepted(code) {
            r == (Classification::Accepted { code })
        } else {
            r matches Classification::Throw { code: c, kind, message } && c == code && kind == meaning(code).0 && message@
                == meaning(code).1
        },
{
    if code >= 0 {
        return Classification::Accepted { code };
    }
    let (kind, message): (ErrorKind, &'static str) = if code == -1 {
        (ErrorKind::Assert, "sequence error")
    } else if code == -2 {
        (ErrorKind::Assert, "parameter error")
    } else if code == -3 {
        (ErrorKind::Memory, "memory error")
    } else if code == -4 {
        (ErrorKind::Format, "data error")
    } else if code == -5 {
        (ErrorKind::Format, "data error magic")
    } else if code == -6 {
        (ErrorKind::Assert, "io error")
    } else if code == -7 {
        (ErrorKind::Assert, "unexpected eof")
    } else if code == -8 {
        (ErrorKind::Assert, "outbuff full")
    } else if code == -9 {
        (ErrorKind::Assert, "config error")
    } else {
        (ErrorKind::Assert, "unknown error")
    };
    Classification::Throw { code, kind, message }
}

/// A code that is not negative is no error; each code that libbz2 has for an error is of
/// its category and has its message, and any other is unknown.
pub proof fn law_libbz2_codes(code: i32, r: Classification)
    requires
        call_ensures(classify, (code,), r),
    ensures
        r is Accepted <==> code >= 0,
        r is Accepted ==> r->Accepted_code == code,
        r is Throw ==> r->Throw_code == code,
        r is Throw ==> (r->kind is Format <==> code == -4 || code == -5),
        r is Throw ==> (r->kind is Memory <==> code == -3),
        code == -1 ==> r->message@ == "sequence error"@,
        code == -2 ==> r->message@ == "parameter error"@,
        code == -3 ==> r->message@ == "memory error"@,
        code == -4 ==> r->message@ == "data error"@,
        code == -5 ==> r->message@ == "data error magic"@,
        code == -6 ==> r->message@ == "io error"@,
        code == -7 ==> r->message@ == "unexpected eof"@,
        code == -8 ==> r->message@ == "outbuff full"@,
        code == -9 ==> r->message@ == "config error"@,
        code < -9 ==> r->message@ == "unknown error"@,
{
}

}
