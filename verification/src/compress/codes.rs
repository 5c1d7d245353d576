//! Return codes that are sizes, the largest of which stand for errors.
use vstd::prelude::*;

verus! {

/// What a return code means.
#[derive(Debug, Clone, PartialEq, Eq)]
pub enum Classification {
    /// No error: the code is handed on.
    Accepted { code: usize },
    /// An error with this name.
    Throw { code: usize, name: Vec<u8> },
}

impl Classification {
    /// Whether this is an error.
    pub open spec fn throws(self) -> bool {
        self is Throw
    }

    /// Whether this is an error.
    pub fn is_err(&self) -> (r: bool)
        ensures
            r == self.throws(),
    {
        match self {
            Classification::Accepted { .. } => false,
            Classification::Throw { .. } => true,
        }
    }
}

/// Whether a code is one of the `errors` largest, which stand for small negative
/// numbers.
pub open spec fn is_error(code: usize, errors: usize) -> bool {
    code > usize::MAX - errors
}

/// The name of an error that has none.
pub open spec fn unknown_name() -> Seq<u8> {
    seq![0x3cu8, 0x75, 0x6e, 0x6b, 0x6e, 0x6f, 0x77, 0x6e, 0x3e]
}

/// The name of an error: the one that was given, else that it is unknown.
pub open spec fn name_of(given: Option<Vec<u8>>) -> Seq<u8> {
    match given {
        Some(name) => name@,
        None => unknown_name(),
    }
}

fn unknown() -> (r: Vec<u8>)
    ensures
        r@ == unknown_name(),
{
    let mut out: Vec<u8> = Vec::new();
    out.push(0x3c);
    out.push(0x75);
    out.push(0x6e);
    out.push(0x6b);
    out.push(0x6e);
    out.push(0x6f);
    out.push(0x77);
    out.push(0x6e);
    out.push(0x3e);
    assert(out@ =~= unknown_name());
    out
}

/// What a return code means where the `errors` largest are errors; `name` is what the
/// codec calls it, where it calls it anything.
pub fn classify(code: usize, errors: usize, name: Option<Vec<u8>>) -> (r: Classification)
    ensures
        if is_error(code, errors) {
            r matches Classification::Throw { code: c, name: n } && c == code && n@ == name_of(name)
        } else {
            r == (Classification::Accepted { code })
        },
{
    if code <= usize::MAX - errors {
        return Classification::Accepted { code };
    }
    let name = match name {
        Some(given) => given,
        None => unknown(),
    };
    Classification::Throw { code, name }
}

/// A code as a result: an error where it is one.
pub fn checked(code: usize, errors: usize) -> (r: Result<usize, usize>)
    ensures
        r == (if is_error(code, errors) {
            Err::<usize, usize>(code)
        } else {
            Ok::<usize, usize>(code)
        }),
{
    if code > usize::MAX - errors {
        Err(code)
    } else {
        Ok(code)
    }
}

/// Of the codes, as many as there are errors at the top of the range are errors: from
/// minus that many up to minus one, read as signed; each under the name that it was given,
/// `<unknown>` without one. All others are handed on.
pub proof fn law_largest_codes_are_errors(
    code: usize,
    errors: usize,
    name: Option<Vec<u8>>,
    r: Classification,
    err: bool,
    result: Result<usize, usize>,
)
    requires
        call_ensures(classify, (code, errors, name), r),
        call_ensures(Classification::is_err, (&r,), err),
        call_ensures(checked, (code, errors), result),
    ensures
        err <==> usize::MAX - code < errors,
        result is Err <==> err,
        result is Ok ==> result->Ok_0 == code,
        result is Err ==> result->Err_0 == code,
        !err ==> r is Accepted && r->Accepted_code == code,
        err ==> r is Throw && r->Throw_code == code,
        err && name is Some ==> r->name@ == name.unwrap()@,
        err && name is None ==> r->name@ == seq![
            '<' as u8,
            'u' as u8,
            'n' as u8,
            'k' as u8,
            'n' as u8,
            'o' as u8,
            'w' as u8,
            'n' as u8,
            '>' as u8,
        ],
{
    assert('<' as u8 == 0x3c && 'u' as u8 == 0x75 && 'n' as u8 == 0x6e && 'k' as u8 == 0x6b);
    assert('o' as u8 == 0x6f && 'w' as u8 == 0x77 && '>' as u8 == 0x3e);
}

}
