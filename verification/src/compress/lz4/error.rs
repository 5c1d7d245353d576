//! What the return codes of liblz4 mean.
use vstd::prelude::*;

use crate::compress::codes;

pub use crate::compress::codes::Classification;

verus! {

/// How many codes at the top of the range are errors.
pub const ERROR_CODES: usize = 23;

/// Whether a code is an error.
pub open spec fn is_error(code: usize) -> bool {
    codes::is_error(code, ERROR_CODES)
}

/// What a return code means; `name` is what the library calls it, where it calls it
/// anything.
pub fn classify(code: usize, name: Option<Vec<u8>>) -> (r: Classification)
    ensures
        if is_error(code) {
            r matches Classification::Throw { code: c, name: n } && c == code && n@ == codes::name_of(name)
        } else {
            r == (Classification::Accepted { code })
        },
{
    codes::classify(code, ERROR_CODES, name)
}

/// A code as a result: an error where it is one.
pub fn checked(code: usize) -> (r: Result<usize, usize>)
    ensures
        r == (if is_error(code) {
            Err::<usize, usize>(code)
        } else {
            Ok::<usize, usize>(code)
        }),
{
    codes::checked(code, ERROR_CODES)
}

/// The codes that are errors to liblz4 are the 23 largest.
pub proof fn law_liblz4_codes(code: usize, name: Option<Vec<u8>>, r: Classification, result: Result<usize, usize>)
    requires
        call_ensures(classify, (code, name), r),
        call_ensures(checked, (code,), result),
    ensures
        r is Throw <==> usize::MAX - code < 23,
        result is Err <==> usize::MAX - code < 23,
        r is Throw ==> r->Throw_code == code && (name is Some ==> r->name@ == name.unwrap()@),
        r is Accepted ==> r->Accepted_code == code,
        result is Ok ==> result->Ok_0 == code,
        result is Err ==> result->Err_0 == code,
{
}

}
