//! Validity of HTTP status codes, as `http_types` defines them.

use vstd::prelude::*;

verus! {

/// The status codes that the `http_types::StatusCode` enum defines.
/// Converting a `u16` into a `StatusCode` succeeds exactly for these.
pub open spec fn is_valid_status(code: u16) -> bool {
    ||| code == 100 || code == 101 || code == 103
    ||| 200 <= code <= 207 || code == 226
    ||| 300 <= code <= 304 || code == 307 || code == 308
    ||| 400 <= code <= 418 || 421 <= code <= 426
    ||| code == 428 || code == 429 || code == 431 || code == 451
    ||| 500 <= code <= 508 || code == 510 || code == 511
}

/// Relies on `http_types::StatusCode::try_from::<u16>`: the conversion
/// succeeds exactly for the codes of the `StatusCode` enum, the ones listed
/// by `is_valid_status`.
#[verifier::external_body]
pub(crate) fn status_code_accepted(code: u16) -> (r: bool)
    ensures
        r == is_valid_status(code),
{
    http_types::StatusCode::try_from(code).is_ok()
}

} // verus!
