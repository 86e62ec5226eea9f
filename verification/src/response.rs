//! The concrete `http_types::Response` a template materializes into, and
//! what its contents are after each building step.

use vstd::prelude::*;

use crate::headers::{ascii_text, is_canonical_name};
use crate::response_template::ResponseTemplate;
use crate::status::is_valid_status;

verus! {

#[verifier::external_type_specification]
#[verifier::external_body]
pub struct ExResponse(http_types::Response);

/// The status code a response carries.
pub uninterp spec fn response_status(r: http_types::Response) -> u16;

/// The header map a response carries: each canonical (lowercase) name with
/// the ordered list of its values.
pub uninterp spec fn response_headers(r: http_types::Response) -> Map<Seq<char>, Seq<Seq<char>>>;

/// The body bytes a response carries.
pub uninterp spec fn response_body(r: http_types::Response) -> Seq<u8>;

/// A header map with nothing declared in it.
pub open spec fn empty_headers() -> Map<Seq<char>, Seq<Seq<char>>> {
    Map::empty()
}

/// The canonical name of the content-type header.
pub open spec fn content_type_name() -> Seq<char> {
    "content-type"@
}

/// The content type `http_types` records for a body given as plain bytes.
pub open spec fn octet_stream_value() -> Seq<char> {
    "application/octet-stream"@
}

/// The header map a materialized response carries: the template's own map,
/// plus a byte-stream content type when a body is attached and the template
/// declared no content type itself (`http_types` records one then).
pub open spec fn materialized_headers(t: ResponseTemplate) -> Map<Seq<char>, Seq<Seq<char>>> {
    if t.body_spec() is Some && !t.headers_map().contains_key(content_type_name()) {
        t.headers_map().insert(content_type_name(), seq![octet_stream_value()])
    } else {
        t.headers_map()
    }
}

/// The body a materialized response carries: the template's body verbatim,
/// or no bytes at all when none was set.
pub open spec fn materialized_body(t: ResponseTemplate) -> Seq<u8> {
    match t.body_spec() {
        Some(b) => b,
        None => Seq::empty(),
    }
}

/// Relies on `http_types::Response::new`: a fresh response carries the given
/// status, no headers, and an empty body.
#[verifier::external_body]
pub(crate) fn response_new(code: u16) -> (r: http_types::Response)
    requires
        is_valid_status(code),
    ensures
        response_status(r) == code,
        response_headers(r) == empty_headers(),
        response_body(r) == Seq::<u8>::empty(),
{
    http_types::Response::new(code)
}

/// Relies on `http_types::Response::append_header`: a new name is inserted
/// with the one value, a known name gets the value appended at the end of
/// its list; status and body stay as they were.
#[verifier::external_body]
pub(crate) fn response_append_header(r: &mut http_types::Response, name: &String, value: &String)
    requires
        is_canonical_name(name@),
        ascii_text(value@),
    ensures
        response_status(*final(r)) == response_status(*old(r)),
        response_body(*final(r)) == response_body(*old(r)),
        response_headers(*final(r)) == response_headers(*old(r)).insert(
            name@,
            if response_headers(*old(r)).contains_key(name@) {
                response_headers(*old(r))[name@].push(value@)
            } else {
                seq![value@]
            },
        ),
{
    r.append_header(name.as_str(), value.as_str());
}

/// Relies on `http_types::Response::set_body`: the bytes become the body,
/// and when no content-type header is present the byte-stream content type
/// is recorded under it; status and the other headers stay as they were.
#[verifier::external_body]
pub(crate) fn response_set_body(r: &mut http_types::Response, body: &Vec<u8>)
    ensures
        response_status(*final(r)) == response_status(*old(r)),
        response_body(*final(r)) == body@,
        response_headers(*final(r)) == (if response_headers(*old(r)).contains_key(
            content_type_name(),
        ) {
            response_headers(*old(r))
        } else {
            response_headers(*old(r)).insert(content_type_name(), seq![octet_stream_value()])
        }),
{
    r.set_body(body.as_slice());
}

} // verus!
