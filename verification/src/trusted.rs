//! The items of `reqwest` and of the standard library that the library calls without a proof.
//! Each contract here is what the library assumes of the item it names.

use reqwest::header::{
    HeaderMap, HeaderName, HeaderValue, InvalidHeaderValue, MaxSizeReached, COOKIE, USER_AGENT,
};
use reqwest::StatusCode;
use vstd::prelude::*;
use vstd::string::StringSliceAdditionalSpecFns;

verus! {

/// `reqwest::StatusCode`, the status of a response.
#[verifier::external_type_specification]
#[verifier::external_body]
pub struct ExStatusCode(StatusCode);

/// `reqwest::Error`, the failure of a request.
#[verifier::external_type_specification]
#[verifier::external_body]
pub struct ExError(reqwest::Error);

/// `reqwest::header::HeaderName`, the name of a header.
#[verifier::external_type_specification]
#[verifier::external_body]
pub struct ExHeaderName(HeaderName);

/// `reqwest::header::HeaderValue`, the value of a header.
#[verifier::external_type_specification]
#[verifier::external_body]
pub struct ExHeaderValue(HeaderValue);

/// `reqwest::header::InvalidHeaderValue`, the error of `HeaderValue::from_str`.
#[verifier::external_type_specification]
#[verifier::external_body]
pub struct ExInvalidHeaderValue(InvalidHeaderValue);

/// `reqwest::header::MaxSizeReached`, the error of `HeaderMap::try_insert`.
#[verifier::external_type_specification]
#[verifier::external_body]
pub struct ExMaxSizeReached(MaxSizeReached);

/// `reqwest::header::HeaderMap`, a set of headers.
#[verifier::external_type_specification]
#[verifier::external_body]
#[verifier::reject_recursive_types(T)]
pub struct ExHeaderMap<T>(HeaderMap<T>);

/// `String::push`, which appends the given character to the end of the string.
pub assume_specification[ String::push ](text: &mut String, c: char)
    ensures
        final(text)@ == old(text)@.push(c),
;

/// What a header map holds: for each header name in it, the values stored under that name, as
/// bytes, first value first.
pub type HeaderFields = Map<Seq<char>, Seq<Seq<u8>>>;

/// The number of `status`: what `StatusCode::as_u16` returns for it.
pub uninterp spec fn status_value(status: StatusCode) -> u16;

/// What `Error::is_timeout` returns for `error`.
pub uninterp spec fn error_timed_out(error: reqwest::Error) -> bool;

/// What `Error::is_connect` returns for `error`.
pub uninterp spec fn error_from_connect(error: reqwest::Error) -> bool;

/// The text of a header name: what `HeaderName::as_str` returns for it.
pub uninterp spec fn header_name_text(name: HeaderName) -> Seq<char>;

/// The bytes of a header value: what `HeaderValue::as_bytes` returns for it.
pub uninterp spec fn header_value_bytes(value: HeaderValue) -> Seq<u8>;

/// The names and values that `map` holds.
pub uninterp spec fn header_map_fields(map: HeaderMap<HeaderValue>) -> HeaderFields;

/// The bytes that `HeaderValue::from_str` accepts: the tab, and every byte from 32 up but 127.
pub open spec fn header_byte_allowed(b: u8) -> bool {
    (b >= 32 && b != 127) || b == 9
}

/// Whether every byte of `bytes` may stand in a header value.
pub open spec fn header_bytes_allowed(bytes: Seq<u8>) -> bool {
    forall|i: int| 0 <= i < bytes.len() ==> header_byte_allowed(#[trigger] bytes[i])
}

/// `StatusCode::as_u16`, which returns the number of the status.
#[verifier::external_body]
pub(crate) fn status_number(status: &StatusCode) -> (number: u16)
    ensures
        number == status_value(*status),
{
    status.as_u16()
}

/// `Error::is_timeout`, which tells whether the error is related to a timeout.
#[verifier::external_body]
pub(crate) fn error_is_timeout(error: &reqwest::Error) -> (timeout: bool)
    ensures
        timeout == error_timed_out(*error),
{
    error.is_timeout()
}

/// `Error::is_connect`, which tells whether the error is related to connecting.
#[verifier::external_body]
pub(crate) fn error_is_connect(error: &reqwest::Error) -> (connect: bool)
    ensures
        connect == error_from_connect(*error),
{
    error.is_connect()
}

/// The constant `COOKIE`, the header name `cookie`.
#[verifier::external_body]
pub(crate) fn cookie_name() -> (name: HeaderName)
    ensures
        header_name_text(name) == seq!['c', 'o', 'o', 'k', 'i', 'e'],
{
    COOKIE
}

/// The constant `USER_AGENT`, the header name `user-agent`.
#[verifier::external_body]
pub(crate) fn user_agent_name() -> (name: HeaderName)
    ensures
        header_name_text(name) == seq!['u', 's', 'e', 'r', '-', 'a', 'g', 'e', 'n', 't'],
{
    USER_AGENT
}

/// `HeaderValue::from_str`, which accepts a text exactly when each of its bytes is allowed in
/// a header value, and then gives the value made of those bytes.
#[verifier::external_body]
pub(crate) fn header_value_from_str(text: &str) -> (parsed: Result<
    HeaderValue,
    InvalidHeaderValue,
>)
    ensures
        parsed is Ok <==> header_bytes_allowed(text.spec_bytes()),
        parsed matches Ok(value) ==> header_value_bytes(value) == text.spec_bytes(),
{
    HeaderValue::from_str(text)
}

/// `HeaderMap::new`, which creates an empty map.
#[verifier::external_body]
pub(crate) fn header_map_new() -> (map: HeaderMap<HeaderValue>)
    ensures
        header_map_fields(map) == HeaderFields::empty(),
{
    HeaderMap::new()
}

/// `HeaderMap::try_insert`, which fails only where the table of the map would have to grow
/// beyond 32768 slots, and that takes at least 6554 names in the map: into a map with fewer
/// names it succeeds. Where it succeeds, `value` has become the one value under `name`, the
/// other names keep their values, and the result is the first of the values that stood under
/// `name` before, if there was one.
#[verifier::external_body]
pub(crate) fn header_map_try_insert(
    map: &mut HeaderMap<HeaderValue>,
    name: HeaderName,
    value: HeaderValue,
) -> (replaced: Result<Option<HeaderValue>, MaxSizeReached>)
    ensures
        header_map_fields(*old(map)).dom().finite() && header_map_fields(*old(map)).dom().len()
            < 6554 ==> replaced is Ok,
        replaced is Ok ==> header_map_fields(*final(map)) == header_map_fields(*old(map)).insert(
            header_name_text(name),
            seq![header_value_bytes(value)],
        ),
        replaced matches Ok(previous) ==> (previous is Some <==> header_map_fields(
            *old(map),
        ).contains_key(header_name_text(name))),
        replaced matches Ok(Some(previous)) ==> header_value_bytes(previous) == header_map_fields(
            *old(map),
        )[header_name_text(name)][0],
{
    map.try_insert(name, value)
}

} // verus!
