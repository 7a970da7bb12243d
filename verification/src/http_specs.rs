//! Contracts for the items of the `http` crate that the codecs call. Verus
//! takes each of them on trust.

use vstd::prelude::*;
use vstd::string::StringSliceAdditionalSpecFns;
use crate::header_name::parse_name;
use crate::header_value::{is_text, is_value};
use crate::method::is_method;
use crate::multimap::{has_name, values_of, with_value};
use crate::scheme::is_scheme;

verus! {

// Header names

/// A header name. Verus sees nothing inside it.
#[verifier::external_type_specification]
#[verifier::external_body]
pub struct ExHeaderName(http::HeaderName);

/// The error of `HeaderName::from_bytes`.
#[verifier::external_type_specification]
#[verifier::external_body]
pub struct ExInvalidHeaderName(http::header::InvalidHeaderName);

/// The bytes of a header name.
pub uninterp spec fn header_name_bytes(name: http::HeaderName) -> Seq<u8>;

/// `HeaderName::from_bytes`: accepts a name of 1 to 65535 bytes, each of
/// them a token character, and holds it with its upper-case letters turned
/// to lower case; refuses every other input.
pub assume_specification[ http::HeaderName::from_bytes ](src: &[u8]) -> (name: Result<
    http::HeaderName,
    http::header::InvalidHeaderName,
>)
    ensures
        match name {
            Ok(parsed) => parse_name(src@) == Some(header_name_bytes(parsed)),
            Err(_) => parse_name(src@) is None,
        },
;

/// `HeaderName::as_str`: the bytes of the name, as text.
pub assume_specification[ http::HeaderName::as_str ](name: &http::HeaderName) -> (text: &str)
    ensures
        text.spec_bytes() == header_name_bytes(*name),
;

/// `HeaderName::clone`: a name of the same bytes.
pub assume_specification[ <http::HeaderName as Clone>::clone ](name: &http::HeaderName) -> (copy:
    http::HeaderName)
    ensures
        header_name_bytes(copy) == header_name_bytes(*name),
;

// Header values

/// A header value. Verus sees nothing inside it.
#[verifier::external_type_specification]
#[verifier::external_body]
pub struct ExHeaderValue(http::HeaderValue);

/// The error of `HeaderValue::from_bytes`.
#[verifier::external_type_specification]
#[verifier::external_body]
pub struct ExInvalidHeaderValue(http::header::InvalidHeaderValue);

/// The error of `HeaderValue::to_str`.
#[verifier::external_type_specification]
#[verifier::external_body]
pub struct ExToStrError(http::header::ToStrError);

/// The bytes of a header value.
pub uninterp spec fn header_value_bytes(value: http::HeaderValue) -> Seq<u8>;

/// `HeaderValue::from_bytes`: accepts the bytes if each is a tab or at least
/// 32 and not 127, and then holds exactly those bytes; refuses them
/// otherwise.
pub assume_specification[ http::HeaderValue::from_bytes ](src: &[u8]) -> (value: Result<
    http::HeaderValue,
    http::header::InvalidHeaderValue,
>)
    ensures
        match value {
            Ok(parsed) => is_value(src@) && header_value_bytes(parsed) == src@,
            Err(_) => !is_value(src@),
        },
;

/// `HeaderValue::as_bytes`: the bytes of the value.
pub assume_specification[ http::HeaderValue::as_bytes ](value: &http::HeaderValue) -> (bytes: &[u8])
    ensures
        bytes@ == header_value_bytes(*value),
;

/// `HeaderValue::to_str`: the bytes of the value as text, if each of them is
/// a tab or a visible ASCII character (32 to 126); an error otherwise.
pub assume_specification[ http::HeaderValue::to_str ](value: &http::HeaderValue) -> (text: Result<
    &str,
    http::header::ToStrError,
>)
    ensures
        match text {
            Ok(shown) => is_text(header_value_bytes(*value)) && shown.spec_bytes()
                == header_value_bytes(*value),
            Err(_) => !is_text(header_value_bytes(*value)),
        },
;

// Header maps

/// A header map. Verus sees nothing inside it.
#[verifier::external_type_specification]
#[verifier::external_body]
#[verifier::reject_recursive_types(T)]
pub struct ExHeaderMap<T>(http::HeaderMap<T>);

/// The error of `HeaderMap::try_append`.
#[verifier::external_type_specification]
#[verifier::external_body]
pub struct ExMaxSizeReached(http::header::MaxSizeReached);

/// What a header map holds: its names in the order in which the map hands
/// them out, each with the bytes of its values in the order in which they
/// were added.
pub uninterp spec fn header_map_groups(map: http::HeaderMap<http::HeaderValue>) -> Seq<
    (Seq<u8>, Seq<Seq<u8>>),
>;

/// `HeaderMap::new`: a map that holds nothing.
pub assume_specification[ http::HeaderMap::<http::HeaderValue>::new ]() -> (map: http::HeaderMap<
    http::HeaderValue,
>)
    ensures
        header_map_groups(map) == Seq::<(Seq<u8>, Seq<Seq<u8>>)>::empty(),
;

/// `HeaderMap::keys`, collected: the names of the map, each once, in the
/// order of its groups.
#[verifier::external_body]
pub(crate) fn header_map_keys<'a>(map: &'a http::HeaderMap<http::HeaderValue>) -> (keys: Vec<
    &'a http::HeaderName,
>)
    ensures
        keys@.len() == header_map_groups(*map).len(),
        forall|i: int|
            0 <= i < keys@.len() ==> header_name_bytes(*#[trigger] keys@[i]) == header_map_groups(
                *map,
            )[i].0,
        forall|i: int, j: int|
            0 <= i < j < keys@.len() ==> header_name_bytes(*#[trigger] keys@[i])
                != header_name_bytes(*#[trigger] keys@[j]),
{
    map.keys().collect()
}

/// `HeaderMap::get_all`, collected: the values under the name in the order
/// in which they were added; none if the map lacks the name.
#[verifier::external_body]
pub(crate) fn header_map_get_all<'a>(
    map: &'a http::HeaderMap<http::HeaderValue>,
    name: &http::HeaderName,
) -> (values: Vec<&'a http::HeaderValue>)
    ensures
        values@.len() == values_of(header_map_groups(*map), header_name_bytes(*name)).len(),
        forall|i: int|
            0 <= i < values@.len() ==> header_value_bytes(*#[trigger] values@[i]) == values_of(
                header_map_groups(*map),
                header_name_bytes(*name),
            )[i],
{
    map.get_all(name).iter().collect()
}

/// `HeaderMap::contains_key`: whether the map has a group of that name.
#[verifier::external_body]
pub(crate) fn header_map_contains_key(
    map: &http::HeaderMap<http::HeaderValue>,
    name: &http::HeaderName,
) -> (found: bool)
    ensures
        found == has_name(header_map_groups(*map), header_name_bytes(*name)),
{
    map.contains_key(name)
}

/// `HeaderMap::try_append`: adds the value at the end of the name's group,
/// or as a new group behind all others, and says whether the name was there
/// before; or refuses to grow, and then leaves the map as it was.
#[verifier::external_body]
pub(crate) fn header_map_try_append(
    map: &mut http::HeaderMap<http::HeaderValue>,
    name: http::HeaderName,
    value: http::HeaderValue,
) -> (appended: Result<bool, http::header::MaxSizeReached>)
    ensures
        match appended {
            Ok(found) => found == has_name(header_map_groups(*old(map)), header_name_bytes(name))
                && header_map_groups(*final(map)) == with_value(
                header_map_groups(*old(map)),
                header_name_bytes(name),
                header_value_bytes(value),
            ),
            Err(_) => header_map_groups(*final(map)) == header_map_groups(*old(map)),
        },
{
    map.try_append(name, value)
}

// Status codes

/// A status code. Verus sees nothing inside it.
#[verifier::external_type_specification]
#[verifier::external_body]
pub struct ExStatusCode(http::StatusCode);

/// The error of `StatusCode::from_u16`.
#[verifier::external_type_specification]
#[verifier::external_body]
pub struct ExInvalidStatusCode(http::status::InvalidStatusCode);

/// The number of a status code.
pub uninterp spec fn status_code_number(status: http::StatusCode) -> u16;

/// `StatusCode::from_u16`: the status code of that number, if the number is
/// at least 100 and below 1000; an error otherwise.
pub assume_specification[ http::StatusCode::from_u16 ](src: u16) -> (status: Result<
    http::StatusCode,
    http::status::InvalidStatusCode,
>)
    ensures
        match status {
            Ok(code) => 100 <= src <= 999 && status_code_number(code) == src,
            Err(_) => !(100 <= src <= 999),
        },
;

/// `StatusCode::as_u16`: the number of the status code, which lies between
/// 100 and 999.
pub assume_specification[ http::StatusCode::as_u16 ](status: &http::StatusCode) -> (number: u16)
    ensures
        number == status_code_number(*status),
        100 <= number <= 999,
;

// Methods

/// A method. Verus sees nothing inside it.
#[verifier::external_type_specification]
#[verifier::external_body]
pub struct ExMethod(http::Method);

/// The error of `Method::from_bytes`.
#[verifier::external_type_specification]
#[verifier::external_body]
pub struct ExInvalidMethod(http::method::InvalidMethod);

/// The bytes of a method.
pub uninterp spec fn method_bytes(method: http::Method) -> Seq<u8>;

/// `Method::from_bytes`: accepts one or more bytes, each of them a token
/// character, and holds exactly those bytes; refuses every other input.
pub assume_specification[ http::Method::from_bytes ](src: &[u8]) -> (method: Result<
    http::Method,
    http::method::InvalidMethod,
>)
    ensures
        match method {
            Ok(parsed) => is_method(src@) && method_bytes(parsed) == src@,
            Err(_) => !is_method(src@),
        },
;

/// `Method::as_str`: the bytes of the method, as text.
pub assume_specification[ http::Method::as_str ](method: &http::Method) -> (text: &str)
    ensures
        text.spec_bytes() == method_bytes(*method),
;

// URIs and their parts

/// A URI. Verus sees nothing inside it.
#[verifier::external_type_specification]
#[verifier::external_body]
pub struct ExUri(http::Uri);

/// The error of parsing a URI.
#[verifier::external_type_specification]
#[verifier::external_body]
pub struct ExInvalidUri(http::uri::InvalidUri);

/// The text that a URI shows as, in UTF-8.
pub uninterp spec fn uri_text(uri: http::Uri) -> Seq<u8>;

/// The text of the URI that a text is parsed to; none if the text is no
/// URI.
pub uninterp spec fn parse_uri(text: Seq<u8>) -> Option<Seq<u8>>;

/// `Uri::to_string`: the text that the URI shows as.
#[verifier::external_body]
pub(crate) fn uri_to_string(uri: &http::Uri) -> (text: String)
    ensures
        vstd::utf8::encode_utf8(text@) == uri_text(*uri),
{
    uri.to_string()
}

/// `Uri::try_from`, of a text: the URI that the text is parsed to, or an
/// error if it is none.
#[verifier::external_body]
pub(crate) fn uri_from_str(text: &str) -> (uri: Result<http::Uri, http::uri::InvalidUri>)
    ensures
        match uri {
            Ok(parsed) => parse_uri(text.spec_bytes()) == Some(uri_text(parsed)),
            Err(_) => parse_uri(text.spec_bytes()) is None,
        },
{
    http::Uri::try_from(text)
}

/// `InvalidUri::to_string`: the reason of the error in words.
#[verifier::external_body]
pub(crate) fn invalid_uri_reason(error: &http::uri::InvalidUri) -> String {
    error.to_string()
}

/// The scheme of a URI. Verus sees nothing inside it.
#[verifier::external_type_specification]
#[verifier::external_body]
pub struct ExScheme(http::uri::Scheme);

/// The text of a scheme, in UTF-8.
pub uninterp spec fn scheme_text(scheme: http::uri::Scheme) -> Seq<u8>;

/// `Scheme::as_str`: the text of the scheme. The one scheme that it has no
/// text for is the mark of a URI without a scheme, which never leaves the
/// URI.
pub assume_specification[ http::uri::Scheme::as_str ](scheme: &http::uri::Scheme) -> (text: &str)
    ensures
        text.spec_bytes() == scheme_text(*scheme),
;

/// `Scheme::try_from`, of a text: accepts a text of at most 64 bytes, each
/// of them a letter, a digit or one of `+ - . ~`, and holds exactly those
/// bytes; refuses every other input.
#[verifier::external_body]
pub(crate) fn scheme_from_str(text: &str) -> (scheme: Result<
    http::uri::Scheme,
    http::uri::InvalidUri,
>)
    ensures
        match scheme {
            Ok(parsed) => is_scheme(text.spec_bytes()) && scheme_text(parsed) == text.spec_bytes(),
            Err(_) => !is_scheme(text.spec_bytes()),
        },
{
    http::uri::Scheme::try_from(text)
}

/// The authority of a URI. Verus sees nothing inside it.
#[verifier::external_type_specification]
#[verifier::external_body]
pub struct ExAuthority(http::uri::Authority);

/// The text of an authority, in UTF-8.
pub uninterp spec fn authority_text(authority: http::uri::Authority) -> Seq<u8>;

/// The text of the authority that a text is parsed to; none if the text is
/// no authority.
pub uninterp spec fn parse_authority(text: Seq<u8>) -> Option<Seq<u8>>;

/// `Authority::as_str`: the text of the authority.
pub assume_specification[ http::uri::Authority::as_str ](authority: &http::uri::Authority) -> (text:
    &str)
    ensures
        text.spec_bytes() == authority_text(*authority),
;

/// `Authority::try_from`, of a text: the authority that the text is parsed
/// to, or an error if it is none.
#[verifier::external_body]
pub(crate) fn authority_from_str(text: &str) -> (authority: Result<
    http::uri::Authority,
    http::uri::InvalidUri,
>)
    ensures
        match authority {
            Ok(parsed) => parse_authority(text.spec_bytes()) == Some(authority_text(parsed)),
            Err(_) => parse_authority(text.spec_bytes()) is None,
        },
{
    http::uri::Authority::try_from(text)
}

/// The path and query of a URI. Verus sees nothing inside it.
#[verifier::external_type_specification]
#[verifier::external_body]
pub struct ExPathAndQuery(http::uri::PathAndQuery);

/// The text of a path and query, in UTF-8.
pub uninterp spec fn path_and_query_text(path_and_query: http::uri::PathAndQuery) -> Seq<u8>;

/// The text of the path and query that a text is parsed to; none if the
/// text is no path and query.
pub uninterp spec fn parse_path_and_query(text: Seq<u8>) -> Option<Seq<u8>>;

/// `PathAndQuery::as_str`: the text of the path and query.
pub assume_specification[ http::uri::PathAndQuery::as_str ](
    path_and_query: &http::uri::PathAndQuery,
) -> (text: &str)
    ensures
        text.spec_bytes() == path_and_query_text(*path_and_query),
;

/// `PathAndQuery::try_from`, of a text: the path and query that the text is
/// parsed to, or an error if it is none.
#[verifier::external_body]
pub(crate) fn path_and_query_from_str(text: &str) -> (path_and_query: Result<
    http::uri::PathAndQuery,
    http::uri::InvalidUri,
>)
    ensures
        match path_and_query {
            Ok(parsed) => parse_path_and_query(text.spec_bytes()) == Some(
                path_and_query_text(parsed),
            ),
            Err(_) => parse_path_and_query(text.spec_bytes()) is None,
        },
{
    http::uri::PathAndQuery::try_from(text)
}

} // verus!
