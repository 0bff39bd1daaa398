//! URIs and headers of the `http` crate.

use http::header::HeaderMap;
use http::header::HeaderValue;
use http::header::InvalidHeaderValue;
use http::uri::InvalidUri;
use http::Uri;
use vstd::prelude::*;
use vstd::utf8::encode_utf8;

verus! {

/// A URI of the `http` crate. It is carried as it is.
#[verifier::external_type_specification]
#[verifier::external_body]
pub struct ExUri(Uri);

/// Why a text is no URI.
#[verifier::external_type_specification]
#[verifier::external_body]
pub struct ExInvalidUri(InvalidUri);

/// The value of a header. What it holds are its [`header_bytes`].
#[verifier::external_type_specification]
#[verifier::external_body]
pub struct ExHeaderValue(HeaderValue);

/// Why a text is no header value.
#[verifier::external_type_specification]
#[verifier::external_body]
pub struct ExInvalidHeaderValue(InvalidHeaderValue);

/// The headers of a request. What they hold are their [`header_lines`].
#[verifier::external_type_specification]
#[verifier::external_body]
#[verifier::reject_recursive_types(T)]
pub struct ExHeaderMap<T>(HeaderMap<T>);

/// What `str::parse::<Uri>` makes of a text: the URI that it spells, or why it spells none.
pub uninterp spec fn parsed_uri(text: Seq<char>) -> Result<Uri, InvalidUri>;

/// `str::parse::<Uri>`: the URI that `text` spells, or why it spells none.
#[verifier::external_body]
pub(crate) fn parse_uri(text: &str) -> (r: Result<Uri, InvalidUri>)
    ensures
        r == parsed_uri(text@),
{
    text.parse::<Uri>()
}

/// `Uri::clone`: the same URI.
#[verifier::external_body]
pub(crate) fn clone_uri(uri: &Uri) -> (r: Uri)
    ensures
        r == *uri,
{
    uri.clone()
}

/// The bytes of a header value.
pub uninterp spec fn header_bytes(value: HeaderValue) -> Seq<u8>;

/// A header value may hold these bytes: none of them is a control character other than a tab.
pub open spec fn is_header_text(bytes: Seq<u8>) -> bool {
    forall|i: int|
        0 <= i < bytes.len() ==> (32 <= #[trigger] bytes[i] && bytes[i] != 127) || bytes[i] == 9
}

/// `HeaderValue::from_str`: a header value with the bytes of `text`, unless one of them is a
/// control character other than a tab.
#[verifier::external_body]
pub(crate) fn header_value(text: &str) -> (r: Result<HeaderValue, InvalidHeaderValue>)
    ensures
        r is Ok <==> is_header_text(encode_utf8(text@)),
        r is Ok ==> header_bytes(r->Ok_0) == encode_utf8(text@),
{
    HeaderValue::from_str(text)
}

/// The lines of a set of headers: for each name, in lower case, the bytes of its values in order.
pub uninterp spec fn header_lines(headers: HeaderMap<HeaderValue>) -> Map<Seq<char>, Seq<Seq<u8>>>;

/// The lines of no headers.
pub open spec fn no_lines() -> Map<Seq<char>, Seq<Seq<u8>>> {
    Map::empty()
}

/// Headers with these lines take a value for `name`: they have one already, or fewer names than a
/// set of headers can hold.
pub open spec fn has_room(lines: Map<Seq<char>, Seq<Seq<u8>>>, name: Seq<char>) -> bool {
    lines.dom().contains(name) || lines.dom().len() < 32768
}

/// Headers with fewer than 32768 names take any other, and all take a new value for a name that they
/// have.
pub proof fn law_room_for_known_and_new_names(
    lines: Map<Seq<char>, Seq<Seq<u8>>>,
    name: Seq<char>,
)
    ensures
        lines.dom().contains(name) ==> has_room(lines, name),
        lines.dom().len() < 32768 ==> has_room(lines, name),
{
}

/// `name` is the name of a header, written in lower-case letters and hyphens.
pub open spec fn is_header_name(name: Seq<char>) -> bool {
    &&& 0 < name.len() <= 64
    &&& forall|i: int|
        0 <= i < name.len() ==> ('a' <= #[trigger] name[i] <= 'z') || name[i] == '-'
}

/// `HeaderMap::new`: no headers.
#[verifier::external_body]
pub(crate) fn headers_new() -> (r: HeaderMap<HeaderValue>)
    ensures
        header_lines(r) == no_lines(),
{
    HeaderMap::new()
}

/// `HeaderMap::insert`: header `name` then has the one value `value`. What it had before is
/// removed, and the first of it is returned.
///
/// The call panics on a name that is no header name, and on a new name where the map is full.
#[verifier::external_body]
pub(crate) fn headers_insert(
    headers: &mut HeaderMap<HeaderValue>,
    name: &'static str,
    value: HeaderValue,
) -> (r: Option<HeaderValue>)
    requires
        is_header_name(name@),
        has_room(header_lines(*old(headers)), name@),
    ensures
        header_lines(*final(headers)) == header_lines(*old(headers)).insert(
            name@,
            seq![header_bytes(value)],
        ),
        r is Some <==> header_lines(*old(headers)).dom().contains(name@),
        r is Some ==> header_bytes(r->Some_0) == header_lines(*old(headers))[name@][0],
{
    headers.insert(name, value)
}

} // verus!
