//! HTTP messages: what the `http` crate holds of them, and how requests are put together from
//! header fields.

use http::header::{HeaderName, InvalidHeaderName};
use vstd::prelude::*;

verus! {

/// A header field of a message.
#[derive(Debug)]
pub struct HeaderField {
    pub name: Vec<u8>,
    pub value: Vec<u8>,
}

impl View for HeaderField {
    type V = (Seq<u8>, Seq<u8>);

    open spec fn view(&self) -> (Seq<u8>, Seq<u8>) {
        (self.name@, self.value@)
    }
}

/// The names and values of header fields.
pub open spec fn field_list(fields: Seq<HeaderField>) -> Seq<(Seq<u8>, Seq<u8>)> {
    fields.map_values(|field: HeaderField| field@)
}

/// The head of a response.
pub struct ResponseHead {
    pub status: u16,
    pub headers: http::HeaderMap<http::HeaderValue>,
}

/// `http::HeaderMap`
#[verifier::external_type_specification]
#[verifier::external_body]
#[verifier::reject_recursive_types(T)]
pub struct ExHeaderMap<T>(http::HeaderMap<T>);

/// `http::HeaderValue`
#[verifier::external_type_specification]
#[verifier::external_body]
pub struct ExHeaderValue(http::HeaderValue);

/// `http::header::HeaderName`
#[verifier::external_type_specification]
#[verifier::external_body]
pub struct ExHeaderName(HeaderName);

/// `http::header::InvalidHeaderName`
#[verifier::external_type_specification]
#[verifier::external_body]
pub struct ExInvalidHeaderName(InvalidHeaderName);

/// `http::Error`
#[verifier::external_type_specification]
#[verifier::external_body]
pub struct ExHttpError(http::Error);

/// `http::Uri`
#[verifier::external_type_specification]
#[verifier::external_body]
pub struct ExUri(http::Uri);

/// `http::uri::Builder`
#[verifier::external_type_specification]
#[verifier::external_body]
pub struct ExUriBuilder(http::uri::Builder);

/// `http::request::Builder`
#[verifier::external_type_specification]
#[verifier::external_body]
pub struct ExRequestBuilder(http::request::Builder);

/// `http::request::Parts`
#[verifier::external_type_specification]
#[verifier::external_body]
pub struct ExRequestParts(http::request::Parts);

/// What a URI consists of. A part that it lacks is empty; the scheme has no empty form.
#[verifier::ext_equal]
pub ghost struct UriContent {
    pub scheme: Option<Seq<u8>>,
    pub authority: Seq<u8>,
    pub path_and_query: Seq<u8>,
}

/// The parts of a URI that have been given so far.
#[verifier::ext_equal]
pub ghost struct UriDraft {
    pub scheme: Option<Seq<u8>>,
    pub authority: Option<Seq<u8>>,
    pub path_and_query: Option<Seq<u8>>,
}

impl UriDraft {
    pub open spec fn empty() -> UriDraft {
        UriDraft { scheme: None, authority: None, path_and_query: None }
    }

    /// The URI that the parts make up: all three of them, or the authority alone, or the path
    /// alone, or none.
    pub open spec fn assembled(self) -> Result<UriContent, Seq<char>> {
        if self.scheme is Some && self.authority is None {
            Err("authority missing"@)
        } else if self.scheme is Some && self.path_and_query is None {
            Err("path missing"@)
        } else if self.scheme is None && self.authority is Some && self.path_and_query is Some {
            Err("scheme missing"@)
        } else {
            Ok(
                UriContent {
                    scheme: self.scheme,
                    authority: match self.authority {
                        Some(authority) => authority,
                        None => Seq::empty(),
                    },
                    path_and_query: match self.path_and_query {
                        Some(path) => path,
                        None => Seq::empty(),
                    },
                },
            )
        }
    }
}

/// The head of a request. Of each header name it holds the values, in the order in which they came.
#[verifier::ext_equal]
pub ghost struct RequestContent {
    pub http_3: bool,
    pub method: Seq<u8>,
    pub uri: UriContent,
    pub headers: Map<Seq<u8>, Seq<Seq<u8>>>,
}

impl RequestContent {
    /// An HTTP/1.1 GET of `/`.
    pub open spec fn initial() -> RequestContent {
        RequestContent {
            http_3: false,
            method: crate::ascii::ascii("GET"@),
            uri: UriContent {
                scheme: None,
                authority: Seq::empty(),
                path_and_query: crate::ascii::ascii("/"@),
            },
            headers: Map::empty(),
        }
    }

    pub open spec fn with_header(self, name: Seq<u8>, value: Seq<u8>) -> RequestContent {
        let values = if self.headers.dom().contains(name) {
            self.headers[name].push(value)
        } else {
            seq![value]
        };
        RequestContent { headers: self.headers.insert(name, values), ..self }
    }
}

/// The fields of `map` in the order in which they are walked.
pub uninterp spec fn header_fields(map: http::HeaderMap<http::HeaderValue>) -> Seq<
    (Seq<u8>, Seq<u8>),
>;

/// The bytes of a header name.
pub uninterp spec fn header_name_bytes(name: HeaderName) -> Seq<u8>;

/// How an error is worded.
pub uninterp spec fn http_error_text(error: http::Error) -> Seq<char>;

/// What a URI holds.
pub uninterp spec fn uri_content(uri: http::Uri) -> UriContent;

/// What a builder of URIs holds: the parts that were given to it, or the wording of the first
/// error.
pub uninterp spec fn uri_builder_content(builder: http::uri::Builder) -> Result<
    UriDraft,
    Seq<char>,
>;

/// What a builder of requests holds: the head of the request, or the wording of the first error.
pub uninterp spec fn request_builder_content(builder: http::request::Builder) -> Result<
    RequestContent,
    Seq<char>,
>;

/// What the head of a request holds.
pub uninterp spec fn request_content(parts: http::request::Parts) -> RequestContent;

/// The authority that `value` is read as, or why it is none.
pub uninterp spec fn parsed_authority(value: Seq<u8>) -> Result<Seq<u8>, Seq<char>>;

/// The path and the query that `value` is read as, or why it is none.
pub uninterp spec fn parsed_path_and_query(value: Seq<u8>) -> Result<Seq<u8>, Seq<char>>;

/// As many header names as this always find room in a request.
pub const HEADER_NAMES_ROOM: usize = 6553;

/// The longest scheme.
pub const MAX_SCHEME_LEN: usize = 64;

/// The longest header name.
pub const MAX_HEADER_NAME_LEN: usize = 65535;

/// Characters that may stand in tokens as well as in lower-case header names.
pub open spec fn is_lowercase_token_byte(b: u8) -> bool {
    ||| 'a' as u8 <= b <= 'z' as u8
    ||| '0' as u8 <= b <= '9' as u8
    ||| b == '!' as u8 || b == '#' as u8 || b == '$' as u8 || b == '%' as u8 || b == '&' as u8
    ||| b == '\'' as u8 || b == '*' as u8 || b == '+' as u8 || b == '-' as u8 || b == '.' as u8
    ||| b == '^' as u8 || b == '_' as u8 || b == '`' as u8 || b == '|' as u8 || b == '~' as u8
}

/// `name` is a header name in lower case. Quotation marks pass, too.
pub open spec fn is_lowercase_header_name(name: Seq<u8>) -> bool {
    &&& 0 < name.len() <= MAX_HEADER_NAME_LEN
    &&& forall|i: int|
        0 <= i < name.len() ==> is_lowercase_token_byte(#[trigger] name[i]) || name[i]
            == '"' as u8
}

/// `value` is the value of a header field.
pub open spec fn is_header_value(value: Seq<u8>) -> bool {
    forall|i: int|
        0 <= i < value.len() ==> (#[trigger] value[i] >= 32 && value[i] != 127) || value[i] == 9
}

/// `method` is a request method.
pub open spec fn is_method(method: Seq<u8>) -> bool {
    &&& method.len() > 0
    &&& forall|i: int|
        0 <= i < method.len() ==> is_lowercase_token_byte(#[trigger] method[i]) || 'A' as u8
            <= method[i] <= 'Z' as u8
}

/// The scheme that `value` is read as, or why it is none. It is taken as it is; an empty one
/// passes, and so do tildes.
pub open spec fn scheme_of(value: Seq<u8>) -> Result<Seq<u8>, Seq<char>> {
    if value.len() > MAX_SCHEME_LEN {
        Err("scheme too long"@)
    } else if forall|i: int| 0 <= i < value.len() ==> is_scheme_byte(#[trigger] value[i]) {
        Ok(value)
    } else {
        Err("invalid scheme"@)
    }
}

/// Characters that may stand in schemes.
pub open spec fn is_scheme_byte(b: u8) -> bool {
    ||| 'a' as u8 <= b <= 'z' as u8
    ||| 'A' as u8 <= b <= 'Z' as u8
    ||| '0' as u8 <= b <= '9' as u8
    ||| b == '+' as u8 || b == '-' as u8 || b == '.' as u8 || b == '~' as u8
}

/// Calls `http::HeaderMap::new`. Claimed of it: the map holds nothing.
#[verifier::external_body]
pub(crate) fn header_map_new() -> (map: http::HeaderMap<http::HeaderValue>)
    ensures
        header_fields(map) == Seq::<(Seq<u8>, Seq<u8>)>::empty(),
{
    http::HeaderMap::new()
}

/// Calls `http::HeaderMap::iter`, and copies the name and the value of each field. Claimed of it:
/// the order in which it walks the map depends on the map alone.
#[verifier::external_body]
pub(crate) fn header_map_iter(map: &http::HeaderMap<http::HeaderValue>) -> (fields: Vec<HeaderField>)
    ensures
        field_list(fields@) == header_fields(*map),
{
    map.iter()
        .map(|(name, value)| HeaderField {
            name: name.as_str().as_bytes().to_vec(),
            value: value.as_bytes().to_vec(),
        })
        .collect()
}

/// Calls `HeaderName::from_lowercase`. Claimed of it: it takes header names in lower case, and
/// only these, as they are.
#[verifier::external_body]
pub(crate) fn header_name_from_lowercase(name: &[u8]) -> (result: Result<
    HeaderName,
    InvalidHeaderName,
>)
    ensures
        result is Ok <==> is_lowercase_header_name(name@),
        result matches Ok(header) ==> header_name_bytes(header) == name@,
{
    HeaderName::from_lowercase(name)
}

/// Calls the `Display` of `http::Error`. Claimed of it: how an error is worded depends on the error
/// alone.
#[verifier::external_body]
pub(crate) fn http_error_to_text(error: &http::Error) -> (text: String)
    ensures
        text@ == http_error_text(*error),
{
    error.to_string()
}

/// Calls `http::Uri::builder`. Claimed of it: nothing has been given to the builder.
#[verifier::external_body]
pub(crate) fn uri_builder() -> (fresh: http::uri::Builder)
    ensures
        uri_builder_content(fresh) is Ok,
        uri_builder_content(fresh)->Ok_0 == UriDraft::empty(),
{
    http::Uri::builder()
}

/// Calls `http::uri::Builder::scheme`. Claimed of it: it takes up to [`MAX_SCHEME_LEN`] scheme
/// characters as they are, in place of an earlier scheme; where `value` is something else, the
/// builder keeps the error. A builder that holds an error already stays as it is.
#[verifier::external_body]
pub(crate) fn uri_builder_scheme(builder: http::uri::Builder, value: &[u8]) -> (next:
    http::uri::Builder)
    ensures
        uri_builder_content(next) == match uri_builder_content(builder) {
            Err(e) => Err(e),
            Ok(draft) => match scheme_of(value@) {
                Err(e) => Err(e),
                Ok(scheme) => Ok(UriDraft { scheme: Some(scheme), ..draft }),
            },
        },
{
    builder.scheme(value)
}

/// Calls `http::uri::Builder::authority`. Claimed of it: the authority that `value` is read as
/// replaces an earlier one; where `value` is none, the builder keeps the error. A builder that
/// holds an error already stays as it is.
#[verifier::external_body]
pub(crate) fn uri_builder_authority(builder: http::uri::Builder, value: &[u8]) -> (next:
    http::uri::Builder)
    ensures
        uri_builder_content(next) == match uri_builder_content(builder) {
            Err(e) => Err(e),
            Ok(draft) => match parsed_authority(value@) {
                Err(e) => Err(e),
                Ok(authority) => Ok(UriDraft { authority: Some(authority), ..draft }),
            },
        },
{
    builder.authority(value)
}

/// Calls `http::uri::Builder::path_and_query`. Claimed of it: the path and query that `value` is
/// read as replace earlier ones; where `value` is none, the builder keeps the error. A builder
/// that holds an error already stays as it is.
#[verifier::external_body]
pub(crate) fn uri_builder_path_and_query(builder: http::uri::Builder, value: &[u8]) -> (next:
    http::uri::Builder)
    ensures
        uri_builder_content(next) == match uri_builder_content(builder) {
            Err(e) => Err(e),
            Ok(draft) => match parsed_path_and_query(value@) {
                Err(e) => Err(e),
                Ok(path) => Ok(UriDraft { path_and_query: Some(path), ..draft }),
            },
        },
{
    builder.path_and_query(value)
}

/// Calls `http::uri::Builder::build`. Claimed of it: it gives the error that the builder holds, or
/// the URI that the given parts make up.
#[verifier::external_body]
pub(crate) fn uri_builder_build(builder: http::uri::Builder) -> (result: Result<
    http::Uri,
    http::Error,
>)
    ensures
        match uri_builder_content(builder) {
            Err(e) => result matches Err(error) && http_error_text(error) == e,
            Ok(draft) => match draft.assembled() {
                Err(e) => result matches Err(error) && http_error_text(error) == e,
                Ok(content) => result matches Ok(uri) && uri_content(uri) == content,
            },
        },
{
    builder.build()
}

/// Calls `http::Request::builder`. Claimed of it: it begins with an HTTP/1.1 GET of `/` without
/// header fields.
#[verifier::external_body]
pub(crate) fn request_builder() -> (fresh: http::request::Builder)
    ensures
        request_builder_content(fresh) is Ok,
        request_builder_content(fresh)->Ok_0 == RequestContent::initial(),
{
    http::Request::builder()
}

/// Calls `http::request::Builder::version` with HTTP/3. Claimed of it: it changes the version, and
/// leaves a builder that holds an error as it is.
#[verifier::external_body]
pub(crate) fn request_builder_version_http_3(builder: http::request::Builder) -> (next:
    http::request::Builder)
    ensures
        request_builder_content(next) == match request_builder_content(builder) {
            Err(e) => Err(e),
            Ok(content) => Ok(RequestContent { http_3: true, ..content }),
        },
{
    builder.version(http::Version::HTTP_3)
}

/// Calls `http::request::Builder::method`. Claimed of it: the method replaces an earlier one; where
/// `value` is none, the builder keeps the error. A builder that holds an error already stays as it
/// is.
#[verifier::external_body]
pub(crate) fn request_builder_method(builder: http::request::Builder, value: &[u8]) -> (next:
    http::request::Builder)
    ensures
        request_builder_content(next) == match request_builder_content(builder) {
            Err(e) => Err(e),
            Ok(content) => if is_method(value@) {
                Ok(RequestContent { method: value@, ..content })
            } else {
                Err("invalid HTTP method"@)
            },
        },
{
    builder.method(value)
}

/// Calls `http::request::Builder::header`. Claimed of it: the value is added to those that the
/// name has; where `value` is none, the builder keeps the error. It may run out of room, but not
/// before there are more than [`HEADER_NAMES_ROOM`] names. A builder that holds an error already
/// stays as it is.
#[verifier::external_body]
pub(crate) fn request_builder_header(
    builder: http::request::Builder,
    name: HeaderName,
    value: &[u8],
) -> (next: http::request::Builder)
    ensures
        match request_builder_content(builder) {
            Err(e) => request_builder_content(next) matches Err(error) && error == e,
            Ok(content) => match request_builder_content(next) {
                Ok(longer) => is_header_value(value@) && longer == content.with_header(
                    header_name_bytes(name),
                    value@,
                ),
                Err(error) => if is_header_value(value@) {
                    error == "max size reached"@ && content.headers.dom().len()
                        > HEADER_NAMES_ROOM
                } else {
                    error == "failed to parse header value"@
                },
            },
        },
{
    builder.header(name, value)
}

/// Calls `http::request::Builder::uri`. Claimed of it: it changes the URI, and leaves a builder
/// that holds an error as it is.
#[verifier::external_body]
pub(crate) fn request_builder_uri(builder: http::request::Builder, uri: http::Uri) -> (next:
    http::request::Builder)
    ensures
        request_builder_content(next) == match request_builder_content(builder) {
            Err(e) => Err(e),
            Ok(content) => Ok(RequestContent { uri: uri_content(uri), ..content }),
        },
{
    builder.uri(uri)
}

/// Calls `http::request::Builder::body` with no body, and `http::Request::into_parts` on what comes
/// of it. Claimed of them: they give the error that the builder holds, or the head that it holds.
#[verifier::external_body]
pub(crate) fn request_builder_parts(builder: http::request::Builder) -> (result: Result<
    http::request::Parts,
    http::Error,
>)
    ensures
        match request_builder_content(builder) {
            Err(e) => result matches Err(error) && http_error_text(error) == e,
            Ok(content) => result matches Ok(parts) && request_content(parts) == content,
        },
{
    builder.body(()).map(|request| request.into_parts().0)
}

} // verus!
