//! Requests, as they come in as header fields of an HTTP/3 stream.

use crate::ascii::is_ascii_text;
use crate::failure::{Failure, FailureKind, FailureText};
use crate::http_message::{
    header_name_from_lowercase, http_error_to_text, request_builder, request_builder_header,
    request_builder_method, request_builder_parts, request_builder_uri,
    request_builder_version_http_3, uri_builder, uri_builder_authority, uri_builder_build,
    uri_builder_path_and_query, uri_builder_scheme, HeaderField, RequestContent, UriDraft,
    HEADER_NAMES_ROOM,
};
use vstd::prelude::*;

verus! {

/// What a header field says of the request.
#[derive(Debug, Clone, Copy, PartialEq, Eq, Structural)]
pub enum HeaderRole {
    Method,
    Scheme,
    Authority,
    Path,
    /// It is a header field of the message.
    Field,
}

/// The role of the field of that name.
pub open spec fn role_of(name: Seq<u8>) -> HeaderRole {
    if name == crate::ascii::ascii(":method"@) {
        HeaderRole::Method
    } else if name == crate::ascii::ascii(":scheme"@) {
        HeaderRole::Scheme
    } else if name == crate::ascii::ascii(":authority"@) {
        HeaderRole::Authority
    } else if name == crate::ascii::ascii(":path"@) {
        HeaderRole::Path
    } else {
        HeaderRole::Field
    }
}

/// The role of the field of that name.
pub fn header_role(name: &[u8]) -> (role: HeaderRole)
    ensures
        role == role_of(name@),
{
    proof {
        reveal_strlit(":method");
        reveal_strlit(":scheme");
        reveal_strlit(":authority");
        reveal_strlit(":path");
    }
    if is_ascii_text(name, ":method") {
        HeaderRole::Method
    } else if is_ascii_text(name, ":scheme") {
        HeaderRole::Scheme
    } else if is_ascii_text(name, ":authority") {
        HeaderRole::Authority
    } else if is_ascii_text(name, ":path") {
        HeaderRole::Path
    } else {
        HeaderRole::Field
    }
}

/// The hexadecimal digit `d`.
pub open spec fn hex_digit(d: int) -> char {
    if d < 10 {
        (d + 48) as char
    } else {
        (d + 87) as char
    }
}

/// Two hexadecimal digits for each byte.
pub open spec fn hex(bytes: Seq<u8>) -> Seq<char> {
    Seq::new(
        2 * bytes.len(),
        |i: int|
            if i % 2 == 0 {
                hex_digit(bytes[i / 2] as int / 16)
            } else {
                hex_digit(bytes[i / 2] as int % 16)
            },
    )
}

fn hex_digit_text(d: u8) -> (text: &'static str)
    requires
        d < 16,
    ensures
        text@ == seq![hex_digit(d as int)],
{
    proof {
        reveal_strlit("0");
        reveal_strlit("1");
        reveal_strlit("2");
        reveal_strlit("3");
        reveal_strlit("4");
        reveal_strlit("5");
        reveal_strlit("6");
        reveal_strlit("7");
        reveal_strlit("8");
        reveal_strlit("9");
        reveal_strlit("a");
        reveal_strlit("b");
        reveal_strlit("c");
        reveal_strlit("d");
        reveal_strlit("e");
        reveal_strlit("f");
    }
    let text = match d {
        0 => "0",
        1 => "1",
        2 => "2",
        3 => "3",
        4 => "4",
        5 => "5",
        6 => "6",
        7 => "7",
        8 => "8",
        9 => "9",
        10 => "a",
        11 => "b",
        12 => "c",
        13 => "d",
        14 => "e",
        _ => "f",
    };
    assert(text@ =~= seq![hex_digit(d as int)]);
    text
}

/// Two hexadecimal digits for each byte.
pub fn hex_dump(bytes: &[u8]) -> (text: String)
    ensures
        text@ == hex(bytes@),
{
    let mut text = "".to_owned();
    proof {
        reveal_strlit("");
        assert(text@ =~= hex(bytes@.take(0)));
    }
    let mut i: usize = 0;
    while i < bytes.len()
        invariant
            i <= bytes@.len(),
            text@ == hex(bytes@.take(i as int)),
        decreases bytes.len() - i,
    {
        let byte: u8 = bytes[i];
        text.append(hex_digit_text(byte / 16));
        text.append(hex_digit_text(byte % 16));
        proof {
            let shorter = bytes@.take(i as int);
            let longer = bytes@.take(i + 1);
            assert forall|k: int| 0 <= k < 2 * i implies hex(longer)[k] == hex(shorter)[k] by {
                assert(longer[k / 2] == shorter[k / 2]);
            }
            assert(text@ =~= hex(longer));
        }
        i = i + 1;
    }
    assert(bytes@.take(i as int) =~= bytes@);
    text
}

/// What the fields so far say of a request, or the wording of the first error.
pub ghost struct RequestDraft {
    pub request: Result<RequestContent, Seq<char>>,
    pub uri: Result<UriDraft, Seq<char>>,
}

impl RequestDraft {
    pub open spec fn initial() -> RequestDraft {
        RequestDraft {
            request: Ok(RequestContent { http_3: true, ..RequestContent::initial() }),
            uri: Ok(UriDraft::empty()),
        }
    }

    /// What follows from one more field. What comes after an error changes nothing.
    pub open spec fn with_field(self, name: Seq<u8>, value: Seq<u8>) -> RequestDraft {
        match role_of(name) {
            HeaderRole::Method => RequestDraft {
                request: match self.request {
                    Err(e) => Err(e),
                    Ok(content) => if crate::http_message::is_method(value) {
                        Ok(RequestContent { method: value, ..content })
                    } else {
                        Err("invalid HTTP method"@)
                    },
                },
                ..self
            },
            HeaderRole::Scheme => RequestDraft {
                uri: match self.uri {
                    Err(e) => Err(e),
                    Ok(draft) => match crate::http_message::scheme_of(value) {
                        Err(e) => Err(e),
                        Ok(scheme) => Ok(UriDraft { scheme: Some(scheme), ..draft }),
                    },
                },
                ..self
            },
            HeaderRole::Authority => RequestDraft {
                uri: match self.uri {
                    Err(e) => Err(e),
                    Ok(draft) => match crate::http_message::parsed_authority(value) {
                        Err(e) => Err(e),
                        Ok(authority) => Ok(UriDraft { authority: Some(authority), ..draft }),
                    },
                },
                ..self
            },
            HeaderRole::Path => RequestDraft {
                uri: match self.uri {
                    Err(e) => Err(e),
                    Ok(draft) => match crate::http_message::parsed_path_and_query(value) {
                        Err(e) => Err(e),
                        Ok(path) => Ok(UriDraft { path_and_query: Some(path), ..draft }),
                    },
                },
                ..self
            },
            HeaderRole::Field => RequestDraft {
                request: match self.request {
                    Err(e) => Err(e),
                    Ok(content) => if crate::http_message::is_header_value(value) {
                        Ok(content.with_header(name, value))
                    } else {
                        Err("failed to parse header value"@)
                    },
                },
                ..self
            },
        }
    }
}

/// What the fields say of the request.
pub open spec fn draft_of(fields: Seq<(Seq<u8>, Seq<u8>)>) -> RequestDraft
    decreases fields.len(),
{
    if fields.len() == 0 {
        RequestDraft::initial()
    } else {
        draft_of(fields.drop_last()).with_field(fields.last().0, fields.last().1)
    }
}

/// A field of that name may not stand in a request.
pub open spec fn is_unexpected(name: Seq<u8>) -> bool {
    role_of(name) == HeaderRole::Field && !crate::http_message::is_lowercase_header_name(name)
}

/// The name of the first field that may not stand in a request.
pub open spec fn first_unexpected(fields: Seq<(Seq<u8>, Seq<u8>)>) -> Option<Seq<u8>>
    decreases fields.len(),
{
    if fields.len() == 0 {
        None
    } else {
        match first_unexpected(fields.drop_last()) {
            Some(name) => Some(name),
            None => if is_unexpected(fields.last().0) {
                Some(fields.last().0)
            } else {
                None
            },
        }
    }
}

/// The URI that the fields give the request.
pub open spec fn uri_of(fields: Seq<(Seq<u8>, Seq<u8>)>) -> Result<
    crate::http_message::UriContent,
    Seq<char>,
> {
    match draft_of(fields).uri {
        Err(e) => Err(e),
        Ok(draft) => draft.assembled(),
    }
}

/// The request that the fields make up, or what is wrong with them: first of all the name of a
/// field, then the URI, then the rest.
pub open spec fn request_outcome(fields: Seq<(Seq<u8>, Seq<u8>)>) -> Result<
    RequestContent,
    FailureText,
> {
    match first_unexpected(fields) {
        Some(name) => Err(
            crate::failure::failure_text(
                FailureKind::InvalidData,
                "Unexpected header name: 0x"@ + hex(name),
            ),
        ),
        None => match uri_of(fields) {
            Err(e) => Err(
                crate::failure::failure_text(FailureKind::InvalidData, "Invalid URI: "@ + e),
            ),
            Ok(uri) => match draft_of(fields).request {
                Err(e) => Err(
                    crate::failure::failure_text(FailureKind::Other, "Invalid request: "@ + e),
                ),
                Ok(content) => Ok(RequestContent { uri, ..content }),
            },
        },
    }
}

/// The field at `at` may find no room: it is a header field of the message, and those before it
/// have more names than there is always room for.
pub open spec fn may_find_no_room(fields: Seq<(Seq<u8>, Seq<u8>)>, at: int) -> bool {
    &&& 0 <= at < fields.len()
    &&& role_of(fields[at].0) == HeaderRole::Field
    &&& crate::http_message::is_header_value(fields[at].1)
    &&& draft_of(fields.take(at)).request matches Ok(content) && content.headers.dom().len()
        > HEADER_NAMES_ROOM
}

/// More header names than a request can hold.
pub open spec fn exceeds_room(fields: Seq<(Seq<u8>, Seq<u8>)>, failure: FailureText) -> bool {
    &&& exists|at: int| may_find_no_room(fields, at)
    &&& first_unexpected(fields) is None
    &&& uri_of(fields) is Ok
    &&& failure == crate::failure::failure_text(
        FailureKind::Other,
        "Invalid request: "@ + "max size reached"@,
    )
}

/// The failure for a field whose name may not stand in a request.
pub fn unexpected_header_name(name: &[u8]) -> (failure: Failure)
    ensures
        failure@ == crate::failure::failure_text(
            FailureKind::InvalidData,
            "Unexpected header name: 0x"@ + hex(name@),
        ),
{
    Failure::because(
        FailureKind::InvalidData,
        "Unexpected header name: 0x",
        hex_dump(name).as_str(),
    )
}

/// Reads the request that header fields make up.
///
/// A request can run out of room for header fields. Which field is the first that finds none
/// depends on how the names hash, so that is left open beyond the number of names for which there
/// is always room.
pub fn on_request(headers: &Vec<HeaderField>) -> (result: Result<http::request::Parts, Failure>)
    ensures
        match result {
            Ok(parts) => request_outcome(crate::http_message::field_list(headers@)) matches Ok(
                content,
            ) && crate::http_message::request_content(parts) == content,
            Err(failure) => (request_outcome(
                crate::http_message::field_list(headers@),
            ) matches Err(expected) && failure@ == expected) || exceeds_room(
                crate::http_message::field_list(headers@),
                failure@,
            ),
        },
        result matches Ok(parts) ==> forall|i: int|
            0 <= i < headers@.len() && headers@[i].name@ != crate::ascii::ascii(":method"@)
                && headers@[i].name@ != crate::ascii::ascii(":scheme"@) && headers@[i].name@
                != crate::ascii::ascii(":authority"@) && headers@[i].name@ != crate::ascii::ascii(
                ":path"@,
            ) ==> crate::http_message::request_content(parts).headers.dom().contains(
                #[trigger] headers@[i].name@,
            ),
        result matches Ok(parts) ==> forall|name: Seq<u8>| #[trigger]
            crate::http_message::request_content(parts).headers.dom().contains(name)
                ==> crate::http_message::request_content(parts).headers[name]
                == crate::http_message::field_list(headers@).filter(
                |field: (Seq<u8>, Seq<u8>)| field.0 == name,
            ).map_values(|field: (Seq<u8>, Seq<u8>)| field.1),
{
    let ghost fields = crate::http_message::field_list(headers@);
    let mut request = request_builder_version_http_3(request_builder());
    let mut uri = uri_builder();
    let mut i: usize = 0;
    assert(fields.take(0) =~= Seq::empty());
    while i < headers.len()
        invariant
            i <= headers@.len(),
            fields == crate::http_message::field_list(headers@),
            first_unexpected(fields.take(i as int)) is None,
            crate::http_message::uri_builder_content(uri) == draft_of(fields.take(i as int)).uri,
            crate::http_message::request_builder_content(request) == draft_of(
                fields.take(i as int),
            ).request || ((exists|at: int| may_find_no_room(fields, at)) && (
            crate::http_message::request_builder_content(request) matches Err(e) && e
                == "max size reached"@)),
        decreases headers.len() - i,
    {
        let h = &headers[i];
        let ghost longer = fields.take(i + 1);
        proof {
            assert(longer.drop_last() =~= fields.take(i as int));
            assert(longer.last() == h@);
            lemma_unexpected_prefix(fields, i + 1);
        }
        match header_role(h.name.as_slice()) {
            HeaderRole::Method => {
                request = request_builder_method(request, h.value.as_slice());
            },
            HeaderRole::Scheme => {
                uri = uri_builder_scheme(uri, h.value.as_slice());
            },
            HeaderRole::Authority => {
                uri = uri_builder_authority(uri, h.value.as_slice());
            },
            HeaderRole::Path => {
                uri = uri_builder_path_and_query(uri, h.value.as_slice());
            },
            HeaderRole::Field => match header_name_from_lowercase(h.name.as_slice()) {
                Ok(name) => {
                    proof {
                        if let Ok(content) = draft_of(fields.take(i as int)).request {
                            if content.headers.dom().len() > HEADER_NAMES_ROOM
                                && crate::http_message::is_header_value(h.value@) {
                                assert(may_find_no_room(fields, i as int));
                            }
                        }
                    }
                    request = request_builder_header(request, name, h.value.as_slice());
                },
                Err(_) => {
                    return Err(unexpected_header_name(h.name.as_slice()));
                },
            },
        }
        i = i + 1;
    }
    assert(fields.take(i as int) =~= fields);
    let uri = match uri_builder_build(uri) {
        Ok(uri) => uri,
        Err(e) => {
            let reason = http_error_to_text(&e);
            return Err(
                Failure::because(FailureKind::InvalidData, "Invalid URI: ", reason.as_str()),
            );
        },
    };
    match request_builder_parts(request_builder_uri(request, uri)) {
        Ok(parts) => {
            proof {
                let content = crate::http_message::request_content(parts);
                crate::laws::requests::law_no_header_is_lost(fields, content);
                assert forall|i: int|
                    0 <= i < headers@.len() && crate::laws::requests::is_header(
                        headers@[i].name@,
                    ) implies content.headers.dom().contains(#[trigger] headers@[i].name@) by {
                    assert(fields[i].0 == headers@[i].name@);
                }
            }
            Ok(parts)
        },
        Err(e) => {
            let reason = http_error_to_text(&e);
            Err(Failure::because(FailureKind::Other, "Invalid request: ", reason.as_str()))
        },
    }
}

/// The first unexpected name among the first fields is the first of all.
proof fn lemma_unexpected_prefix(fields: Seq<(Seq<u8>, Seq<u8>)>, n: int)
    requires
        0 <= n <= fields.len(),
    ensures
        first_unexpected(fields.take(n)) matches Some(name) ==> first_unexpected(fields) == Some(
            name,
        ),
    decreases fields.len(),
{
    if n < fields.len() {
        lemma_unexpected_prefix(fields.drop_last(), n);
        assert(fields.drop_last().take(n) =~= fields.take(n));
    } else {
        assert(fields.take(n) =~= fields);
    }
}

} // verus!
