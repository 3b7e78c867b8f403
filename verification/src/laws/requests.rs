//! What a request has to do with the header fields that it came in as.

use crate::failure::FailureKind;
use crate::http_message::{HeaderField, RequestContent};
use crate::quic_multiplexer::request::HeaderRole;
use vstd::prelude::*;

verus! {

/// The values of the fields of that name, in the order of the list.
pub open spec fn values_named(fields: Seq<(Seq<u8>, Seq<u8>)>, name: Seq<u8>) -> Seq<Seq<u8>> {
    fields.filter(|field: (Seq<u8>, Seq<u8>)| field.0 == name).map_values(
        |field: (Seq<u8>, Seq<u8>)| field.1,
    )
}

/// `name` is none of the four under which a request line comes in.
pub open spec fn is_header(name: Seq<u8>) -> bool {
    &&& name != crate::ascii::ascii(":method"@)
    &&& name != crate::ascii::ascii(":scheme"@)
    &&& name != crate::ascii::ascii(":authority"@)
    &&& name != crate::ascii::ascii(":path"@)
}

/// The names of the fields that are headers of the message.
pub open spec fn header_names(fields: Seq<(Seq<u8>, Seq<u8>)>) -> Set<Seq<u8>> {
    Set::new(
        |name: Seq<u8>|
            is_header(name) && exists|i: int| 0 <= i < fields.len() && #[trigger] fields[i].0 == name,
    )
}

proof fn lemma_pseudo_names()
    ensures
        crate::ascii::ascii(":method"@) != crate::ascii::ascii(":scheme"@),
        crate::ascii::ascii(":method"@) != crate::ascii::ascii(":authority"@),
        crate::ascii::ascii(":method"@) != crate::ascii::ascii(":path"@),
        crate::ascii::ascii(":scheme"@) != crate::ascii::ascii(":authority"@),
        crate::ascii::ascii(":scheme"@) != crate::ascii::ascii(":path"@),
        crate::ascii::ascii(":authority"@) != crate::ascii::ascii(":path"@),
{
    reveal_strlit(":method");
    reveal_strlit(":scheme");
    reveal_strlit(":authority");
    reveal_strlit(":path");
    assert(crate::ascii::ascii(":method"@)[1] == 'm' as u8);
    assert(crate::ascii::ascii(":scheme"@)[1] == 's' as u8);
    assert(crate::ascii::ascii(":method"@).len() == 7);
    assert(crate::ascii::ascii(":scheme"@).len() == 7);
    assert(crate::ascii::ascii(":authority"@).len() == 10);
    assert(crate::ascii::ascii(":path"@).len() == 5);
}

proof fn lemma_values(fields: Seq<(Seq<u8>, Seq<u8>)>, name: Seq<u8>)
    ensures
        values_named(fields, name) == if fields.len() == 0 {
            Seq::empty()
        } else if fields.last().0 == name {
            values_named(fields.drop_last(), name).push(fields.last().1)
        } else {
            values_named(fields.drop_last(), name)
        },
{
    reveal(Seq::filter);
    assert(values_named(fields, name) =~= if fields.len() == 0 {
        Seq::empty()
    } else if fields.last().0 == name {
        values_named(fields.drop_last(), name).push(fields.last().1)
    } else {
        values_named(fields.drop_last(), name)
    });
}

proof fn lemma_named(fields: Seq<(Seq<u8>, Seq<u8>)>, name: Seq<u8>)
    ensures
        values_named(fields, name).len() > 0 <==> exists|i: int|
            0 <= i < fields.len() && #[trigger] fields[i].0 == name,
    decreases fields.len(),
{
    lemma_values(fields, name);
    if fields.len() > 0 {
        let n = fields.len() - 1;
        let shorter = fields.drop_last();
        lemma_named(shorter, name);
        assert(fields[n] == fields.last());
        if exists|i: int| 0 <= i < shorter.len() && #[trigger] shorter[i].0 == name {
            let i = choose|i: int| 0 <= i < shorter.len() && #[trigger] shorter[i].0 == name;
            assert(fields[i].0 == name);
        }
        if exists|i: int| 0 <= i < fields.len() && #[trigger] fields[i].0 == name {
            let i = choose|i: int| 0 <= i < fields.len() && #[trigger] fields[i].0 == name;
            if i < n {
                assert(shorter[i].0 == name);
            }
        }
    }
}

proof fn lemma_headers(fields: Seq<(Seq<u8>, Seq<u8>)>, name: Seq<u8>)
    ensures
        crate::quic_multiplexer::request::draft_of(fields).request matches Ok(content) ==> {
            &&& content.headers.dom().contains(name) <==> is_header(name) && values_named(
                fields,
                name,
            ).len() > 0
            &&& content.headers.dom().contains(name) ==> content.headers[name] == values_named(
                fields,
                name,
            )
        },
    decreases fields.len(),
{
    lemma_values(fields, name);
    if fields.len() > 0 {
        lemma_headers(fields.drop_last(), name);
        if let Ok(content) = crate::quic_multiplexer::request::draft_of(fields).request {
            if content.headers.dom().contains(name) {
                assert(content.headers[name] =~= values_named(fields, name));
            }
        }
    }
}

/// Method and header values are as they should be.
pub open spec fn fits_request(field: (Seq<u8>, Seq<u8>)) -> bool {
    &&& field.0 == crate::ascii::ascii(":method"@) ==> crate::http_message::is_method(field.1)
    &&& is_header(field.0) ==> crate::http_message::is_header_value(field.1)
}

/// The parts of a URI are as they should be.
pub open spec fn fits_uri(field: (Seq<u8>, Seq<u8>)) -> bool {
    &&& field.0 == crate::ascii::ascii(":scheme"@) ==> crate::http_message::scheme_of(field.1) is Ok
    &&& field.0 == crate::ascii::ascii(":authority"@) ==> crate::http_message::parsed_authority(
        field.1,
    ) is Ok
    &&& field.0 == crate::ascii::ascii(":path"@) ==> crate::http_message::parsed_path_and_query(
        field.1,
    ) is Ok
}

proof fn lemma_request(fields: Seq<(Seq<u8>, Seq<u8>)>)
    ensures
        ({
            let methods = values_named(fields, crate::ascii::ascii(":method"@));
            match crate::quic_multiplexer::request::draft_of(fields).request {
                Ok(content) => {
                    &&& forall|i: int|
                        0 <= i < fields.len() ==> fits_request(#[trigger] fields[i])
                    &&& content.http_3
                    &&& methods.len() == 0 ==> content.method == crate::ascii::ascii("GET"@)
                    &&& methods.len() > 0 ==> content.method == methods.last()
                },
                Err(e) => exists|i: int|
                    {
                        &&& 0 <= i < fields.len()
                        &&& !fits_request(#[trigger] fields[i])
                        &&& forall|j: int| 0 <= j < i ==> fits_request(#[trigger] fields[j])
                        &&& e == if is_header(fields[i].0) {
                            "failed to parse header value"@
                        } else {
                            "invalid HTTP method"@
                        }
                    },
            }
        }),
    decreases fields.len(),
{
    lemma_pseudo_names();
    lemma_values(fields, crate::ascii::ascii(":method"@));
    if fields.len() > 0 {
        let n = fields.len() - 1;
        let shorter = fields.drop_last();
        lemma_request(shorter);
        assert(fields[n] == fields.last());
        match crate::quic_multiplexer::request::draft_of(shorter).request {
            Ok(_) => {
                assert forall|i: int| 0 <= i < n implies fits_request(#[trigger] fields[i]) by {
                    assert(fits_request(shorter[i]));
                }
            },
            Err(e) => {
                let i = choose|i: int|
                    {
                        &&& 0 <= i < shorter.len()
                        &&& !fits_request(#[trigger] shorter[i])
                        &&& forall|j: int| 0 <= j < i ==> fits_request(#[trigger] shorter[j])
                        &&& e == if is_header(shorter[i].0) {
                            "failed to parse header value"@
                        } else {
                            "invalid HTTP method"@
                        }
                    };
                assert(fields[i] == shorter[i]);
                assert forall|j: int| 0 <= j < i implies fits_request(#[trigger] fields[j]) by {
                    assert(fits_request(shorter[j]));
                }
            },
        }
    }
}

proof fn lemma_uri(fields: Seq<(Seq<u8>, Seq<u8>)>)
    ensures
        ({
            let schemes = values_named(fields, crate::ascii::ascii(":scheme"@));
            let authorities = values_named(fields, crate::ascii::ascii(":authority"@));
            let paths = values_named(fields, crate::ascii::ascii(":path"@));
            match crate::quic_multiplexer::request::draft_of(fields).uri {
                Ok(draft) => {
                    &&& forall|i: int| 0 <= i < fields.len() ==> fits_uri(#[trigger] fields[i])
                    &&& draft.scheme == if schemes.len() == 0 {
                        None
                    } else {
                        Some(crate::http_message::scheme_of(schemes.last())->Ok_0)
                    }
                    &&& draft.authority == if authorities.len() == 0 {
                        None
                    } else {
                        Some(crate::http_message::parsed_authority(authorities.last())->Ok_0)
                    }
                    &&& draft.path_and_query == if paths.len() == 0 {
                        None
                    } else {
                        Some(crate::http_message::parsed_path_and_query(paths.last())->Ok_0)
                    }
                },
                Err(e) => exists|i: int|
                    {
                        &&& 0 <= i < fields.len()
                        &&& !fits_uri(#[trigger] fields[i])
                        &&& forall|j: int| 0 <= j < i ==> fits_uri(#[trigger] fields[j])
                        &&& is_uri_error(fields[i], e)
                    },
            }
        }),
    decreases fields.len(),
{
    lemma_pseudo_names();
    lemma_values(fields, crate::ascii::ascii(":scheme"@));
    lemma_values(fields, crate::ascii::ascii(":authority"@));
    lemma_values(fields, crate::ascii::ascii(":path"@));
    if fields.len() > 0 {
        let n = fields.len() - 1;
        let shorter = fields.drop_last();
        lemma_uri(shorter);
        assert(fields[n] == fields.last());
        match crate::quic_multiplexer::request::draft_of(shorter).uri {
            Ok(_) => {
                assert forall|i: int| 0 <= i < n implies fits_uri(#[trigger] fields[i]) by {
                    assert(fits_uri(shorter[i]));
                }
            },
            Err(e) => {
                let i = choose|i: int|
                    {
                        &&& 0 <= i < shorter.len()
                        &&& !fits_uri(#[trigger] shorter[i])
                        &&& forall|j: int| 0 <= j < i ==> fits_uri(#[trigger] shorter[j])
                        &&& is_uri_error(shorter[i], e)
                    };
                assert(fields[i] == shorter[i]);
                assert forall|j: int| 0 <= j < i implies fits_uri(#[trigger] fields[j]) by {
                    assert(fits_uri(shorter[j]));
                }
            },
        }
    }
}

/// `e` says what is wrong with the part of a URI in `field`.
pub open spec fn is_uri_error(field: (Seq<u8>, Seq<u8>), e: Seq<char>) -> bool {
    ||| field.0 == crate::ascii::ascii(":scheme"@) && crate::http_message::scheme_of(field.1)
        == Err::<Seq<u8>, Seq<char>>(e)
    ||| field.0 == crate::ascii::ascii(":authority"@) && crate::http_message::parsed_authority(
        field.1,
    ) == Err::<Seq<u8>, Seq<char>>(e)
    ||| field.0 == crate::ascii::ascii(":path"@) && crate::http_message::parsed_path_and_query(
        field.1,
    ) == Err::<Seq<u8>, Seq<char>>(e)
}

proof fn lemma_unexpected(fields: Seq<(Seq<u8>, Seq<u8>)>)
    ensures
        match crate::quic_multiplexer::request::first_unexpected(fields) {
            None => forall|i: int|
                0 <= i < fields.len() ==> !is_bad_name(#[trigger] fields[i].0),
            Some(name) => exists|i: int|
                {
                    &&& 0 <= i < fields.len()
                    &&& is_bad_name(#[trigger] fields[i].0)
                    &&& fields[i].0 == name
                    &&& forall|j: int| 0 <= j < i ==> !is_bad_name(#[trigger] fields[j].0)
                },
        },
    decreases fields.len(),
{
    if fields.len() > 0 {
        let n = fields.len() - 1;
        let shorter = fields.drop_last();
        lemma_unexpected(shorter);
        assert(fields[n] == fields.last());
        match crate::quic_multiplexer::request::first_unexpected(shorter) {
            None => {
                assert forall|i: int| 0 <= i < n implies !is_bad_name(#[trigger] fields[i].0) by {
                    assert(!is_bad_name(shorter[i].0));
                }
                assert(crate::quic_multiplexer::request::is_unexpected(fields[n].0) == is_bad_name(
                    fields[n].0,
                ));
            },
            Some(name) => {
                let i = choose|i: int|
                    {
                        &&& 0 <= i < shorter.len()
                        &&& is_bad_name(#[trigger] shorter[i].0)
                        &&& shorter[i].0 == name
                        &&& forall|j: int| 0 <= j < i ==> !is_bad_name(#[trigger] shorter[j].0)
                    };
                assert(fields[i] == shorter[i]);
                assert forall|j: int| 0 <= j < i implies !is_bad_name(#[trigger] fields[j].0) by {
                    assert(!is_bad_name(shorter[j].0));
                }
            },
        }
    }
}

/// A field of that name has no place in a request: it is a header, and not in lower case.
pub open spec fn is_bad_name(name: Seq<u8>) -> bool {
    is_header(name) && !crate::http_message::is_lowercase_header_name(name)
}

/// No header of a request is lost, made up or changed: where the fields make up a request, its
/// headers are exactly those of the fields that are none of the four of the request line, and
/// under each name stand the values of the fields of that name, in the order of the list.
pub proof fn law_no_header_is_lost(fields: Seq<(Seq<u8>, Seq<u8>)>, content: RequestContent)
    requires
        crate::quic_multiplexer::request::request_outcome(fields) matches Ok(found) && found
            == content,
    ensures
        forall|i: int|
            0 <= i < fields.len() && fields[i].0 != crate::ascii::ascii(":method"@) && fields[i].0
                != crate::ascii::ascii(":scheme"@) && fields[i].0 != crate::ascii::ascii(
                ":authority"@,
            ) && fields[i].0 != crate::ascii::ascii(":path"@)
                ==> #[trigger] content.headers.dom().contains(fields[i].0),
        forall|name: Seq<u8>| #[trigger]
            content.headers.dom().contains(name) ==> {
                &&& is_header(name)
                &&& exists|i: int| 0 <= i < fields.len() && #[trigger] fields[i].0 == name
                &&& content.headers[name] == fields.filter(
                    |field: (Seq<u8>, Seq<u8>)| field.0 == name,
                ).map_values(|field: (Seq<u8>, Seq<u8>)| field.1)
            },
{
    assert forall|i: int| 0 <= i < fields.len() && is_header(fields[i].0) implies
        #[trigger] content.headers.dom().contains(fields[i].0) by {
        lemma_named(fields, fields[i].0);
        lemma_headers(fields, fields[i].0);
    }
    assert forall|name: Seq<u8>| #[trigger] content.headers.dom().contains(name) implies {
        &&& is_header(name)
        &&& exists|i: int| 0 <= i < fields.len() && #[trigger] fields[i].0 == name
        &&& content.headers[name] == values_named(fields, name)
    } by {
        lemma_named(fields, name);
        lemma_headers(fields, name);
    }
}

/// The request line of a request: HTTP/3, the last method that is given, or else GET, and the URI
/// of the last scheme, authority and path that are given.
pub proof fn law_request_line(fields: Seq<(Seq<u8>, Seq<u8>)>, content: RequestContent)
    requires
        crate::quic_multiplexer::request::request_outcome(fields) matches Ok(found) && found
            == content,
    ensures
        content.http_3,
        ({
            let methods = values_named(fields, crate::ascii::ascii(":method"@));
            let schemes = values_named(fields, crate::ascii::ascii(":scheme"@));
            let authorities = values_named(fields, crate::ascii::ascii(":authority"@));
            let paths = values_named(fields, crate::ascii::ascii(":path"@));
            &&& methods.len() == 0 ==> content.method == crate::ascii::ascii("GET"@)
            &&& methods.len() > 0 ==> content.method == methods.last()
            &&& schemes.len() == 0 ==> content.uri.scheme is None
            &&& schemes.len() > 0 ==> content.uri.scheme == Some(
                crate::http_message::scheme_of(schemes.last())->Ok_0,
            )
            &&& authorities.len() == 0 ==> content.uri.authority.len() == 0
            &&& authorities.len() > 0 ==> content.uri.authority
                == crate::http_message::parsed_authority(authorities.last())->Ok_0
            &&& paths.len() == 0 ==> content.uri.path_and_query.len() == 0
            &&& paths.len() > 0 ==> content.uri.path_and_query
                == crate::http_message::parsed_path_and_query(paths.last())->Ok_0
        }),
{
    lemma_request(fields);
    lemma_uri(fields);
}

/// When fields make up a request: exactly when every header has a name in lower case and a value
/// that may stand in one, every method, scheme, authority and path is one, and the URI has all
/// three parts, or not the scheme and at most one of the others.
pub proof fn law_when_fields_make_up_a_request(fields: Seq<(Seq<u8>, Seq<u8>)>)
    ensures
        crate::quic_multiplexer::request::request_outcome(fields) is Ok <==> {
            let schemes = values_named(fields, crate::ascii::ascii(":scheme"@));
            let authorities = values_named(fields, crate::ascii::ascii(":authority"@));
            let paths = values_named(fields, crate::ascii::ascii(":path"@));
            &&& forall|i: int|
                #![trigger fields[i]]
                0 <= i < fields.len() ==> {
                    let (name, value) = fields[i];
                    if name == crate::ascii::ascii(":method"@) {
                        crate::http_message::is_method(value)
                    } else if name == crate::ascii::ascii(":scheme"@) {
                        crate::http_message::scheme_of(value) is Ok
                    } else if name == crate::ascii::ascii(":authority"@) {
                        crate::http_message::parsed_authority(value) is Ok
                    } else if name == crate::ascii::ascii(":path"@) {
                        crate::http_message::parsed_path_and_query(value) is Ok
                    } else {
                        crate::http_message::is_lowercase_header_name(name)
                            && crate::http_message::is_header_value(value)
                    }
                }
            &&& if schemes.len() > 0 {
                authorities.len() > 0 && paths.len() > 0
            } else {
                authorities.len() == 0 || paths.len() == 0
            }
        },
{
    lemma_pseudo_names();
    lemma_request(fields);
    lemma_uri(fields);
    lemma_unexpected(fields);
    let right = forall|i: int|
        #![trigger fields[i]]
        0 <= i < fields.len() ==> {
            let (name, value) = fields[i];
            if name == crate::ascii::ascii(":method"@) {
                crate::http_message::is_method(value)
            } else if name == crate::ascii::ascii(":scheme"@) {
                crate::http_message::scheme_of(value) is Ok
            } else if name == crate::ascii::ascii(":authority"@) {
                crate::http_message::parsed_authority(value) is Ok
            } else if name == crate::ascii::ascii(":path"@) {
                crate::http_message::parsed_path_and_query(value) is Ok
            } else {
                crate::http_message::is_lowercase_header_name(name)
                    && crate::http_message::is_header_value(value)
            }
        };
    if right {
        assert forall|i: int| 0 <= i < fields.len() implies fits_request(#[trigger] fields[i])
            && fits_uri(fields[i]) && !is_bad_name(fields[i].0) by {
        }
    }
    if crate::quic_multiplexer::request::request_outcome(fields) is Ok {
        assert forall|i: int|
            #![trigger fields[i]]
            0 <= i < fields.len() implies fits_request(fields[i]) && fits_uri(fields[i])
            && !is_bad_name(fields[i].0) by {
        }
        assert(right);
    }
}

/// Why fields make up no request. A name that has no place in a request comes first, and of these
/// the first of the list; then the URI; then the rest. Of several errors of a kind the first one of
/// the list counts.
pub proof fn law_first_error_counts(fields: Seq<(Seq<u8>, Seq<u8>)>)
    ensures
        match crate::quic_multiplexer::request::request_outcome(fields) {
            Ok(_) => true,
            Err(failure) => {
                ||| failure.kind == FailureKind::InvalidData && exists|i: int|
                    {
                        &&& 0 <= i < fields.len()
                        &&& is_bad_name(#[trigger] fields[i].0)
                        &&& forall|j: int| 0 <= j < i ==> !is_bad_name(#[trigger] fields[j].0)
                        &&& failure.message == Some(
                            "Unexpected header name: 0x"@ + crate::quic_multiplexer::request::hex(
                                fields[i].0,
                            ),
                        )
                    }
                ||| failure.kind == FailureKind::InvalidData && (forall|i: int|
                    0 <= i < fields.len() ==> !is_bad_name(#[trigger] fields[i].0)) && exists|
                    i: int,
                    e: Seq<char>,
                |
                    {
                        &&& 0 <= i < fields.len()
                        &&& #[trigger] is_uri_error(fields[i], e)
                        &&& forall|j: int| 0 <= j < i ==> fits_uri(#[trigger] fields[j])
                        &&& failure.message == Some("Invalid URI: "@ + e)
                    }
                ||| failure.kind == FailureKind::InvalidData && (forall|i: int|
                    0 <= i < fields.len() ==> !is_bad_name(#[trigger] fields[i].0) && fits_uri(
                        fields[i],
                    )) && ({
                    let schemes = values_named(fields, crate::ascii::ascii(":scheme"@));
                    let authorities = values_named(fields, crate::ascii::ascii(":authority"@));
                    let paths = values_named(fields, crate::ascii::ascii(":path"@));
                    if schemes.len() > 0 && authorities.len() == 0 {
                        failure.message == Some("Invalid URI: "@ + "authority missing"@)
                    } else if schemes.len() > 0 {
                        paths.len() == 0 && failure.message == Some(
                            "Invalid URI: "@ + "path missing"@,
                        )
                    } else {
                        authorities.len() > 0 && paths.len() > 0 && failure.message == Some(
                            "Invalid URI: "@ + "scheme missing"@,
                        )
                    }
                })
                ||| failure.kind == FailureKind::Other && (forall|i: int|
                    0 <= i < fields.len() ==> !is_bad_name(#[trigger] fields[i].0) && fits_uri(
                        fields[i],
                    )) && exists|i: int|
                    {
                        &&& 0 <= i < fields.len()
                        &&& !fits_request(#[trigger] fields[i])
                        &&& forall|j: int| 0 <= j < i ==> fits_request(#[trigger] fields[j])
                        &&& failure.message == Some(
                            "Invalid request: "@ + if is_header(fields[i].0) {
                                "failed to parse header value"@
                            } else {
                                "invalid HTTP method"@
                            },
                        )
                    }
            },
        },
{
    lemma_request(fields);
    lemma_uri(fields);
    lemma_unexpected(fields);
}

/// A request is only ever too large where there are more than 6553 different headers.
pub proof fn law_requests_are_rarely_too_large(
    fields: Seq<(Seq<u8>, Seq<u8>)>,
    failure: crate::failure::FailureText,
)
    requires
        crate::quic_multiplexer::request::exceeds_room(fields, failure),
    ensures
        failure.kind == FailureKind::Other,
        failure.message == Some("Invalid request: "@ + "max size reached"@),
        forall|i: int|
            0 <= i < fields.len() ==> !is_bad_name(#[trigger] fields[i].0) && fits_uri(fields[i]),
        exists|at: int|
            {
                &&& 0 <= at < fields.len()
                &&& is_header(fields[at].0)
                &&& #[trigger] header_names(fields.take(at)).len() > 6553
                &&& forall|j: int| 0 <= j <= at ==> fits_request(#[trigger] fields[j])
            },
{
    lemma_unexpected(fields);
    lemma_uri(fields);
    let at = choose|at: int|
        crate::quic_multiplexer::request::may_find_no_room(fields, at);
    let before = fields.take(at);
    let content = crate::quic_multiplexer::request::draft_of(before).request->Ok_0;
    assert forall|name: Seq<u8>| #[trigger] content.headers.dom().contains(name) <==> header_names(
        before,
    ).contains(name) by {
        lemma_headers(before, name);
        lemma_named(before, name);
    }
    assert(content.headers.dom() =~= header_names(before));
    lemma_request(before);
    assert forall|j: int| 0 <= j <= at implies fits_request(#[trigger] fields[j]) by {
        if j < at {
            assert(fits_request(before[j]));
        }
    }
}

/// A list of fields is known by the names and values in it, one by one.
pub proof fn law_fields_one_by_one(fields: Seq<HeaderField>)
    ensures
        crate::http_message::field_list(fields).len() == fields.len(),
        forall|i: int|
            #![trigger crate::http_message::field_list(fields)[i]]
            0 <= i < fields.len() ==> {
                &&& crate::http_message::field_list(fields)[i].0 == fields[i].name@
                &&& crate::http_message::field_list(fields)[i].1 == fields[i].value@
            },
{
}

/// A scheme is taken as it is, up to 64 bytes, where it consists of letters, digits, plus, minus,
/// dot and tilde.
pub proof fn law_schemes_are_taken_as_they_are(value: Seq<u8>)
    ensures
        crate::http_message::scheme_of(value) is Ok <==> value.len() <= 64 && forall|i: int|
            0 <= i < value.len() ==> {
                ||| 97 <= #[trigger] value[i] <= 122
                ||| 65 <= value[i] <= 90
                ||| 48 <= value[i] <= 57
                ||| value[i] == 43 || value[i] == 45 || value[i] == 46 || value[i] == 126
            },
        crate::http_message::scheme_of(value) matches Ok(scheme) ==> scheme == value,
        crate::http_message::scheme_of(value) matches Err(e) ==> e == if value.len() > 64 {
            "scheme too long"@
        } else {
            "invalid scheme"@
        },
{
    let right = forall|i: int| 0 <= i < value.len() ==> crate::http_message::is_scheme_byte(
        #[trigger] value[i],
    );
    if !right {
        let i = choose|i: int| 0 <= i < value.len() && !crate::http_message::is_scheme_byte(
            #[trigger] value[i],
        );
        assert(!crate::http_message::is_scheme_byte(value[i]));
    }
}

/// The names of the request line, and no others, have roles of their own.
pub proof fn law_roles_of_names(name: Seq<u8>)
    ensures
        crate::quic_multiplexer::request::role_of(name) == HeaderRole::Method <==> name
            == crate::ascii::ascii(":method"@),
        crate::quic_multiplexer::request::role_of(name) == HeaderRole::Scheme <==> name
            == crate::ascii::ascii(":scheme"@),
        crate::quic_multiplexer::request::role_of(name) == HeaderRole::Authority <==> name
            == crate::ascii::ascii(":authority"@),
        crate::quic_multiplexer::request::role_of(name) == HeaderRole::Path <==> name
            == crate::ascii::ascii(":path"@),
{
    lemma_pseudo_names();
}

/// The number that a hexadecimal digit stands for.
pub open spec fn hex_value(digit: char) -> int {
    if '0' <= digit <= '9' {
        digit as int - '0' as int
    } else if 'a' <= digit <= 'f' {
        digit as int - 'a' as int + 10
    } else {
        -1
    }
}

/// A hexadecimal dump can be read back byte by byte: two digits for each.
pub proof fn law_hex_can_be_read_back(bytes: Seq<u8>)
    ensures
        crate::quic_multiplexer::request::hex(bytes).len() == 2 * bytes.len(),
        forall|i: int|
            #![trigger bytes[i]]
            0 <= i < bytes.len() ==> {
                let text = crate::quic_multiplexer::request::hex(bytes);
                &&& 0 <= hex_value(text[2 * i]) < 16
                &&& 0 <= hex_value(text[2 * i + 1]) < 16
                &&& bytes[i] == 16 * hex_value(text[2 * i]) + hex_value(text[2 * i + 1])
            },
{
    let text = crate::quic_multiplexer::request::hex(bytes);
    assert forall|i: int|
        #![trigger bytes[i]]
        0 <= i < bytes.len() implies {
        &&& 0 <= hex_value(text[2 * i]) < 16
        &&& 0 <= hex_value(text[2 * i + 1]) < 16
        &&& bytes[i] == 16 * hex_value(text[2 * i]) + hex_value(text[2 * i + 1])
    } by {
        assert((2 * i) / 2 == i && (2 * i + 1) / 2 == i);
        assert(text[2 * i] == crate::quic_multiplexer::request::hex_digit(bytes[i] as int / 16));
        assert(text[2 * i + 1] == crate::quic_multiplexer::request::hex_digit(
            bytes[i] as int % 16,
        ));
    }
}

/// The bytes of ASCII text are its characters, one by one.
pub proof fn law_ascii_keeps_every_character(text: Seq<char>)
    ensures
        crate::ascii::ascii(text).len() == text.len(),
        forall|i: int| 0 <= i < text.len() ==> #[trigger] crate::ascii::ascii(text)[i] == text[i] as u8,
{
}

} // verus!
