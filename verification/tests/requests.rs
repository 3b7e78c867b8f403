use tt_server::failure::FailureKind;
use tt_server::http_message::HeaderField;
use tt_server::quic_multiplexer::request::{
    header_role, hex_dump, on_request, unexpected_header_name, HeaderRole,
};

fn fields(list: &[(&str, &str)]) -> Vec<HeaderField> {
    list.iter()
        .map(|(name, value)| HeaderField {
            name: name.as_bytes().to_vec(),
            value: value.as_bytes().to_vec(),
        })
        .collect()
}

fn refused(list: &[(&str, &str)]) -> (FailureKind, String) {
    match on_request(&fields(list)) {
        Ok(_) => panic!("not expected"),
        Err(failure) => (failure.kind, failure.message.unwrap()),
    }
}

#[test]
fn request_is_put_together() {
    let parts = on_request(&fields(&[
        (":method", "POST"),
        (":scheme", "https"),
        (":authority", "example.org"),
        (":path", "/a?b=c"),
        ("accept", "text/html"),
        ("accept", "*/*"),
        ("x-custom", "1"),
    ]))
    .unwrap();
    assert_eq!(parts.version, http::Version::HTTP_3);
    assert_eq!(parts.method, http::Method::POST);
    assert_eq!(parts.uri, "https://example.org/a?b=c");
    let accept: Vec<&http::HeaderValue> = parts.headers.get_all("accept").iter().collect();
    assert_eq!(accept, vec!["text/html", "*/*"]);
    assert_eq!(parts.headers["x-custom"], "1");
    assert_eq!(parts.headers.len(), 3);
}

#[test]
fn request_without_fields_is_a_get() {
    let parts = on_request(&vec![]).unwrap();
    assert_eq!(parts.method, http::Method::GET);
    assert_eq!(parts.version, http::Version::HTTP_3);
    assert!(parts.headers.is_empty());
}

#[test]
fn connect_has_an_authority_alone() {
    let parts = on_request(&fields(&[
        (":method", "CONNECT"),
        (":authority", "example.org:443"),
    ]))
    .unwrap();
    assert_eq!(parts.method, http::Method::CONNECT);
    assert_eq!(parts.uri.authority().unwrap().as_str(), "example.org:443");
    assert!(parts.uri.scheme().is_none());
}

#[test]
fn later_pseudo_fields_replace_earlier_ones() {
    let parts = on_request(&fields(&[
        (":path", "/old"),
        (":method", "GET"),
        (":path", "/new"),
        (":method", "brew"),
    ]))
    .unwrap();
    assert_eq!(parts.uri.path(), "/new");
    assert_eq!(parts.method.as_str(), "brew");
}

#[test]
fn field_names_are_in_lower_case() {
    assert_eq!(
        refused(&[("Accept", "x")]),
        (
            FailureKind::InvalidData,
            "Unexpected header name: 0x416363657074".to_string()
        )
    );
    assert_eq!(
        refused(&[("", "x")]),
        (FailureKind::InvalidData, "Unexpected header name: 0x".to_string())
    );
    assert_eq!(
        refused(&[(":protocol", "x")]).1,
        "Unexpected header name: 0x3a70726f746f636f6c"
    );
    assert!(on_request(&fields(&[("a\"b", "x"), ("!#$%&'*+-.^_`|~09az", "y")])).is_ok());
    for bad in ["a b", "a(b", "a,b", "a/b", "a@b", "a{b", "a\x7fb", "é"] {
        assert_eq!(refused(&[(bad, "x")]).0, FailureKind::InvalidData);
    }
    assert!(on_request(&fields(&[("a".repeat(65535).as_str(), "x")])).is_ok());
    assert_eq!(refused(&[("a".repeat(65536).as_str(), "x")]).0, FailureKind::InvalidData);
}

#[test]
fn uri_has_all_parts_or_one() {
    assert_eq!(
        refused(&[(":scheme", "https"), (":path", "/")]),
        (
            FailureKind::InvalidData,
            "Invalid URI: authority missing".to_string()
        )
    );
    assert_eq!(
        refused(&[(":scheme", "https"), (":authority", "a")]).1,
        "Invalid URI: path missing"
    );
    assert_eq!(
        refused(&[(":authority", "a"), (":path", "/")]).1,
        "Invalid URI: scheme missing"
    );
    let (kind, message) = refused(&[(":authority", "a b")]);
    assert_eq!(kind, FailureKind::InvalidData);
    assert!(message.starts_with("Invalid URI: "));
    let (_, message) = refused(&[(":path", "relative")]);
    assert!(message.starts_with("Invalid URI: "));
}

#[test]
fn empty_path_is_none() {
    let parts = on_request(&fields(&[
        (":scheme", "https"),
        (":authority", "a"),
        (":path", ""),
    ]))
    .unwrap();
    assert_eq!(parts.uri, "https://a");
}

#[test]
fn first_error_counts() {
    assert_eq!(
        refused(&[(":method", "a b"), ("x", "\x00")]),
        (
            FailureKind::Other,
            "Invalid request: invalid HTTP method".to_string()
        )
    );
    assert_eq!(
        refused(&[("x", "\x00"), (":method", "")]).1,
        "Invalid request: failed to parse header value"
    );
    assert_eq!(
        refused(&[(":method", ""), (":authority", "a"), (":path", "/")]).1,
        "Invalid URI: scheme missing"
    );
    assert_eq!(
        refused(&[(":method", ""), (":authority", "a"), (":path", "/"), ("A", "")]).1,
        "Unexpected header name: 0x41"
    );
}

#[test]
fn values_are_free_of_control_characters() {
    assert!(on_request(&fields(&[("x", "a\tb"), ("y", ""), ("z", "é")])).is_ok());
    for bad in ["\n", "\r", "\x7f", "\x1f"] {
        assert_eq!(refused(&[("x", bad)]).0, FailureKind::Other);
    }
}

#[test]
fn many_fields_find_room() {
    let mut list: Vec<HeaderField> = Vec::new();
    for i in 0..6553u32 {
        list.push(HeaderField {
            name: format!("h{}", i).into_bytes(),
            value: b"v".to_vec(),
        });
    }
    assert_eq!(on_request(&list).unwrap().headers.len(), 6553);
    for i in 6553..40000u32 {
        list.push(HeaderField {
            name: format!("h{}", i).into_bytes(),
            value: b"v".to_vec(),
        });
    }
    match on_request(&list) {
        Ok(_) => panic!("not expected"),
        Err(failure) => {
            assert_eq!(failure.kind, FailureKind::Other);
            assert_eq!(
                failure.message.as_deref(),
                Some("Invalid request: max size reached")
            );
        }
    }
}

#[test]
fn pseudo_fields_have_roles() {
    assert_eq!(header_role(b":method"), HeaderRole::Method);
    assert_eq!(header_role(b":scheme"), HeaderRole::Scheme);
    assert_eq!(header_role(b":authority"), HeaderRole::Authority);
    assert_eq!(header_role(b":path"), HeaderRole::Path);
    assert_eq!(header_role(b":status"), HeaderRole::Field);
    assert_eq!(header_role(b"method"), HeaderRole::Field);
}

#[test]
fn bytes_are_dumped_in_hexadecimal() {
    assert_eq!(hex_dump(&[]), "");
    assert_eq!(hex_dump(&[0x00, 0x0f, 0xa5, 0xff]), "000fa5ff");
    let failure = unexpected_header_name(b"\x01Z");
    assert_eq!(failure.message.as_deref(), Some("Unexpected header name: 0x015a"));
}

#[test]
fn many_values_of_one_name_find_room() {
    let list: Vec<HeaderField> = (0..50000u32)
        .map(|i| HeaderField {
            name: b"x".to_vec(),
            value: format!("{}", i).into_bytes(),
        })
        .collect();
    let parts = on_request(&list).unwrap();
    assert_eq!(parts.headers.len(), 50000);
    assert_eq!(parts.headers.get_all("x").iter().nth(49999).unwrap(), "49999");
}

#[test]
fn schemes_are_short_and_plain() {
    let with_scheme = |scheme: &str| {
        on_request(&fields(&[
            (":scheme", scheme),
            (":authority", "a"),
            (":path", "/"),
        ]))
    };
    for scheme in ["http", "HTTPS", "a+b-c.d~9", "a".repeat(64).as_str()] {
        assert_eq!(with_scheme(scheme).unwrap().uri.scheme_str(), Some(scheme));
    }
    assert!(with_scheme("").is_ok());
    for scheme in ["a:b", "a/b", "a_b", "a b", "é"] {
        assert_eq!(
            with_scheme(scheme).unwrap_err().message.as_deref(),
            Some("Invalid URI: invalid scheme")
        );
    }
    assert_eq!(
        with_scheme("a".repeat(65).as_str()).unwrap_err().message.as_deref(),
        Some("Invalid URI: scheme too long")
    );
}
