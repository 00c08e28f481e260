use rocksy::headers::{
    append_forwarded, is_hop_header, remove_hop_headers, remove_named, Header,
};

fn fields(pairs: &[(&str, &str)]) -> Vec<Header> {
    pairs.iter().map(|(name, value)| Header::new(name, value)).collect()
}

#[test]
fn hop_headers_are_recognised() {
    for name in [
        "Connection",
        "Keep-Alive",
        "Proxy-Authenticate",
        "Proxy-Authorization",
        "Te",
        "Trailers",
        "Transfer-Encoding",
        "Upgrade",
    ] {
        assert!(is_hop_header(name));
        assert!(is_hop_header(&name.to_uppercase()));
        assert!(is_hop_header(&name.to_lowercase()));
    }
}

#[test]
fn other_headers_are_not_hop_headers() {
    for name in [
        "",
        "X-Custom",
        "Host",
        "Content-Length",
        "X-Forwarded-For",
        "Connection ",
        " Connection",
        "Connections",
        "Connectio",
        "Keep_Alive",
        "KeepAlive",
        "T",
        "Tee",
        "Trailer",
        "Proxy-Authorisation",
    ] {
        assert!(!is_hop_header(name));
    }
}

#[test]
fn only_ascii_letters_are_folded() {
    // U+212A KELVIN SIGN lowercases to `k` in Unicode, but is no ASCII letter.
    assert!(!is_hop_header("\u{212A}eep-Alive"));
    assert!(!is_hop_header("Upgradé"));
    assert!(is_hop_header("uPgRaDe"));
}

#[test]
fn stripping_leaves_exactly_the_custom_header() {
    let headers = fields(&[("Connection", "keep-alive"), ("X-Custom", "1")]);

    assert_eq!(remove_hop_headers(&headers), fields(&[("X-Custom", "1")]));
}

#[test]
fn stripping_ignores_case() {
    let headers = fields(&[("CONNECTION", "close"), ("X-Custom", "1")]);

    assert_eq!(remove_hop_headers(&headers), fields(&[("X-Custom", "1")]));
}

#[test]
fn stripping_keeps_order_and_duplicates() {
    let headers = fields(&[
        ("Set-Cookie", "a=1"),
        ("transfer-encoding", "chunked"),
        ("Accept", "*/*"),
        ("Set-Cookie", "b=2"),
        ("Upgrade", "h2c"),
        ("Set-Cookie", "a=1"),
        ("TE", "trailers"),
        ("Keep-Alive", "timeout=5"),
        ("Trailers", "x"),
        ("Proxy-Authenticate", "Basic"),
        ("proxy-authorization", "Basic abc"),
        ("Host", "example.org"),
    ]);

    assert_eq!(
        remove_hop_headers(&headers),
        fields(&[
            ("Set-Cookie", "a=1"),
            ("Accept", "*/*"),
            ("Set-Cookie", "b=2"),
            ("Set-Cookie", "a=1"),
            ("Host", "example.org"),
        ])
    );
}

#[test]
fn stripping_nothing_and_everything() {
    assert_eq!(remove_hop_headers(&Vec::new()), Vec::new());

    let plain = fields(&[("A", "1"), ("B", "2")]);
    assert_eq!(remove_hop_headers(&plain), plain);

    let hops = fields(&[("Connection", "close"), ("Upgrade", "x")]);
    assert_eq!(remove_hop_headers(&hops), Vec::new());
}

#[test]
fn stripping_twice_changes_nothing_more() {
    let headers = fields(&[("Connection", "close"), ("A", "1"), ("Te", "x"), ("B", "2")]);
    let once = remove_hop_headers(&headers);

    assert_eq!(remove_hop_headers(&once), once);
}

#[test]
fn removing_a_name_ignores_case_and_keeps_the_rest() {
    let headers = fields(&[
        ("Host", "a"),
        ("Accept", "*/*"),
        ("HOST", "b"),
        ("Hostname", "c"),
        ("host", "d"),
    ]);

    assert_eq!(
        remove_named(&headers, "Host"),
        fields(&[("Accept", "*/*"), ("Hostname", "c")])
    );
    assert_eq!(remove_named(&headers, "X-Absent"), headers);
}

#[test]
fn forwarding_creates_the_header() {
    let mut headers = Vec::new();
    append_forwarded(&mut headers, Some("1.2.3.4"));

    assert_eq!(headers, fields(&[("X-Forwarded-For", "1.2.3.4")]));
}

#[test]
fn forwarding_appends_to_the_header() {
    let mut headers = fields(&[("X-Forwarded-For", "9.9.9.9")]);
    append_forwarded(&mut headers, Some("1.2.3.4"));

    assert_eq!(headers, fields(&[("X-Forwarded-For", "9.9.9.9, 1.2.3.4")]));
}

#[test]
fn forwarding_keeps_prior_entries_in_order() {
    let mut headers = fields(&[("X-Forwarded-For", "203.0.113.195, 70.41.3.18")]);
    append_forwarded(&mut headers, Some("150.172.238.178"));
    append_forwarded(&mut headers, Some("2001:db8::1"));

    assert_eq!(
        headers,
        fields(&[(
            "X-Forwarded-For",
            "203.0.113.195, 70.41.3.18, 150.172.238.178, 2001:db8::1"
        )])
    );
}

#[test]
fn forwarding_without_an_address_changes_nothing() {
    let mut headers = fields(&[("A", "1"), ("X-Forwarded-For", "9.9.9.9")]);
    append_forwarded(&mut headers, None);
    assert_eq!(headers, fields(&[("A", "1"), ("X-Forwarded-For", "9.9.9.9")]));

    let mut empty = Vec::new();
    append_forwarded(&mut empty, None);
    assert_eq!(empty, Vec::new());
}

#[test]
fn forwarding_finds_the_header_whatever_its_case_and_keeps_its_name() {
    let mut headers = fields(&[("A", "1"), ("x-forwarded-for", "9.9.9.9"), ("B", "2")]);
    append_forwarded(&mut headers, Some("1.2.3.4"));

    assert_eq!(
        headers,
        fields(&[("A", "1"), ("x-forwarded-for", "9.9.9.9, 1.2.3.4"), ("B", "2")])
    );
}

#[test]
fn forwarding_adds_to_the_last_of_several_headers() {
    let mut headers = fields(&[
        ("X-Forwarded-For", "1.1.1.1"),
        ("A", "1"),
        ("X-FORWARDED-FOR", "2.2.2.2"),
        ("B", "2"),
    ]);
    append_forwarded(&mut headers, Some("3.3.3.3"));

    assert_eq!(
        headers,
        fields(&[
            ("X-Forwarded-For", "1.1.1.1"),
            ("A", "1"),
            ("X-FORWARDED-FOR", "2.2.2.2, 3.3.3.3"),
            ("B", "2"),
        ])
    );
}

#[test]
fn forwarding_into_an_empty_list() {
    let mut headers = fields(&[("X-Forwarded-For", "")]);
    append_forwarded(&mut headers, Some("1.2.3.4"));

    assert_eq!(headers, fields(&[("X-Forwarded-For", "1.2.3.4")]));
}

#[test]
fn forwarding_puts_a_new_header_behind_the_others() {
    let mut headers = fields(&[("A", "1"), ("B", "2")]);
    append_forwarded(&mut headers, Some("1.2.3.4"));

    assert_eq!(
        headers,
        fields(&[("A", "1"), ("B", "2"), ("X-Forwarded-For", "1.2.3.4")])
    );
}

#[test]
fn header_clone_is_equal() {
    let header = Header::new("Name", "value");
    let copy = header.clone();

    assert_eq!(copy, header);
    assert_eq!(copy.name, "Name");
    assert_eq!(copy.value, "value");
}
