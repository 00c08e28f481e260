use rocksy::config::{parse_target, Target};
use rocksy::headers::Header;
use rocksy::proxy::{
    complete, create_proxied_response, redirect, target_uri, Completed, Exchange, Outcome,
    Request, Response, ReverseProxy,
};
use rocksy::uri::Uri;

fn fields(pairs: &[(&str, &str)]) -> Vec<Header> {
    pairs.iter().map(|(name, value)| Header::new(name, value)).collect()
}

fn uri(text: &str, path: &str, query: Option<&str>) -> Uri {
    Uri {
        text: text.to_owned(),
        path: path.to_owned(),
        query: query.map(|q| q.to_owned()),
    }
}

fn get(text: &str, path: &str, query: Option<&str>, headers: &[(&str, &str)]) -> Request {
    Request {
        method: "GET".to_owned(),
        uri: uri(text, path, query),
        headers: fields(headers),
    }
}

fn targets(descriptors: &[&str]) -> Vec<Target> {
    descriptors.iter().map(|d| parse_target(d).unwrap()).collect()
}

fn proxy(ip: Option<&str>, descriptors: &[&str]) -> ReverseProxy {
    ReverseProxy::new(ip.map(|a| a.to_owned()), targets(descriptors), false)
}

#[test]
fn routing_takes_the_first_target_that_matches() {
    let p = proxy(None, &["T1 at http://one if ^/api", "T2 at http://two"]);

    let api = get("/api/x", "/api/x", None, &[]);
    assert_eq!(p.determine_target(&api).unwrap().name(), "T1");

    let other = get("/other", "/other", None, &[]);
    assert_eq!(p.determine_target(&other).unwrap().name(), "T2");
}

#[test]
fn routing_without_the_catch_all_finds_nothing() {
    let p = proxy(None, &["T1 at http://one if ^/api"]);

    let api = get("/api/x", "/api/x", None, &[]);
    assert_eq!(p.determine_target(&api).unwrap().name(), "T1");

    let other = get("/other", "/other", None, &[]);
    assert!(p.determine_target(&other).is_none());
}

#[test]
fn routing_is_shadowed_by_an_early_catch_all() {
    let p = proxy(None, &["all at http://all", "api at http://api if ^/api"]);

    let api = get("/api/x", "/api/x", None, &[]);
    assert_eq!(p.determine_target(&api).unwrap().name(), "all");
}

#[test]
fn routing_goes_by_the_path_alone() {
    let p = proxy(None, &["q at http://q if x=1", "rest at http://rest"]);

    let request = get("/a?x=1", "/a", Some("x=1"), &[]);
    assert_eq!(p.determine_target(&request).unwrap().name(), "rest");
}

#[test]
fn routing_gives_the_same_answer_each_time() {
    let p = proxy(None, &["a at http://a if ^/a", "b at http://b if ^/b", "c at http://c if /"]);

    for _ in 0..3 {
        let a = get("/a", "/a", None, &[]);
        assert_eq!(p.determine_target(&a).unwrap().name(), "a");
        let b = get("/b/a", "/b/a", None, &[]);
        assert_eq!(p.determine_target(&b).unwrap().name(), "b");
        let c = get("/c", "/c", None, &[]);
        assert_eq!(p.determine_target(&c).unwrap().name(), "c");
        let none = get("*", "*", None, &[]);
        assert!(p.determine_target(&none).is_none());
    }
}

#[test]
fn routing_in_an_empty_registry_finds_nothing() {
    let p = proxy(None, &[]);

    let request = get("/", "/", None, &[]);
    assert!(p.determine_target(&request).is_none());
}

#[test]
fn proxied_request_loses_hop_headers_and_gains_the_client() {
    let p = proxy(Some("1.2.3.4"), &[]);
    let request = get(
        "/x",
        "/x",
        None,
        &[("Connection", "keep-alive"), ("Accept", "*/*"), ("Host", "front")],
    );

    let proxied = p.create_proxied_request(request);

    assert_eq!(proxied.method, "GET");
    assert_eq!(proxied.uri, uri("/x", "/x", None));
    assert_eq!(
        proxied.headers,
        fields(&[("Accept", "*/*"), ("Host", "front"), ("X-Forwarded-For", "1.2.3.4")])
    );
}

#[test]
fn proxied_request_of_an_unknown_client_gets_no_forwarding_header() {
    let p = proxy(None, &[]);
    let request = get("/x", "/x", None, &[("Upgrade", "h2c"), ("Accept", "*/*")]);

    let proxied = p.create_proxied_request(request);

    assert_eq!(proxied.headers, fields(&[("Accept", "*/*")]));
}

#[test]
fn proxied_request_extends_the_chain() {
    let p = proxy(Some("1.2.3.4"), &[]);
    let request = get("/x", "/x", None, &[("X-Forwarded-For", "9.9.9.9")]);

    let proxied = p.create_proxied_request(request);

    assert_eq!(proxied.headers, fields(&[("X-Forwarded-For", "9.9.9.9, 1.2.3.4")]));
}

#[test]
fn target_uri_is_address_path_and_query() {
    let t = parse_target("backend at http://h:9000 if ^/api").unwrap();

    let with_query = get("/api/foo?x=1", "/api/foo", Some("x=1"), &[]);
    assert_eq!(target_uri(&t, &with_query), "http://h:9000/api/foo?x=1");

    let without = get("/api/foo", "/api/foo", None, &[]);
    assert_eq!(target_uri(&t, &without), "http://h:9000/api/foo");

    let empty_query = get("/api/foo?", "/api/foo", Some(""), &[]);
    assert_eq!(target_uri(&t, &empty_query), "http://h:9000/api/foo?");
}

#[test]
fn target_uri_keeps_a_path_prefix_of_the_address() {
    let t = parse_target("http://h:9000/base").unwrap();

    let request = get("/api?x=1&y=2", "/api", Some("x=1&y=2"), &[]);
    assert_eq!(target_uri(&t, &request), "http://h:9000/base/api?x=1&y=2");
}

#[test]
fn redirect_sets_the_uri_and_drops_the_host() {
    let request = get(
        "/api",
        "/api",
        None,
        &[("Host", "front"), ("Accept", "*/*"), ("host", "again")],
    );
    let aim = uri("http://h/api", "/api", None);

    let aimed = redirect(request, Some(aim));

    assert_eq!(aimed.method, "GET");
    assert_eq!(aimed.uri, uri("http://h/api", "/api", None));
    assert_eq!(aimed.headers, fields(&[("Accept", "*/*")]));
}

#[test]
fn redirect_without_a_uri_leaves_the_request() {
    let request = get("/api", "/api", None, &[("Host", "front"), ("Accept", "*/*")]);

    let aimed = redirect(request, None);

    assert_eq!(
        aimed,
        get("/api", "/api", None, &[("Host", "front"), ("Accept", "*/*")])
    );
}

#[test]
fn pointing_a_request_at_its_target() {
    let p = proxy(None, &[]);
    let t = parse_target("backend at http://h:9000 if ^/api").unwrap();
    let request = get(
        "/api/foo?x=1",
        "/api/foo",
        Some("x=1"),
        &[("Host", "front:5555"), ("Accept", "*/*")],
    );

    let aimed = p.point_request_at_target(&t, request);

    assert_eq!(
        aimed.uri,
        uri("http://h:9000/api/foo?x=1", "/api/foo", Some("x=1"))
    );
    assert_eq!(aimed.headers, fields(&[("Accept", "*/*")]));
    assert_eq!(aimed.method, "GET");
}

#[test]
fn pointing_reads_the_new_uri_anew() {
    let p = proxy(None, &[]);
    let t = parse_target("http://h:9000/base").unwrap();
    let request = get("/api#frag", "/api", None, &[]);

    let aimed = p.point_request_at_target(&t, request);

    assert_eq!(aimed.uri, uri("http://h:9000/base/api", "/base/api", None));
}

#[test]
fn pointing_at_an_address_without_path_gives_the_root() {
    let p = proxy(None, &[]);
    let t = parse_target("http://h:9000").unwrap();
    let request = get("h:1", "", None, &[("Host", "front")]);

    let aimed = p.point_request_at_target(&t, request);

    assert_eq!(aimed.uri, uri("http://h:9000/", "/", None));
    assert_eq!(aimed.headers, Vec::new());
}

#[test]
fn pointing_at_a_bad_address_leaves_the_request() {
    let p = proxy(None, &[]);
    let t = parse_target("localhost:9000").unwrap();
    let request = get("/api?x=1", "/api", Some("x=1"), &[("Host", "front"), ("A", "1")]);

    let aimed = p.point_request_at_target(&t, request);

    assert_eq!(
        aimed,
        get("/api?x=1", "/api", Some("x=1"), &[("Host", "front"), ("A", "1")])
    );
}

#[test]
fn pointing_at_an_address_without_authority_leaves_the_request() {
    let p = proxy(None, &[]);
    let t = parse_target("http://").unwrap();
    let request = get("/api", "/api", None, &[("Host", "front")]);

    let aimed = p.point_request_at_target(&t, request);

    assert_eq!(aimed, get("/api", "/api", None, &[("Host", "front")]));
}

#[test]
fn proxied_response_loses_hop_headers() {
    let response = Response {
        status: 200,
        headers: fields(&[("Connection", "close"), ("Content-Type", "text/plain")]),
    };

    assert_eq!(
        create_proxied_response(response),
        Response {
            status: 200,
            headers: fields(&[("Content-Type", "text/plain")]),
        }
    );
}

#[test]
fn end_to_end_request_is_routed_rewritten_and_answered() {
    let p = proxy(Some("1.2.3.4"), &["backend at http://h:9000 if ^/api"]);
    let request = get(
        "/api/foo?x=1",
        "/api/foo",
        Some("x=1"),
        &[("Host", "front:5555"), ("Connection", "keep-alive"), ("Accept", "*/*")],
    );

    let (incoming, responder, outbound, uri_built) = match p.call(request) {
        Exchange::Routed {
            incoming,
            responder,
            request,
            uri_built,
        } => (incoming, responder, request, uri_built),
        Exchange::Completed(_) => panic!("the request has a target"),
    };

    assert_eq!(incoming, "GET /api/foo?x=1");
    assert_eq!(responder, "backend");
    assert!(uri_built);
    assert_eq!(outbound.method, "GET");
    assert_eq!(outbound.uri.text, "http://h:9000/api/foo?x=1");
    assert_eq!(outbound.uri.path, "/api/foo");
    assert_eq!(outbound.uri.query, Some("x=1".to_owned()));
    assert_eq!(
        outbound.headers,
        fields(&[("Accept", "*/*"), ("X-Forwarded-For", "1.2.3.4")])
    );

    let upstream = Response {
        status: 200,
        headers: fields(&[("Connection", "close"), ("Content-Length", "2")]),
    };
    let end = complete(&incoming, &responder, Outcome::Responded(upstream));

    assert_eq!(
        end,
        Completed {
            response: Response {
                status: 200,
                headers: fields(&[("Content-Length", "2")]),
            },
            audit: "GET /api/foo?x=1 -> backend -> 200 OK".to_owned(),
            error: None,
        }
    );
}

#[test]
fn end_to_end_empty_registry_answers_404() {
    let p = proxy(Some("1.2.3.4"), &[]);

    for (text, path, query) in [
        ("/", "/", None),
        ("/api/foo?x=1", "/api/foo", Some("x=1")),
        ("*", "*", None),
        ("http://front/a", "/a", None),
    ] {
        let request = get(text, path, query, &[("Host", "front")]);
        let expected = Completed {
            response: Response {
                status: 404,
                headers: Vec::new(),
            },
            audit: format!("GET {} -> Rocksy (fallback) -> 404 Not Found", text),
            error: None,
        };
        assert_eq!(p.call(request), Exchange::Completed(expected));
    }
}

#[test]
fn end_to_end_unmatched_path_answers_404() {
    let p = proxy(None, &["backend at http://h:9000 if ^/api"]);
    let request = Request {
        method: "DELETE".to_owned(),
        uri: uri("/other", "/other", None),
        headers: Vec::new(),
    };

    assert_eq!(
        p.call(request),
        Exchange::Completed(Completed {
            response: Response {
                status: 404,
                headers: Vec::new(),
            },
            audit: "DELETE /other -> Rocksy (fallback) -> 404 Not Found".to_owned(),
            error: None,
        })
    );
}

#[test]
fn end_to_end_upstream_failure_answers_500() {
    let p = proxy(None, &["backend at http://h:9000"]);
    let request = get("/x", "/x", None, &[]);

    let (incoming, responder) = match p.call(request) {
        Exchange::Routed {
            incoming,
            responder,
            ..
        } => (incoming, responder),
        Exchange::Completed(_) => panic!("the request has a target"),
    };
    let end = complete(
        &incoming,
        &responder,
        Outcome::Failed("connection refused".to_owned()),
    );

    assert_eq!(
        end,
        Completed {
            response: Response {
                status: 500,
                headers: Vec::new(),
            },
            audit: "GET /x -> backend -> 500 Internal Server Error".to_owned(),
            error: Some("Failed to proxy request to backend! connection refused".to_owned()),
        }
    );
    assert!(end.error.unwrap().contains("backend"));
}

#[test]
fn end_to_end_bad_address_sends_the_request_as_it_came() {
    let p = proxy(Some("1.2.3.4"), &["plain at localhost:9000"]);
    let request = get("/x?y", "/x", Some("y"), &[("Host", "front"), ("Te", "trailers")]);

    match p.call(request) {
        Exchange::Routed {
            incoming,
            responder,
            request,
            uri_built,
        } => {
            assert_eq!(incoming, "GET /x?y");
            assert_eq!(responder, "plain");
            assert!(!uri_built);
            assert_eq!(request.uri, uri("/x?y", "/x", Some("y")));
            assert_eq!(
                request.headers,
                fields(&[("Host", "front"), ("X-Forwarded-For", "1.2.3.4")])
            );
        }
        Exchange::Completed(_) => panic!("the request has a target"),
    }
}

#[test]
fn audit_key_is_taken_before_the_rewrite() {
    let p = proxy(None, &["http://h:9000/base"]);
    let request = Request {
        method: "POST".to_owned(),
        uri: uri("/submit?a=b", "/submit", Some("a=b")),
        headers: Vec::new(),
    };

    match p.call(request) {
        Exchange::Routed {
            incoming,
            responder,
            request,
            ..
        } => {
            assert_eq!(incoming, "POST /submit?a=b");
            assert_eq!(responder, "http://h:9000/base");
            assert_eq!(request.uri.text, "http://h:9000/base/submit?a=b");
        }
        Exchange::Completed(_) => panic!("the request has a target"),
    }
}

#[test]
fn completing_hands_on_any_status() {
    let end = complete(
        "GET /",
        "b",
        Outcome::Responded(Response {
            status: 302,
            headers: fields(&[("Location", "/x"), ("Keep-Alive", "timeout=5")]),
        }),
    );

    assert_eq!(end.response.status, 302);
    assert_eq!(end.response.headers, fields(&[("Location", "/x")]));
    assert_eq!(end.audit, "GET / -> b -> 302 Found");
    assert_eq!(end.error, None);
}

#[test]
fn proxy_keeps_its_debug_flag() {
    assert!(ReverseProxy::new(None, Vec::new(), true).debug_on());
    assert!(!ReverseProxy::new(None, Vec::new(), false).debug_on());
}
