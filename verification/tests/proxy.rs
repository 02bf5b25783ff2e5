use rcargo::proxy::{
    answer_text, forward_head, is_domain_allowed, refusal, route_request, Answer, HeaderScan, Route,
};

fn allowed(list: &[&str]) -> Vec<String> {
    list.iter().map(|s| s.to_string()).collect()
}

#[test]
fn test_is_domain_allowed() {
    let allowed = allowed(&["crates.io", "github.com"]);

    assert!(is_domain_allowed("crates.io", &allowed));
    assert!(is_domain_allowed("CRATES.IO", &allowed));
    assert!(is_domain_allowed("index.crates.io", &allowed));
    assert!(is_domain_allowed("github.com", &allowed));
    assert!(is_domain_allowed("api.github.com", &allowed));
    assert!(!is_domain_allowed("evil.com", &allowed));
    assert!(!is_domain_allowed("crates.io.evil.com", &allowed));
}

#[test]
fn test_proxy_blocks_denied_domain() {
    let a = allowed(&["allowed.com"]);
    let route = route_request("CONNECT denied.com:443 HTTP/1.1\r\n", &a).unwrap();
    assert!(matches!(route, Route::Deny));
    let answer = answer_text(refusal(&route).unwrap());
    assert!(answer.contains("403"));
}

#[test]
fn test_proxy_allows_permitted_domain() {
    let a = allowed(&["httpbin.org"]);
    let r = route_request("CONNECT httpbin.org:443 HTTP/1.1\r\n", &a).unwrap();
    assert!(!matches!(r, Route::Deny));
}

#[test]
fn allowed_connect_is_tunnelled() {
    let a = allowed(&["httpbin.org"]);
    match route_request("CONNECT httpbin.org:443 HTTP/1.1\r\n", &a).unwrap() {
        Route::Tunnel { host, port } => {
            assert_eq!(host, "httpbin.org");
            assert_eq!(port, 443);
        }
        other => panic!("unexpected {other:?}"),
    }
    match route_request("CONNECT api.httpbin.org:8443 HTTP/1.1", &a).unwrap() {
        Route::Tunnel { host, port } => {
            assert_eq!(host, "api.httpbin.org");
            assert_eq!(port, 8443);
        }
        other => panic!("unexpected {other:?}"),
    }
    match route_request("CONNECT httpbin.org:notaport HTTP/1.1", &a).unwrap() {
        Route::Tunnel { port, .. } => assert_eq!(port, 443),
        other => panic!("unexpected {other:?}"),
    }
}

#[test]
fn short_request_lines_are_invalid() {
    let a = allowed(&["x.io"]);
    assert_eq!(route_request("GET /\r\n", &a).unwrap_err(), "invalid request");
    assert_eq!(route_request("", &a).unwrap_err(), "invalid request");
}

#[test]
fn plain_requests_are_forwarded() {
    let a = allowed(&["example.com"]);
    match route_request("GET http://example.com/a/b?x=1 HTTP/1.1\r\n", &a).unwrap() {
        Route::Forward { method, host, port, url_port, target } => {
            assert_eq!(method, "GET");
            assert_eq!(host, "example.com");
            assert_eq!(port, 80);
            assert_eq!(url_port, None);
            assert_eq!(target, "/a/b?x=1");
        }
        other => panic!("unexpected {other:?}"),
    }
    match route_request("POST http://sub.example.com:8080/p HTTP/1.1", &a).unwrap() {
        Route::Forward { port, url_port, target, .. } => {
            assert_eq!(port, 8080);
            assert_eq!(url_port, Some(8080));
            assert_eq!(target, "/p");
        }
        other => panic!("unexpected {other:?}"),
    }
    assert!(matches!(
        route_request("GET http://evil.com/ HTTP/1.1", &a).unwrap(),
        Route::Deny
    ));
    assert!(route_request("GET /relative HTTP/1.1", &a).is_err());
    assert!(matches!(
        route_request("PATCH http://example.com/ HTTP/1.1", &a).unwrap(),
        Route::NotImplemented
    ));
}

#[test]
fn header_scan() {
    let mut s = HeaderScan::new();
    assert_eq!(s.feed("Proxy-Authorization: x\r\n"), Ok(false));
    assert_eq!(s.feed("Host: example.com\r\n"), Ok(false));
    assert_eq!(s.feed("Content-Length: 12\r\n"), Ok(false));
    assert_eq!(s.feed("Accept: */*\r\n"), Ok(false));
    assert_eq!(s.feed("\r\n"), Ok(true));
    assert!(s.has_host);
    assert_eq!(s.content_length, 12);
    assert_eq!(s.headers, "Host: example.com\r\nContent-Length: 12\r\nAccept: */*\r\n");
    let mut s = HeaderScan::new();
    assert_eq!(
        s.feed("content-length: abc\r\n"),
        Err("bad Content-Length: invalid digit found in string".to_string())
    );
}

#[test]
fn client_connection_headers_are_dropped() {
    let mut s = HeaderScan::new();
    assert_eq!(s.feed("Connection: keep-alive\r\n"), Ok(false));
    assert_eq!(s.feed("CONNECTION: Upgrade\r\n"), Ok(false));
    assert_eq!(s.feed("Accept: */*\r\n"), Ok(false));
    assert_eq!(s.headers, "Accept: */*\r\n");
    assert_eq!(
        forward_head("GET", "example.com", None, "/", &s),
        "GET / HTTP/1.1\r\nHost: example.com\r\nAccept: */*\r\nConnection: close\r\n\r\n"
    );
}

#[test]
fn forward_head_adds_host_and_close() {
    let mut s = HeaderScan::new();
    s.feed("Accept: */*\r\n").unwrap();
    assert_eq!(
        forward_head("GET", "example.com", Some(8080), "/a", &s),
        "GET /a HTTP/1.1\r\nHost: example.com:8080\r\nAccept: */*\r\nConnection: close\r\n\r\n"
    );
    assert_eq!(
        forward_head("HEAD", "example.com", None, "/", &s),
        "HEAD / HTTP/1.1\r\nHost: example.com\r\nAccept: */*\r\nConnection: close\r\n\r\n"
    );
    s.feed("Host: example.com\r\n").unwrap();
    assert_eq!(
        forward_head("GET", "example.com", None, "/", &s),
        "GET / HTTP/1.1\r\nAccept: */*\r\nHost: example.com\r\nConnection: close\r\n\r\n"
    );
}

#[test]
fn refused_requests_get_their_status_line() {
    let a = allowed(&["allowed.com"]);
    let denied = route_request("CONNECT denied.com:443 HTTP/1.1\r\n", &a).unwrap();
    assert_eq!(refusal(&denied), Some(Answer::Forbidden));
    assert_eq!(answer_text(Answer::Forbidden), "HTTP/1.1 403 Forbidden\r\n\r\n");
    let other = route_request("TRACE http://allowed.com/ HTTP/1.1\r\n", &a).unwrap();
    assert_eq!(refusal(&other), Some(Answer::NotImplemented));
    assert_eq!(answer_text(Answer::NotImplemented), "HTTP/1.1 501 Not Implemented\r\n\r\n");
    let tunnel = route_request("CONNECT allowed.com:443 HTTP/1.1\r\n", &a).unwrap();
    assert_eq!(refusal(&tunnel), None);
    assert_eq!(answer_text(Answer::Established), "HTTP/1.1 200 Connection Established\r\n\r\n");
    assert_eq!(answer_text(Answer::BadGateway), "HTTP/1.1 502 Bad Gateway\r\n\r\n");
}
