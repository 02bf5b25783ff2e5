//! The decisions of the shim's filtering HTTP proxy: which hosts a sandboxed
//! build may reach, how a request line is routed, and the request that is
//! forwarded upstream.
use vstd::prelude::*;

use crate::ext::{lowercase, parse_url, to_lowercase, url_parse};
use crate::num::{dec, dec_of, int_error_message, int_error_text, parse_uint, parse_unsigned};
use crate::text::{
    chars_eq_str, chars_of, ends_with, has_prefix, has_suffix, push_all, push_str, split_char,
    split_on, split_whitespace, starts_with, string_of, trim, trim_ws, ws_tokens,
};

verus! {

/// The parts of a URL that the proxy reads.
#[derive(Debug, Clone)]
pub struct UrlParts {
    pub host: Option<String>,
    pub port: Option<u16>,
    pub path: String,
    pub query: Option<String>,
}

/// `host` is one of the `allowed` domains or a subdomain of one, compared
/// in lowercase.
pub open spec fn domain_allowed(host: Seq<char>, allowed: Seq<Seq<char>>) -> bool {
    exists|i: int|
        0 <= i < allowed.len() && {
            let h = lowercase(host);
            let d = lowercase(#[trigger] allowed[i]);
            h == d || has_suffix(h, seq!['.'] + d)
        }
}

/// Whether `host` may be reached: it is an allowed domain, or a subdomain of
/// one (`api.github.com` under `github.com`), without regard to case.
pub fn is_domain_allowed(host: &str, allowed: &Vec<String>) -> (r: bool)
    ensures
        r == domain_allowed(host@, allowed.deep_view()),
{
    let h = to_lowercase(host);
    let hv = chars_of(h.as_str());
    let mut i: usize = 0;
    while i < allowed.len()
        invariant
            i <= allowed.len(),
            hv@ == lowercase(host@),
            forall|j: int|
                0 <= j < i ==> {
                    let d = lowercase(#[trigger] allowed.deep_view()[j]);
                    !(hv@ == d || has_suffix(hv@, seq!['.'] + d))
                },
        decreases allowed.len() - i,
    {
        let d = to_lowercase(allowed[i].as_str());
        let dv = chars_of(d.as_str());
        let mut dotted: Vec<char> = Vec::new();
        dotted.push('.');
        push_all(&mut dotted, &dv);
        assert(allowed.deep_view()[i as int] == allowed@[i as int]@);
        assert(seq!['.'] + dv@ == dotted@);
        if crate::text::chars_eq(&hv, &dv) || ends_with(&hv, &dotted) {
            return true;
        }
        i = i + 1;
    }
    false
}

/// The methods whose requests are forwarded with their URL taken apart.
pub open spec fn is_forward_method(m: Seq<char>) -> bool {
    m == "GET"@ || m == "POST"@ || m == "PUT"@ || m == "DELETE"@ || m == "HEAD"@ || m
        == "OPTIONS"@
}

/// The host of a `CONNECT host:port` target: the text before the first `:`.
pub open spec fn connect_host(target: Seq<char>) -> Seq<char> {
    split_char(target, ':')[0]
}

/// The port of a `CONNECT host:port` target: the text after the first `:`
/// when it reads as a port number, else 443.
pub open spec fn connect_port(target: Seq<char>) -> u16 {
    let hp = split_char(target, ':');
    if hp.len() > 1 && parse_uint(hp[1], 65535) is Ok {
        parse_uint(hp[1], 65535)->Ok_0 as u16
    } else {
        443
    }
}

/// The path and query of a forwarded request (`path?query`).
pub open spec fn path_and_query(path: Seq<char>, query: Option<Seq<char>>) -> Seq<char> {
    match query {
        Some(q) => path + seq!['?'] + q,
        None => path,
    }
}

/// What to do with a client connection, decided from its request line.
#[derive(Debug, Clone)]
pub enum Route {
    /// `CONNECT` to an allowed host: open a tunnel to `host:port`.
    Tunnel { host: String, port: u16 },
    /// A plain request to an allowed host: forward it to `host:port`, with
    /// `target` as the request target. `url_port` is the port the URL names.
    Forward { method: String, host: String, port: u16, url_port: Option<u16>, target: String },
    /// The host is not allowed: answer `403 Forbidden`.
    Deny,
    /// Any other method: answer `501 Not Implemented`.
    NotImplemented,
}

/// How a request line is routed, or the error that ends the connection.
pub open spec fn route_ok(line: Seq<char>, allowed: Seq<Seq<char>>, r: Route) -> bool {
    let parts = ws_tokens(line);
    let method = parts[0];
    let target = parts[1];
    if method == "CONNECT"@ {
        if domain_allowed(connect_host(target), allowed) {
            r matches Route::Tunnel { host, port } && host@ == connect_host(target) && port
                == connect_port(target)
        } else {
            r is Deny
        }
    } else if is_forward_method(method) {
        match url_parse(target) {
            Ok((host, port, path, query)) => {
                let h = match host {
                    Some(h) => h,
                    None => Seq::empty(),
                };
                if domain_allowed(h, allowed) {
                    r matches Route::Forward { method: m, host: rh, port: rp, url_port, target: t }
                        && m@ == method && rh@ == h && rp == (match port {
                        Some(p) => p,
                        None => 80u16,
                    }) && url_port == port && t@ == path_and_query(path, query)
                } else {
                    r is Deny
                }
            },
            Err(_) => false,
        }
    } else {
        r is NotImplemented
    }
}

/// The error that ends a connection whose request line cannot be routed:
/// fewer than three words, or a URL that does not parse.
pub open spec fn route_err(line: Seq<char>, e: Seq<char>) -> bool {
    let parts = ws_tokens(line);
    if parts.len() < 3 {
        e == "invalid request"@
    } else {
        is_forward_method(parts[0]) && url_parse(parts[1]) == Err::<
            (Option<Seq<char>>, Option<u16>, Seq<char>, Option<Seq<char>>),
            Seq<char>,
        >(e)
    }
}

fn connect_target(target: &Vec<char>) -> (r: (String, u16))
    ensures
        r.0@ == connect_host(target@),
        r.1 == connect_port(target@),
{
    let hp = split_on(target, ':');
    let ghost v = hp@.map_values(|t: Vec<char>| t@);
    assert(v.len() == hp.len());
    assert(v[0] == hp@[0]@);
    let host = string_of(&hp[0]);
    let mut port: u16 = 443;
    if hp.len() > 1 {
        assert(v[1] == hp@[1]@);
        match parse_unsigned(&hp[1], 65535) {
            Ok(p) => {
                port = p as u16;
            },
            Err(_) => {},
        }
    }
    (host, port)
}

/// Routes a request line (`METHOD target VERSION`): a tunnel or a forward to
/// an allowed host, a refusal, or `501` for other methods.
pub fn route_request(line: &str, allowed: &Vec<String>) -> (r: Result<Route, String>)
    ensures
        match r {
            Ok(route) => ws_tokens(line@).len() >= 3 && route_ok(line@, allowed.deep_view(), route),
            Err(e) => route_err(line@, e@),
        },
{
    let cs = chars_of(line);
    let parts = split_whitespace(&cs);
    let ghost pv = parts@.map_values(|t: Vec<char>| t@);
    assert(pv == ws_tokens(line@));
    if parts.len() < 3 {
        return Err(string_of(&chars_of("invalid request")));
    }
    assert(pv[0] == parts@[0]@ && pv[1] == parts@[1]@);
    let method = &parts[0];
    let target = &parts[1];
    if chars_eq_str(method, "CONNECT") {
        let (host, port) = connect_target(target);
        if is_domain_allowed(host.as_str(), allowed) {
            Ok(Route::Tunnel { host, port })
        } else {
            Ok(Route::Deny)
        }
    } else if chars_eq_str(method, "GET") || chars_eq_str(method, "POST") || chars_eq_str(
        method,
        "PUT",
    ) || chars_eq_str(method, "DELETE") || chars_eq_str(method, "HEAD") || chars_eq_str(
        method,
        "OPTIONS",
    ) {
        let ts = string_of(target);
        match parse_url(ts.as_str()) {
            Err(e) => Err(e),
            Ok(u) => {
                let host = match &u.host {
                    Some(h) => h.clone(),
                    None => String::new(),
                };
                if !is_domain_allowed(host.as_str(), allowed) {
                    return Ok(Route::Deny);
                }
                let port = match u.port {
                    Some(p) => p,
                    None => 80,
                };
                let mut t = chars_of(u.path.as_str());
                match &u.query {
                    Some(q) => {
                        t.push('?');
                        push_str(&mut t, q.as_str());
                    },
                    None => {},
                }
                proof {
                    let q = u.query.deep_view();
                    assert(t@ == path_and_query(u.path@, q));
                    assert(ts@ == ws_tokens(line@)[1]);
                }
                Ok(
                    Route::Forward {
                        method: string_of(method),
                        host,
                        port,
                        url_port: u.port,
                        target: string_of(&t),
                    },
                )
            },
        }
    } else {
        Ok(Route::NotImplemented)
    }
}

/// The answers the proxy writes to the client itself.
#[derive(Debug, Clone, Copy, PartialEq, Eq)]
pub enum Answer {
    /// The host is not on the allow list.
    Forbidden,
    /// The method is neither `CONNECT` nor one that is forwarded.
    NotImplemented,
    /// The tunnel to the host is open.
    Established,
    /// The host could not be reached.
    BadGateway,
}

/// The bytes of each answer: a status line and an empty header block.
pub open spec fn answer_spec(a: Answer) -> Seq<char> {
    match a {
        Answer::Forbidden => "HTTP/1.1 403 Forbidden\r\n\r\n"@,
        Answer::NotImplemented => "HTTP/1.1 501 Not Implemented\r\n\r\n"@,
        Answer::Established => "HTTP/1.1 200 Connection Established\r\n\r\n"@,
        Answer::BadGateway => "HTTP/1.1 502 Bad Gateway\r\n\r\n"@,
    }
}

/// The text of an answer.
pub fn answer_text(a: Answer) -> (r: String)
    ensures
        r@ == answer_spec(a),
{
    let lit = match a {
        Answer::Forbidden => "HTTP/1.1 403 Forbidden\r\n\r\n",
        Answer::NotImplemented => "HTTP/1.1 501 Not Implemented\r\n\r\n",
        Answer::Established => "HTTP/1.1 200 Connection Established\r\n\r\n",
        Answer::BadGateway => "HTTP/1.1 502 Bad Gateway\r\n\r\n",
    };
    string_of(&chars_of(lit))
}

/// The answer that ends a connection at once, without any upstream
/// connection: `403` for a host that is not allowed, `501` for a method
/// that is not handled, and none for a tunnel or a forwarded request.
pub fn refusal(route: &Route) -> (r: Option<Answer>)
    ensures
        route is Deny ==> r == Some(Answer::Forbidden),
        route is NotImplemented ==> r == Some(Answer::NotImplemented),
        (route is Tunnel || route is Forward) ==> r is None,
{
    match route {
        Route::Deny => Some(Answer::Forbidden),
        Route::NotImplemented => Some(Answer::NotImplemented),
        _ => None,
    }
}

/// What the header lines of a forwarded request have given so far.
#[derive(Debug, Clone)]
pub struct HeaderScan {
    /// The header lines kept, in order, each with its line ending.
    pub headers: String,
    /// The value of the last `Content-Length` header.
    pub content_length: usize,
    /// Whether the client sent a `Host` header.
    pub has_host: bool,
}

/// The header value of a `Content-Length` line: the text between the first
/// and the second `:`, trimmed.
pub open spec fn header_value(line: Seq<char>) -> Seq<char> {
    trim(split_char(line, ':')[1])
}

impl HeaderScan {
    /// Nothing read yet.
    pub fn new() -> (s: HeaderScan)
        ensures
            s.headers@.len() == 0,
            s.content_length == 0,
            !s.has_host,
    {
        HeaderScan { headers: String::new(), content_length: 0, has_host: false }
    }

    /// Takes in one header line. An empty (all white-space) line ends the
    /// headers (`Ok(true)`). `Proxy-` headers and the client's own
    /// `Connection` header are dropped (the forwarded head carries
    /// `Connection: close` alone); a `Host` header is noted; a `Content-Length` header must hold a number. Every other line
    /// is kept as it is.
    pub fn feed(&mut self, line: &str) -> (r: Result<bool, String>)
        ensures
            ({
                let lower = lowercase(line@);
                let cl = has_prefix(lower, "content-length:"@) && split_char(line@, ':').len() > 1;
                if trim(line@).len() == 0 {
                    r == Ok::<bool, String>(true) && *final(self) == *old(self)
                } else if has_prefix(lower, "proxy-"@) || has_prefix(lower, "connection:"@) {
                    r == Ok::<bool, String>(false) && *final(self) == *old(self)
                } else if cl && parse_uint(header_value(line@), usize::MAX as nat) is Err {
                    r matches Err(e) && e@ == "bad Content-Length: "@ + int_error_text(
                        parse_uint(header_value(line@), usize::MAX as nat)->Err_0,
                    )
                } else {
                    r == Ok::<bool, String>(false)
                    && final(self).headers@ == old(self).headers@ + line@
                    && final(self).has_host == (old(self).has_host || has_prefix(lower, "host:"@))
                    && final(self).content_length == (if cl {
                        parse_uint(header_value(line@), usize::MAX as nat)->Ok_0 as usize
                    } else {
                        old(self).content_length
                    })
                }
            }),
    {
        let cs = chars_of(line);
        let t = trim_ws(&cs);
        if t.len() == 0 {
            return Ok(true);
        }
        let lower = to_lowercase(line);
        let lv = chars_of(lower.as_str());
        if starts_with(&lv, "proxy-") || starts_with(&lv, "connection:") {
            return Ok(false);
        }
        let is_host = starts_with(&lv, "host:");
        let mut length = self.content_length;
        if starts_with(&lv, "content-length:") {
            let pieces = split_on(&cs, ':');
            let ghost v = pieces@.map_values(|t: Vec<char>| t@);
            assert(v.len() == pieces.len());
            if pieces.len() > 1 {
                assert(v[1] == pieces@[1]@);
                let val = trim_ws(&pieces[1]);
                match parse_unsigned(&val, usize::MAX as u64) {
                    Ok(n) => {
                        length = n as usize;
                    },
                    Err(k) => {
                        let mut e = chars_of("bad Content-Length: ");
                        let m = int_error_message(k);
                        push_all(&mut e, &m);
                        return Err(string_of(&e));
                    },
                }
            }
        }
        let mut hv = chars_of(self.headers.as_str());
        push_all(&mut hv, &cs);
        self.headers = string_of(&hv);
        self.has_host = self.has_host || is_host;
        self.content_length = length;
        Ok(false)
    }
}

/// The head of the request sent upstream: the request line with the relative
/// target, a `Host` header when the client sent none, the kept headers, and
/// `Connection: close`.
pub open spec fn forward_head_spec(
    method: Seq<char>,
    host: Seq<char>,
    url_port: Option<u16>,
    target: Seq<char>,
    headers: Seq<char>,
    has_host: bool,
) -> Seq<char> {
    method + " "@ + target + " HTTP/1.1\r\n"@ + (if has_host {
        Seq::empty()
    } else {
        match url_port {
            Some(p) => "Host: "@ + host + ":"@ + dec(p as nat) + "\r\n"@,
            None => "Host: "@ + host + "\r\n"@,
        }
    }) + headers + "Connection: close\r\n"@ + "\r\n"@
}

/// Builds the request head sent upstream for a forwarded request.
pub fn forward_head(
    method: &str,
    host: &str,
    url_port: Option<u16>,
    target: &str,
    scan: &HeaderScan,
) -> (r: String)
    ensures
        r@ == forward_head_spec(
            method@,
            host@,
            url_port,
            target@,
            scan.headers@,
            scan.has_host,
        ),
{
    let mut v = chars_of(method);
    push_str(&mut v, " ");
    push_str(&mut v, target);
    push_str(&mut v, " HTTP/1.1\r\n");
    let ghost line = v@;
    let mut host_line: Vec<char> = Vec::new();
    if !scan.has_host {
        push_str(&mut host_line, "Host: ");
        push_str(&mut host_line, host);
        match url_port {
            Some(p) => {
                push_str(&mut host_line, ":");
                let d = dec_of(p as u64);
                push_all(&mut host_line, &d);
            },
            None => {},
        }
        push_str(&mut host_line, "\r\n");
    }
    push_all(&mut v, &host_line);
    push_str(&mut v, scan.headers.as_str());
    push_str(&mut v, "Connection: close\r\n");
    push_str(&mut v, "\r\n");
    string_of(&v)
}

} // verus!
