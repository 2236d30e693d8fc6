//! Plain-HTTP client pieces: socket addresses, URLs, request text and response
//! parsing. The byte transport itself belongs to the platform; on targets
//! without the WASI socket extension every connection is refused.

use crate::text::{
    char_is_whitespace, decimal_digits, decimal_text, find_char_from, int_error_message,
    is_ascii_digit, is_whitespace, lemma_decimal_digits_are_digits, lemma_find_char_at,
    lemma_find_char_from_bounds, lemma_parse_u16_of_decimal, lemma_rfind_char_at,
    lemma_skip_whitespace_at, lemma_token_end_at, parse_u16_range, parse_u16_spec,
    push_decimal_digits, rfind_char_before, skip_whitespace_from, token_end_from, digits_value,
    lemma_decimal_digits_value,
};
use std::time::Duration;
use vstd::prelude::*;
use vstd::utf8::{decode_utf8, valid_utf8};

verus! {

/// Failures of the socket layer.
#[derive(Clone, Debug, PartialEq, Eq)]
pub enum SocketError {
    /// The text is not a `host:port` address.
    InvalidAddress(String),
    /// This platform has no socket support.
    UnsupportedPlatform,
    /// The platform's socket layer failed; the text is its description.
    Io(String),
}

impl SocketError {
    /// The text that describes this error.
    pub fn message(&self) -> (s: String)
        ensures
            s@ == match self {
                SocketError::InvalidAddress(reason) => "invalid socket address: "@ + reason@,
                SocketError::UnsupportedPlatform => "socket-extension is only available for wasm32 targets"@,
                SocketError::Io(reason) => "socket I/O failed: "@ + reason@,
            },
    {
        match self {
            SocketError::InvalidAddress(reason) => {
                let mut s = String::from_str("invalid socket address: ");
                s.append(reason.as_str());
                s
            },
            SocketError::UnsupportedPlatform => String::from_str(
                "socket-extension is only available for wasm32 targets",
            ),
            SocketError::Io(reason) => {
                let mut s = String::from_str("socket I/O failed: ");
                s.append(reason.as_str());
                s
            },
        }
    }
}

/// A `host:port` pair. The host is kept as written (an IPv6 host keeps its brackets).
#[derive(Clone, Debug, PartialEq, Eq)]
pub struct SocketAddress {
    host: String,
    port: u16,
}

impl View for SocketAddress {
    type V = (Seq<char>, u16);

    closed spec fn view(&self) -> (Seq<char>, u16) {
        (self.host@, self.port)
    }
}

/// What `SocketAddress::parse` makes of `s`: the host is what precedes the last
/// `:`, the port what follows it, read as a `u16`.
pub open spec fn parse_socket_address_spec(s: Seq<char>) -> Result<(Seq<char>, u16), Seq<char>> {
    match rfind_char_before(s, ':', s.len() as int) {
        None => Err("missing port in socket address: "@ + s),
        Some(k) => if k == 0 {
            Err("missing host in socket address: "@ + s)
        } else {
            match parse_u16_spec(s.subrange(k + 1, s.len() as int)) {
                Ok(port) => Ok((s.take(k), port)),
                Err(e) => Err("invalid port in socket address: "@ + int_error_message(e)),
            }
        },
    }
}

impl SocketAddress {
    /// Reads `host:port`, splitting at the last `:`.
    pub fn parse(address: &str) -> (r: Result<SocketAddress, SocketError>)
        ensures
            match parse_socket_address_spec(address@) {
                Ok(v) => r matches Ok(a) && a@ == v,
                Err(msg) => r matches Err(SocketError::InvalidAddress(reason)) && reason@ == msg,
            },
    {
        let n = address.unicode_len();
        let mut k: usize = n;
        while k > 0 && address.get_char(k - 1) != ':'
            invariant
                k <= n == address@.len(),
                rfind_char_before(address@, ':', k as int) == rfind_char_before(
                    address@,
                    ':',
                    n as int,
                ),
            decreases k,
        {
            k = k - 1;
        }
        if k == 0 {
            let mut reason = String::from_str("missing port in socket address: ");
            reason.append(address);
            return Err(SocketError::InvalidAddress(reason));
        }
        let colon = k - 1;
        if colon == 0 {
            let mut reason = String::from_str("missing host in socket address: ");
            reason.append(address);
            return Err(SocketError::InvalidAddress(reason));
        }
        match parse_u16_range(address, colon + 1, n) {
            Ok(port) => {
                let host = String::from_str(address.substring_char(0, colon));
                Ok(SocketAddress { host, port })
            },
            Err(e) => {
                let mut reason = String::from_str("invalid port in socket address: ");
                let m = e.message();
                reason.append(m.as_str());
                Err(SocketError::InvalidAddress(reason))
            },
        }
    }

    /// An address from its parts; the host must not be empty.
    pub fn new(host: String, port: u16) -> (r: Result<SocketAddress, SocketError>)
        ensures
            host@.len() > 0 ==> (r matches Ok(a) && a@ == (host@, port)),
            host@.len() == 0 ==> (r matches Err(SocketError::InvalidAddress(reason)) && reason@
                == "missing host in socket address"@),
    {
        if host.as_str().unicode_len() == 0 {
            return Err(SocketError::InvalidAddress(String::from_str("missing host in socket address")));
        }
        Ok(SocketAddress { host, port })
    }

    /// The host part.
    pub fn host(&self) -> (h: &str)
        ensures
            h@ == self@.0,
    {
        self.host.as_str()
    }

    /// The port part.
    pub fn port(&self) -> (p: u16)
        ensures
            p == self@.1,
    {
        self.port
    }
}

/// An address written as `host:port` reads back as that host and port, for any
/// non-empty host (one that holds `:` itself, as an IPv6 host does, included).
pub proof fn lemma_socket_address_round_trip(host: Seq<char>, port: u16)
    requires
        host.len() > 0,
    ensures
        parse_socket_address_spec(host + seq![':'] + decimal_digits(port as nat)) == Ok::<
            (Seq<char>, u16),
            Seq<char>,
        >((host, port)),
{
    let d = decimal_digits(port as nat);
    let s = host + seq![':'] + d;
    let k = host.len() as int;
    lemma_decimal_digits_are_digits(port as nat);
    assert forall|j: int| k < j < s.len() implies s[j] != ':' by {
        assert(s[j] == d[j - k - 1]);
    }
    lemma_rfind_char_at(s, ':', s.len() as int, k);
    assert(s.subrange(k + 1, s.len() as int) =~= d);
    assert(s.take(k) =~= host);
    lemma_parse_u16_of_decimal(port);
}

/// A TCP connection. On this platform no connection can be opened, so no
/// value of this type is ever made.
pub struct TcpStream {
    _unconstructible: (),
}

impl TcpStream {
    /// Opens a connection to `address`; here it always fails with `UnsupportedPlatform`.
    pub fn connect_timeout(address: &SocketAddress, timeout: Duration) -> (r: Result<TcpStream, SocketError>)
        ensures
            r matches Err(SocketError::UnsupportedPlatform),
    {
        Err(SocketError::UnsupportedPlatform)
    }
}

/// What `parse_http_url` makes of `url`: `http://host[:port][/path]`, giving
/// host, port (80 when absent) and path (`/` when absent).
pub open spec fn parse_http_url_spec(url: Seq<char>) -> Result<(Seq<char>, u16, Seq<char>), Seq<char>> {
    if !(url.len() >= 7 && url.take(7) == "http://"@) {
        Err("only http:// URLs are supported"@)
    } else {
        let rest = url.skip(7);
        let slash = find_char_from(rest, '/', 0);
        let host_port = rest.take(slash);
        let path = if slash < rest.len() {
            rest.skip(slash)
        } else {
            "/"@
        };
        if host_port.len() == 0 {
            Err("URL host is required"@)
        } else {
            let colon = find_char_from(host_port, ':', 0);
            if colon < host_port.len() {
                if colon == 0 {
                    Err("URL host is required"@)
                } else {
                    match parse_u16_spec(host_port.skip(colon + 1)) {
                        Ok(port) => Ok((host_port.take(colon), port, path)),
                        Err(e) => Err("invalid port in URL: "@ + int_error_message(e)),
                    }
                }
            } else {
                Ok((host_port, 80u16, path))
            }
        }
    }
}

/// Splits a plain-HTTP URL into host, port and path.
pub fn parse_http_url(url: &str) -> (r: Result<(String, u16, String), String>)
    ensures
        match parse_http_url_spec(url@) {
            Ok((host, port, path)) => r matches Ok((h, p, q)) && h@ == host && p == port && q@ == path,
            Err(msg) => r matches Err(e) && e@ == msg,
        },
{
    let ghost u = url@;
    let n = url.unicode_len();
    let prefix = "http://";
    proof {
        reveal_strlit("http://");
    }
    if n < 7 {
        return Err(String::from_str("only http:// URLs are supported"));
    }
    let mut i: usize = 0;
    while i < 7
        invariant
            i <= 7 <= n == u.len(),
            u == url@,
            prefix@ == "http://"@,
            prefix@.len() == 7,
            forall|j: int| 0 <= j < i ==> u[j] == prefix@[j],
        decreases 7 - i,
    {
        if url.get_char(i) != prefix.get_char(i) {
            assert(u.take(7)[i as int] != "http://"@[i as int]);
            return Err(String::from_str("only http:// URLs are supported"));
        }
        i = i + 1;
    }
    assert(u.take(7) =~= "http://"@);
    let ghost rest = u.skip(7);
    // Find the first '/' after the scheme.
    let mut slash: usize = 7;
    while slash < n && url.get_char(slash) != '/'
        invariant
            7 <= slash <= n == u.len(),
            u == url@,
            rest == u.skip(7),
            find_char_from(rest, '/', (slash - 7) as int) == find_char_from(rest, '/', 0),
        decreases n - slash,
    {
        slash = slash + 1;
    }
    assert(find_char_from(rest, '/', (slash - 7) as int) == (slash - 7) as int);
    let ghost host_port = rest.take((slash - 7) as int);
    let path = if slash < n {
        String::from_str(url.substring_char(slash, n))
    } else {
        String::from_str("/")
    };
    assert(slash < n ==> rest.skip((slash - 7) as int) =~= u.subrange(slash as int, n as int));
    if slash == 7 {
        return Err(String::from_str("URL host is required"));
    }
    // Find the first ':' in the authority.
    let mut colon: usize = 7;
    while colon < slash && url.get_char(colon) != ':'
        invariant
            7 <= colon <= slash <= n == u.len(),
            u == url@,
            host_port == u.subrange(7, slash as int),
            find_char_from(host_port, ':', (colon - 7) as int) == find_char_from(host_port, ':', 0),
        decreases slash - colon,
    {
        colon = colon + 1;
    }
    assert(host_port =~= u.subrange(7, slash as int));
    assert(find_char_from(host_port, ':', (colon - 7) as int) == (colon - 7) as int);
    if colon < slash {
        if colon == 7 {
            return Err(String::from_str("URL host is required"));
        }
        assert(host_port.skip((colon - 7) + 1) =~= url@.subrange(colon + 1, slash as int));
        match parse_u16_range(url, colon + 1, slash) {
            Ok(port) => {
                let host = String::from_str(url.substring_char(7, colon));
                assert(host@ =~= host_port.take((colon - 7) as int));
                Ok((host, port, path))
            },
            Err(e) => {
                let mut msg = String::from_str("invalid port in URL: ");
                let m = e.message();
                msg.append(m.as_str());
                Err(msg)
            },
        }
    } else {
        let host = String::from_str(url.substring_char(7, slash));
        Ok((host, 80, path))
    }
}

/// A URL written as `http://host:port/path` reads back as that host, port and
/// path, for a non-empty host holding neither `:` nor `/`, and a path that
/// starts with `/`.
pub proof fn lemma_http_url_round_trip(host: Seq<char>, port: u16, path: Seq<char>)
    requires
        host.len() > 0,
        forall|i: int| 0 <= i < host.len() ==> host[i] != ':' && host[i] != '/',
        path.len() > 0,
        path[0] == '/',
    ensures
        parse_http_url_spec("http://"@ + host + seq![':'] + decimal_digits(port as nat) + path)
            == Ok::<(Seq<char>, u16, Seq<char>), Seq<char>>((host, port, path)),
{
    reveal_strlit("http://");
    let d = decimal_digits(port as nat);
    let url = "http://"@ + host + seq![':'] + d + path;
    assert(url.take(7) =~= "http://"@);
    let rest = url.skip(7);
    assert(rest =~= host + seq![':'] + d + path);
    lemma_decimal_digits_are_digits(port as nat);
    let slash: int = (host.len() + 1 + d.len()) as int;
    assert forall|j: int| 0 <= j < slash implies rest[j] != '/' by {
        if j < host.len() {
            assert(rest[j] == host[j]);
        } else if j > host.len() {
            assert(rest[j] == d[j - host.len() - 1]);
            assert(is_ascii_digit(d[j - host.len() - 1]));
        }
    }
    assert(rest[slash] == path[0]);
    lemma_find_char_at(rest, '/', 0, slash);
    let host_port = rest.take(slash);
    assert(host_port =~= host + seq![':'] + d);
    lemma_find_char_at(host_port, ':', 0, host.len() as int);
    assert(rest.skip(slash) =~= path);
    assert(host_port.skip(host.len() + 1int) =~= d);
    assert(host_port.take(host.len() as int) =~= host);
    lemma_parse_u16_of_decimal(port);
}

/// A URL without a port is served on port 80, and one without a path asks for `/`.
pub proof fn lemma_http_url_defaults(host: Seq<char>, path: Seq<char>)
    requires
        host.len() > 0,
        forall|i: int| 0 <= i < host.len() ==> host[i] != ':' && host[i] != '/',
        path.len() > 0,
        path[0] == '/',
    ensures
        parse_http_url_spec("http://"@ + host + path) == Ok::<
            (Seq<char>, u16, Seq<char>),
            Seq<char>,
        >((host, 80u16, path)),
        parse_http_url_spec("http://"@ + host) == Ok::<(Seq<char>, u16, Seq<char>), Seq<char>>(
            (host, 80u16, "/"@),
        ),
{
    reveal_strlit("http://");
    let url = "http://"@ + host + path;
    assert(url.take(7) =~= "http://"@);
    let rest = url.skip(7);
    assert(rest =~= host + path);
    lemma_find_char_at(rest, '/', 0, host.len() as int);
    assert(rest.take(host.len() as int) =~= host);
    assert(rest.skip(host.len() as int) =~= path);
    lemma_find_char_at(host, ':', 0, host.len() as int);
    let url2 = "http://"@ + host;
    assert(url2.take(7) =~= "http://"@);
    let rest2 = url2.skip(7);
    assert(rest2 =~= host);
    lemma_find_char_at(rest2, '/', 0, host.len() as int);
    assert(rest2.take(host.len() as int) =~= host);
}

/// The text of a `GET` request for `path` on `host`.
pub open spec fn get_request_text(host: Seq<char>, path: Seq<char>) -> Seq<char> {
    "GET "@ + path + " HTTP/1.1\r\nHost: "@ + host
        + "\r\nConnection: close\r\nUser-Agent: otelwasm-rust-sdk\r\n\r\n"@
}

/// The head (request line and headers) of a `POST` request carrying a body of
/// `body_len` bytes of type `content_type` to `path` on `host`.
pub open spec fn post_request_head_text(
    host: Seq<char>,
    path: Seq<char>,
    content_type: Seq<char>,
    body_len: int,
) -> Seq<char> {
    "POST "@ + path + " HTTP/1.1\r\nHost: "@ + host
        + "\r\nConnection: close\r\nUser-Agent: otelwasm-rust-sdk\r\nContent-Type: "@
        + content_type + "\r\nContent-Length: "@ + decimal_text(body_len) + "\r\n\r\n"@
}

/// The `GET` request carries its target and host verbatim: after `GET ` comes
/// exactly `path`, then ` HTTP/1.1\r\nHost: `, then exactly `host`, whatever
/// characters they hold.
pub proof fn lemma_get_request_carries_target(host: Seq<char>, path: Seq<char>)
    ensures
        ({
            let t = get_request_text(host, path);
            let a = "GET "@;
            let b = " HTTP/1.1\r\nHost: "@;
            let i = a.len() + path.len();
            let j = i + b.len();
            &&& t.take(a.len() as int) == a
            &&& t.subrange(a.len() as int, i as int) == path
            &&& t.subrange(i as int, j as int) == b
            &&& t.subrange(j as int, (j + host.len()) as int) == host
        }),
{
    let t = get_request_text(host, path);
    let a = "GET "@;
    let b = " HTTP/1.1\r\nHost: "@;
    let c = "\r\nConnection: close\r\nUser-Agent: otelwasm-rust-sdk\r\n\r\n"@;
    assert(t == a + path + b + host + c);
    let i = a.len() + path.len();
    let j = i + b.len();
    assert(t.take(a.len() as int) =~= a);
    assert(t.subrange(a.len() as int, i as int) =~= path);
    assert(t.subrange(i as int, j as int) =~= b);
    assert(t.subrange(j as int, (j + host.len()) as int) =~= host);
}

/// The `POST` head carries its target verbatim after `POST `, and ends with a
/// `Content-Length` field whose digits read back as the body length, for
/// every length.
pub proof fn lemma_post_head_carries_target_and_length(
    host: Seq<char>,
    path: Seq<char>,
    content_type: Seq<char>,
    body_len: nat,
)
    ensures
        ({
            let t = post_request_head_text(host, path, content_type, body_len as int);
            let a = "POST "@;
            let tail = "\r\nContent-Length: "@ + decimal_digits(body_len) + "\r\n\r\n"@;
            &&& t.take(a.len() as int) == a
            &&& t.subrange(a.len() as int, (a.len() + path.len()) as int) == path
            &&& t[(a.len() + path.len()) as int] == ' '
            &&& t.len() >= tail.len()
            &&& t.skip(t.len() - tail.len()) == tail
        }),
        digits_value(decimal_digits(body_len)) == body_len,
{
    let t = post_request_head_text(host, path, content_type, body_len as int);
    let a = "POST "@;
    let b = " HTTP/1.1\r\nHost: "@;
    let m = "\r\nConnection: close\r\nUser-Agent: otelwasm-rust-sdk\r\nContent-Type: "@;
    let d = decimal_digits(body_len);
    let tail = "\r\nContent-Length: "@ + d + "\r\n\r\n"@;
    let front = a + path + b + host + m + content_type;
    assert(decimal_text(body_len as int) == d);
    assert(t =~= front + tail);
    reveal_strlit(" HTTP/1.1\r\nHost: ");
    assert(t.take(a.len() as int) =~= a);
    assert(t.subrange(a.len() as int, (a.len() + path.len()) as int) =~= path);
    assert(t[(a.len() + path.len()) as int] == b[0]);
    assert(t.skip(t.len() - tail.len()) =~= tail);
    lemma_decimal_digits_value(body_len);
}

/// Builds the `GET` request sent for `path` on `host`.
pub fn format_get_request(host: &str, path: &str) -> (s: String)
    ensures
        s@ == get_request_text(host@, path@),
{
    let mut s = String::from_str("GET ");
    s.append(path);
    s.append(" HTTP/1.1\r\nHost: ");
    s.append(host);
    s.append("\r\nConnection: close\r\nUser-Agent: otelwasm-rust-sdk\r\n\r\n");
    s
}

/// Builds the head of the `POST` request sent for `path` on `host`.
pub fn format_post_request_head(host: &str, path: &str, content_type: &str, body_len: usize) -> (s: String)
    ensures
        s@ == post_request_head_text(host@, path@, content_type@, body_len as int),
{
    let mut s = String::from_str("POST ");
    s.append(path);
    s.append(" HTTP/1.1\r\nHost: ");
    s.append(host);
    s.append("\r\nConnection: close\r\nUser-Agent: otelwasm-rust-sdk\r\nContent-Type: ");
    s.append(content_type);
    s.append("\r\nContent-Length: ");
    push_decimal_digits(&mut s, body_len as u64);
    s.append("\r\n\r\n");
    s
}

/// Whether `r` holds `\r\n\r\n` at index `i`.
pub open spec fn terminator_at(r: Seq<u8>, i: int) -> bool {
    &&& 0 <= i
    &&& i + 4 <= r.len()
    &&& r[i] == 13u8
    &&& r[i + 1] == 10u8
    &&& r[i + 2] == 13u8
    &&& r[i + 3] == 10u8
}

/// First index at or after `i` where `\r\n\r\n` starts, if any.
pub open spec fn find_terminator_from(r: Seq<u8>, i: int) -> Option<int>
    decreases r.len() - i,
{
    if i < 0 || i + 4 > r.len() {
        None
    } else if terminator_at(r, i) {
        Some(i)
    } else {
        find_terminator_from(r, i + 1)
    }
}

/// The first line of `s` as `str::lines` yields it: up to the first `\n`,
/// without the `\r` before that `\n`; `None` for empty text.
pub open spec fn first_line(s: Seq<char>) -> Option<Seq<char>> {
    if s.len() == 0 {
        None
    } else {
        let nl = find_char_from(s, '\n', 0);
        if nl < s.len() {
            let line = s.take(nl);
            if line.len() > 0 && line.last() == '\r' {
                Some(line.drop_last())
            } else {
                Some(line)
            }
        } else {
            Some(s)
        }
    }
}

/// What `parse_status_code` makes of a response head: the second
/// whitespace-separated word of its first line, read as a `u16`.
pub open spec fn parse_status_code_spec(s: Seq<char>) -> Result<u16, Seq<char>> {
    match first_line(s) {
        None => Err("empty HTTP response"@),
        Some(line) => {
            let a = skip_whitespace_from(line, 0);
            if a >= line.len() {
                Err("malformed HTTP status line"@)
            } else {
                let b = token_end_from(line, a);
                let c = skip_whitespace_from(line, b);
                if c >= line.len() {
                    Err("missing HTTP status code"@)
                } else {
                    let d = token_end_from(line, c);
                    match parse_u16_spec(line.subrange(c, d)) {
                        Ok(v) => Ok(v),
                        Err(e) => Err("invalid HTTP status code: "@ + int_error_message(e)),
                    }
                }
            }
        },
    }
}

/// A status line `version code ...` yields `code`, whatever follows the code
/// after whitespace (the rest of the line, further header lines).
pub proof fn lemma_status_line_code(version: Seq<char>, code: u16, rest: Seq<char>)
    requires
        version.len() > 0,
        forall|i: int| 0 <= i < version.len() ==> !is_whitespace(version[i]),
        rest.len() == 0 || is_whitespace(rest[0]),
    ensures
        parse_status_code_spec(version + seq![' '] + decimal_digits(code as nat) + rest) == Ok::<
            u16,
            Seq<char>,
        >(code),
{
    let d = decimal_digits(code as nat);
    let s = version + seq![' '] + d + rest;
    let v = version.len() as int;
    let l0 = (version.len() + 1 + d.len()) as int;
    lemma_decimal_digits_are_digits(code as nat);
    assert forall|j: int| 0 <= j < l0 implies s[j] != '\n' && (j != v ==> !is_whitespace(s[j]))
        && (j == v ==> is_whitespace(s[j])) by {
        if j < v {
            assert(s[j] == version[j]);
        } else if j > v {
            assert(s[j] == d[j - v - 1]);
        }
    }
    let nl = find_char_from(s, '\n', 0);
    lemma_find_char_from_bounds(s, '\n', 0);
    assert(nl >= l0);
    let line = first_line(s)->Some_0;
    let e = line.len() as int;
    assert(e >= l0 && forall|j: int| 0 <= j < e ==> line[j] == s[j]) by {
        if nl < s.len() {
            if nl == l0 {
                assert(s[nl - 1] == d[d.len() - 1]);
            }
        }
    }
    assert(l0 < e ==> line[l0] == rest[0]);
    lemma_skip_whitespace_at(line, 0, 0);
    lemma_token_end_at(line, 0, v);
    lemma_skip_whitespace_at(line, v, v + 1);
    lemma_token_end_at(line, v + 1, l0);
    assert(line.subrange(v + 1, l0) =~= d);
    lemma_parse_u16_of_decimal(code);
}

/// Reads the status code from the head of an HTTP response.
pub fn parse_status_code(response: &str) -> (r: Result<u16, String>)
    ensures
        match parse_status_code_spec(response@) {
            Ok(v) => r == Ok::<u16, String>(v),
            Err(msg) => r matches Err(e) && e@ == msg,
        },
{
    let ghost s = response@;
    let n = response.unicode_len();
    if n == 0 {
        return Err(String::from_str("empty HTTP response"));
    }
    let mut nl: usize = 0;
    while nl < n && response.get_char(nl) != '\n'
        invariant
            nl <= n == s.len(),
            s == response@,
            find_char_from(s, '\n', nl as int) == find_char_from(s, '\n', 0),
        decreases n - nl,
    {
        nl = nl + 1;
    }
    assert(find_char_from(s, '\n', nl as int) == nl as int);
    let mut line_end: usize = nl;
    if nl < n && nl > 0 && response.get_char(nl - 1) == '\r' {
        line_end = nl - 1;
    }
    let line = response.substring_char(0, line_end);
    let ghost l = line@;
    assert(first_line(s) == Some(l)) by {
        if nl < n {
            if line_end < nl {
                assert(s.take(nl as int).drop_last() =~= l);
            } else {
                assert(s.take(nl as int) =~= l);
            }
        } else {
            assert(s =~= l);
        }
    }
    let len = line.unicode_len();
    // First word.
    let mut a: usize = 0;
    while a < len && char_is_whitespace(line.get_char(a))
        invariant
            a <= len == l.len(),
            l == line@,
            skip_whitespace_from(l, a as int) == skip_whitespace_from(l, 0),
        decreases len - a,
    {
        a = a + 1;
    }
    if a >= len {
        return Err(String::from_str("malformed HTTP status line"));
    }
    let mut b: usize = a;
    while b < len && !char_is_whitespace(line.get_char(b))
        invariant
            a <= b <= len == l.len(),
            l == line@,
            token_end_from(l, b as int) == token_end_from(l, a as int),
        decreases len - b,
    {
        b = b + 1;
    }
    // Second word.
    let mut c: usize = b;
    while c < len && char_is_whitespace(line.get_char(c))
        invariant
            b <= c <= len == l.len(),
            l == line@,
            skip_whitespace_from(l, c as int) == skip_whitespace_from(l, b as int),
        decreases len - c,
    {
        c = c + 1;
    }
    if c >= len {
        return Err(String::from_str("missing HTTP status code"));
    }
    let mut d: usize = c;
    while d < len && !char_is_whitespace(line.get_char(d))
        invariant
            c <= d <= len == l.len(),
            l == line@,
            token_end_from(l, d as int) == token_end_from(l, c as int),
        decreases len - d,
    {
        d = d + 1;
    }
    match parse_u16_range(line, c, d) {
        Ok(v) => Ok(v),
        Err(e) => {
            let mut msg = String::from_str("invalid HTTP status code: ");
            let m = e.message();
            msg.append(m.as_str());
            Err(msg)
        },
    }
}

/// The text that `std::str::from_utf8` gives, through `Display`, for the error
/// on `bytes` (its content depends on where the first bad sequence starts).
pub uninterp spec fn utf8_error_text(bytes: Seq<u8>) -> Seq<char>;

/// `std::str::from_utf8`: succeeds exactly on well-formed UTF-8 and then
/// decodes it; on failure it hands back the error's `Display` text.
#[verifier::external_body]
fn decode_utf8_text(bytes: &[u8]) -> (r: Result<String, String>)
    ensures
        match r {
            Ok(s) => valid_utf8(bytes@) && s@ == decode_utf8(bytes@),
            Err(e) => !valid_utf8(bytes@) && e@ == utf8_error_text(bytes@),
        },
{
    match std::str::from_utf8(bytes) {
        Ok(s) => Ok(s.to_string()),
        Err(e) => Err(e.to_string()),
    }
}

/// What `parse_http_response` makes of a raw response: the status code read
/// from the head (which must be UTF-8) and the bytes after the first `\r\n\r\n`.
pub open spec fn parse_http_response_spec(r: Seq<u8>) -> Result<(u16, Seq<u8>), Seq<char>> {
    match find_terminator_from(r, 0) {
        None => Err("malformed HTTP response (missing header terminator)"@),
        Some(h) => {
            let header = r.take(h);
            if !valid_utf8(header) {
                Err("response header was not valid UTF-8: "@ + utf8_error_text(header))
            } else {
                match parse_status_code_spec(decode_utf8(header)) {
                    Ok(code) => Ok((code, r.skip(h + 4))),
                    Err(msg) => Err(msg),
                }
            }
        },
    }
}

proof fn lemma_find_terminator_after_head(head: Seq<u8>, body: Seq<u8>, i: int)
    requires
        0 <= i <= head.len(),
        forall|j: int| 0 <= j < head.len() ==> head[j] != 13u8,
    ensures
        find_terminator_from(head + seq![13u8, 10u8, 13u8, 10u8] + body, i) == Some(
            head.len() as int,
        ),
    decreases head.len() - i,
{
    let r = head + seq![13u8, 10u8, 13u8, 10u8] + body;
    if i < head.len() {
        assert(r[i] == head[i]);
        lemma_find_terminator_after_head(head, body, i + 1);
    } else {
        assert(r[i] == 13u8 && r[i + 1] == 10u8 && r[i + 2] == 13u8 && r[i + 3] == 10u8);
    }
}

/// A response whose head holds no carriage return is split right after the
/// head: the body is everything past the blank line, byte for byte, and the
/// status comes from the head alone.
pub proof fn lemma_http_response_body(head: Seq<u8>, body: Seq<u8>)
    requires
        forall|j: int| 0 <= j < head.len() ==> head[j] != 13u8,
        valid_utf8(head),
    ensures
        parse_http_response_spec(head + seq![13u8, 10u8, 13u8, 10u8] + body) == match parse_status_code_spec(
            decode_utf8(head),
        ) {
            Ok(code) => Ok::<(u16, Seq<u8>), Seq<char>>((code, body)),
            Err(msg) => Err(msg),
        },
{
    let r = head + seq![13u8, 10u8, 13u8, 10u8] + body;
    lemma_find_terminator_after_head(head, body, 0);
    assert(r.take(head.len() as int) =~= head);
    assert(r.skip(head.len() + 4int) =~= body);
}

/// Splits a raw HTTP response into status code and body.
pub fn parse_http_response(response: &[u8]) -> (r: Result<(u16, Vec<u8>), String>)
    ensures
        match parse_http_response_spec(response@) {
            Ok((code, body)) => r matches Ok((c, b)) && c == code && b@ == body,
            Err(msg) => r matches Err(e) && e@ == msg,
        },
{
    let ghost s = response@;
    let n = response.len();
    let mut i: usize = 0;
    let mut found = false;
    while n >= 4 && i <= n - 4 && !found
        invariant
            n == s.len(),
            s == response@,
            found ==> i + 4 <= n && terminator_at(s, i as int),
            find_terminator_from(s, i as int) == find_terminator_from(s, 0),
        decreases n - i, if found { 0int } else { 1int },
    {
        if response[i] == 13 && response[i + 1] == 10 && response[i + 2] == 13 && response[i + 3]
            == 10 {
            found = true;
        } else {
            i = i + 1;
        }
    }
    if !found {
        return Err(String::from_str("malformed HTTP response (missing header terminator)"));
    }
    let header_bytes = &response[0..i];
    assert(header_bytes@ =~= s.take(i as int));
    let header = match decode_utf8_text(header_bytes) {
        Ok(h) => h,
        Err(e) => {
            let mut msg = String::from_str("response header was not valid UTF-8: ");
            msg.append(e.as_str());
            return Err(msg);
        },
    };
    let status = match parse_status_code(header.as_str()) {
        Ok(v) => v,
        Err(e) => return Err(e),
    };
    let body = vstd::slice::slice_to_vec(&response[i + 4..n]);
    assert(body@ =~= s.skip(i + 4));
    Ok((status, body))
}

/// Status code of a `GET` of `url`. Without the WASI socket extension it fails.
pub fn http_get_status(url: &str) -> (r: Result<u16, String>)
    ensures
        r matches Err(e) && e@ == "socket-extension is only available for wasm32 targets"@,
{
    Err(String::from_str("socket-extension is only available for wasm32 targets"))
}

/// Status code and body of a `GET` of `url`. Without the WASI socket extension it fails.
pub fn http_get_body(url: &str) -> (r: Result<(u16, Vec<u8>), String>)
    ensures
        r matches Err(e) && e@ == "socket-extension is only available for wasm32 targets"@,
{
    Err(String::from_str("socket-extension is only available for wasm32 targets"))
}

/// Status code of a `POST` of `body` to `url`. Without the WASI socket extension it fails.
pub fn http_post_status(url: &str, body: &[u8], content_type: &str) -> (r: Result<u16, String>)
    ensures
        r matches Err(e) && e@ == "socket-extension is only available for wasm32 targets"@,
{
    Err(String::from_str("socket-extension is only available for wasm32 targets"))
}

} // verus!
