use otelwasm_rust_sdk::socket::{
    format_get_request, format_post_request_head, parse_http_response, parse_http_url,
    parse_status_code,
};
use otelwasm_rust_sdk::{http_get_body, http_get_status, http_post_status};

#[test]
fn url_with_host_port_and_path() {
    let (host, port, path) = parse_http_url("http://127.0.0.1:4318/v1/traces").unwrap();
    assert_eq!(host, "127.0.0.1");
    assert_eq!(port, 4318);
    assert_eq!(path, "/v1/traces");
}

#[test]
fn url_defaults_port_and_path() {
    assert_eq!(
        parse_http_url("http://example.com").unwrap(),
        ("example.com".to_string(), 80, "/".to_string())
    );
    assert_eq!(
        parse_http_url("http://example.com:8080").unwrap(),
        ("example.com".to_string(), 8080, "/".to_string())
    );
    assert_eq!(
        parse_http_url("http://example.com/a/b?c=d").unwrap(),
        ("example.com".to_string(), 80, "/a/b?c=d".to_string())
    );
}

#[test]
fn url_rejects_other_schemes() {
    assert_eq!(
        parse_http_url("https://example.com").unwrap_err(),
        "only http:// URLs are supported"
    );
    assert_eq!(parse_http_url("http:/").unwrap_err(), "only http:// URLs are supported");
}

#[test]
fn url_requires_host() {
    assert_eq!(parse_http_url("http:///path").unwrap_err(), "URL host is required");
    assert_eq!(parse_http_url("http://").unwrap_err(), "URL host is required");
    assert_eq!(parse_http_url("http://:80/x").unwrap_err(), "URL host is required");
}

#[test]
fn url_rejects_bad_ports() {
    assert_eq!(
        parse_http_url("http://h:abc/").unwrap_err(),
        "invalid port in URL: invalid digit found in string"
    );
    assert_eq!(
        parse_http_url("http://h:99999").unwrap_err(),
        "invalid port in URL: number too large to fit in target type"
    );
    assert_eq!(
        parse_http_url("http://h:/x").unwrap_err(),
        "invalid port in URL: cannot parse integer from empty string"
    );
    // the port is everything after the first ':' of the authority
    assert_eq!(
        parse_http_url("http://h:1:2/x").unwrap_err(),
        "invalid port in URL: invalid digit found in string"
    );
}

#[test]
fn get_request_text() {
    assert_eq!(
        format_get_request("example.com", "/status"),
        "GET /status HTTP/1.1\r\nHost: example.com\r\nConnection: close\r\nUser-Agent: otelwasm-rust-sdk\r\n\r\n"
    );
}

#[test]
fn post_request_head_text() {
    assert_eq!(
        format_post_request_head("127.0.0.1", "/v1/logs", "application/x-protobuf", 1234),
        "POST /v1/logs HTTP/1.1\r\nHost: 127.0.0.1\r\nConnection: close\r\nUser-Agent: otelwasm-rust-sdk\r\nContent-Type: application/x-protobuf\r\nContent-Length: 1234\r\n\r\n"
    );
    assert!(format_post_request_head("h", "/", "t", 0).contains("Content-Length: 0\r\n"));
}

#[test]
fn response_status_and_body() {
    let (status, body) =
        parse_http_response(b"HTTP/1.1 200 OK\r\nContent-Type: text/plain\r\n\r\nhello\r\n\r\nworld")
            .unwrap();
    assert_eq!(status, 200);
    assert_eq!(body, b"hello\r\n\r\nworld".to_vec());
}

#[test]
fn response_with_empty_body() {
    assert_eq!(
        parse_http_response(b"HTTP/1.0 204 No Content\r\n\r\n").unwrap(),
        (204, Vec::new())
    );
}

#[test]
fn response_without_terminator() {
    assert_eq!(
        parse_http_response(b"HTTP/1.1 200 OK\r\n").unwrap_err(),
        "malformed HTTP response (missing header terminator)"
    );
    assert_eq!(
        parse_http_response(b"").unwrap_err(),
        "malformed HTTP response (missing header terminator)"
    );
}

#[test]
fn response_with_invalid_utf8_head() {
    let err = parse_http_response(b"HTTP/1.1 \xff200\r\n\r\n").unwrap_err();
    assert_eq!(
        err,
        "response header was not valid UTF-8: invalid utf-8 sequence of 1 bytes from index 9"
    );
}

#[test]
fn response_status_line_errors() {
    assert_eq!(parse_http_response(b"\r\n\r\n").unwrap_err(), "empty HTTP response");
    assert_eq!(
        parse_http_response(b"   \r\n\r\n").unwrap_err(),
        "malformed HTTP status line"
    );
    assert_eq!(
        parse_http_response(b"HTTP/1.1\r\nX: y\r\n\r\n").unwrap_err(),
        "missing HTTP status code"
    );
    assert_eq!(
        parse_http_response(b"HTTP/1.1 2x0 OK\r\n\r\n").unwrap_err(),
        "invalid HTTP status code: invalid digit found in string"
    );
    assert_eq!(
        parse_http_response(b"HTTP/1.1 70000 Big\r\n\r\n").unwrap_err(),
        "invalid HTTP status code: number too large to fit in target type"
    );
}

#[test]
fn status_code_separated_by_unicode_whitespace() {
    assert_eq!(parse_status_code("HTTP/1.1\u{a0}\u{3000}404\u{2003}Not Found"), Ok(404));
    assert_eq!(parse_status_code("  HTTP/1.1\t+301"), Ok(301));
}

#[test]
fn status_code_reads_only_first_line() {
    assert_eq!(parse_status_code("HTTP/1.1\r\n200"), Err("missing HTTP status code".to_string()));
    assert_eq!(parse_status_code("\nHTTP/1.1 200"), Err("malformed HTTP status line".to_string()));
    assert_eq!(parse_status_code(""), Err("empty HTTP response".to_string()));
}

#[test]
fn http_calls_unavailable_on_this_platform() {
    let msg = "socket-extension is only available for wasm32 targets";
    assert_eq!(http_get_status("http://127.0.0.1/").unwrap_err(), msg);
    assert_eq!(http_get_body("http://127.0.0.1/").unwrap_err(), msg);
    assert_eq!(
        http_post_status("http://127.0.0.1/", b"x", "text/plain").unwrap_err(),
        msg
    );
}
