use std::time::Duration;

use otelwasm_rust_sdk::{SocketAddress, SocketError, TcpStream};

#[test]
fn socket_address_parses_host_port() {
    let address = SocketAddress::parse("127.0.0.1:4318").expect("valid address");
    assert_eq!(address.host(), "127.0.0.1");
    assert_eq!(address.port(), 4318);
}

#[test]
fn socket_address_parses_ipv6_host_port() {
    let address = SocketAddress::parse("[::1]:4318").expect("valid address");
    assert_eq!(address.host(), "[::1]");
    assert_eq!(address.port(), 4318);
}

#[test]
fn socket_address_rejects_missing_port() {
    let error = SocketAddress::parse("127.0.0.1").expect_err("must fail");
    assert!(matches!(error, SocketError::InvalidAddress(_)));
}

#[test]
fn tcp_stream_connect_reports_unsupported_platform() {
    let address = SocketAddress::parse("127.0.0.1:80").expect("valid address");
    let result = TcpStream::connect_timeout(&address, Duration::from_secs(1));
    assert!(matches!(result, Err(SocketError::UnsupportedPlatform)));
}

#[test]
fn socket_address_rejects_empty_host() {
    let error = SocketAddress::parse(":80").unwrap_err();
    assert_eq!(
        error,
        SocketError::InvalidAddress("missing host in socket address: :80".to_string())
    );
}

#[test]
fn socket_address_rejects_bad_ports() {
    assert_eq!(
        SocketAddress::parse("h:").unwrap_err(),
        SocketError::InvalidAddress(
            "invalid port in socket address: cannot parse integer from empty string".to_string()
        )
    );
    assert_eq!(
        SocketAddress::parse("h:65536").unwrap_err(),
        SocketError::InvalidAddress(
            "invalid port in socket address: number too large to fit in target type".to_string()
        )
    );
    assert_eq!(
        SocketAddress::parse("h:8o").unwrap_err(),
        SocketError::InvalidAddress(
            "invalid port in socket address: invalid digit found in string".to_string()
        )
    );
    assert_eq!(
        SocketAddress::parse("h:-1").unwrap_err(),
        SocketError::InvalidAddress(
            "invalid port in socket address: invalid digit found in string".to_string()
        )
    );
}

#[test]
fn socket_address_accepts_plus_sign_and_max_port() {
    let a = SocketAddress::parse("host:+65535").unwrap();
    assert_eq!(a.host(), "host");
    assert_eq!(a.port(), 65535);
}

#[test]
fn socket_address_new_requires_host() {
    let a = SocketAddress::new("example.com".to_string(), 8080).unwrap();
    assert_eq!(a.host(), "example.com");
    assert_eq!(a.port(), 8080);
    assert!(matches!(
        SocketAddress::new(String::new(), 1),
        Err(SocketError::InvalidAddress(_))
    ));
}

#[test]
fn socket_error_messages() {
    assert_eq!(
        SocketError::UnsupportedPlatform.message(),
        "socket-extension is only available for wasm32 targets"
    );
    assert_eq!(
        SocketError::InvalidAddress("x".to_string()).message(),
        "invalid socket address: x"
    );
    assert_eq!(
        SocketError::Io("connection refused".to_string()).message(),
        "socket I/O failed: connection refused"
    );
}
