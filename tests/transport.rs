use http_client::transport::{uri_to_transport_addr, TransportAddrError};

#[test]
fn test_uri_to_transport_addr_ws() {
    assert_eq!(
        uri_to_transport_addr("ws://localhost:8080/rsocket").unwrap(),
        "ws://localhost:8080/rsocket"
    );
}

#[test]
fn test_uri_to_transport_addr_wss() {
    assert_eq!(
        uri_to_transport_addr("wss://example.com/rsocket").unwrap(),
        "wss://example.com/rsocket"
    );
}

#[test]
fn test_uri_to_transport_addr_rs_converted_to_ws() {
    assert_eq!(
        uri_to_transport_addr("rs://localhost:7878").unwrap(),
        "ws://localhost:7878"
    );
}

#[test]
fn test_uri_to_transport_addr_tcp_converted_to_ws() {
    assert_eq!(
        uri_to_transport_addr("tcp://127.0.0.1:7878").unwrap(),
        "ws://127.0.0.1:7878"
    );
}

#[test]
fn test_uri_to_transport_addr_plain_prefixed_with_ws() {
    assert_eq!(
        uri_to_transport_addr("localhost:8080").unwrap(),
        "ws://localhost:8080"
    );
}

#[test]
fn test_uri_to_transport_addr_trimmed() {
    assert_eq!(
        uri_to_transport_addr("  ws://host:90  ").unwrap(),
        "ws://host:90"
    );
}

#[test]
fn test_uri_to_transport_addr_unsupported_scheme() {
    assert!(uri_to_transport_addr("http://example.com").is_err());
    assert!(uri_to_transport_addr("https://example.com").is_err());
    assert!(uri_to_transport_addr("ftp://host/path").is_err());
}

#[test]
fn unsupported_scheme_error_value() {
    assert_eq!(uri_to_transport_addr("ftp://h"), Err(TransportAddrError::UnsupportedScheme));
}
