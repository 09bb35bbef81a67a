use hello_server::config::{parse_port, resolve_port, PortError, DEFAULT_PORT};
use hello_server::routing::{hello, route, str_equal};

#[test]
fn parses_plain_port() {
    assert_eq!(parse_port("8080"), Ok(8080));
    assert_eq!(parse_port("3000"), Ok(3000));
    assert_eq!(parse_port("80"), Ok(80));
}

#[test]
fn parses_bounds() {
    assert_eq!(parse_port("0"), Ok(0));
    assert_eq!(parse_port("65535"), Ok(65535));
}

#[test]
fn parses_leading_zeros_and_sign() {
    assert_eq!(parse_port("08080"), Ok(8080));
    assert_eq!(parse_port("000"), Ok(0));
    assert_eq!(parse_port("+3000"), Ok(3000));
    assert_eq!(parse_port("+0"), Ok(0));
}

#[test]
fn rejects_empty() {
    assert_eq!(parse_port(""), Err(PortError::Empty));
}

#[test]
fn rejects_non_numeric() {
    assert_eq!(parse_port("abc"), Err(PortError::InvalidDigit));
    assert_eq!(parse_port("12a"), Err(PortError::InvalidDigit));
    assert_eq!(parse_port("a12"), Err(PortError::InvalidDigit));
    assert_eq!(parse_port(" 80"), Err(PortError::InvalidDigit));
    assert_eq!(parse_port("80 "), Err(PortError::InvalidDigit));
    assert_eq!(parse_port("-1"), Err(PortError::InvalidDigit));
    assert_eq!(parse_port("+"), Err(PortError::InvalidDigit));
    assert_eq!(parse_port("++1"), Err(PortError::InvalidDigit));
    assert_eq!(parse_port("8.0"), Err(PortError::InvalidDigit));
}

#[test]
fn rejects_out_of_range() {
    assert_eq!(parse_port("65536"), Err(PortError::TooLarge));
    assert_eq!(parse_port("70000"), Err(PortError::TooLarge));
    assert_eq!(parse_port("99999999999999999999"), Err(PortError::TooLarge));
}

#[test]
fn agrees_with_unsigned_parsing() {
    let samples = [
        "", "+", "0", "8080", "+8080", "65535", "65536", "99999", "abc", "12a", "-1", " 80",
        "08080", "99999999999999999999",
    ];
    for s in samples {
        assert_eq!(parse_port(s).ok(), s.parse::<u16>().ok(), "on input {:?}", s);
    }
}

#[test]
fn unset_port_defaults_to_8080() {
    assert_eq!(resolve_port(None), Ok(8080));
    assert_eq!(DEFAULT_PORT, 8080);
}

#[test]
fn set_port_is_parsed() {
    assert_eq!(resolve_port(Some("3000")), Ok(3000));
    assert_eq!(resolve_port(Some("abc")), Err(PortError::InvalidDigit));
    assert_eq!(resolve_port(Some("")), Err(PortError::Empty));
    assert_eq!(resolve_port(Some("65536")), Err(PortError::TooLarge));
}

#[test]
fn error_messages_name_the_cause() {
    assert_eq!(PortError::Empty.message(), "PORT is empty");
    assert_eq!(PortError::InvalidDigit.message(), "PORT is not a number");
    assert_eq!(
        PortError::TooLarge.message(),
        "PORT is out of range for a 16-bit port"
    );
}

#[test]
fn root_get_answers_greeting() {
    let resp = route("GET", "/").expect("GET / is routed");
    assert_eq!(resp.status, 200);
    assert_eq!(resp.body, "Hello from Rust on Cloud Foundry!");
}

#[test]
fn root_get_is_idempotent() {
    for _ in 0..3 {
        let resp = route("GET", "/").expect("GET / is routed");
        assert_eq!(resp.status, 200);
        assert_eq!(resp.body, "Hello from Rust on Cloud Foundry!");
    }
}

#[test]
fn hello_is_the_root_response() {
    let resp = hello();
    assert_eq!(resp.status, 200);
    assert_eq!(resp.body, "Hello from Rust on Cloud Foundry!");
}

#[test]
fn other_paths_are_not_routed() {
    assert!(route("GET", "/missing").is_none());
    assert!(route("GET", "").is_none());
    assert!(route("GET", "//").is_none());
    assert!(route("GET", "/index.html").is_none());
}

#[test]
fn other_methods_are_not_routed() {
    assert!(route("POST", "/").is_none());
    assert!(route("PUT", "/").is_none());
    assert!(route("get", "/").is_none());
    assert!(route("", "/").is_none());
}

#[test]
fn string_equality_is_exact() {
    assert!(str_equal("GET", "GET"));
    assert!(str_equal("", ""));
    assert!(!str_equal("GET", "GE"));
    assert!(!str_equal("GET", "GEt"));
    assert!(!str_equal("", "/"));
}
