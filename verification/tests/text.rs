use http_client::method::Method;
use http_client::text::{bytes_eq, decimal_string, parse_number, push_decimal, push_text, str_eq};
use http_client::version::Version;

#[test]
fn decimal_of_numbers() {
    assert_eq!(decimal_string(0), "0");
    assert_eq!(decimal_string(7), "7");
    assert_eq!(decimal_string(10), "10");
    assert_eq!(decimal_string(27), "27");
    assert_eq!(decimal_string(65535), "65535");
    assert_eq!(decimal_string(usize::MAX), usize::MAX.to_string());
}

#[test]
fn push_decimal_appends() {
    let mut text = String::from("port ");
    push_decimal(&mut text, 8080);
    assert_eq!(text, "port 8080");
}

#[test]
fn parse_number_reads_digits() {
    assert_eq!(parse_number(b"0"), Some(0));
    assert_eq!(parse_number(b"27"), Some(27));
    assert_eq!(parse_number(b"+27"), Some(27));
    assert_eq!(parse_number(b"007"), Some(7));
    assert_eq!(parse_number(usize::MAX.to_string().as_bytes()), Some(usize::MAX));
}

#[test]
fn parse_number_refuses_what_is_no_number() {
    assert_eq!(parse_number(b""), None);
    assert_eq!(parse_number(b"+"), None);
    assert_eq!(parse_number(b"-1"), None);
    assert_eq!(parse_number(b" 1"), None);
    assert_eq!(parse_number(b"1 "), None);
    assert_eq!(parse_number(b"12a"), None);
    assert_eq!(parse_number(b"++1"), None);
    assert_eq!(parse_number(b"18446744073709551616"), None);
    assert_eq!(parse_number(b"99999999999999999999999"), None);
}

#[test]
fn parse_number_agrees_with_std() {
    for text in ["0", "+5", "", "+", "-0", "42", "4 2", "18446744073709551615", "18446744073709551616"] {
        assert_eq!(parse_number(text.as_bytes()), text.parse::<usize>().ok());
    }
}

#[test]
fn decimal_is_read_back() {
    for n in [0usize, 1, 9, 10, 99, 100, 12345, usize::MAX] {
        assert_eq!(parse_number(decimal_string(n).as_bytes()), Some(n));
    }
}

#[test]
fn equality_of_text_and_bytes() {
    assert!(str_eq("abc", "abc"));
    assert!(!str_eq("abc", "abd"));
    assert!(!str_eq("abc", "ab"));
    assert!(bytes_eq(b"", b""));
    assert!(!bytes_eq(b"a", b""));
}

#[test]
fn push_text_appends_utf8() {
    let mut buffer = vec![1u8];
    push_text(&mut buffer, "h\u{e9}");
    assert_eq!(buffer, vec![1u8, b'h', 0xc3, 0xa9]);
}

#[test]
fn method_tokens() {
    assert_eq!(Method::GET.as_str(), "GET");
    assert_eq!(Method::DELETE.as_str(), "DELETE");
    assert_eq!(Method::parse("POST"), Some(Method::POST));
    assert_eq!(Method::parse("post"), None);
    assert_eq!(Method::parse(""), None);
    for method in [
        Method::GET,
        Method::HEAD,
        Method::POST,
        Method::PUT,
        Method::DELETE,
        Method::CONNECT,
        Method::OPTIONS,
        Method::TRACE,
        Method::PATCH,
    ] {
        assert_eq!(Method::parse(method.as_str()), Some(method));
    }
}

#[test]
fn version_tokens() {
    assert_eq!(Version::Http11.as_str(), "HTTP/1.1");
    assert_eq!(Version::Http10.as_str(), "HTTP/1.0");
    assert_eq!(Version::parse("HTTP/1.0"), Some(Version::Http10));
    assert_eq!(Version::parse("HTTP/1.1"), Some(Version::Http11));
    assert_eq!(Version::parse("HTTP/2"), None);
    assert_eq!(Version::parse("http/1.1"), None);
}
