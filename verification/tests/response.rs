use http_client::chunked::read_chunked_body;
use http_client::error::Error;
use http_client::lines::{copy_range, find, find_line_end, read_field, read_field_block, Scan};
use http_client::response::Response;
use http_client::status::{Status, StatusClass};
use http_client::version::Version;

fn done(bytes: &[u8], at_end: bool) -> Response {
    Response::parse(bytes, at_end).unwrap().unwrap()
}

#[test]
fn response_with_content_length() {
    let bytes = b"HTTP/1.1 200 OK\r\nContent-Type: text/plain\r\ncontent-length: 5\r\n\r\nhello";
    let response = done(bytes, false);
    assert_eq!(response.version, Version::Http11);
    assert_eq!(response.status.code, 200);
    assert_eq!(response.status.reason, "OK");
    assert_eq!(response.status.class(), StatusClass::Success);
    assert_eq!(response.headers.get("Content-Type"), Some("text/plain".to_string()));
    assert_eq!(response.headers.len(), 2);
    assert_eq!(response.body, b"hello".to_vec());
}

#[test]
fn response_body_stops_at_content_length() {
    let response = done(b"HTTP/1.0 404 Not Found\r\nContent-Length: 2\r\n\r\nabcdef", true);
    assert_eq!(response.version, Version::Http10);
    assert_eq!(response.status.code, 404);
    assert_eq!(response.status.reason, "Not Found");
    assert_eq!(response.body, b"ab".to_vec());
}

#[test]
fn response_needs_more_until_complete() {
    let full: &[u8] = b"HTTP/1.1 200 OK\r\nContent-Length: 5\r\n\r\nhello";
    for cut in 0..full.len() {
        assert!(matches!(Response::parse(&full[..cut], false), Ok(None)), "cut at {}", cut);
        assert!(
            matches!(Response::parse(&full[..cut], true), Err(Error::MalformedResponse)),
            "cut at {}",
            cut
        );
    }
    assert!(matches!(Response::parse(full, false), Ok(Some(_))));
}

#[test]
fn response_until_close() {
    let bytes = b"HTTP/1.1 200 OK\r\nServer: x\r\n\r\nall of it";
    assert!(matches!(Response::parse(bytes, false), Ok(None)));
    let response = done(bytes, true);
    assert_eq!(response.body, b"all of it".to_vec());
    let response = done(b"HTTP/1.1 204 No Content\r\n\r\n", true);
    assert_eq!(response.body, Vec::<u8>::new());
    assert_eq!(response.headers.len(), 0);
}

#[test]
fn response_chunked() {
    let bytes = b"HTTP/1.1 200 OK\r\nTransfer-Encoding: Chunked\r\nContent-Length: 1\r\n\r\n4\r\nWiki\r\n5;x=y\r\npedia\r\nE\r\n in\r\n\r\nchunks.\r\n0\r\n\r\n";
    let response = done(bytes, false);
    assert_eq!(response.body, b"Wikipedia in\r\n\r\nchunks.".to_vec());
}

#[test]
fn response_without_reason() {
    let response = done(b"HTTP/1.1 301\r\nLocation: /next\r\nContent-Length: 0\r\n\r\n", false);
    assert_eq!(response.status.code, 301);
    assert_eq!(response.status.reason, "");
    assert!(response.status.is_redirection());
    assert_eq!(response.location(), Some("/next".to_string()));
    let response = done(b"HTTP/1.1 301 \r\nContent-Length: 0\r\n\r\n", false);
    assert_eq!(response.status.reason, "");
    assert_eq!(response.location(), None);
    let response = done(b"HTTP/1.1 200 OK\r\nLocation: /next\r\nContent-Length: 0\r\n\r\n", false);
    assert_eq!(response.location(), None);
}

#[test]
fn malformed_responses() {
    for bytes in [
        &b"HTTP/2 200 OK\r\n\r\n"[..],
        b"HTTP/1.1 20 OK\r\n\r\n",
        b"HTTP/1.1 2000 OK\r\n\r\n",
        b"HTTP/1.1 2x0 OK\r\n\r\n",
        b"HTTP/1.1\r\n\r\n",
        b"\r\n\r\n",
        b"HTTP/1.1 200 OK\r\nno colon here\r\n\r\n",
        b"HTTP/1.1 200 OK\r\nContent-Length: many\r\n\r\n",
        b"HTTP/1.1 200 OK\r\nContent-Length: -1\r\n\r\n",
        b"HTTP/1.1 200 OK\r\nX: \xff\r\n\r\n",
        b"HTTP/1.1 200 \xff\r\n\r\n",
        b"HTTP/1.1 200 OK\r\nTransfer-Encoding: chunked\r\n\r\nzz\r\n",
        b"HTTP/1.1 200 OK\r\nTransfer-Encoding: chunked\r\n\r\n2\r\nabcd\r\n0\r\n\r\n",
    ] {
        assert!(matches!(Response::parse(bytes, false), Err(Error::MalformedResponse)));
        assert!(matches!(Response::parse(bytes, true), Err(Error::MalformedResponse)));
    }
}

#[test]
fn repeated_field_keeps_the_last_value_in_the_first_place() {
    let response = done(b"HTTP/1.1 200 OK\r\nA: 1\r\nB: 2\r\na: 3\r\n\r\n", true);
    assert_eq!(
        response.headers.iter(),
        vec![("A".to_string(), "3".to_string()), ("B".to_string(), "2".to_string())]
    );
}

#[test]
fn field_values_are_trimmed() {
    assert_eq!(read_field(b"Name: \t value \t ", 0, 16), Some(("Name".to_string(), "value".to_string())));
    assert_eq!(read_field(b"Name:value", 0, 10), Some(("Name".to_string(), "value".to_string())));
    assert_eq!(read_field(b"Name:", 0, 5), Some(("Name".to_string(), "".to_string())));
    assert_eq!(read_field(b"Name:   ", 0, 8), Some(("Name".to_string(), "".to_string())));
    assert_eq!(read_field(b"a:b:c", 0, 5), Some(("a".to_string(), "b:c".to_string())));
    assert_eq!(read_field(b"xxa:byy", 2, 5), Some(("a".to_string(), "b".to_string())));
    assert_eq!(read_field(b"Name", 0, 4), None);
}

#[test]
fn line_scanning() {
    assert_eq!(find_line_end(b"ab\r\ncd", 0), 2);
    assert_eq!(find_line_end(b"ab\r\ncd", 3), 6);
    assert_eq!(find_line_end(b"ab\rcd\n", 0), 6);
    assert_eq!(find_line_end(b"ab\r", 0), 3);
    assert_eq!(find_line_end(b"\r\n", 0), 0);
    assert_eq!(find(b"a b c", b' ', 0, 5), 1);
    assert_eq!(find(b"a b c", b' ', 2, 5), 3);
    assert_eq!(find(b"a b c", b'x', 0, 5), 5);
    assert_eq!(find(b"a b c", b'c', 0, 4), 4);
    assert_eq!(copy_range(b"abcdef", 2, 4), b"cd".to_vec());
}

#[test]
fn field_block_outcomes() {
    match read_field_block(b"A: 1\r\nB: 2\r\n\r\nrest", 0) {
        Scan::Done((headers, next)) => {
            assert_eq!(headers.len(), 2);
            assert_eq!(next, 14);
        }
        other => panic!("unexpected: {:?}", other),
    }
    assert!(matches!(read_field_block(b"A: 1\r\nB: 2\r\n", 0), Scan::More));
    assert!(matches!(read_field_block(b"A: 1\r\nB 2\r\n\r\n", 0), Scan::Bad));
    assert!(matches!(read_field_block(b"", 0), Scan::More));
    assert!(matches!(read_field_block(b"\r\n", 0), Scan::Done(_)));
}

#[test]
fn chunked_outcomes() {
    assert!(matches!(read_chunked_body(b"0\r\n", 0), Scan::Done(body) if body.is_empty()));
    assert!(matches!(read_chunked_body(b"3\r\nabc\r\n0\r\n\r\n", 0), Scan::Done(body) if body == b"abc"));
    assert!(matches!(read_chunked_body(b"A\r\n0123456789\r\n0\r\n", 0), Scan::Done(body) if body == b"0123456789"));
    assert!(matches!(read_chunked_body(b"a\r\n0123456789\r\n00\r\n", 0), Scan::Done(body) if body == b"0123456789"));
    assert!(matches!(read_chunked_body(b"3\r\nab", 0), Scan::More));
    assert!(matches!(read_chunked_body(b"3\r\nabc\r\n", 0), Scan::More));
    assert!(matches!(read_chunked_body(b"3", 0), Scan::More));
    assert!(matches!(read_chunked_body(b"ffffffffffffffffff\r\nabc\r\n", 0), Scan::More));
    assert!(matches!(read_chunked_body(b"\r\nabc\r\n", 0), Scan::Bad));
    assert!(matches!(read_chunked_body(b"3\r\nabcde\r\n", 0), Scan::Bad));
    assert!(matches!(read_chunked_body(b"g\r\nabc\r\n", 0), Scan::Bad));
    assert!(matches!(read_chunked_body(b";x\r\nabc\r\n", 0), Scan::Bad));
}

#[test]
fn status_classes() {
    let class = |code: u16| Status { code, reason: String::new() }.class();
    assert_eq!(class(100), StatusClass::Informational);
    assert_eq!(class(199), StatusClass::Informational);
    assert_eq!(class(200), StatusClass::Success);
    assert_eq!(class(302), StatusClass::Redirection);
    assert_eq!(class(404), StatusClass::ClientError);
    assert_eq!(class(503), StatusClass::ServerError);
    assert_eq!(class(99), StatusClass::Unknown);
    assert_eq!(class(600), StatusClass::Unknown);
}
