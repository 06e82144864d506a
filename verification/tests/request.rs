use bytes::Bytes;
use http_client::endpoint::{Endpoint, ProxyTarget};
use http_client::headers::Headers;
use http_client::method::Method;
use http_client::request::Request;
use http_client::version::Version;

const BODY: &str = "<html>hello</html>\r\n\r\nhello";
const CONTENT_LENGTH: usize = 27;

fn endpoint(scheme: &str, host: &str, port: Option<u16>, path: &str, query: Option<&str>) -> Endpoint {
    Endpoint {
        scheme: scheme.to_string(),
        host: host.to_string(),
        port,
        path: path.to_string(),
        query: query.map(|q| q.to_string()),
    }
}

fn proxy(scheme: &str, host: &str, port: Option<u16>) -> ProxyTarget {
    ProxyTarget { scheme: scheme.to_string(), host: host.to_string(), port, credentials: None }
}

#[test]
fn new_request() {
    let uri = endpoint("https", "api.ipify.org", Some(1234), "/123/as", None);
    let mut request = Request::new(&uri, None);
    request.body(Bytes::try_from(BODY).ok());
    assert_eq!(CONTENT_LENGTH, request.content_length());
    assert_eq!(BODY, request.get_body().unwrap().to_owned());
    assert_eq!("/123/as", &request.request_uri());
}

#[test]
fn new_request_has_defaults() {
    let uri = endpoint("https", "api.ipify.org", Some(1234), "/123/as", None);
    let request = Request::new(&uri, None);
    assert_eq!(request.request_line(), "GET /123/as HTTP/1.1\r\n");
    assert_eq!(request.host(), "api.ipify.org:1234");
    assert_eq!(request.get_headers().iter(), vec![("Host".to_string(), "api.ipify.org:1234".to_string())]);
    assert!(request.get_body().is_none());
    assert_eq!(request.content_length(), 0);
    assert_eq!(request.user_agent(), None);
    assert_eq!(request.referer(), None);
}

#[test]
fn host_field_omits_the_default_port() {
    let request = Request::new(&endpoint("http", "example.com", Some(80), "/", None), None);
    assert_eq!(request.get_headers().get("Host"), Some("example.com".to_string()));
    assert_eq!(request.host(), "example.com:80");
    let request = Request::new(&endpoint("https", "example.com", None, "", None), None);
    assert_eq!(request.get_headers().get("Host"), Some("example.com".to_string()));
    assert_eq!(request.host(), "example.com:443");
    assert_eq!(request.request_uri(), "/");
    let request = Request::new(&endpoint("http", "example.com", Some(443), "/", None), None);
    assert_eq!(request.get_headers().get("Host"), Some("example.com:443".to_string()));
}

#[test]
fn target_is_absolute_through_a_forward_proxy() {
    let uri = endpoint("http", "example.com", None, "/a", Some("b=1"));
    let p = proxy("http", "p", Some(8080));
    let request = Request::new(&uri, Some(&p));
    assert_eq!(request.request_uri(), "http://example.com/a?b=1");
    let request = Request::new(&uri, None);
    assert_eq!(request.request_uri(), "/a?b=1");
}

#[test]
fn target_is_origin_form_through_socks() {
    let uri = endpoint("http", "example.com", None, "/a", Some("b=1"));
    let p = proxy("socks5", "p", Some(1080));
    assert_eq!(Request::new(&uri, Some(&p)).request_uri(), "/a?b=1");
    let p = proxy("socks5h", "p", Some(1080));
    assert_eq!(Request::new(&uri, Some(&p)).request_uri(), "/a?b=1");
}

#[test]
fn body_sets_content_length() {
    let uri = endpoint("http", "example.com", None, "/", None);
    let mut request = Request::new(&uri, None);
    request.body(Some(Bytes::from(vec![1u8, 2, 3])));
    assert_eq!(request.content_length(), 3);
    assert_eq!(request.get_headers().get("content-length"), Some("3".to_string()));
    request.body(Some(Bytes::new()));
    assert_eq!(request.content_length(), 0);
    assert_eq!(request.get_headers().get("Content-Length"), Some("0".to_string()));
    assert_eq!(request.get_body(), Some(Bytes::new()));
}

#[test]
fn failed_body_clears_body_and_field() {
    let uri = endpoint("http", "example.com", None, "/", None);
    let mut request = Request::new(&uri, None);
    request.body(Some(Bytes::from_static(b"abc")));
    request.body(None);
    assert_eq!(request.get_body(), None);
    assert_eq!(request.get_headers().get("Content-Length"), None);
    assert_eq!(request.content_length(), 0);
}

#[test]
fn opt_body_none_clears() {
    let uri = endpoint("http", "example.com", None, "/", None);
    let mut request = Request::new(&uri, None);
    request.opt_body(Some(Some(Bytes::from_static(b"abcd"))));
    assert_eq!(request.content_length(), 4);
    request.opt_body(None);
    assert_eq!(request.content_length(), 0);
    assert_eq!(request.get_headers().get("Content-Length"), None);
    assert_eq!(request.get_body(), None);
    request.opt_body(Some(None));
    assert_eq!(request.get_body(), None);
}

#[test]
fn content_length_of_a_bad_value_is_zero() {
    let uri = endpoint("http", "example.com", None, "/", None);
    let mut request = Request::new(&uri, None);
    request.header("Content-Length", "many");
    assert_eq!(request.content_length(), 0);
    request.header("Content-Length", "12");
    assert_eq!(request.content_length(), 12);
    request.header("Content-Length", " 12");
    assert_eq!(request.content_length(), 0);
}

#[test]
fn basic_auth_is_base64_of_name_and_password() {
    let uri = endpoint("http", "example.com", None, "/", None);
    let mut request = Request::new(&uri, None);
    request.set_basic_auth("user", "pass");
    assert_eq!(request.get_headers().get("Authorization"), Some("Basic dXNlcjpwYXNz".to_string()));
    request.set_basic_auth("Aladdin", "open sesame");
    assert_eq!(
        request.get_headers().get("Authorization"),
        Some("Basic QWxhZGRpbjpvcGVuIHNlc2FtZQ==".to_string())
    );
}

#[test]
fn to_vec_is_line_fields_blank_body() {
    let uri = endpoint("http", "example.com", None, "/submit", None);
    let mut request = Request::new(&uri, None);
    request
        .method(Method::POST)
        .version(Version::Http10)
        .header("Content-Type", "a")
        .header("content-type", "b")
        .body(Some(Bytes::from_static(b"hi\r\n")));
    assert_eq!(
        request.to_vec(),
        b"POST /submit HTTP/1.0\r\nHost: example.com\r\nContent-Type: b\r\nContent-Length: 4\r\n\r\nhi\r\n"
            .to_vec()
    );
}

#[test]
fn to_vec_without_body_ends_with_blank_line() {
    let uri = endpoint("http", "example.com", None, "/", None);
    let mut request = Request::new(&uri, None);
    request.header_remove("host");
    assert_eq!(request.to_vec(), b"GET / HTTP/1.1\r\n\r\n".to_vec());
}

#[test]
fn headers_merge_in_order() {
    let uri = endpoint("http", "example.com", None, "/", None);
    let mut request = Request::new(&uri, None);
    let mut extra = Headers::new();
    extra.insert("User-Agent", "probe");
    extra.insert("Referer", "http://a/");
    extra.insert("host", "other");
    request.headers(extra);
    assert_eq!(request.user_agent(), Some("probe".to_string()));
    assert_eq!(request.referer(), Some("http://a/".to_string()));
    assert_eq!(
        request.to_vec(),
        b"GET / HTTP/1.1\r\nHost: other\r\nUser-Agent: probe\r\nReferer: http://a/\r\n\r\n".to_vec()
    );
}
