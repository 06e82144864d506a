use bytes::Bytes;
use http_client::client::Client;
use http_client::client_builder::ClientBuilder;
use http_client::endpoint::{Endpoint, ProxyTarget};
use http_client::error::{ConnectFailure, Error};
use http_client::headers::Headers;
use http_client::method::Method;
use http_client::transport::TransportKind;
use http_client::version::Version;
use std::time::Duration;

fn endpoint(scheme: &str, host: &str, port: Option<u16>, path: &str, query: Option<&str>) -> Endpoint {
    Endpoint {
        scheme: scheme.to_string(),
        host: host.to_string(),
        port,
        path: path.to_string(),
        query: query.map(|q| q.to_string()),
    }
}

fn proxy(scheme: &str, host: &str, port: Option<u16>, credentials: Option<(&str, &str)>) -> ProxyTarget {
    ProxyTarget {
        scheme: scheme.to_string(),
        host: host.to_string(),
        port,
        credentials: credentials.map(|(u, p)| (u.to_string(), p.to_string())),
    }
}

fn text(client: &Client) -> String {
    String::from_utf8(client.to_vec()).unwrap()
}

#[test]
fn build_without_uri_is_empty_uri() {
    assert!(matches!(ClientBuilder::new().build(), Err(Error::EmptyUri)));
    let builder = ClientBuilder::default()
        .header("X-Test", "1")
        .proxy(Some(proxy("ftp", "p", None, None)))
        .method(Some(Method::POST))
        .body(Some(Bytes::from_static(b"x")))
        .tcp_nodelay()
        .timeout(Duration::from_secs(1));
    assert!(matches!(builder.build(), Err(Error::EmptyUri)));
}

#[test]
fn failed_uri_conversion_clears_the_target() {
    let builder = ClientBuilder::new()
        .uri(Some(endpoint("http", "example.com", None, "/", None)))
        .uri(None);
    assert!(matches!(builder.build(), Err(Error::EmptyUri)));
    let builder = ClientBuilder::new().post(None);
    assert!(matches!(builder.build(), Err(Error::EmptyUri)));
}

#[test]
fn build_with_ftp_proxy_is_unsupported() {
    let builder = ClientBuilder::new()
        .get(Some(endpoint("http", "example.com", None, "/", None)))
        .proxy(Some(proxy("ftp", "p", Some(21), None)));
    match builder.build() {
        Err(Error::UnsupportedProxyScheme(scheme)) => assert_eq!(scheme, "ftp"),
        other => panic!("unexpected: {:?}", other),
    }
}

#[test]
fn target_form_by_proxy() {
    let uri = || Some(endpoint("http", "example.com", None, "/a", Some("b=1")));
    let client = ClientBuilder::new()
        .get(uri())
        .proxy(Some(proxy("http", "p", Some(8080), None)))
        .build()
        .unwrap();
    assert_eq!(client.request().request_uri(), "http://example.com/a?b=1");
    assert!(text(&client).starts_with("GET http://example.com/a?b=1 HTTP/1.1\r\n"));
    assert_eq!(client.transport().kind, TransportKind::HttpProxyTunneled);
    assert_eq!(client.transport().peer_host, "p");
    assert_eq!(client.transport().peer_port, 8080);
    assert_eq!(client.transport().server_name, None);

    let client = ClientBuilder::new().get(uri()).build().unwrap();
    assert_eq!(client.request().request_uri(), "/a?b=1");
    assert_eq!(client.transport().kind, TransportKind::Plain);
    assert_eq!(client.transport().peer_host, "example.com");
    assert_eq!(client.transport().peer_port, 80);
}

#[test]
fn target_is_origin_form_through_socks_proxy() {
    let client = ClientBuilder::new()
        .get(Some(endpoint("http", "example.com", None, "/a", Some("b=1"))))
        .proxy(Some(proxy("socks5", "p", Some(1080), None)))
        .build()
        .unwrap();
    assert_eq!(client.request().request_uri(), "/a?b=1");
    let transport = client.transport();
    assert_eq!(transport.kind, TransportKind::Socks5Tunneled);
    assert_eq!(transport.peer_host, "p");
    assert_eq!(transport.peer_port, 1080);
    let tunnel = transport.tunnel.as_ref().unwrap();
    assert_eq!(tunnel.host, "example.com");
    assert_eq!(tunnel.port, 80);
    assert!(!tunnel.remote_dns);
    assert_eq!(transport.server_name, None);
}

#[test]
fn socks5h_resolves_at_the_proxy_and_wraps_tls_inside() {
    let client = ClientBuilder::new()
        .get(Some(endpoint("https", "example.com", None, "/", None)))
        .proxy(Some(proxy("socks5h", "p", None, None)))
        .build()
        .unwrap();
    let transport = client.transport();
    assert_eq!(transport.kind, TransportKind::Socks5Tunneled);
    assert_eq!(transport.peer_port, 1080);
    let tunnel = transport.tunnel.as_ref().unwrap();
    assert!(tunnel.remote_dns);
    assert_eq!(tunnel.port, 443);
    assert_eq!(transport.server_name, Some("example.com".to_string()));
}

#[test]
fn https_get_with_header() {
    let client = ClientBuilder::new()
        .get(Some(endpoint("https", "example.com", None, "/x", None)))
        .header("X-Test", "1")
        .build()
        .unwrap();
    let transport = client.transport();
    assert_eq!(transport.kind, TransportKind::TlsWrapped);
    assert_eq!(transport.server_name, Some("example.com".to_string()));
    assert_eq!(transport.peer_host, "example.com");
    assert_eq!(transport.peer_port, 443);
    let message = text(&client);
    assert!(message.starts_with("GET /x HTTP/1.1\r\n"));
    assert!(message.contains("X-Test: 1\r\n"));
    assert_eq!(message, "GET /x HTTP/1.1\r\nHost: example.com\r\nX-Test: 1\r\n\r\n");
}

#[test]
fn forward_proxy_credentials_become_a_field() {
    let client = ClientBuilder::new()
        .get(Some(endpoint("http", "example.com", None, "/", None)))
        .proxy(Some(proxy("https", "p", None, Some(("user", "pass")))))
        .build()
        .unwrap();
    assert_eq!(
        client.request().get_headers().get("Proxy-Authorization"),
        Some("Basic dXNlcjpwYXNz".to_string())
    );
    assert_eq!(client.transport().server_name, Some("p".to_string()));
    assert_eq!(client.transport().peer_port, 443);
    assert_eq!(client.proxy().unwrap().host, "p");

    let client = ClientBuilder::new()
        .get(Some(endpoint("http", "example.com", None, "/", None)))
        .proxy(Some(proxy("socks5", "p", None, Some(("user", "pass")))))
        .build()
        .unwrap();
    assert_eq!(client.request().get_headers().get("Proxy-Authorization"), None);
}

#[test]
fn endpoint_without_port_has_no_address() {
    let builder = ClientBuilder::new().get(Some(endpoint("gopher", "example.com", None, "/", None)));
    assert!(matches!(builder.build(), Err(Error::Connect(ConnectFailure::Resolve))));
}

#[test]
fn setters_accumulate() {
    let mut headers = Headers::new();
    headers.insert("Accept", "*/*");
    headers.insert("X-A", "1");
    let client = ClientBuilder::new()
        .uri(Some(endpoint("http", "example.com", Some(8080), "/p", None)))
        .headers(headers)
        .header("x-a", "2")
        .header_remove("ACCEPT")
        .method(Some(Method::PUT))
        .version(Some(Version::Http10))
        .body(Some(Bytes::from_static(b"abc")))
        .tcp_nodelay()
        .timeout(Duration::from_secs(5))
        .connect_timeout(Duration::from_millis(250))
        .build()
        .unwrap();
    assert_eq!(
        text(&client),
        "PUT /p HTTP/1.0\r\nHost: example.com:8080\r\nX-A: 2\r\nContent-Length: 3\r\n\r\nabc"
    );
    assert!(client.transport().nodelay);
    assert_eq!(client.transport().connect_timeout, Some(Duration::from_millis(250)));
    assert_eq!(client.timeout(), Some(Duration::from_secs(5)));
    assert_eq!(client.uri().host, "example.com");
    assert!(client.previous().is_none());
}

#[test]
fn failed_method_and_version_fall_back_to_defaults() {
    let client = ClientBuilder::new()
        .post(Some(endpoint("http", "example.com", None, "/", None)))
        .version(Some(Version::Http10))
        .method(None)
        .version(None)
        .build()
        .unwrap();
    assert!(text(&client).starts_with("GET / HTTP/1.1\r\n"));
}

#[test]
fn verbs_set_the_method() {
    let uri = || Some(endpoint("http", "example.com", None, "/", None));
    assert!(text(&ClientBuilder::new().post(uri()).build().unwrap()).starts_with("POST / "));
    assert!(text(&ClientBuilder::new().options(uri()).build().unwrap()).starts_with("OPTIONS / "));
    assert!(text(&ClientBuilder::new().delete(uri()).build().unwrap()).starts_with("DELETE / "));
    assert!(text(&ClientBuilder::new().post(uri()).get(uri()).build().unwrap()).starts_with("GET / "));
}

#[test]
fn json_sets_body_and_type_or_clears_both() {
    let uri = || Some(endpoint("http", "example.com", None, "/", None));
    let client = ClientBuilder::new()
        .post(uri())
        .json(Some(Bytes::from_static(b"{}")))
        .build()
        .unwrap();
    assert_eq!(
        text(&client),
        "POST / HTTP/1.1\r\nHost: example.com\r\nContent-Type: application/json\r\nContent-Length: 2\r\n\r\n{}"
    );
    let client = ClientBuilder::new()
        .post(uri())
        .json(Some(Bytes::from_static(b"{}")))
        .json(None)
        .build()
        .unwrap();
    assert_eq!(text(&client), "POST / HTTP/1.1\r\nHost: example.com\r\n\r\n");
}

#[test]
fn builder_body_overrides_a_content_length_field() {
    let client = ClientBuilder::new()
        .get(Some(endpoint("http", "example.com", None, "/", None)))
        .header("Content-Length", "99")
        .build()
        .unwrap();
    assert_eq!(client.request().content_length(), 0);
    assert_eq!(client.request().get_headers().get("Content-Length"), None);
}

#[test]
fn referer_is_best_effort() {
    let uri = || Some(endpoint("http", "example.com", None, "/", None));
    let client = ClientBuilder::new()
        .get(uri())
        .referer(Some(endpoint("https", "from.example", Some(8443), "/page", Some("q=1"))))
        .referer(None)
        .build()
        .unwrap();
    assert_eq!(client.request().referer(), Some("https://from.example:8443/page?q=1".to_string()));
}

#[test]
fn error_messages() {
    assert_eq!(Error::EmptyUri.message(), "empty uri");
    assert_eq!(
        Error::UnsupportedProxyScheme("ftp".to_string()).message(),
        "unsupported proxy scheme: ftp"
    );
    assert_eq!(Error::Timeout.message(), "timeout");
    assert_eq!(Error::RedirectLimitExceeded.message(), "redirect limit exceeded");
}
