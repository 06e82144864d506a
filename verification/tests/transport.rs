use http_client::endpoint::{default_port, Endpoint, ProxyKind, ProxyTarget};
use http_client::error::{ConnectFailure, Error, SocksFailure};
use http_client::establish::{Action, Event, Stage, Step};
use http_client::socks::{connect_request, greeting, read_connect_reply, read_method_reply, TunnelAddress};
use http_client::transport::{Transport, TransportKind};
use std::time::Duration;

fn endpoint(scheme: &str, host: &str, port: Option<u16>) -> Endpoint {
    Endpoint {
        scheme: scheme.to_string(),
        host: host.to_string(),
        port,
        path: "/".to_string(),
        query: None,
    }
}

fn proxy(scheme: &str, host: &str, port: Option<u16>) -> ProxyTarget {
    ProxyTarget { scheme: scheme.to_string(), host: host.to_string(), port, credentials: None }
}

fn select(uri: &Endpoint, proxy: Option<&ProxyTarget>) -> Transport {
    Transport::select(uri, proxy, false, None).unwrap()
}

fn step(transport: &Transport, stage: Stage, event: Event) -> Step {
    transport.step(stage, event).unwrap()
}

#[test]
fn select_direct() {
    let t = Transport::select(&endpoint("http", "h", None), None, true, Some(Duration::from_secs(3))).unwrap();
    assert_eq!(t.kind, TransportKind::Plain);
    assert_eq!((t.peer_host.as_str(), t.peer_port), ("h", 80));
    assert!(t.tunnel.is_none());
    assert_eq!(t.server_name, None);
    assert!(t.nodelay);
    assert_eq!(t.connect_timeout, Some(Duration::from_secs(3)));
    let t = select(&endpoint("https", "h", Some(8443)), None);
    assert_eq!(t.kind, TransportKind::TlsWrapped);
    assert_eq!((t.peer_host.as_str(), t.peer_port), ("h", 8443));
    assert_eq!(t.server_name, Some("h".to_string()));
}

#[test]
fn select_refuses_unknown_proxy_schemes() {
    for scheme in ["ftp", "socks4", "HTTP", ""] {
        match Transport::select(&endpoint("http", "h", None), Some(&proxy(scheme, "p", Some(1))), false, None) {
            Err(Error::UnsupportedProxyScheme(s)) => assert_eq!(s, scheme),
            other => panic!("unexpected: {:?}", other),
        }
    }
}

#[test]
fn proxy_kinds_and_ports() {
    assert_eq!(proxy("socks5", "p", None).kind(), Some(ProxyKind::Socks5));
    assert_eq!(proxy("socks5h", "p", None).kind(), Some(ProxyKind::Socks5h));
    assert_eq!(proxy("http", "p", None).kind(), Some(ProxyKind::Http));
    assert_eq!(proxy("https", "p", None).kind(), Some(ProxyKind::Https));
    assert_eq!(proxy("ftp", "p", None).kind(), None);
    assert_eq!(default_port("http"), Some(80));
    assert_eq!(default_port("https"), Some(443));
    assert_eq!(default_port("socks5"), Some(1080));
    assert_eq!(default_port("socks5h"), Some(1080));
    assert_eq!(default_port("ftp"), None);
    assert_eq!(proxy("http", "p", None).host_port(), Some("p:80".to_string()));
    assert_eq!(proxy("ftp", "p", None).host_port(), None);
    assert!(proxy("https", "p", None).is_secure());
    assert!(!proxy("socks5", "p", None).wants_absolute_form());
    assert!(proxy("http", "p", None).wants_absolute_form());
}

#[test]
fn socks_messages() {
    assert_eq!(greeting(), vec![5u8, 1, 0]);
    assert_eq!(
        connect_request(&TunnelAddress::Domain("example.com".to_string()), 443),
        Some(vec![5u8, 1, 0, 3, 11, b'e', b'x', b'a', b'm', b'p', b'l', b'e', b'.', b'c', b'o', b'm', 1, 187])
    );
    assert_eq!(
        connect_request(&TunnelAddress::V4([10, 0, 0, 1]), 80),
        Some(vec![5u8, 1, 0, 1, 10, 0, 0, 1, 0, 80])
    );
    let v6 = connect_request(&TunnelAddress::V6([1; 16]), 65535).unwrap();
    assert_eq!(v6.len(), 22);
    assert_eq!(&v6[..4], &[5u8, 1, 0, 4]);
    assert_eq!(&v6[20..], &[255u8, 255]);
    assert_eq!(connect_request(&TunnelAddress::Domain(String::new()), 80), None);
    assert_eq!(connect_request(&TunnelAddress::Domain("a".repeat(256)), 80), None);
    assert_eq!(connect_request(&TunnelAddress::Domain("a".repeat(255)), 80).unwrap().len(), 262);
}

#[test]
fn socks_method_reply() {
    assert_eq!(read_method_reply(&[]), Ok(None));
    assert_eq!(read_method_reply(&[5]), Ok(None));
    assert_eq!(read_method_reply(&[5, 0]), Ok(Some(2)));
    assert_eq!(read_method_reply(&[5, 0, 9]), Ok(Some(2)));
    assert_eq!(read_method_reply(&[4]), Err(SocksFailure::BadVersion));
    assert_eq!(read_method_reply(&[4, 0]), Err(SocksFailure::BadVersion));
    assert_eq!(read_method_reply(&[5, 0xff]), Err(SocksFailure::AuthRejected));
    assert_eq!(read_method_reply(&[5, 2]), Err(SocksFailure::AuthRejected));
}

#[test]
fn socks_connect_reply() {
    assert_eq!(read_connect_reply(&[]), Ok(None));
    assert_eq!(read_connect_reply(&[5, 0, 0]), Ok(None));
    assert_eq!(read_connect_reply(&[5, 0, 0, 1, 0, 0, 0, 0, 0]), Ok(None));
    assert_eq!(read_connect_reply(&[5, 0, 0, 1, 0, 0, 0, 0, 0, 0]), Ok(Some(10)));
    assert_eq!(read_connect_reply(&[5, 0, 0, 3]), Ok(None));
    assert_eq!(read_connect_reply(&[5, 0, 0, 3, 2, b'a', b'b', 0]), Ok(None));
    assert_eq!(read_connect_reply(&[5, 0, 0, 3, 2, b'a', b'b', 0, 80]), Ok(Some(9)));
    assert_eq!(read_connect_reply(&[5, 0, 0, 4]), Ok(None));
    let mut v6 = vec![5u8, 0, 0, 4];
    v6.resize(21, 0);
    assert_eq!(read_connect_reply(&v6), Ok(None));
    v6.push(0);
    assert_eq!(read_connect_reply(&v6), Ok(Some(22)));
    assert_eq!(read_connect_reply(&[4, 0]), Err(SocksFailure::BadVersion));
    assert_eq!(read_connect_reply(&[5, 5]), Err(SocksFailure::TargetRefused(5)));
    assert_eq!(read_connect_reply(&[5, 0, 0, 9]), Err(SocksFailure::Malformed));
}

#[test]
fn establish_direct_plain() {
    let t = select(&endpoint("http", "h", None), None);
    let s = step(&t, Stage::Idle, Event::Start);
    assert_eq!(s.stage, Stage::Connecting);
    assert!(matches!(s.action, Action::Connect { ref host, port: 80 } if host == "h"));
    let s = step(&t, Stage::Connecting, Event::Connected);
    assert_eq!(s.stage, Stage::Established);
    assert!(matches!(s.action, Action::Ready));
    assert!(t.step(Stage::Established, Event::Connected).is_none());
}

#[test]
fn establish_direct_tls() {
    let t = select(&endpoint("https", "example.com", None), None);
    let s = step(&t, Stage::Connecting, Event::Connected);
    assert_eq!(s.stage, Stage::Securing);
    assert!(matches!(s.action, Action::Handshake { ref server_name } if server_name == "example.com"));
    let s = step(&t, Stage::Securing, Event::Secured);
    assert_eq!(s.stage, Stage::Established);
    let s = step(&t, Stage::Securing, Event::SecureFailed);
    assert_eq!(s.stage, Stage::Failed);
    assert!(matches!(s.action, Action::Fail(Error::TlsHandshake)));
}

#[test]
fn establish_through_socks5h() {
    let p = proxy("socks5h", "p", None);
    let t = select(&endpoint("https", "example.com", None), Some(&p));
    let s = step(&t, Stage::Idle, Event::Start);
    assert!(matches!(s.action, Action::Connect { ref host, port: 1080 } if host == "p"));
    let s = step(&t, Stage::Connecting, Event::Connected);
    assert_eq!(s.stage, Stage::Negotiating);
    assert!(matches!(s.action, Action::Send(ref m) if m == &[5u8, 1, 0]));
    let s = step(&t, Stage::Negotiating, Event::Received(vec![5]));
    assert_eq!(s.stage, Stage::Negotiating);
    assert!(matches!(s.action, Action::Receive));
    let s = step(&t, Stage::Negotiating, Event::Received(vec![5, 0]));
    assert_eq!(s.stage, Stage::Tunneling);
    match s.action {
        Action::Send(m) => {
            assert_eq!(&m[..5], &[5u8, 1, 0, 3, 11]);
            assert_eq!(&m[5..16], b"example.com");
            assert_eq!(&m[16..], &[1u8, 187]);
        }
        other => panic!("unexpected: {:?}", other),
    }
    let s = step(&t, Stage::Tunneling, Event::Received(vec![5, 0, 0, 1, 0, 0]));
    assert!(matches!(s.action, Action::Receive));
    let s = step(&t, Stage::Tunneling, Event::Received(vec![5, 0, 0, 1, 0, 0, 0, 0, 0, 0]));
    assert_eq!(s.stage, Stage::Securing);
    assert!(matches!(s.action, Action::Handshake { ref server_name } if server_name == "example.com"));
}

#[test]
fn establish_through_socks5_resolves_here() {
    let p = proxy("socks5", "p", Some(9050));
    let t = select(&endpoint("http", "example.com", None), Some(&p));
    let s = step(&t, Stage::Negotiating, Event::Received(vec![5, 0]));
    assert_eq!(s.stage, Stage::Resolving);
    assert!(matches!(s.action, Action::Resolve { ref host } if host == "example.com"));
    let s = step(&t, Stage::Resolving, Event::Resolved(TunnelAddress::V4([93, 184, 216, 34])));
    assert_eq!(s.stage, Stage::Tunneling);
    assert!(matches!(s.action, Action::Send(ref m) if m == &[5u8, 1, 0, 1, 93, 184, 216, 34, 0, 80]));
    let s = step(&t, Stage::Resolving, Event::ResolveFailed);
    assert!(matches!(s.action, Action::Fail(Error::Connect(ConnectFailure::Resolve))));
    let s = step(&t, Stage::Tunneling, Event::Received(vec![5, 0, 0, 1, 0, 0, 0, 0, 0, 0]));
    assert_eq!(s.stage, Stage::Established);
    assert!(matches!(s.action, Action::Ready));
}

#[test]
fn establish_failures() {
    let p = proxy("socks5h", "p", None);
    let t = select(&endpoint("http", "example.com", None), Some(&p));
    let s = step(&t, Stage::Connecting, Event::ConnectFailed(ConnectFailure::Refused));
    assert_eq!(s.stage, Stage::Failed);
    assert!(matches!(s.action, Action::Fail(Error::Connect(ConnectFailure::Refused))));
    let s = step(&t, Stage::Negotiating, Event::Received(vec![4, 0]));
    assert!(matches!(s.action, Action::Fail(Error::SocksNegotiation(SocksFailure::BadVersion))));
    let s = step(&t, Stage::Negotiating, Event::Received(vec![5, 255]));
    assert!(matches!(s.action, Action::Fail(Error::SocksNegotiation(SocksFailure::AuthRejected))));
    let s = step(&t, Stage::Tunneling, Event::Received(vec![5, 5]));
    assert!(matches!(s.action, Action::Fail(Error::SocksNegotiation(SocksFailure::TargetRefused(5)))));
    let s = step(&t, Stage::Tunneling, Event::TimedOut);
    assert!(matches!(s.action, Action::Fail(Error::Connect(ConnectFailure::TimedOut))));
    assert!(t.step(Stage::Failed, Event::TimedOut).is_none());
    assert!(t.step(Stage::Idle, Event::TimedOut).is_none());
    assert!(t.step(Stage::Idle, Event::Connected).is_none());
    assert!(t.step(Stage::Connecting, Event::Secured).is_none());
    let long = select(&endpoint("http", &"a".repeat(300), None), Some(&p));
    let s = step(&long, Stage::Negotiating, Event::Received(vec![5, 0]));
    assert!(matches!(s.action, Action::Fail(Error::SocksNegotiation(SocksFailure::Malformed))));
}

#[test]
fn establish_forward_proxy() {
    let p = proxy("https", "p", None);
    let t = select(&endpoint("http", "example.com", None), Some(&p));
    assert_eq!(t.kind, TransportKind::HttpProxyTunneled);
    let s = step(&t, Stage::Idle, Event::Start);
    assert!(matches!(s.action, Action::Connect { ref host, port: 443 } if host == "p"));
    let s = step(&t, Stage::Connecting, Event::Connected);
    assert!(matches!(s.action, Action::Handshake { ref server_name } if server_name == "p"));
}
