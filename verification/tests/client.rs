use http_client::client::{endpoints_match, Client};
use http_client::client_builder::ClientBuilder;
use http_client::endpoint::Endpoint;
use http_client::error::Error;

fn endpoint(scheme: &str, host: &str, port: Option<u16>, path: &str) -> Endpoint {
    Endpoint {
        scheme: scheme.to_string(),
        host: host.to_string(),
        port,
        path: path.to_string(),
        query: None,
    }
}

fn client_for(path: &str) -> Client {
    ClientBuilder::new().get(Some(endpoint("http", "example.com", None, path))).build().unwrap()
}

#[test]
fn redirect_links_the_previous_client() {
    let first = client_for("/a");
    let second = first.redirect(client_for("/b"), 5).unwrap();
    assert_eq!(second.uri().path, "/b");
    assert_eq!(second.previous().unwrap().uri().path, "/a");
    assert!(second.previous().unwrap().previous().is_none());
    assert!(second.chain_longer_than(1));
    assert!(!second.chain_longer_than(2));
}

#[test]
fn redirect_to_a_visited_endpoint_is_refused() {
    let first = client_for("/a");
    let second = first.redirect(client_for("/b"), 5).unwrap();
    assert!(second.has_visited(&endpoint("http", "example.com", Some(80), "/a")));
    assert!(matches!(second.redirect(client_for("/a"), 5), Err(Error::RedirectLimitExceeded)));
    let first = client_for("/a");
    assert!(matches!(first.redirect(client_for("/a"), 5), Err(Error::RedirectLimitExceeded)));
}

#[test]
fn redirect_chain_is_capped() {
    let mut client = client_for("/0");
    for i in 1..=3 {
        client = client.redirect(client_for(&format!("/{}", i)), 3).unwrap();
    }
    assert!(matches!(client.redirect(client_for("/4"), 3), Err(Error::RedirectLimitExceeded)));
    let client = client_for("/0");
    assert!(matches!(client.redirect(client_for("/1"), 0), Err(Error::RedirectLimitExceeded)));
}

#[test]
fn endpoints_match_by_effective_port_and_origin_form() {
    assert!(endpoints_match(
        &endpoint("http", "example.com", None, ""),
        &endpoint("http", "example.com", Some(80), "/")
    ));
    assert!(!endpoints_match(
        &endpoint("http", "example.com", None, "/"),
        &endpoint("https", "example.com", None, "/")
    ));
    assert!(!endpoints_match(
        &endpoint("http", "example.com", None, "/"),
        &endpoint("http", "example.com", Some(8080), "/")
    ));
    assert!(!endpoints_match(
        &endpoint("http", "example.com", None, "/a"),
        &endpoint("http", "example.org", None, "/a")
    ));
}
