use http_client::headers::{name_eq, Headers};

fn pairs(headers: &Headers) -> Vec<(String, String)> {
    headers.iter()
}

fn pair(name: &str, value: &str) -> (String, String) {
    (name.to_string(), value.to_string())
}

#[test]
fn insert_is_case_insensitive_and_keeps_first_spelling() {
    let mut headers = Headers::new();
    headers.insert("Content-Type", "a");
    headers.insert("content-type", "b");
    assert_eq!(headers.len(), 1);
    assert_eq!(pairs(&headers), vec![pair("Content-Type", "b")]);
    assert_eq!(headers.get("CONTENT-TYPE"), Some("b".to_string()));
}

#[test]
fn insert_appends_new_names_in_order() {
    let mut headers = Headers::new();
    headers.insert("A", "1");
    headers.insert("B", "2");
    headers.insert("C", "3");
    headers.insert("b", "4");
    assert_eq!(pairs(&headers), vec![pair("A", "1"), pair("B", "4"), pair("C", "3")]);
}

#[test]
fn remove_is_case_insensitive() {
    let mut headers = Headers::new();
    headers.insert("Accept", "*/*");
    headers.insert("X-Trace", "on");
    headers.remove("x-trace");
    assert_eq!(pairs(&headers), vec![pair("Accept", "*/*")]);
    headers.remove("Missing");
    assert_eq!(headers.len(), 1);
    assert_eq!(headers.get("X-Trace"), None);
}

#[test]
fn get_of_an_absent_name_is_none() {
    let headers = Headers::new();
    assert_eq!(headers.get("Host"), None);
    assert_eq!(headers.len(), 0);
}

#[test]
fn default_http_holds_the_host() {
    let headers = Headers::default_http("example.com:8080");
    assert_eq!(pairs(&headers), vec![pair("Host", "example.com:8080")]);
    assert_eq!(headers.get("host"), Some("example.com:8080".to_string()));
}

#[test]
fn extend_inserts_each_field_in_turn() {
    let mut base = Headers::default_http("a");
    let mut extra = Headers::new();
    extra.insert("HOST", "b");
    extra.insert("Accept", "text/html");
    base.extend(&extra);
    assert_eq!(pairs(&base), vec![pair("Host", "b"), pair("Accept", "text/html")]);
}

#[test]
fn clone_is_equal_and_independent() {
    let mut headers = Headers::default_http("a");
    let copy = headers.clone();
    headers.insert("Host", "b");
    assert_eq!(pairs(&copy), vec![pair("Host", "a")]);
    assert_eq!(pairs(&headers), vec![pair("Host", "b")]);
}

#[test]
fn names_differ_only_by_ascii_case() {
    assert!(name_eq("Content-Length", "content-length"));
    assert!(name_eq("", ""));
    assert!(!name_eq("Content-Length", "Content-Lengt"));
    assert!(!name_eq("a_b", "a-b"));
    assert!(!name_eq("[", "{"));
    assert!(!name_eq("@", "`"));
    assert!(name_eq("Z", "z"));
    assert!(!name_eq("\u{c9}", "\u{e9}"));
}
