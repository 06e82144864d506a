use http_client::record::{full_from_row, proxies_from_rows, Column, Columns};

fn row(host: &str) -> Columns {
    Columns {
        work: Column::Value(true),
        anon: Column::Value(false),
        checks: Column::Value(3),
        hostname: Column::Value(format!("{}:8080", host)),
        host: Column::Value(host.to_string()),
        port: Column::Value("8080".to_string()),
        scheme: Column::Value("http".to_string()),
        create_at: Column::Value(1_600_000_000_000_000),
        update_at: Column::Value(1_600_000_100_000_000),
        response: Column::Value(250),
    }
}

#[test]
fn full_row_gives_a_record() {
    let proxy = full_from_row(row("10.0.0.1")).unwrap();
    assert!(!proxy.insert);
    assert!(!proxy.update);
    assert!(proxy.work);
    assert!(!proxy.anon);
    assert_eq!(proxy.checks, 3);
    assert_eq!(proxy.hostname, "10.0.0.1:8080");
    assert_eq!(proxy.host, "10.0.0.1");
    assert_eq!(proxy.port, "8080");
    assert_eq!(proxy.scheme, "http");
    assert_eq!(proxy.create_at, 1_600_000_000_000_000);
    assert_eq!(proxy.update_at, 1_600_000_100_000_000);
    assert_eq!(proxy.response, 250);
}

#[test]
fn missing_column_is_named() {
    let mut columns = row("h");
    columns.work = Column::Missing;
    assert_eq!(full_from_row(columns).unwrap_err(), "error get work");
    let mut columns = row("h");
    columns.response = Column::Missing;
    assert_eq!(full_from_row(columns).unwrap_err(), "error get response");
    let mut columns = row("h");
    columns.create_at = Column::Missing;
    assert_eq!(full_from_row(columns).unwrap_err(), "error get create_at");
}

#[test]
fn invalid_column_carries_the_reason() {
    let mut columns = row("h");
    columns.checks = Column::Invalid("not an int4".to_string());
    assert_eq!(full_from_row(columns).unwrap_err(), "error unwrap checks not an int4");
    let mut columns = row("h");
    columns.scheme = Column::Invalid(String::new());
    assert_eq!(full_from_row(columns).unwrap_err(), "error unwrap scheme ");
}

#[test]
fn first_bad_column_wins() {
    let mut columns = row("h");
    columns.update_at = Column::Missing;
    columns.anon = Column::Invalid("x".to_string());
    columns.host = Column::Missing;
    assert_eq!(full_from_row(columns).unwrap_err(), "error unwrap anon x");
}

#[test]
fn rows_are_read_in_order() {
    let proxies = proxies_from_rows(vec![row("a"), row("b"), row("c")]).unwrap();
    let hosts: Vec<&str> = proxies.iter().map(|p| p.host.as_str()).collect();
    assert_eq!(hosts, vec!["a", "b", "c"]);
    assert_eq!(proxies_from_rows(Vec::new()).unwrap().len(), 0);
}

#[test]
fn first_bad_row_ends_the_reading() {
    let mut second = row("b");
    second.port = Column::Missing;
    let mut third = row("c");
    third.work = Column::Missing;
    assert_eq!(proxies_from_rows(vec![row("a"), second, third]).unwrap_err(), "error get port");
}
