use axe::query::{parse_query_params, QueryParams};
use axe::request::parse_request_line;

#[test]
fn parses_request_line_no_query_params() {
    let rl = "GET / HTTP/1.1".to_string();
    let (rl, qp) = parse_request_line(rl);
    assert_eq!(rl.method, "GET");
    assert_eq!(rl.path, "/");
    assert_eq!(rl.version, "HTTP/1.1");
    assert!(qp.is_empty());
}

#[test]
fn parses_request_line_query_params() {
    let rl = "GET /settings?name=hello HTTP/1.1".to_string();
    let (rl, qp) = parse_request_line(rl);
    assert_eq!(rl.method, "GET");
    assert_eq!(rl.path, "/settings");
    assert_eq!(rl.version, "HTTP/1.1");
    let mut expected = QueryParams::new();
    expected.insert("name".to_string(), "hello".to_string());
    assert_eq!(qp, expected);
}

#[test]
fn request_line_missing_parts_are_empty() {
    let (rl, qp) = parse_request_line("  GET\t ".to_string());
    assert_eq!(rl.method, "GET");
    assert_eq!(rl.path, "");
    assert_eq!(rl.version, "");
    assert!(qp.is_empty());
}

#[test]
fn request_line_splits_on_unicode_whitespace() {
    let (rl, _) = parse_request_line("POST\u{3000}/x\u{a0}HTTP/2".to_string());
    assert_eq!(rl.method, "POST");
    assert_eq!(rl.path, "/x");
    assert_eq!(rl.version, "HTTP/2");
}

#[test]
fn empty_query_gives_empty_map() {
    let qp = parse_query_params("");
    assert!(qp.is_empty());
    assert_eq!(qp.len(), 0);
}

#[test]
fn query_fragments_and_defaults() {
    let qp = parse_query_params("a=1&&b&=x&c=2=3&a=4");
    assert_eq!(qp.len(), 3);
    assert_eq!(qp.get("a").map(|v| v.as_str()), Some("4"));
    assert_eq!(qp.get("b").map(|v| v.as_str()), Some(""));
    assert_eq!(qp.get("c").map(|v| v.as_str()), Some("2=3"));
    assert_eq!(qp.get(""), None);
    assert_eq!(qp.get("x"), None);
}

#[test]
fn query_round_trip() {
    let mut m = QueryParams::new();
    m.insert("name".to_string(), "svc-a".to_string());
    m.insert("tab".to_string(), "".to_string());
    m.insert("name".to_string(), "svc-b".to_string());
    let text = m.serialize();
    let back = parse_query_params(&text);
    assert_eq!(back.len(), 2);
    assert_eq!(back.get("name").map(|v| v.as_str()), Some("svc-b"));
    assert_eq!(back.get("tab").map(|v| v.as_str()), Some(""));
}

#[test]
fn query_equality_ignores_order() {
    let mut a = QueryParams::new();
    a.insert("x".to_string(), "1".to_string());
    a.insert("y".to_string(), "2".to_string());
    let b = parse_query_params("y=2&x=1");
    assert_eq!(a, b);
    assert_ne!(a, parse_query_params("y=2&x=3"));
    assert_ne!(a, parse_query_params("y=2"));
    assert_ne!(a, parse_query_params("y=2&z=1"));
}

#[test]
fn query_serialize_exact() {
    let mut m = QueryParams::new();
    m.insert("k".to_string(), "v".to_string());
    m.insert("x".to_string(), "y".to_string());
    assert_eq!(m.serialize(), "k=v&x=y");
}
