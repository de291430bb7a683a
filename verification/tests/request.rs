use http_metrics::request::{parse_usize, Header, RequestHead};

fn parse(text: &str) -> Option<usize> {
    parse_usize(&text.as_bytes().to_vec())
}

fn header(name: &str, value: &[u8]) -> Header {
    Header { name: name.to_string(), value: value.to_vec() }
}

#[test]
fn numerals() {
    assert_eq!(parse("0"), Some(0));
    assert_eq!(parse("37"), Some(37));
    assert_eq!(parse("+37"), Some(37));
    assert_eq!(parse("0037"), Some(37));
    assert_eq!(parse(&usize::MAX.to_string()), Some(usize::MAX));
}

#[test]
fn what_is_no_numeral() {
    for bad in ["", "+", "-1", " 1", "1 ", "1.0", "1e3", "++1", "1+", "0x10", "١"] {
        assert_eq!(parse(bad), None, "{:?}", bad);
    }
    let too_big = format!("{}0", usize::MAX);
    assert_eq!(parse(&too_big), None);
    assert_eq!(parse("18446744073709551616"), None);
    assert_eq!(parse("99999999999999999999999999"), None);
}

#[test]
fn numerals_agree_with_std() {
    for text in ["0", "1", "+1", "-0", "+", "", "12a", "007", "4294967295", "4294967296", "+0"] {
        assert_eq!(parse(text), text.parse::<usize>().ok(), "{:?}", text);
    }
}

#[test]
fn declared_length() {
    let mut head = RequestHead {
        uri: "/".to_string(),
        method: "GET".to_string(),
        version: "HTTP/1.1".to_string(),
        host: None,
        headers: vec![header("accept", b"*/*")],
    };
    assert_eq!(head.content_length(), 0);
    head.headers.push(header("content-length", b"37"));
    head.headers.push(header("content-length", b"99"));
    assert_eq!(head.content_length(), 37);
    head.headers[1] = header("content-length", b"many");
    assert_eq!(head.content_length(), 0);
    head.headers[1] = header("Content-Length", b"5");
    assert_eq!(head.content_length(), 99);
}

#[test]
fn estimate_adds_up() {
    let head = RequestHead {
        uri: "http://example.com/get/1/something?x=1".to_string(),
        method: "POST".to_string(),
        version: "HTTP/1.1".to_string(),
        host: Some("example.com".to_string()),
        headers: vec![
            header("host", b"example.com"),
            header("content-length", b"37"),
            header("x-bin", b"\xff\xfe"),
        ],
    };
    let expected = 38 + 4 + 8 + (4 + 11) + (14 + 2) + (5 + 2) + 11 + 37;
    assert_eq!(head.approximate_size(), expected);
}

#[test]
fn estimate_of_a_bare_request() {
    let head = RequestHead {
        uri: "/é".to_string(),
        method: "GET".to_string(),
        version: "HTTP/2.0".to_string(),
        host: None,
        headers: Vec::new(),
    };
    assert_eq!(head.approximate_size(), 3 + 3 + 8);
}

#[test]
fn estimate_is_held_to_usize() {
    let head = RequestHead {
        uri: "/".to_string(),
        method: "GET".to_string(),
        version: "HTTP/1.1".to_string(),
        host: None,
        headers: vec![header("content-length", usize::MAX.to_string().as_bytes())],
    };
    assert_eq!(head.approximate_size(), usize::MAX);
}
