use proxerver::parse::{parse_header, parse_request, split_lines};
use proxerver::text::{lower_str, trim_str};

#[test]
fn parses_a_full_request_head() {
    let raw = "GET http://example.com/path HTTP/1.1\r\nHost: example.com\r\nX-Thing:  v  \r\n\r\n";
    let (method, uri, version, headers) = parse_request(raw).unwrap();
    assert_eq!(method, "GET");
    assert_eq!(uri, "http://example.com/path");
    assert_eq!(version, "HTTP/1.1");
    assert_eq!(
        headers,
        vec![
            ("host".to_string(), "example.com".to_string()),
            ("x-thing".to_string(), "v".to_string()),
        ]
    );
}

#[test]
fn header_names_are_folded_and_order_is_kept() {
    let raw = "CONNECT example.com:443 HTTP/1.1\nPROXY-Authorization: Basic abc\nB: 2\nA: 1\n";
    let (_, _, _, headers) = parse_request(raw).unwrap();
    assert_eq!(
        headers,
        vec![
            ("proxy-authorization".to_string(), "Basic abc".to_string()),
            ("b".to_string(), "2".to_string()),
            ("a".to_string(), "1".to_string()),
        ]
    );
}

#[test]
fn empty_request_has_no_request_line() {
    assert_eq!(parse_request(""), Err("Missing request line"));
}

#[test]
fn blank_request_line_has_no_method() {
    assert_eq!(parse_request("   \r\n"), Err("Missing method"));
}

#[test]
fn one_token_request_line_has_no_uri() {
    assert_eq!(parse_request("GET"), Err("Missing URI"));
}

#[test]
fn two_token_request_line_has_no_version() {
    assert_eq!(parse_request("GET /index.html\r\n"), Err("Missing version"));
}

#[test]
fn header_line_without_colon_fails() {
    let raw = "GET / HTTP/1.1\r\nnot-a-header\r\n";
    assert_eq!(parse_request(raw), Err("Missing header value"));
}

#[test]
fn parse_header_splits_at_first_colon_and_trims() {
    assert_eq!(
        parse_header(" Key : value:with:colons "),
        Ok(("Key".to_string(), "value:with:colons".to_string()))
    );
    assert_eq!(parse_header("no colon here"), Err("Missing header value"));
    assert_eq!(parse_header(":v"), Ok(("".to_string(), "v".to_string())));
}

#[test]
fn lines_split_at_newlines_and_drop_carriage_returns() {
    assert_eq!(split_lines("a\r\nb\nc"), vec!["a", "b", "c"]);
    assert_eq!(split_lines("a\n"), vec!["a"]);
    assert_eq!(split_lines("\n"), vec![""]);
    assert_eq!(split_lines(""), Vec::<String>::new());
    assert_eq!(split_lines("tail\r"), vec!["tail\r"]);
}

#[test]
fn trimming_and_folding_behave_as_std_does() {
    assert_eq!(trim_str("  x \t"), "x");
    assert_eq!(trim_str("\r\n"), "");
    assert_eq!(trim_str("inner space kept"), "inner space kept");
    assert_eq!(lower_str("X-Auth-TOKEN"), "x-auth-token");
    assert_eq!(lower_str("schon-klein"), "schon-klein");
}
