use minihttp::request::{parse_request, parse_user_agent, ParseError};

fn lines_of(parts: &[&str]) -> Vec<Vec<u8>> {
    parts.iter().map(|p| p.as_bytes().to_vec()).collect()
}

#[test]
fn parse_splits_method_path_and_lines() {
    let req = parse_request(&b"GET /index HTTP/1.1\r\nHost: x\r\n\r\n".to_vec()).unwrap();
    assert_eq!(req.method, b"GET".to_vec());
    assert_eq!(req.path, b"/index".to_vec());
    assert_eq!(req.raw_lines.len(), 3);
    assert_eq!(req.raw_lines[0], b"GET /index HTTP/1.1".to_vec());
    assert_eq!(req.raw_lines[1], b"Host: x".to_vec());
    assert_eq!(req.raw_lines[2], b"".to_vec());
    assert_eq!(req.header_lines.len(), 2);
    assert_eq!(req.header_lines[0], b"Host: x".to_vec());
}

#[test]
fn parse_keeps_last_line_without_terminator() {
    let req = parse_request(&b"POST /files/f HTTP/1.1\r\n\r\nhello".to_vec()).unwrap();
    assert_eq!(req.raw_lines.last().unwrap(), &b"hello".to_vec());
}

#[test]
fn parse_rejects_empty_input() {
    let r = parse_request(&Vec::new());
    assert!(matches!(r, Err(ParseError::EmptyRequest)));
}

#[test]
fn parse_rejects_one_token_line() {
    let r = parse_request(&b"GET\r\n\r\n".to_vec());
    assert!(matches!(r, Err(ParseError::MalformedRequestLine)));
}

#[test]
fn parse_rejects_zero_token_line() {
    let r = parse_request(&b"   \r\n\r\n".to_vec());
    assert!(matches!(r, Err(ParseError::MalformedRequestLine)));
}

#[test]
fn parse_tolerates_extra_whitespace_between_tokens() {
    let req = parse_request(&b"GET   /a  HTTP/1.1\r\n\r\n".to_vec()).unwrap();
    assert_eq!(req.method, b"GET".to_vec());
    assert_eq!(req.path, b"/a".to_vec());
}

#[test]
fn user_agent_value_is_extracted() {
    let lines = lines_of(&["Host: h", "User-Agent: foo/1.0", "Accept: */*"]);
    assert_eq!(parse_user_agent(&lines), b"foo/1.0".to_vec());
}

#[test]
fn user_agent_missing_yields_empty_value() {
    let lines = lines_of(&["Host: h", "Accept: */*"]);
    assert_eq!(parse_user_agent(&lines), Vec::<u8>::new());
}

#[test]
fn user_agent_key_found_case_insensitively() {
    // the key matches in any case, but only the exact literal
    // `User-Agent: ` carries a value
    let lines = lines_of(&["user-agent: foo"]);
    assert_eq!(parse_user_agent(&lines), Vec::<u8>::new());
    let mixed = lines_of(&["USER-AGENT: bar"]);
    assert_eq!(parse_user_agent(&mixed), Vec::<u8>::new());
}

#[test]
fn user_agent_first_match_wins() {
    let lines = lines_of(&["User-Agent: one", "User-Agent: two"]);
    assert_eq!(parse_user_agent(&lines), b"one".to_vec());
}
