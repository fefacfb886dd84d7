use minihttp::response::render_response;
use minihttp::route::{
    file_get_response, file_post_response, request_action, Action, FileReadOutcome,
    FileWriteOutcome,
};

fn act(req: &[u8], dir: &[u8]) -> Action {
    request_action(&req.to_vec(), &dir.to_vec())
}

fn reply_bytes(a: Action) -> Vec<u8> {
    match a {
        Action::Reply(r) => render_response(&r),
        _ => panic!("expected an immediate reply"),
    }
}

#[test]
fn root_answers_bare_success() {
    let out = reply_bytes(act(b"GET / HTTP/1.1\r\n\r\n", b"."));
    assert!(out.starts_with(b"HTTP/1.1 200 OK"));
    assert_eq!(out, b"HTTP/1.1 200 OK\r\n\r\n".to_vec());
}

#[test]
fn echo_answers_suffix_with_length() {
    let out = reply_bytes(act(b"GET /echo/abc HTTP/1.1\r\n\r\n", b"."));
    assert_eq!(
        out,
        b"HTTP/1.1 200 OK\r\nContent-Type: text/plain\r\nContent-Length: 3\r\n\r\nabc\r\n\r\n"
            .to_vec()
    );
}

#[test]
fn echo_of_empty_suffix() {
    let out = reply_bytes(act(b"GET /echo/ HTTP/1.1\r\n\r\n", b"."));
    assert_eq!(
        out,
        b"HTTP/1.1 200 OK\r\nContent-Type: text/plain\r\nContent-Length: 0\r\n\r\n\r\n\r\n"
            .to_vec()
    );
}

#[test]
fn echo_keeps_everything_after_the_prefix() {
    let out = reply_bytes(act(b"GET /echo/a/echo/b HTTP/1.1\r\n\r\n", b"."));
    assert_eq!(
        out,
        b"HTTP/1.1 200 OK\r\nContent-Type: text/plain\r\nContent-Length: 8\r\n\r\na/echo/b\r\n\r\n"
            .to_vec()
    );
}

#[test]
fn user_agent_route_reflects_header() {
    let out = reply_bytes(act(
        b"GET /user-agent HTTP/1.1\r\nHost: h\r\nUser-Agent: foo/1.0\r\nAccept: */*\r\n\r\n",
        b".",
    ));
    assert_eq!(
        out,
        b"HTTP/1.1 200 OK\r\nContent-Type: text/plain\r\nContent-Length: 7\r\n\r\nfoo/1.0\r\n\r\n"
            .to_vec()
    );
}

#[test]
fn user_agent_route_without_header_answers_empty() {
    let out = reply_bytes(act(b"GET /user-agent HTTP/1.1\r\nHost: h\r\n\r\n", b"."));
    assert_eq!(
        out,
        b"HTTP/1.1 200 OK\r\nContent-Type: text/plain\r\nContent-Length: 0\r\n\r\n\r\n\r\n"
            .to_vec()
    );
}

#[test]
fn files_store_then_fetch_same_path() {
    let post = act(
        b"POST /files/test.txt HTTP/1.1\r\nContent-Length: 5\r\n\r\nhello",
        b"/srv/",
    );
    let write_path = match post {
        Action::WriteFile(path, contents) => {
            assert_eq!(contents, b"hello".to_vec());
            path
        }
        _ => panic!("expected a write action"),
    };
    assert_eq!(write_path, b"/srv/test.txt".to_vec());
    assert_eq!(
        render_response(&file_post_response(FileWriteOutcome::Stored)),
        b"HTTP/1.1 201 Created\r\n\r\n".to_vec()
    );

    let get = act(b"GET /files/test.txt HTTP/1.1\r\n\r\n", b"/srv/");
    let read_path = match get {
        Action::ReadFile(path) => path,
        _ => panic!("expected a read action"),
    };
    assert_eq!(read_path, write_path);
    assert_eq!(
        render_response(&file_get_response(FileReadOutcome::Found(b"hello".to_vec()))),
        b"HTTP/1.1 200 OK\r\nContent-Type: application/octet-stream\r\nContent-Length: 5\r\n\r\nhello\r\n\r\n"
            .to_vec()
    );
}

#[test]
fn files_store_strips_nul_padding() {
    let mut raw = b"POST /files/f HTTP/1.1\r\n\r\nhi".to_vec();
    raw.extend(std::iter::repeat(0u8).take(12));
    let post = act(&raw, b"/srv/");
    match post {
        Action::WriteFile(_, contents) => assert_eq!(contents, b"hi".to_vec()),
        _ => panic!("expected a write action"),
    }
}

#[test]
fn files_missing_answers_not_found() {
    let get = act(b"GET /files/absent HTTP/1.1\r\n\r\n", b".");
    assert!(matches!(get, Action::ReadFile(_)));
    assert_eq!(
        render_response(&file_get_response(FileReadOutcome::Missing)),
        b"HTTP/1.1 404 Not Found\r\n\r\n".to_vec()
    );
}

#[test]
fn files_failed_read_answers_server_error() {
    assert_eq!(
        render_response(&file_get_response(FileReadOutcome::ReadFailed)),
        b"HTTP/1.1 500 INTERNAL SERVER ERROR\r\n\r\n".to_vec()
    );
}

#[test]
fn files_failed_write_answers_server_error() {
    assert_eq!(
        render_response(&file_post_response(FileWriteOutcome::WriteFailed)),
        b"HTTP/1.1 500 INTERNAL SERVER ERROR\r\n\r\n".to_vec()
    );
}

#[test]
fn files_refuse_other_methods() {
    let out = reply_bytes(act(b"DELETE /files/x HTTP/1.1\r\n\r\n", b"."));
    assert_eq!(out, b"HTTP/1.1 400 Bad Request\r\n\r\n".to_vec());
    let put = reply_bytes(act(b"PUT /files/x HTTP/1.1\r\n\r\n", b"."));
    assert_eq!(put, b"HTTP/1.1 400 Bad Request\r\n\r\n".to_vec());
}

#[test]
fn unknown_path_answers_not_found() {
    let out = reply_bytes(act(b"GET /nope HTTP/1.1\r\n\r\n", b"."));
    assert_eq!(out, b"HTTP/1.1 404 Not Found\r\n\r\n".to_vec());
}

#[test]
fn malformed_request_line_answers_bad_request() {
    let out = reply_bytes(act(b"GET\r\n\r\n", b"."));
    assert_eq!(out, b"HTTP/1.1 400 Bad Request\r\n\r\n".to_vec());
}

#[test]
fn empty_request_answers_bad_request() {
    let out = reply_bytes(act(b"", b"."));
    assert_eq!(out, b"HTTP/1.1 400 Bad Request\r\n\r\n".to_vec());
}

#[test]
fn invalid_utf8_is_decoded_lossily_before_routing() {
    // 0xFF is no UTF-8 sequence: the decoder replaces it with U+FFFD,
    // and the echo body carries the replacement character's bytes
    let out = reply_bytes(act(b"GET /echo/\xFF HTTP/1.1\r\n\r\n", b"."));
    let expected_body = "\u{FFFD}".as_bytes();
    assert_eq!(expected_body.len(), 3);
    let mut expected =
        b"HTTP/1.1 200 OK\r\nContent-Type: text/plain\r\nContent-Length: 3\r\n\r\n".to_vec();
    expected.extend_from_slice(expected_body);
    expected.extend_from_slice(b"\r\n\r\n");
    assert_eq!(out, expected);
}
