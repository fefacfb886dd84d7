use minihttp::response::{
    empty_response, octet_response, render_response, text_response, usize_dec, StatusCode,
};

#[test]
fn decimal_of_zero() {
    assert_eq!(usize_dec(0), b"0".to_vec());
}

#[test]
fn decimal_of_ten() {
    assert_eq!(usize_dec(10), b"10".to_vec());
}

#[test]
fn decimal_of_longer_number() {
    assert_eq!(usize_dec(90210), b"90210".to_vec());
}

#[test]
fn render_bare_success() {
    let r = empty_response(StatusCode::Success);
    assert_eq!(render_response(&r), b"HTTP/1.1 200 OK\r\n\r\n".to_vec());
}

#[test]
fn render_bare_created() {
    let r = empty_response(StatusCode::Created);
    assert_eq!(render_response(&r), b"HTTP/1.1 201 Created\r\n\r\n".to_vec());
}

#[test]
fn render_bare_bad_request() {
    let r = empty_response(StatusCode::BadRequest);
    assert_eq!(render_response(&r), b"HTTP/1.1 400 Bad Request\r\n\r\n".to_vec());
}

#[test]
fn render_bare_not_found() {
    let r = empty_response(StatusCode::NotFound);
    assert_eq!(render_response(&r), b"HTTP/1.1 404 Not Found\r\n\r\n".to_vec());
}

#[test]
fn render_bare_server_error() {
    let r = empty_response(StatusCode::ServerError);
    assert_eq!(
        render_response(&r),
        b"HTTP/1.1 500 INTERNAL SERVER ERROR\r\n\r\n".to_vec()
    );
}

#[test]
fn render_text_body_with_length() {
    let r = text_response(b"abc".to_vec());
    assert_eq!(
        render_response(&r),
        b"HTTP/1.1 200 OK\r\nContent-Type: text/plain\r\nContent-Length: 3\r\n\r\nabc\r\n\r\n"
            .to_vec()
    );
}

#[test]
fn render_empty_text_body() {
    let r = text_response(Vec::new());
    assert_eq!(
        render_response(&r),
        b"HTTP/1.1 200 OK\r\nContent-Type: text/plain\r\nContent-Length: 0\r\n\r\n\r\n\r\n"
            .to_vec()
    );
}

#[test]
fn render_octet_body_with_length() {
    let r = octet_response(b"hello".to_vec());
    assert_eq!(
        render_response(&r),
        b"HTTP/1.1 200 OK\r\nContent-Type: application/octet-stream\r\nContent-Length: 5\r\n\r\nhello\r\n\r\n"
            .to_vec()
    );
}
