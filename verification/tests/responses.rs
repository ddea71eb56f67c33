use mini_http::error::ServerError;
use mini_http::files::{file_read_response, file_write_response};
use mini_http::response::{
    bad_request_response, created_response, file_response, gzip_response,
    internal_error_response, not_found_response, ok_response, text_response,
};
use mini_http::server::error_response;

#[test]
fn status_only_responses() {
    assert_eq!(ok_response(), b"HTTP/1.1 200 OK\r\n\r\n".to_vec());
    assert_eq!(not_found_response(), b"HTTP/1.1 404 Not Found\r\n\r\n".to_vec());
    assert_eq!(created_response(), b"HTTP/1.1 201 Created\r\n\r\n".to_vec());
    assert_eq!(bad_request_response(), b"HTTP/1.1 400 Bad Request\r\n\r\n".to_vec());
    assert_eq!(
        internal_error_response(),
        b"HTTP/1.1 500 Internal Server Error\r\n\r\n".to_vec()
    );
}

#[test]
fn error_response_names_the_failure() {
    assert_eq!(
        error_response(ServerError::MalformedRequestLine),
        b"HTTP/1.1 400 Bad Request\r\n\r\n".to_vec()
    );
    assert_eq!(
        error_response(ServerError::CompressionFailed),
        b"HTTP/1.1 500 Internal Server Error\r\n\r\n".to_vec()
    );
}

#[test]
fn text_response_carries_length_and_body() {
    assert_eq!(
        text_response(b"abc"),
        b"HTTP/1.1 200 OK\r\nContent-Type: text/plain\r\nContent-Length: 3\r\n\r\nabc".to_vec()
    );
    assert_eq!(
        text_response(b""),
        b"HTTP/1.1 200 OK\r\nContent-Type: text/plain\r\nContent-Length: 0\r\n\r\n".to_vec()
    );
    assert_eq!(
        text_response(b"0123456789ab"),
        b"HTTP/1.1 200 OK\r\nContent-Type: text/plain\r\nContent-Length: 12\r\n\r\n0123456789ab"
            .to_vec()
    );
}

#[test]
fn content_length_counts_bytes() {
    let text = "héllo".as_bytes();
    assert_eq!(
        text_response(text),
        "HTTP/1.1 200 OK\r\nContent-Type: text/plain\r\nContent-Length: 6\r\n\r\nhéllo"
            .as_bytes()
            .to_vec()
    );
    let long = vec![b'x'; 1000];
    let mut expected =
        b"HTTP/1.1 200 OK\r\nContent-Type: text/plain\r\nContent-Length: 1000\r\n\r\n".to_vec();
    expected.extend_from_slice(&long);
    assert_eq!(text_response(&long), expected);
}

#[test]
fn gzip_response_marks_the_encoding() {
    let stream = [0x1fu8, 0x8b, 8, 0, 1, 2, 3];
    let mut expected = b"HTTP/1.1 200 OK\r\nContent-Type: text/plain\r\nContent-Encoding: gzip\r\nContent-Length: 7\r\n\r\n".to_vec();
    expected.extend_from_slice(&stream);
    assert_eq!(gzip_response(&stream), expected);
}

#[test]
fn file_response_is_an_octet_stream() {
    assert_eq!(
        file_response(b"hello"),
        b"HTTP/1.1 200 OK\r\nContent-Type: application/octet-stream\r\nContent-Length: 5\r\n\r\nhello"
            .to_vec()
    );
}

#[test]
fn file_read_response_follows_the_outcome() {
    assert_eq!(
        file_read_response(Some(b"hello")),
        b"HTTP/1.1 200 OK\r\nContent-Type: application/octet-stream\r\nContent-Length: 5\r\n\r\nhello"
            .to_vec()
    );
    assert_eq!(
        file_read_response(Some(b"")),
        b"HTTP/1.1 200 OK\r\nContent-Type: application/octet-stream\r\nContent-Length: 0\r\n\r\n"
            .to_vec()
    );
    assert_eq!(file_read_response(None), b"HTTP/1.1 404 Not Found\r\n\r\n".to_vec());
}

#[test]
fn file_write_response_follows_the_outcome() {
    assert_eq!(file_write_response(true), b"HTTP/1.1 201 Created\r\n\r\n".to_vec());
    assert_eq!(
        file_write_response(false),
        b"HTTP/1.1 500 Internal Server Error\r\n\r\n".to_vec()
    );
}
