//! The bytes of each response the server can send.

use crate::bytes::{decimal, push_decimal};
use vstd::prelude::*;
use vstd::string::StringSliceAdditionalSpecFns;

verus! {

/// `200 OK` with no header and no body.
pub open spec fn status_ok() -> Seq<u8> {
    "HTTP/1.1 200 OK\r\n\r\n".spec_bytes()
}

/// `404 Not Found` with no header and no body.
pub open spec fn status_not_found() -> Seq<u8> {
    "HTTP/1.1 404 Not Found\r\n\r\n".spec_bytes()
}

/// `201 Created` with no header and no body.
pub open spec fn status_created() -> Seq<u8> {
    "HTTP/1.1 201 Created\r\n\r\n".spec_bytes()
}

/// `400 Bad Request` with no header and no body.
pub open spec fn status_bad_request() -> Seq<u8> {
    "HTTP/1.1 400 Bad Request\r\n\r\n".spec_bytes()
}

/// `500 Internal Server Error` with no header and no body.
pub open spec fn status_internal_error() -> Seq<u8> {
    "HTTP/1.1 500 Internal Server Error\r\n\r\n".spec_bytes()
}

/// A response that carries `body`: the status line and headers in `head`,
/// then `Content-Length` with the body's length in bytes, a blank line and
/// the body.
pub open spec fn with_body(head: Seq<u8>, body: Seq<u8>) -> Seq<u8> {
    head + "Content-Length: ".spec_bytes() + decimal(body.len()) + "\r\n\r\n".spec_bytes() + body
}

/// `200 OK` with `text` as a `text/plain` body.
pub open spec fn plain_text(text: Seq<u8>) -> Seq<u8> {
    with_body("HTTP/1.1 200 OK\r\nContent-Type: text/plain\r\n".spec_bytes(), text)
}

/// `200 OK` with the gzip stream `encoded` as a `text/plain` body, marked
/// `Content-Encoding: gzip`.
pub open spec fn gzip_text(encoded: Seq<u8>) -> Seq<u8> {
    with_body(
        "HTTP/1.1 200 OK\r\nContent-Type: text/plain\r\nContent-Encoding: gzip\r\n".spec_bytes(),
        encoded,
    )
}

/// `200 OK` with `contents` as an `application/octet-stream` body.
pub open spec fn octet_stream(contents: Seq<u8>) -> Seq<u8> {
    with_body(
        "HTTP/1.1 200 OK\r\nContent-Type: application/octet-stream\r\n".spec_bytes(),
        contents,
    )
}

fn bytes_of(text: &str) -> (out: Vec<u8>)
    ensures
        out@ == text.spec_bytes(),
{
    let mut out: Vec<u8> = Vec::new();
    out.extend_from_slice(text.as_bytes());
    out
}

fn append_body(head: &str, body: &[u8]) -> (out: Vec<u8>)
    ensures
        out@ == with_body(head.spec_bytes(), body@),
{
    let mut out = bytes_of(head);
    out.extend_from_slice("Content-Length: ".as_bytes());
    push_decimal(&mut out, body.len());
    out.extend_from_slice("\r\n\r\n".as_bytes());
    out.extend_from_slice(body);
    out
}

/// The `200 OK` response without body.
pub fn ok_response() -> (out: Vec<u8>)
    ensures
        out@ == status_ok(),
{
    bytes_of("HTTP/1.1 200 OK\r\n\r\n")
}

/// The `404 Not Found` response.
pub fn not_found_response() -> (out: Vec<u8>)
    ensures
        out@ == status_not_found(),
{
    bytes_of("HTTP/1.1 404 Not Found\r\n\r\n")
}

/// The `201 Created` response.
pub fn created_response() -> (out: Vec<u8>)
    ensures
        out@ == status_created(),
{
    bytes_of("HTTP/1.1 201 Created\r\n\r\n")
}

/// The `400 Bad Request` response.
pub fn bad_request_response() -> (out: Vec<u8>)
    ensures
        out@ == status_bad_request(),
{
    bytes_of("HTTP/1.1 400 Bad Request\r\n\r\n")
}

/// The `500 Internal Server Error` response.
pub fn internal_error_response() -> (out: Vec<u8>)
    ensures
        out@ == status_internal_error(),
{
    bytes_of("HTTP/1.1 500 Internal Server Error\r\n\r\n")
}

/// The response that carries `text` as plain text.
pub fn text_response(text: &[u8]) -> (out: Vec<u8>)
    ensures
        out@ == plain_text(text@),
{
    append_body("HTTP/1.1 200 OK\r\nContent-Type: text/plain\r\n", text)
}

/// The response that carries the gzip stream `encoded`.
pub fn gzip_response(encoded: &[u8]) -> (out: Vec<u8>)
    ensures
        out@ == gzip_text(encoded@),
{
    append_body(
        "HTTP/1.1 200 OK\r\nContent-Type: text/plain\r\nContent-Encoding: gzip\r\n",
        encoded,
    )
}

/// The response that carries the contents of a file.
pub fn file_response(contents: &[u8]) -> (out: Vec<u8>)
    ensures
        out@ == octet_stream(contents@),
{
    append_body("HTTP/1.1 200 OK\r\nContent-Type: application/octet-stream\r\n", contents)
}

} // verus!
