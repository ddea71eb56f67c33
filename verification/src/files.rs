//! The file endpoint: what a request on the files route asks for, and the
//! response to each outcome of the file work.

use crate::action::{Action, ActionView};
use crate::bytes::{copy_range, equal, remove_prefix, strip_prefix};
use crate::request::{ParsedRequest, RequestView};
use crate::response::{
    created_response,
    file_response,
    internal_error_response,
    not_found_response,
    octet_stream,
    status_created,
    status_internal_error,
    status_not_found,
};
use vstd::prelude::*;
use vstd::string::StringSliceAdditionalSpecFns;

verus! {

/// The file that a path on the files route names: the path without its
/// leading `/files/`.
pub open spec fn file_name(path: Seq<u8>) -> Seq<u8> {
    strip_prefix(path, "/files/".spec_bytes())
}

/// What a `POST` writes: the request's body, and nothing where the request
/// has no body.
pub open spec fn written_contents(body: Option<Seq<u8>>) -> Seq<u8> {
    match body {
        Some(bytes) => bytes,
        None => Seq::empty(),
    }
}

/// What a request on the files route asks for: `GET` reads the file, `POST`
/// writes the request's body to it, and any other method finds nothing.
pub open spec fn file_action(request: RequestView) -> ActionView {
    if request.method == "GET".spec_bytes() {
        ActionView::ReadFile(file_name(request.path))
    } else if request.method == "POST".spec_bytes() {
        ActionView::WriteFile(file_name(request.path), written_contents(request.body))
    } else {
        ActionView::Respond(status_not_found())
    }
}

/// The response to a read: the file's contents where it could be read as
/// text, `404 Not Found` where it could not, whatever the reason.
pub open spec fn read_outcome(contents: Option<Seq<u8>>) -> Seq<u8> {
    match contents {
        Some(text) => octet_stream(text),
        None => status_not_found(),
    }
}

/// The response to a write: `201 Created` where the file was written,
/// `500 Internal Server Error` where it could not be.
pub open spec fn write_outcome(written: bool) -> Seq<u8> {
    if written {
        status_created()
    } else {
        status_internal_error()
    }
}

/// Decides what a request on the files route asks for.
pub fn parse_files_endpoint(request: &ParsedRequest) -> (action: Action)
    ensures
        action@ == file_action(request@),
{
    if equal(request.method.as_slice(), "GET".as_bytes()) {
        Action::ReadFile(remove_prefix(request.path.as_slice(), "/files/".as_bytes()))
    } else if equal(request.method.as_slice(), "POST".as_bytes()) {
        let name = remove_prefix(request.path.as_slice(), "/files/".as_bytes());
        let contents = match &request.body {
            Some(body) => {
                let copy = copy_range(body.as_slice(), 0, body.len());
                proof {
                    assert(copy@ =~= body@);
                }
                copy
            },
            None => Vec::new(),
        };
        Action::WriteFile(name, contents)
    } else {
        Action::Respond(not_found_response())
    }
}

/// The response once the file was read, or could not be.
pub fn file_read_response(contents: Option<&[u8]>) -> (out: Vec<u8>)
    ensures
        out@ == read_outcome(
            match contents {
                Some(text) => Some(text@),
                None => None,
            },
        ),
{
    match contents {
        Some(text) => file_response(text),
        None => not_found_response(),
    }
}

/// The response once the file was written, or could not be.
pub fn file_write_response(written: bool) -> (out: Vec<u8>)
    ensures
        out@ == write_outcome(written),
{
    if written {
        created_response()
    } else {
        internal_error_response()
    }
}

} // verus!
