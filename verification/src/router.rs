//! Routing: from a parsed request to the action the server takes.

use crate::action::{Action, ActionView};
use crate::bytes::{equal, remove_prefix, starts_with, strip_prefix};
use crate::error::ServerError;
use crate::files::{file_action, parse_files_endpoint};
use crate::gzip::{gzip_encode, gzip_encoding};
use crate::negotiation::{accepts_gzip, contains_gzip_encoding};
use crate::request::{ParsedRequest, RequestView};
use crate::response::{
    bad_request_response,
    gzip_response,
    gzip_text,
    not_found_response,
    ok_response,
    plain_text,
    status_bad_request,
    status_not_found,
    status_ok,
    text_response,
};
use vstd::prelude::*;
use vstd::string::StringSliceAdditionalSpecFns;

verus! {

/// The handlers a path can select.
#[derive(Clone, Copy, Debug, PartialEq, Eq, Structural)]
pub enum Route {
    Root,
    Echo,
    Files,
    UserAgent,
    NotFound,
}

/// The handler for `path`; the first rule that fits decides.
pub open spec fn route_of(path: Seq<u8>) -> Route {
    if path == "/".spec_bytes() {
        Route::Root
    } else if "/echo".spec_bytes().is_prefix_of(path) {
        Route::Echo
    } else if "/files".spec_bytes().is_prefix_of(path) {
        Route::Files
    } else if path == "/user-agent".spec_bytes() {
        Route::UserAgent
    } else {
        Route::NotFound
    }
}

/// Selects the handler for `path`.
pub fn route(path: &[u8]) -> (selected: Route)
    ensures
        selected == route_of(path@),
{
    if equal(path, "/".as_bytes()) {
        Route::Root
    } else if starts_with(path, "/echo".as_bytes()) {
        Route::Echo
    } else if starts_with(path, "/files".as_bytes()) {
        Route::Files
    } else if equal(path, "/user-agent".as_bytes()) {
        Route::UserAgent
    } else {
        Route::NotFound
    }
}

/// The text that a path on the echo route asks back: the path without its
/// leading `/echo/`.
pub open spec fn echo_text(path: Seq<u8>) -> Seq<u8> {
    strip_prefix(path, "/echo/".spec_bytes())
}

/// The encodings a request offers: its `Accept-Encoding` value, or
/// `invalid` where it has none.
pub open spec fn offered_encodings(headers: Map<Seq<u8>, Seq<u8>>) -> Seq<u8> {
    if headers.contains_key("Accept-Encoding".spec_bytes()) {
        headers["Accept-Encoding".spec_bytes()]
    } else {
        "invalid".spec_bytes()
    }
}

/// The request is on the echo route and offers gzip, so its response body
/// is gzip-encoded.
pub open spec fn wants_gzip(request: RequestView) -> bool {
    route_of(request.path) == Route::Echo && accepts_gzip(offered_encodings(request.headers))
}

/// The response on the user-agent route: the `User-Agent` value as plain
/// text, and `400 Bad Request` where the request has no such header.
pub open spec fn user_agent_reply(headers: Map<Seq<u8>, Seq<u8>>) -> Seq<u8> {
    if headers.contains_key("User-Agent".spec_bytes()) {
        plain_text(headers["User-Agent".spec_bytes()])
    } else {
        status_bad_request()
    }
}

/// The action for `request`, where `encoded` is the gzip stream of its echo
/// text.
pub open spec fn action_for(request: RequestView, encoded: Seq<u8>) -> ActionView {
    match route_of(request.path) {
        Route::Root => ActionView::Respond(status_ok()),
        Route::Echo => if accepts_gzip(offered_encodings(request.headers)) {
            ActionView::Respond(gzip_text(encoded))
        } else {
            ActionView::Respond(plain_text(echo_text(request.path)))
        },
        Route::Files => file_action(request),
        Route::UserAgent => ActionView::Respond(user_agent_reply(request.headers)),
        Route::NotFound => ActionView::Respond(status_not_found()),
    }
}

/// Decides the action for `request`. Only a request whose response is
/// gzip-encoded can fail, and only where the encoder does.
pub fn handle_request(request: &ParsedRequest) -> (handled: Result<Action, ServerError>)
    ensures
        match handled {
            Ok(action) => action@ == action_for(
                request@,
                gzip_encoding(echo_text(request@.path)),
            ),
            Err(error) => error == ServerError::CompressionFailed && wants_gzip(request@),
        },
{
    let path = request.path.as_slice();
    match route(path) {
        Route::Root => Ok(Action::Respond(ok_response())),
        Route::Echo => {
            let text = remove_prefix(path, "/echo/".as_bytes());
            let supported = match request.headers.get("Accept-Encoding".as_bytes()) {
                Some(encodings) => contains_gzip_encoding(encodings.as_slice()),
                None => contains_gzip_encoding("invalid".as_bytes()),
            };
            if supported {
                match gzip_encode(text.as_slice()) {
                    Ok(stream) => Ok(Action::Respond(gzip_response(stream.as_slice()))),
                    Err(_) => Err(ServerError::CompressionFailed),
                }
            } else {
                Ok(Action::Respond(text_response(text.as_slice())))
            }
        },
        Route::Files => Ok(parse_files_endpoint(request)),
        Route::UserAgent => {
            match request.headers.get("User-Agent".as_bytes()) {
                Some(agent) => Ok(Action::Respond(text_response(agent.as_slice()))),
                None => Ok(Action::Respond(bad_request_response())),
            }
        },
        Route::NotFound => Ok(Action::Respond(not_found_response())),
    }
}

} // verus!
