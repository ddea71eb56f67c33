//! The connection server's settings and what it computes for one connection.

use crate::action::{Action, ActionView};
use crate::error::ServerError;
use crate::gzip::gzip_encoding;
use crate::request::{parse, parse_request};
use crate::response::{
    bad_request_response,
    internal_error_response,
    status_bad_request,
    status_internal_error,
};
use crate::router::{action_for, echo_text, handle_request, wants_gzip};
use crate::text::{decode_lossy, lossy_text};
use vstd::prelude::*;
use vstd::utf8::valid_utf8;

verus! {

/// The number of worker threads that serve connections.
pub const N_WORKERS: usize = 5;

/// The most bytes read of one request; what a client sends beyond them is
/// not seen.
pub const BUFFER_SIZE: usize = 1024;

/// The address the server listens on.
pub const LISTEN_ADDRESS: &'static str = "127.0.0.1:4221";

/// The settings of a running server, made once at startup.
#[derive(Debug)]
pub struct ServerConfig {
    /// The address to listen on.
    pub address: String,
    /// The directory under which the file endpoint finds its files.
    pub directory: String,
}

impl ServerConfig {
    /// The settings that the command line `args` gives: the directory is
    /// the argument at index 2, the address is fixed. Without that
    /// argument there are no settings.
    pub fn from_args(args: &[String]) -> (config: Option<ServerConfig>)
        ensures
            config is Some <==> args@.len() >= 3,
            config matches Some(c) ==> c.directory@ == args@[2]@ && c.address@
                == LISTEN_ADDRESS@,
    {
        if args.len() < 3 {
            return None;
        }
        Some(ServerConfig { address: LISTEN_ADDRESS.to_owned(), directory: args[2].clone() })
    }
}

/// The response that tells the client of `error`: `400 Bad Request` for a
/// malformed request line, `500 Internal Server Error` for an encoder that
/// failed.
pub open spec fn error_reply(error: ServerError) -> Seq<u8> {
    match error {
        ServerError::MalformedRequestLine => status_bad_request(),
        ServerError::CompressionFailed => status_internal_error(),
    }
}

/// The response that tells the client of `error`.
pub fn error_response(error: ServerError) -> (out: Vec<u8>)
    ensures
        out@ == error_reply(error),
{
    match error {
        ServerError::MalformedRequestLine => bad_request_response(),
        ServerError::CompressionFailed => internal_error_response(),
    }
}

/// Decides what to do for the bytes `received` on one connection: they are
/// read as text, invalid UTF-8 replaced, then parsed and routed. A request
/// that cannot be parsed is answered `400 Bad Request`. Only a request whose
/// response is gzip-encoded can be answered `500 Internal Server Error`,
/// and only where the encoder fails.
pub fn handle_connection(received: &[u8]) -> (action: Action)
    ensures
        match parse(lossy_text(received@)) {
            Some(request) => action@ == action_for(
                request,
                gzip_encoding(echo_text(request.path)),
            ) || (wants_gzip(request) && action@ == ActionView::Respond(
                status_internal_error(),
            )),
            None => action@ == ActionView::Respond(status_bad_request()),
        },
        valid_utf8(received@) ==> lossy_text(received@) == received@,
{
    let text = decode_lossy(received);
    match parse_request(text.as_slice()) {
        Ok(request) => match handle_request(&request) {
            Ok(action) => action,
            Err(error) => Action::Respond(error_response(error)),
        },
        Err(error) => Action::Respond(error_response(error)),
    }
}

} // verus!
