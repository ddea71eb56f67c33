//! What the server does for one request once the request is understood.

use vstd::prelude::*;

verus! {

/// What to do for a request. File work is left to the caller, who then
/// asks `files` for the response that goes with its outcome.
#[derive(Debug, PartialEq, Eq)]
pub enum Action {
    /// Write these bytes to the connection and close it.
    Respond(Vec<u8>),
    /// Read the named file as text; `files::file_read_response` gives the
    /// response.
    ReadFile(Vec<u8>),
    /// Create or truncate the named file and write these bytes to it;
    /// `files::file_write_response` gives the response.
    WriteFile(Vec<u8>, Vec<u8>),
}

/// What an `Action` holds.
pub enum ActionView {
    Respond(Seq<u8>),
    ReadFile(Seq<u8>),
    WriteFile(Seq<u8>, Seq<u8>),
}

impl View for Action {
    type V = ActionView;

    open spec fn view(&self) -> ActionView {
        match *self {
            Action::Respond(bytes) => ActionView::Respond(bytes@),
            Action::ReadFile(name) => ActionView::ReadFile(name@),
            Action::WriteFile(name, contents) => ActionView::WriteFile(name@, contents@),
        }
    }
}

} // verus!
