//! The ways in which a request can fail to be answered.

use vstd::prelude::*;

verus! {

/// Why a connection's request got no response.
#[derive(Clone, Copy, Debug, PartialEq, Eq, Structural)]
pub enum ServerError {
    /// The request line has fewer than three tokens.
    MalformedRequestLine,
    /// The gzip encoder failed on the text to echo.
    CompressionFailed,
}

} // verus!
