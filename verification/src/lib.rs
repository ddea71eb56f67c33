//! A minimal HTTP/1.1 server core: request parsing, content negotiation,
//! routing and response construction, stated over byte sequences.

pub mod action;
pub mod bytes;
pub mod error;
pub mod files;
pub mod gzip;
pub mod headers;
pub mod negotiation;
pub mod request;
pub mod response;
pub mod router;
pub mod server;
pub mod text;
