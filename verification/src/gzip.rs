//! Gzip encoding of a response body, done by the `flate2` crate.

use std::io::Write;
use vstd::prelude::*;

verus! {

#[verifier::external_type_specification]
#[verifier::external_body]
pub struct ExIoError(std::io::Error);

/// The gzip stream that `flate2` makes of `data` at its default
/// compression level.
pub uninterp spec fn gzip_encoding(data: Seq<u8>) -> Seq<u8>;

/// Feeds `data` to a `flate2::write::GzEncoder` over an empty vector, made
/// by `GzEncoder::new` with `Compression::default()`, and takes the vector
/// back with `GzEncoder::finish`. The encoder's header holds no time and
/// no name, so the stream depends on `data` alone; that stream is what
/// `gzip_encoding` names. Nothing is claimed of when the encoder fails.
#[verifier::external_body]
pub(crate) fn gzip_encode(data: &[u8]) -> (encoded: Result<Vec<u8>, std::io::Error>)
    ensures
        encoded matches Ok(stream) ==> stream@ == gzip_encoding(data@),
{
    let mut encoder = flate2::write::GzEncoder::new(Vec::new(), flate2::Compression::default());
    encoder.write_all(data)?;
    encoder.finish()
}

} // verus!
