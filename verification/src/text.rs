//! Turning the bytes read from a connection into text.

use vstd::prelude::*;
use vstd::utf8::valid_utf8;

verus! {

/// The UTF-8 text that `String::from_utf8_lossy` makes of `raw`, as bytes.
pub uninterp spec fn lossy_text(raw: Seq<u8>) -> Seq<u8>;

/// Calls `String::from_utf8_lossy` and hands back the bytes of the string
/// it gives. That string is what `lossy_text` names; as std documents,
/// bytes that are valid UTF-8 come back as they are, and only an invalid
/// sequence is replaced.
#[verifier::external_body]
pub(crate) fn decode_lossy(raw: &[u8]) -> (text: Vec<u8>)
    ensures
        text@ == lossy_text(raw@),
        valid_utf8(raw@) ==> text@ == raw@,
{
    String::from_utf8_lossy(raw).into_owned().into_bytes()
}

} // verus!
