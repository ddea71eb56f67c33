//! Content negotiation: whether a client accepts a gzip-encoded response.

use crate::bytes::{equal, split, split_on, views};
use vstd::prelude::*;
use vstd::string::StringSliceAdditionalSpecFns;

verus! {

/// An `Accept-Encoding` value offers gzip where one of its tokens, the
/// pieces between `", "`, is exactly `gzip`.
pub open spec fn accepts_gzip(encodings: Seq<u8>) -> bool {
    split(encodings, ", ".spec_bytes()).contains("gzip".spec_bytes())
}

/// Whether the `Accept-Encoding` value `encodings` offers gzip.
pub fn contains_gzip_encoding(encodings: &[u8]) -> (supported: bool)
    ensures
        supported == accepts_gzip(encodings@),
{
    let tokens = split_on(encodings, ", ".as_bytes());
    let ghost all = split(encodings@, ", ".spec_bytes());
    let mut i: usize = 0;
    while i < tokens.len()
        invariant
            i <= tokens.len(),
            views(tokens@) == all,
            all == split(encodings@, ", ".spec_bytes()),
            forall|j: int| 0 <= j < i ==> all[j] != "gzip".spec_bytes(),
        decreases tokens.len() - i,
    {
        if equal(tokens[i].as_slice(), "gzip".as_bytes()) {
            proof {
                assert(all[i as int] == tokens[i as int]@);
                assert(all.contains("gzip".spec_bytes()));
            }
            return true;
        }
        proof {
            assert(all[i as int] == tokens[i as int]@);
        }
        i += 1;
    }
    false
}

} // verus!
