//! Standard base64 decoding, by the `base64` crate.

use base64::Engine;
use vstd::prelude::*;

verus! {

/// What `base64::engine::general_purpose::STANDARD.decode` yields for the
/// input bytes; `None` when it reports an error.
pub uninterp spec fn base64_standard_decoded(s: Seq<u8>) -> Option<Seq<u8>>;

/// Calls `STANDARD.decode` (standard alphabet, padding required).
#[verifier::external_body]
pub(crate) fn base64_decode(s: &[u8]) -> (r: Option<Vec<u8>>)
    ensures
        match r {
            Some(v) => base64_standard_decoded(s@) == Some(v@),
            None => base64_standard_decoded(s@) is None,
        },
{
    base64::engine::general_purpose::STANDARD.decode(s).ok()
}

} // verus!
