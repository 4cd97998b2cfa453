//! Payload text: standard base64 with padding.

use base64::Engine;
use vstd::prelude::*;

verus! {

/// The bytes that standard base64 with padding reads from a text, if the
/// text is base64.
pub uninterp spec fn base64_decoded(text: Seq<char>) -> Option<Seq<u8>>;

/// `STANDARD.decode` of the base64 crate: whether a text is accepted, and
/// the bytes it then gives, are a function of the text alone, named
/// `base64_decoded`. The engine's error is dropped.
#[verifier::external_body]
pub(crate) fn base64_decode(text: &str) -> (decoded: Option<Vec<u8>>)
    ensures
        match decoded {
            Some(bytes) => base64_decoded(text@) == Some(bytes@),
            None => base64_decoded(text@) is None,
        },
{
    base64::engine::general_purpose::STANDARD.decode(text).ok()
}

} // verus!
