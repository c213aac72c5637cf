//! Lossy UTF-8 decoding of helper-process output.

use vstd::prelude::*;

verus! {

/// The character sequence that lossy UTF-8 decoding yields for `bytes`:
/// well-formed sequences decode to their characters, and each maximal
/// ill-formed subsequence becomes one replacement character.
pub uninterp spec fn utf8_lossy_of(bytes: Seq<u8>) -> Seq<char>;

/// Relies on `String::from_utf8_lossy`: its result depends on the bytes
/// alone, so it is named rather than written out.
#[verifier::external_body]
pub(crate) fn decode_utf8_lossy(bytes: &[u8]) -> (r: String)
    ensures
        r@ == utf8_lossy_of(bytes@),
{
    String::from_utf8_lossy(bytes).into_owned()
}

} // verus!
