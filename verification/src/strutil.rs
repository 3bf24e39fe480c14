//! String helpers over outside functions.

use vstd::prelude::*;

verus! {

/// The characters that lossy UTF-8 decoding yields for a byte
/// sequence. The decoding rules are not restated here; the result
/// is a fixed function of the bytes alone.
pub uninterp spec fn lossy_utf8(b: Seq<u8>) -> Seq<char>;

/// Relies on `String::from_utf8_lossy`: decodes UTF-8, replacing
/// invalid sequences with the replacement character, a function of
/// the input bytes alone.
#[verifier::external_body]
pub(crate) fn utf8_lossy(b: &[u8]) -> (r: String)
    ensures
        r@ == lossy_utf8(b@),
{
    String::from_utf8_lossy(b).into_owned()
}

/// Relies on `str`'s `==` (its `PartialEq`): character-for-character
/// equality of the two string slices.
#[verifier::external_body]
pub(crate) fn str_eq(a: &str, b: &str) -> (r: bool)
    ensures
        r == (a@ == b@),
{
    a == b
}

} // verus!
