//! Base64 packaging of the generated images.

use base64::Engine;
use vstd::prelude::*;

verus! {

/// The standard-alphabet, padded base64 rendering of the UTF-8 bytes
/// of a character sequence. Neither the alphabet table nor the UTF-8
/// encoding is restated here; the rendering is a fixed function of
/// the characters alone.
pub uninterp spec fn base64_of(s: Seq<char>) -> Seq<char>;

/// Relies on `base64::engine::general_purpose::STANDARD.encode`:
/// standard alphabet, padded, a function of the input bytes alone —
/// and those bytes are a function of the input characters. The
/// engine panics when the encoded length overflows `usize`; UTF-8
/// spends at most four bytes per character, so the bound on the
/// character count keeps the encoded length far below that.
#[verifier::external_body]
pub(crate) fn base64_encode(s: &str) -> (r: String)
    requires
        s@.len() <= usize::MAX / 8,
    ensures
        r@ == base64_of(s@),
{
    base64::engine::general_purpose::STANDARD.encode(s.as_bytes())
}

} // verus!
