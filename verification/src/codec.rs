//! Message codec: turns raw record payloads from the log into the text form
//! carried in replies.
//!
//! Reads decode best-effort: invalid UTF-8 never fails a read, it is replaced.
//! Writes treat outbound message text as raw bytes and need no codec.

use vstd::prelude::*;

verus! {

/// The text that best-effort UTF-8 decoding yields for a byte sequence. The
/// result is a function of the bytes alone; on valid UTF-8 it agrees with
/// `vstd::utf8::decode_utf8` (see `decode_lossy`).
pub uninterp spec fn lossy_utf8(bytes: Seq<u8>) -> Seq<char>;

/// Relies on `String::from_utf8_lossy`: decodes bytes to text, substituting
/// replacement characters for invalid sequences; valid UTF-8 converts
/// unchanged, so there it agrees with vstd's UTF-8 decoding.
#[verifier::external_body]
pub(crate) fn decode_lossy(bytes: &[u8]) -> (r: String)
    ensures
        r@ == lossy_utf8(bytes@),
        vstd::utf8::valid_utf8(bytes@) ==> r@ == vstd::utf8::decode_utf8(bytes@),
{
    String::from_utf8_lossy(bytes).into_owned()
}

} // verus!
