//! Trusted boundary to the base64 crate.
//!
//! The engine stores binary values in string-valued stores and gives VLADs a
//! textual form; both use the standard alphabet without padding.  The text an
//! input encodes to, and the bytes a text decodes to, are named here; verified
//! code reasons about the names.

use vstd::prelude::*;

verus! {

/// The unpadded standard-alphabet base64 text of a byte string.
pub uninterp spec fn b64_of(b: Seq<u8>) -> Seq<char>;

/// The bytes a text decodes to under the unpadded standard alphabet, or
/// `None` where the text is not such an encoding.
pub uninterp spec fn b64_decode_of(s: Seq<char>) -> Option<Seq<u8>>;

/// Relies on base64's `STANDARD_NO_PAD` engine: `Engine::encode` maps the
/// input bytes alone to unpadded standard-alphabet text of the documented
/// length, and `Engine::decode` recovers exactly the input bytes from it.
/// The length bound keeps the engine's buffer-size computation from
/// overflowing, on which it would panic.
#[verifier::external_body]
pub(crate) fn b64_encode(data: &[u8]) -> (r: String)
    requires
        data@.len() < usize::MAX as int / 4,
    ensures
        r@ == b64_of(data@),
        b64_decode_of(r@) == Some(data@),
        r@.len() == 4 * (data@.len() / 3) + (if data@.len() % 3 == 0 {
            0int
        } else if data@.len() % 3 == 1 {
            2int
        } else {
            3int
        }),
{
    base64::Engine::encode(&base64::engine::general_purpose::STANDARD_NO_PAD, data)
}

/// Relies on base64's `STANDARD_NO_PAD` engine: `Engine::decode` depends on
/// the input text alone; every four characters decode to three bytes, with a
/// shorter final group.
#[verifier::external_body]
pub(crate) fn b64_decode(s: &str) -> (r: Option<Vec<u8>>)
    ensures
        r matches Some(b) ==> b64_decode_of(s@) == Some(b@) && 4 * b@.len() <= 3 * s@.len(),
        r is None ==> b64_decode_of(s@) is None,
{
    base64::Engine::decode(&base64::engine::general_purpose::STANDARD_NO_PAD, s).ok()
}

} // verus!
