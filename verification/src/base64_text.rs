//! Bytes as text in Base64 with the standard alphabet and padding.

use base64::Engine;
use vstd::prelude::*;

verus! {

/// What the `STANDARD` engine of `base64` writes for bytes.
pub uninterp spec fn encoded(bytes: Seq<u8>) -> Seq<char>;

/// What the `STANDARD` engine of `base64` reads from a text: bytes, or the message of its error.
pub uninterp spec fn decoded(s: Seq<char>) -> Result<Seq<u8>, Seq<char>>;

/// Writes bytes with the `STANDARD` engine's `encode`. The text depends on the bytes alone, and the
/// engine's `decode` reads them back from it.
#[verifier::external_body]
pub(crate) fn encode(bytes: &[u8]) -> (r: String)
    ensures
        r@ == encoded(bytes@),
        decoded(r@) is Ok,
        decoded(r@)->Ok_0 == bytes@,
{
    base64::engine::general_purpose::STANDARD.encode(bytes)
}

/// Reads a text with the `STANDARD` engine's `decode`. The bytes, or the message of the error, depend
/// on the text alone.
#[verifier::external_body]
pub(crate) fn decode(s: &str) -> (r: Result<Vec<u8>, String>)
    ensures
        match r {
            Ok(bytes) => decoded(s@) == Ok::<Seq<u8>, Seq<char>>(bytes@),
            Err(e) => decoded(s@) == Err::<Seq<u8>, Seq<char>>(e@),
        },
{
    base64::engine::general_purpose::STANDARD.decode(s).map_err(|e| e.to_string())
}

} // verus!
