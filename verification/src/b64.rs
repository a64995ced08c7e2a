//! Trusted boundary to the `base64` crate, which supplies the transport-safe
//! opaque wrapping of cursor payloads.

use vstd::prelude::*;

verus! {

/// The standard-alphabet, padded base64 rendering of a byte sequence, exactly
/// as `base64::encode` produces it. A function of the bytes alone.
pub uninterp spec fn base64_encoding(bytes: Seq<u8>) -> Seq<char>;

/// What `base64::decode` makes of a string: `Some` of the decoded bytes, or
/// `None` where the string is not acceptable base64. A function of the string
/// alone.
pub uninterp spec fn base64_decoding(s: Seq<char>) -> Option<Seq<u8>>;

/// Relies on `base64::encode`: the standard-alphabet base64 encoding of the
/// bytes, depending on the bytes alone.
#[verifier::external_body]
pub(crate) fn b64_encode(bytes: &Vec<u8>) -> (r: String)
    ensures
        r@ == base64_encoding(bytes@),
{
    base64::encode(bytes)
}

/// Relies on `base64::decode`: a deterministic decoder that inverts
/// `base64::encode`, so a string `base64::encode` produced decodes to exactly
/// the bytes it was produced from, and strings that are not base64 are
/// rejected rather than faulting.
#[verifier::external_body]
pub(crate) fn b64_decode(s: &str) -> (r: Option<Vec<u8>>)
    ensures
        (match r {
            Some(v) => {
                &&& base64_decoding(s@) == Some(v@)
                &&& forall|b: Seq<u8>| s@ == base64_encoding(b) ==> v@ == b
            },
            None => {
                &&& base64_decoding(s@) is None
                &&& forall|b: Seq<u8>| s@ != base64_encoding(b)
            },
        }),
{
    match base64::decode(s) {
        Ok(v) => Some(v),
        Err(_) => None,
    }
}

} // verus!
