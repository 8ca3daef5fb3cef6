//! Shared secrets as text: cleaning what a user typed, and decoding base32.

use crate::text::{from_chars, strip_white_space, to_chars, upper_cased, without_white_space};
use vstd::prelude::*;
use vstd::string::StringSliceAdditionalSpecFns;

verus! {

/// What `fast32::base32::RFC4648_NOPAD.decode` returns: the bytes that the
/// unpadded base32 text of RFC 4648 stands for, if it is such text.
pub uninterp spec fn base32_decoded(text: Seq<u8>) -> Option<Seq<u8>>;

/// `Alphabet32Nopad::decode` of fast32 on its alphabet `RFC4648_NOPAD`:
/// decodes unpadded base32 and fails on any byte outside the alphabet, on an
/// impossible length and on stray bits. All that is claimed is that the
/// same text always decodes alike.
#[verifier::external_body]
fn base32_decode(text: &[u8]) -> (r: Option<Vec<u8>>)
    ensures
        r is Some == base32_decoded(text@) is Some,
        r matches Some(bytes) ==> base32_decoded(text@) == Some(bytes@),
{
    fast32::base32::RFC4648_NOPAD.decode(text).ok()
}

/// The secret as it is decoded: without white space, in upper case.
pub open spec fn cleaned_secret(secret: Seq<char>) -> Seq<char> {
    upper_cased(strip_white_space(secret))
}

/// The bytes of a secret given as text, if the cleaned text is base32.
pub open spec fn secret_bytes(secret: Seq<char>) -> Option<Seq<u8>> {
    base32_decoded(vstd::utf8::encode_utf8(cleaned_secret(secret)))
}

/// Removes white space from a typed secret and puts it in upper case.
pub fn clean_secret(secret: &str) -> (r: String)
    ensures
        r@ == cleaned_secret(secret@),
{
    let chars = to_chars(secret);
    let stripped = from_chars(&without_white_space(&chars));
    stripped.as_str().to_uppercase()
}

/// Decodes a typed secret.
pub fn decode_secret(secret: &str) -> (r: Option<Vec<u8>>)
    ensures
        r is Some == secret_bytes(secret@) is Some,
        r matches Some(bytes) ==> secret_bytes(secret@) == Some(bytes@),
{
    let cleaned = clean_secret(secret);
    base32_decode(cleaned.as_str().as_bytes())
}

} // verus!
