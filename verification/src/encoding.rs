//! Calls that turn bytes into text and back.

use base64::Engine;
use vstd::prelude::*;

verus! {

/// What `String::from_utf8_lossy` makes of bytes.
pub uninterp spec fn lossy_text(bytes: Seq<u8>) -> Seq<char>;

/// `std::string::String::from_utf8_lossy`: valid UTF-8 comes out as the characters it encodes;
/// in other bytes, replacement characters of three bytes stand for what is not valid. The text
/// depends on the bytes alone. There must be room for a replacement of every byte.
#[verifier::external_body]
pub(crate) fn text_from_utf8_lossy(bytes: &[u8]) -> (text: String)
    requires
        bytes@.len() * 3 <= isize::MAX,
    ensures
        text@ == lossy_text(bytes@),
        vstd::utf8::valid_utf8(bytes@) ==> text@ == vstd::utf8::decode_utf8(bytes@),
{
    String::from_utf8_lossy(bytes).into_owned()
}

/// The length of padded base64 text.
pub open spec fn base64_len(len: nat) -> nat {
    (len + 2) / 3 * 4
}

/// What the standard base64 engine makes of bytes.
pub uninterp spec fn base64_text(bytes: Seq<u8>) -> Seq<char>;

/// What the standard base64 engine makes of text: the bytes, or the text of its error.
pub uninterp spec fn base64_decoded(text: Seq<char>) -> Result<Seq<u8>, Seq<char>>;

/// `base64::Engine::encode` of `base64::engine::general_purpose::STANDARD`: the text depends on
/// the bytes alone, has four characters for every three bytes, the last ones padded, and the same
/// engine decodes it to those bytes. There must be room for the text.
#[verifier::external_body]
pub(crate) fn base64_encode(bytes: &[u8]) -> (text: String)
    requires
        base64_len(bytes@.len()) <= isize::MAX,
    ensures
        text@.len() == base64_len(bytes@.len()),
        text@ == base64_text(bytes@),
        base64_decoded(text@) is Ok && base64_decoded(text@)->Ok_0 == bytes@,
{
    base64::engine::general_purpose::STANDARD.encode(bytes)
}

/// `base64::Engine::decode` of `base64::engine::general_purpose::STANDARD`: the bytes, or the
/// error's text, depend on the text alone.
#[verifier::external_body]
pub(crate) fn base64_decode(text: &str) -> (decoded: Result<Vec<u8>, String>)
    ensures
        match decoded {
            Ok(bytes) => base64_decoded(text@) is Ok && base64_decoded(text@)->Ok_0 == bytes@,
            Err(error) => base64_decoded(text@) is Err && base64_decoded(text@)->Err_0 == error@,
        },
{
    base64::engine::general_purpose::STANDARD.decode(text).map_err(|error| error.to_string())
}

} // verus!
