//! Base64 text for the byte payloads of terminal messages.

use base64::Engine;
use vstd::prelude::*;

verus! {

/// The error that the base64 decoder reports.
#[verifier::external_type_specification]
#[verifier::external_body]
pub struct ExDecodeError(base64::DecodeError);

/// The standard, padded base64 text of `bytes`: what
/// `base64::engine::general_purpose::STANDARD.encode` returns.
pub uninterp spec fn base64_text(bytes: Seq<u8>) -> Seq<char>;

/// The bytes that standard, padded base64 `text` stands for, if it is well formed: what
/// `base64::engine::general_purpose::STANDARD.decode` returns.
pub uninterp spec fn base64_bytes(text: Seq<char>) -> Option<Seq<u8>>;

/// The base64 text of `bytes` fits in a `String`.
pub open spec fn encodable(bytes: Seq<u8>) -> bool {
    bytes.len() <= isize::MAX / 4 * 3
}

/// `c` is a character of the standard base64 alphabet.
pub open spec fn is_base64_char(c: char) -> bool {
    'A' <= c <= 'Z' || 'a' <= c <= 'z' || '0' <= c <= '9' || c == '+' || c == '/'
}

/// How many padding characters end the base64 text of `count` bytes.
pub open spec fn padding(count: nat) -> nat {
    if count % 3 == 1 {
        2
    } else if count % 3 == 2 {
        1
    } else {
        0
    }
}

/// `text` has the form of the standard, padded base64 text of `count` bytes: four characters for
/// each three bytes begun, all of the alphabet but for the padding at the end.
pub open spec fn padded_form(text: Seq<char>, count: nat) -> bool {
    &&& text.len() == 4 * ((count + 2) / 3)
    &&& forall|i: int|
        0 <= i < text.len() ==> if i < text.len() - padding(count) {
            is_base64_char(#[trigger] text[i])
        } else {
            text[i] == '='
        }
}

/// Calls `Engine::encode` of the `base64` crate on the `STANDARD` engine.
///
/// Trusted: the text depends on the bytes alone and has the padded form, and decoding it with the
/// same engine gives the bytes back. Input whose text would not fit in a `String` makes the crate panic and is left out.
#[verifier::external_body]
pub(crate) fn encode(bytes: &[u8]) -> (text: String)
    requires
        encodable(bytes@),
    ensures
        text@ == base64_text(bytes@),
        base64_bytes(text@) == Some(bytes@),
        padded_form(text@, bytes@.len()),
{
    base64::engine::general_purpose::STANDARD.encode(bytes)
}

/// Calls `Engine::decode` of the `base64` crate on the `STANDARD` engine.
///
/// Trusted: whether the text is accepted, and the bytes that it then stands for, depend on the
/// text alone. Only canonical text is accepted, that is the text that encoding those bytes gives,
/// and all such text is. Nothing is said of the error.
#[verifier::external_body]
pub(crate) fn decode(text: &str) -> (bytes: Result<Vec<u8>, base64::DecodeError>)
    ensures
        match bytes {
            Ok(found) => {
                &&& base64_bytes(text@) == Some(found@)
                &&& encodable(found@)
                &&& text@ == base64_text(found@)
                &&& padded_form(text@, found@.len())
                &&& forall|other: Seq<u8>|
                    encodable(other) && other != found@ ==> #[trigger] base64_text(other) != text@
            },
            Err(_) => {
                &&& base64_bytes(text@) is None
                &&& forall|other: Seq<u8>|
                    encodable(other) ==> #[trigger] base64_text(other) != text@
            },
        },
{
    base64::engine::general_purpose::STANDARD.decode(text)
}

} // verus!
