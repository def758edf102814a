//! Calls into `base64` and `getrandom`: what the control surface needs from
//! them, and what their sources show of each call.

use vstd::prelude::*;
use base64::Engine;

verus! {

/// The RFC 4648 base64url alphabet without padding: ASCII letters, digits,
/// `-` and `_`.
pub open spec fn is_base64url_spec(c: char) -> bool {
    ('a' <= c && c <= 'z') || ('A' <= c && c <= 'Z') || ('0' <= c && c <= '9') || c == '-'
        || c == '_'
}

/// Length of the unpadded base64 encoding of `n` bytes.
pub open spec fn unpadded_len(n: nat) -> nat {
    let rem: nat = n % 3;
    let tail: nat = if rem == 0 {
        0
    } else if rem == 1 {
        2
    } else {
        3
    };
    n / 3 * 4 + tail
}

/// The base64url encoding, without padding, of `bytes`.
pub uninterp spec fn base64url_unpadded(bytes: Seq<u8>) -> Seq<char>;

/// The bytes that standard padded base64 decodes `text` to, or `None` where
/// the decoder refuses it.
pub uninterp spec fn base64_standard_decoded(text: Seq<char>) -> Option<Seq<u8>>;

/// Encodes with `base64`'s `URL_SAFE_NO_PAD` engine. Its result is named
/// [`base64url_unpadded`] of the input; the engine's `encoded_len` fixes the
/// length at [`unpadded_len`], and every symbol is from the `URL_SAFE`
/// alphabet. Its encoding bit by bit is not stated.
#[verifier::external_body]
pub(crate) fn encode_base64url(bytes: &[u8]) -> (r: String)
    requires
        bytes@.len() / 3 * 4 + 3 <= usize::MAX,
    ensures
        r@ == base64url_unpadded(bytes@),
        r@.len() == unpadded_len(bytes@.len()),
        forall|i: int| 0 <= i < r@.len() ==> is_base64url_spec(#[trigger] r@[i]),
{
    base64::engine::general_purpose::URL_SAFE_NO_PAD.encode(bytes)
}

/// The standard padded base64 encoding of the UTF-8 bytes of `text`.
pub uninterp spec fn base64_standard_of_text(text: Seq<char>) -> Seq<char>;

/// Encodes the UTF-8 bytes of `text` with `base64`'s `STANDARD` engine.
/// Its result is named [`base64_standard_of_text`] of the text; the
/// encoding itself is not stated.
#[verifier::external_body]
pub(crate) fn encode_base64_standard(text: &str) -> (r: String)
    requires
        crate::text::utf8_len(text@) / 3 * 4 + 4 <= usize::MAX,
    ensures
        r@ == base64_standard_of_text(text@),
{
    base64::engine::general_purpose::STANDARD.encode(text)
}

/// Decodes with `base64`'s `STANDARD` engine: `None` where the engine
/// returns an error, else the decoded bytes, named
/// [`base64_standard_decoded`] of the text. What it accepts is not stated.
#[verifier::external_body]
pub(crate) fn decode_base64_standard(text: &str) -> (r: Option<Vec<u8>>)
    ensures
        match base64_standard_decoded(text@) {
            Some(b) => r is Some && r->Some_0@ == b,
            None => r is None,
        },
{
    base64::engine::general_purpose::STANDARD.decode(text.as_bytes()).ok()
}

/// Fills `dest` from the operating system's random source with
/// `getrandom::fill`; `false` where it reports an error. The length of
/// `dest` is kept; what the bytes are is left open.
#[verifier::external_body]
pub(crate) fn fill_random(dest: &mut [u8]) -> (r: bool)
    ensures
        final(dest)@.len() == old(dest)@.len(),
{
    getrandom::fill(dest).is_ok()
}

} // verus!
