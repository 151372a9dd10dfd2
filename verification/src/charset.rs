//! The character encodings of the `encoding` crate, as the text stage sees
//! them: a lookup by label, and a strict decode from bytes to text.

use encoding::Encoding;
use vstd::prelude::*;

verus! {

/// The label of the charset that decodes a body whose charset is not declared
/// or not known.
pub const DEFAULT_CHARSET: &'static str = "windows-1252";

/// A handle on one of the `encoding` crate's character encodings.
///
/// The crate hands its encodings out as references to trait objects. Verus
/// accepts neither such a field nor a declaration of that type, so the handle
/// keeps its reference out of sight and is known only by the two names below.
#[verifier::external_body]
pub struct TextDecoder {
    encoding: encoding::types::EncodingRef,
}

/// The encoding that `encoding::label::encoding_from_whatwg_label` finds for
/// `label`, or `None` where the label is in none of its lists.
pub uninterp spec fn label_decoder(label: Seq<char>) -> Option<TextDecoder>;

/// What `encoding::Encoding::decode` returns for `bytes` under `decoder` with
/// the trap `DecoderTrap::Strict`: the text, or `None` where some byte
/// sequence is invalid in that encoding.
pub uninterp spec fn strict_decoding(decoder: TextDecoder, bytes: Seq<u8>) -> Option<Seq<char>>;

/// Looks `label` up with `encoding::label::encoding_from_whatwg_label`.
///
/// Trusted: which encoding is found, if any, depends on the label alone.
#[verifier::external_body]
pub(crate) fn decoder_for_label(label: &str) -> (found: Option<TextDecoder>)
    ensures
        found == label_decoder(label@),
{
    match encoding::label::encoding_from_whatwg_label(label) {
        Some(encoding) => Some(TextDecoder { encoding }),
        None => None,
    }
}

/// The encoding `encoding::all::WINDOWS_1252`.
///
/// Trusted: it is the encoding that the crate's label list gives for the
/// label `windows-1252`.
#[verifier::external_body]
pub(crate) fn windows_1252() -> (decoder: TextDecoder)
    ensures
        label_decoder(DEFAULT_CHARSET@) == Some(decoder),
{
    TextDecoder { encoding: encoding::all::WINDOWS_1252 }
}

/// Decodes `bytes` with `encoding::Encoding::decode` under the trap
/// `DecoderTrap::Strict`.
///
/// Trusted: the outcome depends on the encoding and the bytes alone, and
/// `None` stands for the error that the strict trap returns at the first
/// invalid byte sequence.
#[verifier::external_body]
pub(crate) fn decode_strict(decoder: &TextDecoder, bytes: &[u8]) -> (text: Option<String>)
    ensures
        match text {
            Some(decoded) => strict_decoding(*decoder, bytes@) == Some(decoded@),
            None => strict_decoding(*decoder, bytes@) is None,
        },
{
    match decoder.encoding.decode(bytes, encoding::DecoderTrap::Strict) {
        Ok(decoded) => Some(decoded),
        Err(_) => None,
    }
}

} // verus!
