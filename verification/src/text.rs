//! The text stage: decodes the decompressed bytes strictly, with the charset
//! that the `Content-Type` header declares or, where that gives no decoder,
//! with the default charset.

use crate::charset::{
    decode_strict, decoder_for_label, label_decoder, strict_decoding, windows_1252, TextDecoder,
    DEFAULT_CHARSET,
};
use crate::error::{
    declared_charset_cause, default_charset_cause, text_outcome, FetchError, FetchErrorView,
};
use crate::headers::ResponseHeaders;
use vstd::prelude::*;

verus! {

/// The cause reported when bytes are invalid in the charset that applies:
/// the declared one where `declared` holds its label, else the default.
pub open spec fn charset_cause(declared: Option<Seq<char>>) -> Seq<char> {
    match declared {
        Some(label) => declared_charset_cause(label),
        None => default_charset_cause(),
    }
}

/// What becomes of a body once its decoder has run: the text it gave, or the
/// failure that names the charset in which the bytes are invalid.
pub open spec fn text_result(decoded: Option<Seq<char>>, declared: Option<Seq<char>>) -> Result<
    Seq<char>,
    FetchErrorView,
> {
    match decoded {
        Some(text) => Ok(text),
        None => Err(FetchErrorView::CharsetError(charset_cause(declared))),
    }
}

/// The declared label, where there is one and it has a decoder.
pub open spec fn resolved_label(charset: Option<Seq<char>>) -> Option<Seq<char>> {
    match charset {
        Some(label) => if label_decoder(label) is Some {
            Some(label)
        } else {
            None
        },
        None => None,
    }
}

/// The decoder of the default charset.
pub open spec fn default_decoder() -> TextDecoder {
    label_decoder(DEFAULT_CHARSET@)->0
}

/// The text of `body` under the declared charset label `charset`.
///
/// An empty body is the empty text. Otherwise a label that has a decoder
/// decides alone: bytes invalid under it fail, and the default charset is
/// not tried. Without a label, or with one that has no decoder, the default
/// charset decodes, as strictly.
pub open spec fn decoded_text(charset: Option<Seq<char>>, body: Seq<u8>) -> Result<
    Seq<char>,
    FetchErrorView,
> {
    if body.len() == 0 {
        Ok(Seq::<char>::empty())
    } else {
        match resolved_label(charset) {
            Some(label) => text_result(
                strict_decoding(label_decoder(label)->0, body),
                Some(label),
            ),
            None => text_result(strict_decoding(default_decoder(), body), None),
        }
    }
}

/// What becomes of a body once its decoder has run: the text it gave, or the
/// failure that names the charset in which the bytes are invalid, which is
/// the declared one where `declared` holds its label, else the default.
pub fn text_or_error(decoded: Option<String>, declared: Option<&str>) -> (result: Result<
    String,
    FetchError,
>)
    ensures
        match decoded {
            Some(text) => result == Ok::<String, FetchError>(text),
            None => text_outcome(result) == Err::<Seq<char>, FetchErrorView>(
                FetchErrorView::CharsetError(
                    charset_cause(
                        match declared {
                            Some(label) => Some(label@),
                            None => None,
                        },
                    ),
                ),
            ),
        },
{
    match decoded {
        Some(text) => Ok(text),
        None => match declared {
            Some(label) => Err(FetchError::invalid_for_declared(label)),
            None => Err(FetchError::invalid_for_default()),
        },
    }
}

/// Decodes `body` to text, with the charset that the `Content-Type` header
/// of `headers` declares or, where that gives no decoder, with the default
/// charset.
///
/// Every failure of this stage is a `CharsetError`.
pub fn decode_text(headers: &ResponseHeaders, body: Vec<u8>) -> (result: Result<
    String,
    FetchError,
>)
    ensures
        text_outcome(result) == decoded_text(headers@.charset(), body@),
        body@.len() == 0 ==> (result matches Ok(text) && text@.len() == 0),
        result matches Err(error) ==> error is CharsetError,
{
    if body.len() == 0 {
        return Ok(String::new());
    }
    match headers.charset() {
        Some(label) => match decoder_for_label(label) {
            Some(decoder) => {
                return text_or_error(decode_strict(&decoder, body.as_slice()), Some(label));
            },
            None => {},
        },
        None => {},
    }
    let decoder = windows_1252();
    text_or_error(decode_strict(&decoder, body.as_slice()), None)
}

/// An empty body is the empty text, whatever charset is declared.
pub proof fn lemma_empty_body_is_empty_text(charset: Option<Seq<char>>)
    ensures
        decoded_text(charset, Seq::<u8>::empty()) == Ok::<Seq<char>, FetchErrorView>(
            Seq::<char>::empty(),
        ),
{
}

/// A declared label that has a decoder decides alone: the body is the text
/// that this decoder gives, and where it rejects the bytes the stage fails
/// with a `CharsetError`, without trying the default charset.
pub proof fn lemma_declared_charset_decides(label: Seq<char>, body: Seq<u8>)
    requires
        label_decoder(label) is Some,
        body.len() > 0,
    ensures
        match strict_decoding(label_decoder(label)->0, body) {
            Some(text) => decoded_text(Some(label), body) == Ok::<Seq<char>, FetchErrorView>(
                text,
            ),
            None => decoded_text(Some(label), body) == Err::<Seq<char>, FetchErrorView>(
                FetchErrorView::CharsetError(declared_charset_cause(label)),
            ),
        },
{
}

/// A label that has no decoder is no reason to fail: the body decodes as if
/// no charset were declared, with the default charset.
pub proof fn lemma_unknown_label_uses_default(label: Seq<char>, body: Seq<u8>)
    requires
        label_decoder(label) is None,
    ensures
        decoded_text(Some(label), body) == decoded_text(None, body),
{
}

/// Without a declared charset the default charset decides: the body is the
/// text that its decoder gives, and where it rejects the bytes the stage
/// fails with a `CharsetError`.
pub proof fn lemma_default_charset_decides(body: Seq<u8>)
    requires
        body.len() > 0,
    ensures
        match strict_decoding(default_decoder(), body) {
            Some(text) => decoded_text(None, body) == Ok::<Seq<char>, FetchErrorView>(text),
            None => decoded_text(None, body) == Err::<Seq<char>, FetchErrorView>(
                FetchErrorView::CharsetError(default_charset_cause()),
            ),
        },
{
}

} // verus!
