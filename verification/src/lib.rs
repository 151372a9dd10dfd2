//! Turns a fully buffered HTTP response body into text.
//!
//! The body first passes through the decompression stage, which undoes the
//! content codings named by the `Content-Encoding` header, last coding first.
//! The text stage decodes the resulting bytes strictly, with the charset that
//! the `Content-Type` header declares or, failing that, with windows-1252.

use vstd::prelude::*;

pub mod charset;
pub mod codec;
pub mod decompress;
pub mod error;
pub mod headers;
pub mod text;
pub mod token;

pub use charset::{label_decoder, strict_decoding, TextDecoder, DEFAULT_CHARSET};
pub use codec::{gzip_decoding, zlib_decoding};
pub use decompress::{decompress, decompressed, stream_outcome, undo, undo_all, undone};
pub use error::{text_outcome, FetchError, FetchErrorView};
pub use headers::{ContentType, HeadersView, ResponseHeaders};
pub use text::{decode_text, decoded_text, text_or_error};
pub use token::{parse_content_encoding, EncodingToken, TokenView};

verus! {

/// The text of a response with the headers `headers` and the body `body`:
/// the body decompressed, and what that gives decoded.
pub open spec fn fetched_text(headers: HeadersView, body: Seq<u8>) -> Result<
    Seq<char>,
    FetchErrorView,
> {
    match decompressed(headers.encoding_tokens(), body) {
        Ok(bytes) => decoded_text(headers.charset(), bytes),
        Err(error) => Err(error),
    }
}

/// Returns the body of a response as text: decompresses `raw_body` as the
/// `Content-Encoding` header of `headers` asks, and decodes what that gives
/// as its `Content-Type` header asks.
///
/// The first failure ends the work: a `ReadError` from decompression, a
/// `CharsetError` from decoding.
pub fn fetch_body(headers: &ResponseHeaders, raw_body: Vec<u8>) -> (result: Result<
    String,
    FetchError,
>)
    ensures
        text_outcome(result) == fetched_text(headers@, raw_body@),
        raw_body@.len() == 0 && (forall|i: int|
            0 <= i < headers@.encoding_tokens().len() ==> decompress::is_supported(
                #[trigger] headers@.encoding_tokens()[i],
            )) ==> (result matches Ok(text) && text@.len() == 0),
        result matches Err(error) ==> error is ReadError || error is CharsetError,
{
    proof {
        if raw_body@.len() == 0 {
            assert(raw_body@ =~= Seq::<u8>::empty());
            if forall|i: int|
                0 <= i < headers@.encoding_tokens().len() ==> decompress::is_supported(
                    #[trigger] headers@.encoding_tokens()[i],
                ) {
                lemma_empty_body_fetches_empty_text(headers@);
            }
        }
    }
    match decompress(headers, raw_body) {
        Ok(body) => decode_text(headers, body),
        Err(error) => Err(error),
    }
}

/// An empty body under supported codings is the empty text, whatever
/// charset is declared: neither stage fails on it.
pub proof fn lemma_empty_body_fetches_empty_text(headers: HeadersView)
    requires
        forall|i: int|
            0 <= i < headers.encoding_tokens().len() ==> decompress::is_supported(
                #[trigger] headers.encoding_tokens()[i],
            ),
    ensures
        fetched_text(headers, Seq::<u8>::empty()) == Ok::<Seq<char>, FetchErrorView>(
            Seq::<char>::empty(),
        ),
{
    decompress::lemma_empty_body_stays_empty(headers.encoding_tokens());
    text::lemma_empty_body_is_empty_text(headers.charset());
}

/// With neither header the pipeline is the default charset's decoder alone.
pub proof fn lemma_bare_response_is_default_decoded(headers: HeadersView, body: Seq<u8>)
    requires
        headers.content_encoding.len() == 0,
        headers.content_type is None,
    ensures
        fetched_text(headers, body) == decoded_text(None, body),
{
}

} // verus!
