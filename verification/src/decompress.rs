//! The decompression stage: undoes the content codings that the
//! `Content-Encoding` header declares, the last one first.

use crate::codec::{gunzip, gzip_decoding, inflate, zlib_decoding};
use crate::error::{
    bytes_outcome, corrupt_stream_cause, unsupported_encoding_cause, FetchError, FetchErrorView,
};
use crate::headers::{HeadersView, ResponseHeaders};
use crate::token::{token_views, EncodingToken, TokenView};
use vstd::prelude::*;

verus! {

/// What becomes of a stream once its decoder has run: the bytes it gave, or
/// the failure that names the coding whose stream it rejected.
pub open spec fn stream_result(decoded: Option<Seq<u8>>, coding: Seq<char>) -> Result<
    Seq<u8>,
    FetchErrorView,
> {
    match decoded {
        Some(bytes) => Ok(bytes),
        None => Err(FetchErrorView::ReadError(corrupt_stream_cause(coding))),
    }
}

/// `buffer` with the coding `token` undone.
///
/// An empty buffer stays empty under gzip and deflate. `chunked` and
/// `identity` leave every buffer as it is. Any other coding fails.
pub open spec fn undone(token: TokenView, buffer: Seq<u8>) -> Result<Seq<u8>, FetchErrorView> {
    match token {
        TokenView::Gzip => if buffer.len() == 0 {
            Ok(buffer)
        } else {
            stream_result(gzip_decoding(buffer), "gzip"@)
        },
        TokenView::Deflate => if buffer.len() == 0 {
            Ok(buffer)
        } else {
            stream_result(zlib_decoding(buffer), "deflate"@)
        },
        TokenView::Chunked => Ok(buffer),
        TokenView::Identity => Ok(buffer),
        TokenView::Unsupported(name) => Err(
            FetchErrorView::ReadError(unsupported_encoding_cause(name)),
        ),
    }
}

/// `body` with the codings `tokens` undone, the last of them first. The
/// first coding that fails ends the work with its failure.
pub open spec fn decompressed(tokens: Seq<TokenView>, body: Seq<u8>) -> Result<
    Seq<u8>,
    FetchErrorView,
>
    decreases tokens.len(),
{
    if tokens.len() == 0 {
        Ok(body)
    } else {
        match undone(tokens.last(), body) {
            Ok(buffer) => decompressed(tokens.drop_last(), buffer),
            Err(error) => Err(error),
        }
    }
}

/// What becomes of a stream once its decoder has run: the bytes it gave, or
/// the failure that names the coding whose stream it rejected.
pub fn stream_outcome(decoded: Option<Vec<u8>>, coding: &str) -> (result: Result<
    Vec<u8>,
    FetchError,
>)
    ensures
        match decoded {
            Some(bytes) => result == Ok::<Vec<u8>, FetchError>(bytes),
            None => bytes_outcome(result) == Err::<Seq<u8>, FetchErrorView>(
                FetchErrorView::ReadError(corrupt_stream_cause(coding@)),
            ),
        },
{
    match decoded {
        Some(bytes) => Ok(bytes),
        None => Err(FetchError::corrupt_stream(coding)),
    }
}

/// Undoes the coding `token` on `buffer`.
pub fn undo(token: &EncodingToken, buffer: Vec<u8>) -> (result: Result<Vec<u8>, FetchError>)
    ensures
        bytes_outcome(result) == undone(token@, buffer@),
{
    match token {
        EncodingToken::Gzip => {
            if buffer.len() == 0 {
                Ok(buffer)
            } else {
                stream_outcome(gunzip(buffer.as_slice()), "gzip")
            }
        },
        EncodingToken::Deflate => {
            if buffer.len() == 0 {
                Ok(buffer)
            } else {
                stream_outcome(inflate(buffer.as_slice()), "deflate")
            }
        },
        EncodingToken::Chunked => Ok(buffer),
        EncodingToken::Identity => Ok(buffer),
        EncodingToken::Unsupported(name) => Err(FetchError::unsupported_encoding(name.as_str())),
    }
}

/// Undoes the codings `tokens` on `body`, the last one first.
pub fn undo_all(tokens: &Vec<EncodingToken>, body: Vec<u8>) -> (result: Result<
    Vec<u8>,
    FetchError,
>)
    ensures
        bytes_outcome(result) == decompressed(token_views(tokens@), body@),
{
    let ghost all = token_views(tokens@);
    let mut buffer = body;
    let mut left: usize = tokens.len();
    assert(all.take(left as int) =~= all);
    while left > 0
        invariant
            left <= tokens@.len(),
            all == token_views(tokens@),
            decompressed(all, body@) == decompressed(all.take(left as int), buffer@),
        decreases left,
    {
        proof {
            let ahead = all.take(left as int);
            assert(ahead.last() == tokens@[left - 1]@);
            assert(ahead.drop_last() =~= all.take(left - 1));
        }
        match undo(&tokens[left - 1], buffer) {
            Ok(next) => {
                buffer = next;
            },
            Err(error) => {
                return Err(error);
            },
        }
        left = left - 1;
    }
    Ok(buffer)
}

/// Undoes the codings that the `Content-Encoding` header of `headers`
/// declares on `body`, the last one first.
///
/// Without such a header the body comes back as it is. A coding that is not
/// supported makes the stage fail, and every failure of this stage is a
/// `ReadError`.
pub fn decompress(headers: &ResponseHeaders, body: Vec<u8>) -> (result: Result<
    Vec<u8>,
    FetchError,
>)
    ensures
        bytes_outcome(result) == decompressed(headers@.encoding_tokens(), body@),
        headers@.content_encoding.len() == 0 ==> result == Ok::<Vec<u8>, FetchError>(body),
        (exists|i: int|
            0 <= i < headers@.encoding_tokens().len() && !is_supported(
                #[trigger] headers@.encoding_tokens()[i],
            )) ==> result is Err,
        result matches Err(error) ==> error is ReadError,
{
    if headers.content_encoding.len() == 0 {
        return Ok(body);
    }
    let tokens = headers.encoding_tokens();
    proof {
        let declared = headers@.encoding_tokens();
        lemma_failure_is_read_error(declared, body@);
        if exists|i: int| 0 <= i < declared.len() && !is_supported(#[trigger] declared[i]) {
            lemma_unsupported_coding_fails(declared, body@);
        }
    }
    undo_all(&tokens, body)
}

/// Every failure of the decompression stage is a `ReadError`.
pub proof fn lemma_failure_is_read_error(tokens: Seq<TokenView>, body: Seq<u8>)
    ensures
        decompressed(tokens, body) matches Err(error) ==> error is ReadError,
    decreases tokens.len(),
{
    if tokens.len() > 0 {
        if let Ok(buffer) = undone(tokens.last(), body) {
            lemma_failure_is_read_error(tokens.drop_last(), buffer);
        }
    }
}

/// Whether `token` is one of the codings that the stage can undo.
pub open spec fn is_supported(token: TokenView) -> bool {
    !(token is Unsupported)
}

/// Without a `Content-Encoding` header, decompression gives the body back
/// as it is.
pub proof fn lemma_without_header_body_is_unchanged(headers: HeadersView, body: Seq<u8>)
    requires
        headers.content_encoding.len() == 0,
    ensures
        decompressed(headers.encoding_tokens(), body) == Ok::<Seq<u8>, FetchErrorView>(body),
{
}

/// A header that lists only `identity` and `chunked` is as good as none:
/// decompression gives the body back as it is.
pub proof fn lemma_passive_codings_change_nothing(tokens: Seq<TokenView>, body: Seq<u8>)
    requires
        forall|i: int| 0 <= i < tokens.len() ==> tokens[i] is Identity || tokens[i] is Chunked,
    ensures
        decompressed(tokens, body) == Ok::<Seq<u8>, FetchErrorView>(body),
    decreases tokens.len(),
{
    if tokens.len() > 0 {
        lemma_passive_codings_change_nothing(tokens.drop_last(), body);
    }
}

/// Under a single coding, decompression is that coding undone.
pub proof fn lemma_single_coding(token: TokenView, body: Seq<u8>)
    ensures
        decompressed(seq![token], body) == undone(token, body),
{
    let tokens = seq![token];
    assert(tokens.last() == token);
    assert(tokens.drop_last() =~= Seq::<TokenView>::empty());
    if let Ok(buffer) = undone(token, body) {
        assert(decompressed(tokens.drop_last(), buffer) == Ok::<Seq<u8>, FetchErrorView>(buffer));
    }
}

/// A chain of codings is undone back to front: the codings of `second`
/// first, and on what they leave those of `first`.
pub proof fn lemma_chain_is_undone_back_to_front(
    first: Seq<TokenView>,
    second: Seq<TokenView>,
    body: Seq<u8>,
)
    ensures
        decompressed(first + second, body) == match decompressed(second, body) {
            Ok(buffer) => decompressed(first, buffer),
            Err(error) => Err(error),
        },
    decreases second.len(),
{
    if second.len() == 0 {
        assert(first + second =~= first);
    } else {
        let chain = first + second;
        assert(chain.last() == second.last());
        assert(chain.drop_last() =~= first + second.drop_last());
        if let Ok(buffer) = undone(second.last(), body) {
            lemma_chain_is_undone_back_to_front(first, second.drop_last(), buffer);
        }
    }
}

/// A coding that is not supported makes decompression fail with a
/// `ReadError`, wherever it stands in the header and whatever the body holds.
pub proof fn lemma_unsupported_coding_fails(tokens: Seq<TokenView>, body: Seq<u8>)
    requires
        exists|i: int| 0 <= i < tokens.len() && !is_supported(#[trigger] tokens[i]),
    ensures
        decompressed(tokens, body) matches Err(error) && error is ReadError,
    decreases tokens.len(),
{
    lemma_failure_is_read_error(tokens, body);
    let i = choose|i: int| 0 <= i < tokens.len() && !is_supported(#[trigger] tokens[i]);
    if let Ok(buffer) = undone(tokens.last(), body) {
        assert(i < tokens.len() - 1);
        assert(tokens.drop_last()[i] == tokens[i]);
        lemma_unsupported_coding_fails(tokens.drop_last(), buffer);
    }
}

/// An empty body stays empty under every chain of supported codings.
pub proof fn lemma_empty_body_stays_empty(tokens: Seq<TokenView>)
    requires
        forall|i: int| 0 <= i < tokens.len() ==> is_supported(#[trigger] tokens[i]),
    ensures
        decompressed(tokens, Seq::<u8>::empty()) == Ok::<Seq<u8>, FetchErrorView>(
            Seq::<u8>::empty(),
        ),
    decreases tokens.len(),
{
    if tokens.len() > 0 {
        lemma_empty_body_stays_empty(tokens.drop_last());
    }
}

} // verus!
