//! The failures of the pipeline, each with the cause it reports.

use crate::charset::DEFAULT_CHARSET;
use vstd::prelude::*;

verus! {

/// Why a body could not be turned into text.
#[derive(Debug, Clone, PartialEq, Eq)]
pub enum FetchError {
    /// The transport could not deliver the response. The pipeline itself
    /// never reports this; it is here for the caller that fetched the bytes.
    RetrieveError(String),
    /// The body could not be decompressed: a stream was corrupt or cut short,
    /// or the header names a content coding that is not supported.
    ReadError(String),
    /// The decompressed bytes are not valid text in the charset that applies.
    CharsetError(String),
}

/// A `FetchError` with the text of its cause as a sequence of characters.
pub enum FetchErrorView {
    RetrieveError(Seq<char>),
    ReadError(Seq<char>),
    CharsetError(Seq<char>),
}

impl View for FetchError {
    type V = FetchErrorView;

    open spec fn view(&self) -> FetchErrorView {
        match self {
            FetchError::RetrieveError(cause) => FetchErrorView::RetrieveError(cause@),
            FetchError::ReadError(cause) => FetchErrorView::ReadError(cause@),
            FetchError::CharsetError(cause) => FetchErrorView::CharsetError(cause@),
        }
    }
}

impl FetchErrorView {
    /// The cause that the failure carries.
    pub open spec fn cause(self) -> Seq<char> {
        match self {
            FetchErrorView::RetrieveError(cause) => cause,
            FetchErrorView::ReadError(cause) => cause,
            FetchErrorView::CharsetError(cause) => cause,
        }
    }
}

/// What a stage that yields bytes returned, with the bytes as a sequence.
pub open spec fn bytes_outcome(result: Result<Vec<u8>, FetchError>) -> Result<
    Seq<u8>,
    FetchErrorView,
> {
    match result {
        Ok(bytes) => Ok(bytes@),
        Err(error) => Err(error@),
    }
}

/// What a stage that yields text returned, with the text as a sequence.
pub open spec fn text_outcome(result: Result<String, FetchError>) -> Result<
    Seq<char>,
    FetchErrorView,
> {
    match result {
        Ok(text) => Ok(text@),
        Err(error) => Err(error@),
    }
}

/// The cause reported for a content coding that is not supported.
pub open spec fn unsupported_encoding_cause(name: Seq<char>) -> Seq<char> {
    "decompression: unsupported content encoding: "@ + name
}

/// The cause reported for a stream that its decoder rejects.
pub open spec fn corrupt_stream_cause(coding: Seq<char>) -> Seq<char> {
    "decompression: corrupt or truncated stream: "@ + coding
}

/// The cause reported for bytes that are invalid in the declared charset.
pub open spec fn declared_charset_cause(label: Seq<char>) -> Seq<char> {
    "text decoding: invalid bytes for the declared charset: "@ + label
}

/// The cause reported for bytes that are invalid in the default charset.
pub open spec fn default_charset_cause() -> Seq<char> {
    "text decoding: invalid bytes for the default charset: "@ + DEFAULT_CHARSET@
}

impl FetchError {
    /// The failure for a content coding that is not supported.
    pub fn unsupported_encoding(name: &str) -> (error: FetchError)
        ensures
            error@ == FetchErrorView::ReadError(unsupported_encoding_cause(name@)),
    {
        FetchError::ReadError(
            String::from_str("decompression: unsupported content encoding: ").concat(name),
        )
    }

    /// The failure for a stream that the decoder of `coding` rejects.
    pub fn corrupt_stream(coding: &str) -> (error: FetchError)
        ensures
            error@ == FetchErrorView::ReadError(corrupt_stream_cause(coding@)),
    {
        FetchError::ReadError(
            String::from_str("decompression: corrupt or truncated stream: ").concat(coding),
        )
    }

    /// The failure for bytes that are invalid in the declared charset `label`.
    pub fn invalid_for_declared(label: &str) -> (error: FetchError)
        ensures
            error@ == FetchErrorView::CharsetError(declared_charset_cause(label@)),
    {
        FetchError::CharsetError(
            String::from_str("text decoding: invalid bytes for the declared charset: ").concat(
                label,
            ),
        )
    }

    /// The failure for bytes that are invalid in the default charset.
    pub fn invalid_for_default() -> (error: FetchError)
        ensures
            error@ == FetchErrorView::CharsetError(default_charset_cause()),
    {
        FetchError::CharsetError(
            String::from_str("text decoding: invalid bytes for the default charset: ").concat(
                DEFAULT_CHARSET,
            ),
        )
    }

    /// The cause that the failure carries.
    pub fn cause(&self) -> (cause: &str)
        ensures
            cause@ == self@.cause(),
    {
        match self {
            FetchError::RetrieveError(cause) => cause.as_str(),
            FetchError::ReadError(cause) => cause.as_str(),
            FetchError::CharsetError(cause) => cause.as_str(),
        }
    }
}

} // verus!
