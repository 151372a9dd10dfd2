//! The two stream decoders of the `flate2` crate, as the decompression stage
//! sees them: from a whole buffer to a whole buffer, or a failure.

use std::io::Read;
use vstd::prelude::*;

verus! {

/// What `flate2::read::GzDecoder` yields when it is read to its end over
/// `stream`: the decoded bytes, or `None` where the read ends in an error.
pub uninterp spec fn gzip_decoding(stream: Seq<u8>) -> Option<Seq<u8>>;

/// What `flate2::read::ZlibDecoder` yields when it is read to its end over
/// `stream`: the decoded bytes, or `None` where the read ends in an error.
pub uninterp spec fn zlib_decoding(stream: Seq<u8>) -> Option<Seq<u8>>;

/// Reads a `flate2::read::GzDecoder` over `stream` to its end.
///
/// Trusted: the result is the decoder's output, which depends on the bytes of
/// `stream` alone, and `None` stands for any error the decoder reports (a bad
/// header, a corrupt or incomplete deflate stream, a checksum mismatch).
#[verifier::external_body]
pub(crate) fn gunzip(stream: &[u8]) -> (decoded: Option<Vec<u8>>)
    ensures
        match decoded {
            Some(bytes) => gzip_decoding(stream@) == Some(bytes@),
            None => gzip_decoding(stream@) is None,
        },
{
    let mut bytes = Vec::new();
    match flate2::read::GzDecoder::new(stream).read_to_end(&mut bytes) {
        Ok(_) => Some(bytes),
        Err(_) => None,
    }
}

/// Reads a `flate2::read::ZlibDecoder` over `stream` to its end.
///
/// Trusted: the result is the decoder's output, which depends on the bytes of
/// `stream` alone, and `None` stands for any error the decoder reports (a
/// corrupt or incomplete zlib stream).
#[verifier::external_body]
pub(crate) fn inflate(stream: &[u8]) -> (decoded: Option<Vec<u8>>)
    ensures
        match decoded {
            Some(bytes) => zlib_decoding(stream@) == Some(bytes@),
            None => zlib_decoding(stream@) is None,
        },
{
    let mut bytes = Vec::new();
    match flate2::read::ZlibDecoder::new(stream).read_to_end(&mut bytes) {
        Ok(_) => Some(bytes),
        Err(_) => None,
    }
}

} // verus!
