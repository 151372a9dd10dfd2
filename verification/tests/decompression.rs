use flate2::write::{GzEncoder, ZlibEncoder};
use flate2::Compression;
use page_fetch::{
    decompress, stream_outcome, undo, undo_all, EncodingToken, FetchError, ResponseHeaders,
};
use std::io::Write;

fn gzip(bytes: &[u8]) -> Vec<u8> {
    let mut encoder = GzEncoder::new(Vec::new(), Compression::default());
    encoder.write_all(bytes).unwrap();
    encoder.finish().unwrap()
}

fn deflate(bytes: &[u8]) -> Vec<u8> {
    let mut encoder = ZlibEncoder::new(Vec::new(), Compression::default());
    encoder.write_all(bytes).unwrap();
    encoder.finish().unwrap()
}

fn sample() -> Vec<u8> {
    let mut bytes = Vec::new();
    for round in 0..40u32 {
        for value in 0..=255u8 {
            bytes.push(value.wrapping_mul(round as u8 + 1));
        }
    }
    bytes
}

fn encoded_as(value: &str) -> ResponseHeaders {
    ResponseHeaders::new().with_content_encoding(value)
}

#[test]
fn body_without_content_encoding_is_unchanged() {
    let headers = ResponseHeaders::new().with_content_type("text/html", Some("utf-8"));
    assert_eq!(decompress(&headers, sample()), Ok(sample()));
    assert_eq!(decompress(&headers, gzip(b"still gzip")), Ok(gzip(b"still gzip")));
    assert_eq!(decompress(&headers, vec![0x1f, 0x8b]), Ok(vec![0x1f, 0x8b]));
    assert_eq!(decompress(&ResponseHeaders::new(), Vec::new()), Ok(Vec::new()));
}

#[test]
fn gzip_round_trip() {
    assert_eq!(decompress(&encoded_as("gzip"), gzip(&sample())), Ok(sample()));
    assert_eq!(
        decompress(&encoded_as("gzip"), gzip(b"Hello World")),
        Ok(b"Hello World".to_vec())
    );
}

#[test]
fn deflate_round_trip() {
    assert_eq!(decompress(&encoded_as("deflate"), deflate(&sample())), Ok(sample()));
    assert_eq!(
        decompress(&encoded_as("deflate"), deflate(b"Hello World")),
        Ok(b"Hello World".to_vec())
    );
}

#[test]
fn known_gzip_stream_decodes_to_known_bytes() {
    let stream = vec![
        0x1f, 0x8b, 0x08, 0x00, 0x00, 0x00, 0x00, 0x00, 0x00, 0x03, 0x4b, 0x4c, 0x4a, 0x06, 0x00,
        0xc2, 0x41, 0x24, 0x35, 0x03, 0x00, 0x00, 0x00,
    ];
    assert_eq!(decompress(&encoded_as("gzip"), stream), Ok(b"abc".to_vec()));
}

#[test]
fn known_zlib_stream_decodes_to_known_bytes() {
    let stream = vec![0x78, 0x9c, 0x4b, 0x4c, 0x4a, 0x06, 0x00, 0x02, 0x4d, 0x01, 0x27];
    assert_eq!(decompress(&encoded_as("deflate"), stream), Ok(b"abc".to_vec()));
}

#[test]
fn last_declared_coding_is_undone_first() {
    let wire = deflate(&gzip(&sample()));
    assert_eq!(decompress(&encoded_as("gzip, deflate"), wire), Ok(sample()));
    let wire = gzip(&deflate(&sample()));
    assert_eq!(decompress(&encoded_as("deflate, gzip"), wire), Ok(sample()));
}

#[test]
fn codings_in_the_wrong_order_fail() {
    let wire = gzip(&deflate(&sample()));
    let result = decompress(&encoded_as("gzip, deflate"), wire);
    assert_eq!(
        result,
        Err(FetchError::ReadError(
            "decompression: corrupt or truncated stream: deflate".to_string()
        ))
    );
    let wire = deflate(&gzip(&sample()));
    let result = decompress(&encoded_as("deflate, gzip"), wire);
    assert_eq!(
        result,
        Err(FetchError::ReadError(
            "decompression: corrupt or truncated stream: gzip".to_string()
        ))
    );
}

#[test]
fn repeated_lines_form_one_chain() {
    let headers = ResponseHeaders::new()
        .with_content_encoding("gzip")
        .with_content_encoding("identity, deflate");
    assert_eq!(decompress(&headers, deflate(&gzip(&sample()))), Ok(sample()));
}

#[test]
fn three_codings_are_undone_back_to_front() {
    let wire = gzip(&deflate(&gzip(b"layered")));
    assert_eq!(
        decompress(&encoded_as("gzip, chunked, deflate, gzip"), wire),
        Ok(b"layered".to_vec())
    );
}

#[test]
fn unknown_coding_is_a_read_error() {
    let result = decompress(&encoded_as("br"), sample());
    assert_eq!(
        result,
        Err(FetchError::ReadError(
            "decompression: unsupported content encoding: br".to_string()
        ))
    );
    let result = decompress(&encoded_as("br"), Vec::new());
    assert!(matches!(result, Err(FetchError::ReadError(_))));
    let result = decompress(&encoded_as("compress"), b"plain".to_vec());
    assert!(matches!(result, Err(FetchError::ReadError(_))));
}

#[test]
fn unknown_coding_fails_wherever_it_stands() {
    for value in ["br, gzip", "gzip, br", "identity, br, chunked", "gzip, br, deflate"] {
        let result = decompress(&encoded_as(value), deflate(&gzip(b"text")));
        assert!(matches!(result, Err(FetchError::ReadError(_))), "{}", value);
    }
}

#[test]
fn failure_reports_the_first_coding_that_fails() {
    let result = decompress(&encoded_as("br, gzip"), b"not a gzip stream".to_vec());
    assert_eq!(
        result.unwrap_err().cause(),
        "decompression: corrupt or truncated stream: gzip"
    );
    let result = decompress(&encoded_as("gzip, br"), b"not a gzip stream".to_vec());
    assert_eq!(
        result.unwrap_err().cause(),
        "decompression: unsupported content encoding: br"
    );
}

#[test]
fn identity_and_chunked_change_nothing() {
    assert_eq!(decompress(&encoded_as("identity"), sample()), Ok(sample()));
    assert_eq!(decompress(&encoded_as("chunked"), sample()), Ok(sample()));
    assert_eq!(
        decompress(&encoded_as("identity, chunked, identity"), gzip(b"kept")),
        Ok(gzip(b"kept"))
    );
    assert_eq!(decompress(&encoded_as(""), sample()), Ok(sample()));
}

#[test]
fn empty_body_decompresses_to_empty_buffer() {
    for value in ["gzip", "deflate", "gzip, deflate", "deflate, gzip, identity", "chunked"] {
        assert_eq!(decompress(&encoded_as(value), Vec::new()), Ok(Vec::new()), "{}", value);
    }
}

#[test]
fn stream_of_empty_content_decodes_to_empty_buffer() {
    assert_eq!(decompress(&encoded_as("gzip"), gzip(b"")), Ok(Vec::new()));
    assert_eq!(decompress(&encoded_as("deflate"), deflate(b"")), Ok(Vec::new()));
    assert_eq!(decompress(&encoded_as("deflate, gzip"), gzip(b"")), Ok(Vec::new()));
}

#[test]
fn corrupt_gzip_stream_is_a_read_error() {
    let mut wire = gzip(&sample());
    let middle = wire.len() / 2;
    wire[middle] ^= 0xff;
    wire[middle + 1] ^= 0xff;
    let result = decompress(&encoded_as("gzip"), wire);
    assert_eq!(
        result,
        Err(FetchError::ReadError(
            "decompression: corrupt or truncated stream: gzip".to_string()
        ))
    );
    let result = decompress(&encoded_as("gzip"), b"plain text, not gzip".to_vec());
    assert!(matches!(result, Err(FetchError::ReadError(_))));
}

#[test]
fn corrupt_zlib_stream_is_a_read_error() {
    let result = decompress(&encoded_as("deflate"), b"plain text, not zlib".to_vec());
    assert_eq!(
        result,
        Err(FetchError::ReadError(
            "decompression: corrupt or truncated stream: deflate".to_string()
        ))
    );
}

#[test]
fn truncated_gzip_stream_is_a_read_error() {
    let mut wire = gzip(&sample());
    wire.truncate(wire.len() - 4);
    assert!(matches!(
        decompress(&encoded_as("gzip"), wire),
        Err(FetchError::ReadError(_))
    ));
    let mut wire = gzip(&sample());
    wire.truncate(wire.len() / 2);
    assert!(matches!(
        decompress(&encoded_as("gzip"), wire),
        Err(FetchError::ReadError(_))
    ));
    assert!(matches!(
        decompress(&encoded_as("gzip"), vec![0x1f]),
        Err(FetchError::ReadError(_))
    ));
}

#[test]
fn gzip_checksum_mismatch_is_a_read_error() {
    let mut wire = gzip(b"checked");
    let crc = wire.len() - 8;
    wire[crc] ^= 0x01;
    assert!(matches!(
        decompress(&encoded_as("gzip"), wire),
        Err(FetchError::ReadError(_))
    ));
}

#[test]
fn undo_works_on_one_coding() {
    assert_eq!(undo(&EncodingToken::Gzip, gzip(b"one")), Ok(b"one".to_vec()));
    assert_eq!(undo(&EncodingToken::Deflate, deflate(b"two")), Ok(b"two".to_vec()));
    assert_eq!(undo(&EncodingToken::Identity, gzip(b"three")), Ok(gzip(b"three")));
    assert_eq!(undo(&EncodingToken::Chunked, b"four".to_vec()), Ok(b"four".to_vec()));
    assert_eq!(undo(&EncodingToken::Gzip, Vec::new()), Ok(Vec::new()));
    assert_eq!(undo(&EncodingToken::Deflate, Vec::new()), Ok(Vec::new()));
    assert_eq!(
        undo(&EncodingToken::Unsupported("zstd".to_string()), Vec::new()),
        Err(FetchError::ReadError(
            "decompression: unsupported content encoding: zstd".to_string()
        ))
    );
    assert_eq!(
        undo(&EncodingToken::Gzip, deflate(b"five")),
        Err(FetchError::ReadError(
            "decompression: corrupt or truncated stream: gzip".to_string()
        ))
    );
}

#[test]
fn stream_outcome_keeps_bytes_or_names_the_coding() {
    assert_eq!(stream_outcome(Some(vec![1, 2, 3]), "gzip"), Ok(vec![1, 2, 3]));
    assert_eq!(stream_outcome(Some(Vec::new()), "deflate"), Ok(Vec::new()));
    assert_eq!(
        stream_outcome(None, "gzip"),
        Err(FetchError::ReadError(
            "decompression: corrupt or truncated stream: gzip".to_string()
        ))
    );
    assert_eq!(
        stream_outcome(None, "deflate"),
        Err(FetchError::ReadError(
            "decompression: corrupt or truncated stream: deflate".to_string()
        ))
    );
}

#[test]
fn undo_all_starts_with_the_last_token() {
    let tokens = vec![EncodingToken::Gzip, EncodingToken::Identity, EncodingToken::Deflate];
    assert_eq!(undo_all(&tokens, deflate(&gzip(b"chain"))), Ok(b"chain".to_vec()));
    assert_eq!(
        undo_all(&tokens, gzip(&deflate(b"chain"))),
        Err(FetchError::ReadError(
            "decompression: corrupt or truncated stream: deflate".to_string()
        ))
    );
    assert_eq!(undo_all(&Vec::new(), b"chain".to_vec()), Ok(b"chain".to_vec()));
}

#[test]
fn two_header_lines_decode_as_one_list() {
    let wire = deflate(&gzip(&sample()));
    let split = ResponseHeaders::new()
        .with_content_encoding("gzip")
        .with_content_encoding("deflate");
    let joined = encoded_as("gzip,deflate");
    assert_eq!(split.encoding_tokens(), joined.encoding_tokens());
    assert_eq!(decompress(&split, wire.clone()), decompress(&joined, wire));
}
