//! Compression of messages.

use std::io::Write;

use flate2::write::{DeflateDecoder, DeflateEncoder};
use flate2::Compression;
use vstd::prelude::*;

verus! {

/// The DEFLATE stream that `flate2::write::DeflateEncoder` makes of bytes at a
/// compression level.
pub uninterp spec fn deflated(msg: Seq<u8>, level: u32) -> Seq<u8>;

/// What `flate2::write::DeflateDecoder` makes of bytes: the bytes that they are the
/// DEFLATE stream of, or nothing if the decoder fails.
pub uninterp spec fn inflated(msg: Seq<u8>) -> Option<Seq<u8>>;

/// Writes bytes to a `flate2::write::DeflateDecoder` over a vector and finishes it.
/// What comes out depends on the bytes alone.
#[verifier::external_body]
fn decode_stream(msg: &[u8]) -> (r: Option<Vec<u8>>)
    ensures
        match r {
            Some(out) => inflated(msg@) == Some(out@),
            None => inflated(msg@) is None,
        },
{
    let mut decompressor = DeflateDecoder::new(vec![]);
    decompressor.write_all(msg).ok()?;
    decompressor.finish().ok()
}

/// Writes bytes to a `flate2::write::DeflateEncoder` over a vector and finishes it.
/// Neither writing to a vector nor compressing fails. What comes out depends on the
/// bytes and the level alone, and the decoder makes the bytes of it again. The
/// encoder asserts in debug builds that the level is at most 10.
#[verifier::external_body]
fn encode_stream(msg: &[u8], level: u32) -> (r: Option<Vec<u8>>)
    requires
        level <= 10,
    ensures
        r is Some,
        r->0@ == deflated(msg@, level),
        inflated(r->0@) == Some(msg@),
{
    let mut compressor = DeflateEncoder::new(vec![], Compression::new(level));
    compressor.write_all(msg).ok()?;
    compressor.finish().ok()
}

/// Decompresses a message. `None` if its bytes cannot be decompressed.
pub fn inflate(msg: &[u8]) -> (r: Option<Vec<u8>>)
    ensures
        match r {
            Some(out) => inflated(msg@) == Some(out@),
            None => inflated(msg@) is None,
        },
{
    decode_stream(msg)
}

/// Compresses a message at a level from 0, none, to 10, the most.
pub fn deflate(msg: &[u8], level: u32) -> (r: Option<Vec<u8>>)
    requires
        level <= 10,
    ensures
        r is Some,
        r->0@ == deflated(msg@, level),
        inflated(r->0@) == Some(msg@),
{
    encode_stream(msg, level)
}

}
