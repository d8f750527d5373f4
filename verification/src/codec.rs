//! The serialized form of the values that calls and state changes carry.

use rkyv::AlignedVec;
use vstd::prelude::*;

verus! {

/// The four bytes of a number, least significant first.
pub open spec fn le_bytes(value: u32) -> Seq<u8> {
    seq![
        (value % 256) as u8,
        (value / 256 % 256) as u8,
        (value / 65536 % 256) as u8,
        (value / 16777216) as u8,
    ]
}

/// The number whose four bytes these are, least significant first.
pub open spec fn le_value(bytes: Seq<u8>) -> u32 {
    (bytes[0] + 256 * bytes[1] + 65536 * bytes[2] + 16777216 * bytes[3]) as u32
}

/// The `u32` that bytes are read as: its archive is the last four of them, least
/// significant first, and starts at a multiple of four.
pub open spec fn decoded_u32(bytes: Seq<u8>) -> Option<u32> {
    if bytes.len() >= 4 && bytes.len() % 4 == 0 {
        Some(le_value(bytes.skip(bytes.len() - 4)))
    } else {
        None
    }
}

/// Calls `rkyv::to_bytes` on a `u32`. A `u32` is archived as its four bytes, least
/// significant first, and nothing about that can fail.
#[verifier::external_body]
fn archive_u32(value: u32) -> (r: Option<Vec<u8>>)
    ensures
        r is Some,
        r->0@ == le_bytes(value),
{
    rkyv::to_bytes::<u32, 1024>(&value).ok().map(|bytes| bytes.to_vec())
}

/// Calls `rkyv::from_bytes` for a `u32` on an aligned copy of the bytes. The root of
/// an archive is at its end: the last four bytes, which have to be there and, the
/// start of the copy being aligned, to start at a multiple of four. Any four bytes
/// are the archive of some `u32`.
#[verifier::external_body]
fn unarchive_u32(bytes: &[u8]) -> (r: Option<u32>)
    ensures
        r == decoded_u32(bytes@),
{
    let mut aligned = AlignedVec::with_capacity(bytes.len());
    aligned.extend_from_slice(bytes);
    rkyv::from_bytes::<u32>(&aligned).ok()
}

/// Calls `rkyv::to_bytes` on `()`, whose archive takes no bytes. Nothing about that
/// can fail.
#[verifier::external_body]
fn archive_unit() -> (r: Option<Vec<u8>>)
    ensures
        r is Some,
        r->0@ == Seq::<u8>::empty(),
{
    rkyv::to_bytes::<(), 1024>(&()).ok().map(|bytes| bytes.to_vec())
}

/// Calls `rkyv::from_bytes` for `()` on an aligned copy of the bytes. The archive of
/// `()` takes no bytes, so that any bytes end in it.
#[verifier::external_body]
fn unarchive_unit(bytes: &[u8]) -> (r: Option<()>)
    ensures
        r is Some,
{
    let mut aligned = AlignedVec::with_capacity(bytes.len());
    aligned.extend_from_slice(bytes);
    rkyv::from_bytes::<()>(&aligned).ok()
}

/// Serializes a `u32`.
pub fn encode_u32(value: u32) -> (r: Vec<u8>)
    ensures
        r@ == le_bytes(value),
{
    archive_u32(value).unwrap()
}

/// Deserializes a `u32`. `None` if the bytes are no serialized `u32`.
pub fn decode_u32(bytes: &[u8]) -> (r: Option<u32>)
    ensures
        r == decoded_u32(bytes@),
{
    unarchive_u32(bytes)
}

/// Serializes `()`.
pub fn encode_unit() -> (r: Vec<u8>)
    ensures
        r@ == Seq::<u8>::empty(),
{
    archive_unit().unwrap()
}

/// Deserializes `()`, which any bytes are read as.
pub fn decode_unit(bytes: &[u8]) -> (r: Option<()>)
    ensures
        r == Some(()),
{
    unarchive_unit(bytes)
}

/// Deserializing what a `u32` was serialized to gives the `u32` back.
pub proof fn decode_undoes_encode(value: u32)
    ensures
        decoded_u32(le_bytes(value)) == Some(value),
{
    let bytes = le_bytes(value);
    assert(bytes.skip(0) =~= bytes);
    assert(value % 256 + 256 * (value / 256 % 256) + 65536 * (value / 65536 % 256) + 16777216 * (
    value / 16777216) == value) by (nonlinear_arith);
}

/// A `u32` is read from the end of bytes: whatever stands before it, it is read exactly if
/// that takes a multiple of four bytes.
pub proof fn a_number_is_read_from_the_end(before: Seq<u8>, value: u32)
    ensures
        before.len() % 4 == 0 ==> decoded_u32(before + le_bytes(value)) == Some(value),
        before.len() % 4 != 0 ==> decoded_u32(before + le_bytes(value)) is None,
        before.len() < 4 ==> decoded_u32(before) is None,
{
    decode_undoes_encode(value);
    let bytes = before + le_bytes(value);
    assert(bytes.skip(bytes.len() - 4) =~= le_bytes(value));
    assert(le_bytes(value).skip(0) =~= le_bytes(value));
}

}
