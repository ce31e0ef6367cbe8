//! Little-endian integers and zero-terminated text, as they appear in the stream.
use byteorder::{ByteOrder, LittleEndian};
use vstd::prelude::*;

verus! {

/// The value of two bytes read as a little-endian `u16`.
pub open spec fn le_u16(b0: u8, b1: u8) -> int {
    b0 as int + 256 * (b1 as int)
}

/// The value of four bytes read as a little-endian `u32`.
pub open spec fn le_u32(b0: u8, b1: u8, b2: u8, b3: u8) -> int {
    b0 as int + 256 * (b1 as int) + 65536 * (b2 as int) + 16777216 * (b3 as int)
}

/// The text that a byte sequence encodes as UTF-8, or `None` where it is not valid UTF-8.
pub uninterp spec fn utf8_text(b: Seq<u8>) -> Option<Seq<char>>;

/// Relies on byteorder's `LittleEndian::read_u16`: the first two bytes, least significant first.
#[verifier::external_body]
pub(crate) fn decode_u16(b: [u8; 2]) -> (r: u16)
    ensures
        r as int == le_u16(b@[0], b@[1]),
{
    LittleEndian::read_u16(&b)
}

/// Relies on byteorder's `LittleEndian::read_u32`: the first four bytes, least significant first.
#[verifier::external_body]
pub(crate) fn decode_u32(b: [u8; 4]) -> (r: u32)
    ensures
        r as int == le_u32(b@[0], b@[1], b@[2], b@[3]),
{
    LittleEndian::read_u32(&b)
}

/// Relies on `String::from_utf8`: it succeeds exactly on valid UTF-8, and the text it
/// gives depends on the bytes alone.
#[verifier::external_body]
pub(crate) fn decode_utf8(b: Vec<u8>) -> (r: Option<String>)
    ensures
        match r {
            Some(s) => utf8_text(b@) == Some(s@),
            None => utf8_text(b@) is None,
        },
{
    String::from_utf8(b).ok()
}

} // verus!
