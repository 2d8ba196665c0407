//! Native error codes: four-character tags and errno negation.

use vstd::prelude::*;

verus! {

/// The errno value that the decoder reports, negated, when it needs more input.
pub const EAGAIN: i32 = 11;

/// `EDOM` as the native library sees it; positive on every supported platform,
/// so native error codes are negated errno values.
pub const EDOM: i32 = 33;

/// End of file.
pub const AVERROR_EOF: i32 = -541478725;

/// Invalid data found when processing input.
pub const AVERROR_INVALIDDATA: i32 = -1094995529;

/// Decoder not found.
pub const AVERROR_DECODER_NOT_FOUND: i32 = -1128613112;

/// Stream not found.
pub const AVERROR_STREAM_NOT_FOUND: i32 = -1381258232;

/// Unknown error, typically from an external library.
pub const AVERROR_UNKNOWN: i32 = -1313558101;

/// The little-endian packing of four bytes into one 32-bit tag.
pub open spec fn tag_value(a: u8, b: u8, c: u8, d: u8) -> int {
    a as int + 256 * (b as int) + 65536 * (c as int) + 16777216 * (d as int)
}

/// The 32-bit tag read as a signed integer (two's complement).
pub open spec fn tag_as_signed(t: int) -> int {
    if t < 0x8000_0000 {
        t
    } else {
        t - 0x1_0000_0000
    }
}

/// Packs four bytes into a tag, the first byte lowest.
#[allow(non_snake_case)]
pub fn MKTAG(a: u8, b: u8, c: u8, d: u8) -> (r: u32)
    ensures
        r as int == tag_value(a, b, c, d),
{
    let (x, y, z, w) = (a as u32, b as u32, c as u32, d as u32);
    let r = x | (y << 8u32) | (z << 16u32) | (w << 24u32);
    assert(r == x + 256 * y + 65536 * z + 16777216 * w) by (bit_vector)
        requires
            x < 256 && y < 256 && z < 256 && w < 256,
            r == x | (y << 8u32) | (z << 16u32) | (w << 24u32),
    ;
    r
}

/// The negated tag: how the native library spells its own error codes.
#[allow(non_snake_case)]
pub fn FFERRTAG(a: u8, b: u8, c: u8, d: u8) -> (r: i32)
    requires
        tag_value(a, b, c, d) != 0x8000_0000,
    ensures
        r as int == -tag_as_signed(tag_value(a, b, c, d)),
{
    let t = MKTAG(a, b, c, d);
    if t < 0x8000_0000 {
        -(t as i32)
    } else {
        (0x1_0000_0000u64 - t as u64) as i32
    }
}

/// Turns a positive errno value into a native error code.
#[allow(non_snake_case)]
pub fn AVERROR(e: i32) -> (r: i32)
    requires
        e != i32::MIN,
    ensures
        r == -e,
{
    if EDOM > 0 {
        -e
    } else {
        e
    }
}

/// Turns a native error code back into a positive errno value.
#[allow(non_snake_case)]
pub fn AVUNERROR(e: i32) -> (r: i32)
    requires
        e != i32::MIN,
    ensures
        r == -e,
{
    if EDOM > 0 {
        -e
    } else {
        e
    }
}

} // verus!
