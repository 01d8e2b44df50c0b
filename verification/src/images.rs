//! Images: registered image data and the header parse that yields the
//! pixel dimensions of a PNG file.

use vstd::prelude::*;

use crate::errors::ErrorKind;

verus! {

/// A handle to an image registered with a document.
#[derive(Clone, Copy, Debug, PartialEq, Eq, Structural)]
pub struct Image {
    /// The object reference number the image was registered under.
    pub id: u64,
    /// The position of the image's record in the document's image list.
    pub index: usize,
    /// Width of the image in pixels.
    pub width_px: u32,
    /// Height of the image in pixels.
    pub height_px: u32,
}

/// An image registered with a document: its dimensions and its encoded
/// bytes, carried through to the serialized output unchanged.
#[derive(Debug)]
pub struct ImageRecord {
    /// The object reference number the image was registered under.
    pub id: u64,
    /// Width of the image in pixels.
    pub width_px: u32,
    /// Height of the image in pixels.
    pub height_px: u32,
    /// The encoded image bytes.
    pub data: Vec<u8>,
}

/// The big-endian 32-bit value at offset `i` of `s`.
pub open spec fn be32_at(s: Seq<u8>, i: int) -> nat
    recommends
        0 <= i,
        i + 4 <= s.len(),
{
    (s[i] * 0x1000000 + s[i + 1] * 0x10000 + s[i + 2] * 0x100 + s[i + 3]) as nat
}

/// The big-endian 16-bit value at offset `i` of `s`.
pub open spec fn be16_at(s: Seq<u8>, i: int) -> nat
    recommends
        0 <= i,
        i + 2 <= s.len(),
{
    (s[i] * 0x100 + s[i + 1]) as nat
}

/// Read the big-endian 32-bit value at offset `i`.
pub fn read_be32(s: &[u8], i: usize) -> (r: u32)
    requires
        i + 4 <= s@.len(),
    ensures
        r == be32_at(s@, i as int),
{
    (s[i] as u32) * 0x1000000 + (s[i + 1] as u32) * 0x10000 + (s[i + 2] as u32) * 0x100 + (s[i
        + 3] as u32)
}

/// Read the big-endian 16-bit value at offset `i`.
pub fn read_be16(s: &[u8], i: usize) -> (r: u16)
    requires
        i + 2 <= s@.len(),
    ensures
        r == be16_at(s@, i as int),
{
    (s[i] as u16) * 0x100 + (s[i + 1] as u16)
}

/// True when `s` starts with the PNG signature followed by the header
/// chunk that carries the pixel dimensions.
pub open spec fn png_header_ok(s: Seq<u8>) -> bool {
    &&& s.len() >= 24
    &&& s[0] == 137
    &&& s[1] == 80
    &&& s[2] == 78
    &&& s[3] == 71
    &&& s[4] == 13
    &&& s[5] == 10
    &&& s[6] == 26
    &&& s[7] == 10
    &&& s[8] == 0
    &&& s[9] == 0
    &&& s[10] == 0
    &&& s[11] == 13
    &&& s[12] == 73
    &&& s[13] == 72
    &&& s[14] == 68
    &&& s[15] == 82
}

/// The pixel width a PNG header declares.
pub open spec fn png_width(s: Seq<u8>) -> nat {
    be32_at(s, 16)
}

/// The pixel height a PNG header declares.
pub open spec fn png_height(s: Seq<u8>) -> nat {
    be32_at(s, 20)
}

/// Parse the pixel dimensions out of a PNG file's header. Fails when the
/// signature or the header chunk is malformed or a dimension is zero.
pub fn png_dimensions(data: &[u8]) -> (r: Result<(u32, u32), ErrorKind>)
    ensures
        r is Ok <==> png_header_ok(data@) && png_width(data@) > 0 && png_height(data@) > 0,
        r matches Ok(d) ==> d.0 == png_width(data@) && d.1 == png_height(data@),
        r matches Err(e) ==> e == ErrorKind::InvalidArgument,
{
    if data.len() < 24 {
        return Err(ErrorKind::InvalidArgument);
    }
    if !(data[0] == 137 && data[1] == 80 && data[2] == 78 && data[3] == 71 && data[4] == 13
        && data[5] == 10 && data[6] == 26 && data[7] == 10) {
        return Err(ErrorKind::InvalidArgument);
    }
    if !(data[8] == 0 && data[9] == 0 && data[10] == 0 && data[11] == 13 && data[12] == 73
        && data[13] == 72 && data[14] == 68 && data[15] == 82) {
        return Err(ErrorKind::InvalidArgument);
    }
    let w = read_be32(data, 16);
    let h = read_be32(data, 20);
    if w == 0 || h == 0 {
        return Err(ErrorKind::InvalidArgument);
    }
    Ok((w, h))
}

} // verus!
