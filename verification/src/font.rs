//! Embedded fonts, decoded by `rusttype`.
//!
//! The decoder is handed only buffers on which it is known to return. Its
//! parser does unchecked arithmetic that some buffers can drive out of range,
//! so a buffer is looked at first: [`fits_decoder`] reads the few bytes of the
//! file header that decide it, and [`decode_checked`] treats a buffer that fails
//! the test as one that is not a font.

use rusttype::Font;
use vstd::prelude::*;

verus! {

/// `rusttype::Font`, carried through as an opaque value: nothing in this crate
/// looks inside a font.
#[verifier::external_type_specification]
#[verifier::external_body]
pub struct ExFont<'a>(Font<'a>);

/// The first four bytes of a TrueType face.
pub const MAGIC_TRUETYPE: u32 = 0x0001_0000;

/// The first four bytes of a TrueType face as Apple writes it, `true`.
pub const MAGIC_TRUE: u32 = 0x7472_7565;

/// The first four bytes of an OpenType face, `OTTO`.
pub const MAGIC_OPENTYPE: u32 = 0x4F54_544F;

/// The first four bytes of a font collection, `ttcf`.
pub const MAGIC_COLLECTION: u32 = 0x7474_6366;

/// The table count that the decoder cannot walk through.
pub const TABLE_COUNT_LIMIT: u16 = 0xFFFF;

/// The unsigned 16-bit number that stands at `at`, most significant byte first.
pub open spec fn be_u16(bytes: Seq<u8>, at: int) -> int
    recommends
        0 <= at,
        at + 2 <= bytes.len(),
{
    bytes[at] * 0x100 + bytes[at + 1]
}

/// The unsigned 32-bit number that stands at `at`, most significant byte first.
pub open spec fn be_u32(bytes: Seq<u8>, at: int) -> int
    recommends
        0 <= at,
        at + 4 <= bytes.len(),
{
    bytes[at] * 0x100_0000 + bytes[at + 1] * 0x1_0000 + bytes[at + 2] * 0x100 + bytes[at + 3]
}

/// The buffer starts with one of the four numbers that a font file starts with.
pub open spec fn has_font_magic(bytes: Seq<u8>) -> bool {
    &&& bytes.len() >= 4
    &&& (be_u32(bytes, 0) == MAGIC_TRUETYPE || be_u32(bytes, 0) == MAGIC_TRUE || be_u32(bytes, 0)
        == MAGIC_OPENTYPE || be_u32(bytes, 0) == MAGIC_COLLECTION)
}

/// Where the decoder takes the first face to start: at 0, or, in a collection,
/// at the first of the face offsets, which stand from byte 12 on. `None` where
/// the buffer is too short to say.
pub open spec fn first_face_offset(bytes: Seq<u8>) -> Option<int> {
    if bytes.len() < 4 {
        None
    } else if be_u32(bytes, 0) != MAGIC_COLLECTION {
        Some(0)
    } else if bytes.len() < 16 {
        None
    } else {
        Some(be_u32(bytes, 12))
    }
}

/// The number of tables that the first face claims to have: the 16-bit number
/// four bytes into the face. `None` where the buffer does not reach that far.
///
/// The number is taken as it stands there, whether or not the decoder would
/// get as far as reading it.
pub open spec fn first_face_table_count(bytes: Seq<u8>) -> Option<int> {
    match first_face_offset(bytes) {
        Some(face) => if face + 6 <= bytes.len() {
            Some(be_u16(bytes, face + 4))
        } else {
            None
        },
        None => None,
    }
}

/// The buffers that are handed to the decoder.
///
/// Two kinds are left out, on which its parser can overflow a number:
/// - every buffer on a target whose `usize` has fewer than 64 bits, where the
///   parser multiplies and adds 32-bit counts and offsets that it has read, in
///   `usize` and unchecked;
/// - a buffer whose first face claims 65535 tables, which the parser walks with
///   a 16-bit index that it steps past the last table.
///
/// A buffer of the second kind that is too short for 65535 table records is
/// left out as well: the decoder would refuse it, and so does the test.
pub open spec fn fits_decoder_spec(bytes: Seq<u8>) -> bool {
    &&& usize::BITS >= 64
    &&& first_face_table_count(bytes) != Some(TABLE_COUNT_LIMIT as int)
}

/// What `rusttype::Font::try_from_vec` makes of a buffer holding `bytes`:
/// the font, or `None` where the bytes are not a font.
pub uninterp spec fn decoded_font(bytes: Seq<u8>) -> Option<Font<'static>>;

/// What [`decode_checked`] makes of a buffer: what the decoder makes of it, or
/// `None` where the buffer is not handed to the decoder.
pub open spec fn checked_font(bytes: Seq<u8>) -> Option<Font<'static>> {
    if fits_decoder_spec(bytes) {
        decoded_font(bytes)
    } else {
        None
    }
}

/// Calls `rusttype::Font::try_from_vec`, which parses the buffer as a font file
/// and returns `None` for invalid data.
///
/// The parser reads nothing but the buffer, so the outcome is determined by the
/// bytes: the contract names it `decoded_font`. Of that outcome it claims one
/// thing: the parser first reads four bytes and gives up unless they are one of
/// its four magic numbers. The `requires` leaves out the buffers on which the
/// parser's arithmetic can overflow.
#[verifier::external_body]
fn decode_font(bytes: Vec<u8>) -> (font: Option<Font<'static>>)
    requires
        fits_decoder_spec(bytes@),
    ensures
        font == decoded_font(bytes@),
        !has_font_magic(bytes@) ==> font is None,
{
    Font::try_from_vec(bytes)
}

/// The 16-bit number at `at`, most significant byte first.
fn read_u16(bytes: &Vec<u8>, at: usize) -> (value: u16)
    requires
        at + 2 <= bytes.len(),
    ensures
        value == be_u16(bytes@, at as int),
{
    let high: u16 = bytes[at] as u16;
    let low: u16 = bytes[at + 1] as u16;
    high * 0x100 + low
}

/// The 32-bit number at `at`, most significant byte first.
fn read_u32(bytes: &Vec<u8>, at: usize) -> (value: u32)
    requires
        at + 4 <= bytes.len(),
    ensures
        value == be_u32(bytes@, at as int),
{
    let b0: u32 = bytes[at] as u32;
    let b1: u32 = bytes[at + 1] as u32;
    let b2: u32 = bytes[at + 2] as u32;
    let b3: u32 = bytes[at + 3] as u32;
    b0 * 0x100_0000 + b1 * 0x1_0000 + b2 * 0x100 + b3
}

/// Whether the buffer starts with one of the four numbers that a font file
/// starts with.
pub fn starts_with_font_magic(bytes: &Vec<u8>) -> (found: bool)
    ensures
        found == has_font_magic(bytes@),
{
    if bytes.len() < 4 {
        return false;
    }
    let magic = read_u32(bytes, 0);
    magic == MAGIC_TRUETYPE || magic == MAGIC_TRUE || magic == MAGIC_OPENTYPE || magic
        == MAGIC_COLLECTION
}

/// Whether the buffer is one that is handed to the decoder.
pub fn fits_decoder(bytes: &Vec<u8>) -> (fits: bool)
    ensures
        fits == fits_decoder_spec(bytes@),
{
    if usize::BITS < 64 {
        return false;
    }
    let len = bytes.len();
    if len < 4 {
        return true;
    }
    let face: usize = if read_u32(bytes, 0) != MAGIC_COLLECTION {
        0
    } else if len < 16 {
        return true;
    } else {
        read_u32(bytes, 12) as usize
    };
    if len < 6 || face > len - 6 {
        return true;
    }
    read_u16(bytes, face + 4) != TABLE_COUNT_LIMIT
}

/// Decodes a font from the bytes of a font file.
///
/// The result is `None` where the bytes are not a font, and also where the
/// buffer is not one that is handed to the decoder.
pub fn decode_checked(bytes: Vec<u8>) -> (font: Option<Font<'static>>)
    ensures
        font == checked_font(bytes@),
        !has_font_magic(bytes@) ==> font is None,
{
    if fits_decoder(&bytes) {
        decode_font(bytes)
    } else {
        None
    }
}

} // verus!
