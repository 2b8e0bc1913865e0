//! The unread badge drawn over the tray icon: which glyphs it shows, and
//! the decoded base icon it is drawn on.
use vstd::prelude::*;

use crate::text::{decimal, decimal_chars, string_from_chars};

verus! {

/// Largest count drawn exactly; above it the badge reads "99+".
pub const BADGE_EXACT_MAX: u32 = 99;

/// The badge text: the count itself up to 99, "99+" beyond.
pub open spec fn glyphs_text(count: u32) -> Seq<char> {
    if count > BADGE_EXACT_MAX {
        seq!['9', '9', '+']
    } else {
        decimal(count as nat)
    }
}

/// The string drawn inside the badge. Exact for 1..=99; "99+" beyond,
/// because a 3-digit number is unreadable on a downscaled tray icon. Only the
/// drawn glyphs cap; the count itself is kept elsewhere.
pub fn glyphs_for(count: u32) -> (out: String)
    ensures
        out@ == glyphs_text(count),
{
    if count > BADGE_EXACT_MAX {
        string_from_chars(vec!['9', '9', '+'].as_slice())
    } else {
        string_from_chars(decimal_chars(count).as_slice())
    }
}

/// What `render` draws for `count`: nothing for zero (the base icon stays
/// untouched, no disc), else the badge glyphs.
pub fn badge_text(count: u32) -> (t: Option<String>)
    ensures
        count == 0 ==> t is None,
        count != 0 ==> (t matches Some(s) && s@ == glyphs_text(count)),
{
    if count > 0 {
        Some(glyphs_for(count))
    } else {
        None
    }
}

/// The first frame of a PNG as the `png` crate decodes it: the output
/// buffer (as long as the reader's `output_buffer_size`), width, height,
/// PNG colour type code, bit depth, and the frame's `buffer_size`.
pub uninterp spec fn png_first_frame(bytes: Seq<u8>) -> Option<(Seq<u8>, u32, u32, u8, u8, usize)>;

/// A decoded frame before its format is checked.
pub struct PngFrame {
    pub pixels: Vec<u8>,
    pub width: u32,
    pub height: u32,
    /// PNG colour type code (6 is RGBA).
    pub color_type: u8,
    /// Bits per sample.
    pub bit_depth: u8,
    /// Bytes of image data in `pixels`.
    pub buffer_size: usize,
}

pub open spec fn frame_view(f: Option<PngFrame>) -> Option<(Seq<u8>, u32, u32, u8, u8, usize)> {
    match f {
        None => None,
        Some(f) => Some((f.pixels@, f.width, f.height, f.color_type, f.bit_depth, f.buffer_size)),
    }
}

/// `png::Decoder::new(..).read_info()`, a zeroed buffer of
/// `output_buffer_size()` bytes, `next_frame` into it; the fields of the
/// returned `OutputInfo` are copied out. `None` when either call fails (the
/// decoder reports sizes whose buffer length would overflow as errors). The
/// contract claims only that the result is the one named by
/// `png_first_frame` for these bytes; it says nothing of the memory that a
/// large declared image size asks for.
#[verifier::external_body]
fn decode_png_frame(bytes: &[u8]) -> (r: Option<PngFrame>)
    ensures
        frame_view(r) == png_first_frame(bytes@),
{
    let mut reader = png::Decoder::new(bytes).read_info().ok()?;
    let mut pixels = vec![0u8; reader.output_buffer_size()];
    let info = reader.next_frame(&mut pixels).ok()?;
    Some(PngFrame {
        pixels,
        width: info.width,
        height: info.height,
        color_type: info.color_type as u8,
        bit_depth: info.bit_depth as u8,
        buffer_size: info.buffer_size(),
    })
}

/// PNG colour type code of RGBA.
pub const PNG_RGBA: u8 = 6;

/// Straight 8-bit RGBA pixels, row by row.
pub struct RgbaImage {
    pub rgba: Vec<u8>,
    pub width: u32,
    pub height: u32,
}

/// Why the base icon could not be used.
#[derive(Clone, Copy, Debug, PartialEq, Eq)]
pub enum IconError {
    /// Not a PNG the decoder reads.
    Decode,
    /// Decoded, but not RGBA.
    NotRgba,
    /// Decoded, but not 8 bits per sample.
    NotEightBit,
}

/// The frame's image data: its buffer cut to `buffer_size` bytes.
pub open spec fn frame_pixels(buf: Seq<u8>, size: usize) -> Seq<u8> {
    if size <= buf.len() {
        buf.take(size as int)
    } else {
        buf
    }
}

/// Checks a decoded frame: only 8-bit RGBA is accepted, since the bundled
/// icons are 8-bit RGBA PNGs; the pixels are the frame's image data.
pub fn rgba8_from_frame(frame: PngFrame) -> (r: Result<RgbaImage, IconError>)
    ensures
        frame.color_type != PNG_RGBA ==> r matches Err(IconError::NotRgba),
        frame.color_type == PNG_RGBA && frame.bit_depth != 8 ==> r matches Err(
            IconError::NotEightBit,
        ),
        frame.color_type == PNG_RGBA && frame.bit_depth == 8 ==> (r matches Ok(img) && img.rgba@
            == frame_pixels(frame.pixels@, frame.buffer_size) && img.width == frame.width
            && img.height == frame.height),
{
    if frame.color_type != PNG_RGBA {
        return Err(IconError::NotRgba);
    }
    if frame.bit_depth != 8 {
        return Err(IconError::NotEightBit);
    }
    let mut rgba = frame.pixels;
    rgba.truncate(frame.buffer_size);
    Ok(RgbaImage { rgba, width: frame.width, height: frame.height })
}

/// Decodes the base icon strictly: only an 8-bit RGBA PNG is accepted.
pub fn decode_rgba8(png: &[u8]) -> (r: Result<RgbaImage, IconError>)
    ensures
        match png_first_frame(png@) {
            None => r matches Err(IconError::Decode),
            Some(f) => if f.3 != PNG_RGBA {
                r matches Err(IconError::NotRgba)
            } else if f.4 != 8 {
                r matches Err(IconError::NotEightBit)
            } else {
                r matches Ok(img) && img.rgba@ == frame_pixels(f.0, f.5) && img.width == f.1
                    && img.height == f.2
            },
        },
{
    match decode_png_frame(png) {
        None => Err(IconError::Decode),
        Some(frame) => rgba8_from_frame(frame),
    }
}

/// The badge never shows more than three glyphs, and shows the exact count
/// up to 99.
pub proof fn lemma_glyphs_short(count: u32)
    ensures
        glyphs_text(count).len() <= 3,
        count <= BADGE_EXACT_MAX ==> glyphs_text(count) == decimal(count as nat),
{
    if count <= BADGE_EXACT_MAX {
        if count >= 10 {
            assert(decimal((count / 10) as nat).len() == 1);
        }
    }
}

/// Counts above 99 all show the same three glyphs "99+".
pub proof fn lemma_glyphs_capped(count: u32)
    ensures
        count > 99 ==> glyphs_text(count) == seq!['9', '9', '+'],
        count > 99 ==> glyphs_text(count) == glyphs_text(100),
{
}

} // verus!
