//! The outside operations that image rows are made with: the `image`
//! crate's resizing, overlaying and PNG encoding of RGBA images held as
//! plain bytes, `base64` encoding, and `char::from_u32`.

use vstd::prelude::*;
use base64::Engine;

verus! {

/// Whether a buffer of `channels` values of `bytes` bytes each per pixel,
/// for an image of the given dimensions, can be allocated: its length fits
/// in `usize` and its size in bytes does not exceed `isize::MAX` (`image`
/// and `Vec` panic otherwise).
pub open spec fn pixel_buffer_fits(width: int, height: int, bytes_per_pixel: int) -> bool {
    bytes_per_pixel * width * height <= isize::MAX
}

/// Whether an RGBA buffer of 8-bit channels of the given dimensions can be
/// allocated.
pub open spec fn rgba_buffer_fits(width: int, height: int) -> bool {
    pixel_buffer_fits(width, height, 4)
}

/// What `DynamicImage::resize_exact` with the triangle filter makes of the
/// RGBA image `src` (`src_width` by `src_height`, 4 bytes per pixel, row by
/// row), resized to exactly `width` by `height` pixels and taken as RGBA.
pub uninterp spec fn resized_rgba(src_width: u32, src_height: u32, src: Seq<u8>, width: u32, height: u32) -> Seq<u8>;

/// Calls `DynamicImage::resize_exact` with the triangle filter on the RGBA
/// image `src` (taken as `RgbaImage` with `from_raw`) and takes the result
/// back as RGBA bytes (`to_rgba8`, `into_raw`). The result depends on the
/// arguments alone and is named `resized_rgba`; it has 4 bytes for each of
/// the `width` by `height` pixels. `image` first resamples the rows into a
/// `src_width` by `height` buffer of four 32-bit floats per pixel, then the
/// columns into the result; both must be allocatable.
#[verifier::external_body]
pub(crate) fn resize_rgba(src: &Vec<u8>, src_width: u32, src_height: u32, width: u32, height: u32) -> (pixels: Vec<u8>)
    requires
        src@.len() == 4 * src_width * src_height,
        rgba_buffer_fits(width as int, height as int),
        pixel_buffer_fits(src_width as int, height as int, 16),
    ensures
        pixels@ == resized_rgba(src_width, src_height, src@, width, height),
        pixels@.len() == 4 * width * height,
{
    let Some(image) = image::RgbaImage::from_raw(src_width, src_height, src.clone()) else {
        return Vec::new();
    };
    image::DynamicImage::ImageRgba8(image)
        .resize_exact(width, height, image::imageops::FilterType::Triangle)
        .to_rgba8()
        .into_raw()
}

/// What `image::imageops::overlay` makes of an RGBA image (`width` by
/// `height`, 4 bytes per pixel, row by row) when another RGBA image is drawn
/// over it at its top left corner.
pub uninterp spec fn overlaid(width: u32, height: u32, bottom: Seq<u8>, top_width: u32, top_height: u32, top: Seq<u8>) -> Seq<u8>;

/// Calls `image::imageops::overlay` to draw the RGBA image `top` over the
/// RGBA image `canvas` at its top left corner (both taken as `RgbaImage`
/// with `from_raw` and back with `into_raw`). The result depends on the
/// arguments alone and is named `overlaid`; the canvas keeps its size.
#[verifier::external_body]
pub(crate) fn overlay_rgba(canvas: &mut Vec<u8>, width: u32, height: u32, top: &Vec<u8>, top_width: u32, top_height: u32)
    requires
        old(canvas)@.len() == 4 * width * height,
        top@.len() == 4 * top_width * top_height,
    ensures
        final(canvas)@ == overlaid(width, height, old(canvas)@, top_width, top_height, top@),
        final(canvas)@.len() == old(canvas)@.len(),
{
    let bottom = std::mem::take(canvas);
    let (Some(mut bottom), Some(top)) = (
        image::RgbaImage::from_raw(width, height, bottom),
        image::RgbaImage::from_raw(top_width, top_height, top.clone()),
    ) else {
        return;
    };
    image::imageops::overlay(&mut bottom, &top, 0, 0);
    *canvas = bottom.into_raw();
}

/// What `DynamicImage::write_to` with the PNG format writes for an RGBA image
/// of `width` by `height` pixels (4 bytes per pixel, row by row): the PNG
/// file's bytes, or `None` when encoding fails.
pub uninterp spec fn png_encode(width: u32, height: u32, rgba: Seq<u8>) -> Option<Seq<u8>>;

/// The bytes of an optional byte vector.
pub open spec fn opt_bytes(o: Option<Vec<u8>>) -> Option<Seq<u8>> {
    match o {
        Some(v) => Some(v@),
        None => None,
    }
}

/// Calls `DynamicImage::write_to` with the PNG format into an in-memory
/// buffer, for the RGBA image given as its bytes (taken as `RgbaImage` with
/// `from_raw`). The result depends on the arguments alone and is named
/// `png_encode`.
#[verifier::external_body]
pub(crate) fn encode_png(width: u32, height: u32, rgba: Vec<u8>) -> (png: Option<Vec<u8>>)
    requires
        rgba@.len() == 4 * width * height,
    ensures
        opt_bytes(png) == png_encode(width, height, rgba@),
{
    let image = image::DynamicImage::ImageRgba8(image::RgbaImage::from_raw(width, height, rgba)?);
    let mut png = std::io::Cursor::new(Vec::new());
    match image.write_to(&mut png, image::ImageFormat::Png) {
        Ok(()) => Some(png.into_inner()),
        Err(_) => None,
    }
}

/// The character of value `i` in the standard base64 alphabet (RFC 4648):
/// `A`-`Z`, `a`-`z`, `0`-`9`, `+`, `/`.
pub open spec fn base64_char(i: int) -> char {
    if i < 26 {
        (65 + i) as char
    } else if i < 52 {
        (97 + i - 26) as char
    } else if i < 62 {
        (48 + i - 52) as char
    } else if i == 62 {
        '+'
    } else {
        '/'
    }
}

/// Standard base64 with padding (RFC 4648): each group of three bytes
/// becomes four characters; a final group of one or two bytes becomes four
/// characters ending in `==` or `=`.
pub open spec fn base64_standard(data: Seq<u8>) -> Seq<char>
    decreases data.len(),
{
    if data.len() == 0 {
        Seq::empty()
    } else if data.len() == 1 {
        let a = data[0] as int;
        seq![base64_char(a / 4), base64_char((a % 4) * 16), '=', '=']
    } else if data.len() == 2 {
        let a = data[0] as int;
        let b = data[1] as int;
        seq![base64_char(a / 4), base64_char((a % 4) * 16 + b / 16), base64_char((b % 16) * 4), '=']
    } else {
        let a = data[0] as int;
        let b = data[1] as int;
        let c = data[2] as int;
        seq![base64_char(a / 4), base64_char((a % 4) * 16 + b / 16), base64_char((b % 16) * 4 + c / 64), base64_char(c % 64)]
            + base64_standard(data.subrange(3, data.len() as int))
    }
}

/// Calls `base64::engine::general_purpose::STANDARD.encode`: the standard,
/// padded base64 text of the bytes.
#[verifier::external_body]
pub(crate) fn base64_encode(data: &Vec<u8>) -> (text: String)
    ensures
        text@ == base64_standard(data@),
{
    base64::engine::general_purpose::STANDARD.encode(data)
}

/// Whether `code` is a Unicode scalar value: at most 0x10FFFF and not a
/// surrogate.
pub open spec fn is_scalar_value(code: int) -> bool {
    code <= 0x10FFFF && !(0xD800 <= code <= 0xDFFF)
}

/// Calls `char::from_u32`: the character with that code, or `None` when the
/// code is not a Unicode scalar value.
#[verifier::external_body]
pub(crate) fn char_from_u32(code: u32) -> (c: Option<char>)
    ensures
        is_scalar_value(code as int) <==> c is Some,
        c matches Some(ch) ==> ch as u32 == code,
{
    char::from_u32(code)
}

/// Calls `String::push`: the string with the character appended.
#[verifier::external_body]
pub(crate) fn push_char(s: &mut String, c: char)
    ensures
        final(s)@ == old(s)@.push(c),
{
    s.push(c)
}

} // verus!
