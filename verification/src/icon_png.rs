//! From RGBA bitmaps to PNG data URLs: the icon and thumbnail pipelines settle the
//! alpha channel, remove white backing plates, crop transparent padding and encode.

use vstd::prelude::*;
use base64::Engine;
use crate::bitmap::{
    RgbaBitmap, has_smooth_alpha, fully_transparent, any_colour, with_opaque_alpha,
    masked_pixels, has_smooth_alpha_channel, is_fully_transparent,
    restore_opaque_alpha_for_visible_icon_pixels, apply_icon_mask_alpha, bgra_to_rgba,
    pixel_count,
};
use crate::background::{background_removed, remove_solid_background_if_opaque};
use crate::crop::{cropped, crop_transparent_padding, lemma_cropped_size};
use crate::text::append_str;

verus! {

/// Why a bitmap could not be turned into a PNG.
pub enum ImageError {
    /// A bitmap handle was empty or a GDI call failed; the text names the cause.
    Unreadable(String),
    /// The bitmap reports a width or height that is not positive.
    InvalidSize,
    /// Every pixel of a shell thumbnail is fully transparent.
    TransparentThumbnail,
    /// Every pixel of an icon stays fully transparent, even after its mask and colours
    /// were used.
    TransparentIcon,
    /// The PNG encoder refused the image.
    Encoding,
}

/// The prefix of a PNG data URL that a browser `<img>` renders directly.
pub const PNG_DATA_URL_PREFIX: &'static str = "data:image/png;base64,";

#[verifier::external_type_specification]
#[verifier::external_body]
pub struct ExPngEncodingError(png::EncodingError);

/// The bytes of the PNG file that the `png` crate writes for a `width` by `height`
/// 8-bit RGBA image with default compression and filtering.
pub uninterp spec fn png_rgba8_encoding(width: u32, height: u32, rgba: Seq<u8>) -> Seq<u8>;

/// Encodes 8-bit RGBA pixels as a PNG file with `png::Encoder` (header, image data, and
/// the end chunk written when the writer is dropped). The `png` source refuses a zero
/// width or height in `write_header` and image data of another length than
/// `4 * width * height` in `write_image_data`; writing into a `Vec` cannot fail
/// otherwise. The bytes written are named by `png_rgba8_encoding`.
#[verifier::external_body]
fn encode_png(width: u32, height: u32, rgba: &[u8]) -> (r: Result<Vec<u8>, png::EncodingError>)
    requires
        4 * (width * height) <= usize::MAX,
    ensures
        r is Ok <==> (width > 0 && height > 0 && rgba@.len() == 4 * (width * height)),
        r matches Ok(bytes) ==> bytes@ == png_rgba8_encoding(width, height, rgba@),
{
    let mut png_bytes = Vec::new();
    {
        let mut encoder = png::Encoder::new(&mut png_bytes, width, height);
        encoder.set_color(png::ColorType::Rgba);
        encoder.set_depth(png::BitDepth::Eight);
        let mut writer = encoder.write_header()?;
        writer.write_image_data(rgba)?;
    }
    Ok(png_bytes)
}

/// The character of the standard base64 alphabet for a 6-bit value.
pub open spec fn base64_digit(v: int) -> char {
    if v < 26 {
        (65 + v) as char
    } else if v < 52 {
        (97 + v - 26) as char
    } else if v < 62 {
        (48 + v - 52) as char
    } else if v == 62 {
        '+'
    } else {
        '/'
    }
}

/// Standard base64 (RFC 4648 alphabet, `=` padding): each group of three bytes becomes
/// four characters; a final group of one or two bytes is padded to four characters.
pub open spec fn standard_base64(b: Seq<u8>) -> Seq<char>
    decreases b.len(),
{
    if b.len() == 0 {
        Seq::empty()
    } else {
        let b0 = b[0] as int;
        let b1 = if b.len() > 1 { b[1] as int } else { 0 };
        let b2 = if b.len() > 2 { b[2] as int } else { 0 };
        let c0 = base64_digit(b0 / 4);
        let c1 = base64_digit((b0 % 4) * 16 + b1 / 16);
        let c2 = base64_digit((b1 % 16) * 4 + b2 / 64);
        let c3 = base64_digit(b2 % 64);
        if b.len() == 1 {
            seq![c0, c1, '=', '=']
        } else if b.len() == 2 {
            seq![c0, c1, c2, '=']
        } else {
            seq![c0, c1, c2, c3] + standard_base64(b.subrange(3, b.len() as int))
        }
    }
}

/// Encodes bytes with `base64::engine::general_purpose::STANDARD`, the padded standard
/// alphabet, as its documentation describes.
#[verifier::external_body]
fn encode_base64(bytes: &[u8]) -> (s: String)
    ensures
        s@ == standard_base64(bytes@),
{
    base64::engine::general_purpose::STANDARD.encode(bytes)
}

/// Wraps PNG bytes in a data URL that a browser `<img>` renders directly.
pub fn png_data_url(png: &[u8]) -> (url: String)
    ensures
        url@ == PNG_DATA_URL_PREFIX@ + standard_base64(png@),
{
    let encoded = encode_base64(png);
    let mut url = PNG_DATA_URL_PREFIX.to_owned();
    append_str(&mut url, encoded.as_str());
    url
}

/// `png` is the PNG of the `w` by `h` image `p` after removal of a white backing plate
/// and cropping of transparent padding.
pub open spec fn encodes_cleaned(p: Seq<u8>, w: int, h: int, png: Seq<u8>) -> bool {
    exists|cleared: Seq<u8>, rw: int, rh: int, out: Seq<u8>|
        #![trigger background_removed(p, cleared, w, h), cropped(cleared, w, h, rw, rh, out)]
        background_removed(p, cleared, w, h) && cropped(cleared, w, h, rw, rh, out) && png
            == png_rgba8_encoding(rw as u32, rh as u32, out)
}

/// Removes a white backing plate, crops transparent padding and encodes the result.
fn encode_cleaned(bitmap: RgbaBitmap) -> (png: Vec<u8>)
    requires
        bitmap.wf(),
    ensures
        encodes_cleaned(bitmap.pixels@, bitmap.width as int, bitmap.height as int, png@),
{
    let mut bitmap = bitmap;
    let ghost p = bitmap.pixels@;
    let width = bitmap.width as usize;
    let height = bitmap.height as usize;
    remove_solid_background_if_opaque(&mut bitmap.pixels, width, height);
    let ghost cleared = bitmap.pixels@;
    let (crop_width, crop_height, out) = crop_transparent_padding(
        bitmap.width as u32,
        bitmap.height as u32,
        bitmap.pixels.as_slice(),
    );
    let len = out.len();
    assert(cropped(cleared, width as int, height as int, crop_width as int, crop_height as int, out@));
    proof {
        lemma_cropped_size(
            cleared,
            width as int,
            height as int,
            crop_width as int,
            crop_height as int,
            out@,
        );
    }
    match encode_png(crop_width, crop_height, out.as_slice()) {
        Ok(png) => png,
        Err(_) => {
            assert(false);
            Vec::new()
        },
    }
}

/// Checks the dimensions a GDI bitmap reports and gives the size of its 32-bit pixel
/// buffer: four bytes per pixel.
pub fn bitmap_buffer_len(width: i32, height: i32) -> (r: Result<usize, ImageError>)
    requires
        width > 0 && height > 0 ==> 4 * (width * height) <= i32::MAX,
    ensures
        width <= 0 || height <= 0 ==> r matches Err(ImageError::InvalidSize),
        width > 0 && height > 0 ==> r == Ok::<usize, ImageError>((4 * (width * height)) as usize),
{
    if width <= 0 || height <= 0 {
        return Err(ImageError::InvalidSize);
    }
    Ok((width * height * 4) as usize)
}

/// The RGBA bitmap of a `width` by `height` 32-bit device-independent bitmap read as
/// BGRA bytes.
pub fn rgba_bitmap_from_bgra(width: i32, height: i32, bgra: Vec<u8>) -> (bitmap: RgbaBitmap)
    requires
        width > 0,
        height > 0,
        bgra@.len() == 4 * (width * height),
    ensures
        bitmap.wf(),
        bitmap.width == width,
        bitmap.height == height,
        forall|k: int, c: int|
            0 <= k < pixel_count(bgra@) && 0 <= c < 4 ==> #[trigger] bitmap.pixels@[4 * k + c]
                == bgra@[4 * k + if c == 0 {
                2
            } else if c == 2 {
                0
            } else {
                c
            }],
{
    let mut pixels = bgra;
    bgra_to_rgba(&mut pixels);
    RgbaBitmap { width, height, pixels }
}

/// The icon's colour pixels once its alpha channel is settled: a compatible classic mask
/// supplies the alpha when the bitmap has no smooth alpha of its own.
pub open spec fn masked_icon(color: RgbaBitmap, mask: Option<Result<RgbaBitmap, ImageError>>) -> Seq<u8> {
    match mask {
        Some(Ok(m)) => if !has_smooth_alpha(color.pixels@) && m.width == color.width && m.height
            >= color.height {
            masked_pixels(color.pixels@, m.pixels@)
        } else {
            color.pixels@
        },
        _ => color.pixels@,
    }
}

/// An icon that came out fully transparent but has colour is shown opaque instead.
pub open spec fn visible_icon(p: Seq<u8>) -> Seq<u8> {
    if fully_transparent(p) && any_colour(p) {
        with_opaque_alpha(p)
    } else {
        p
    }
}

/// Turns the colour bitmap of an icon and its classic AND mask, if the icon has one (or
/// the error met reading it), into PNG bytes. The mask is consulted only when the colour
/// bitmap has no smooth alpha; an icon that stays fully transparent is refused.
pub fn icon_bitmaps_to_png(color: RgbaBitmap, mask: Option<Result<RgbaBitmap, ImageError>>) -> (r:
    Result<Vec<u8>, ImageError>)
    requires
        color.wf(),
        mask matches Some(Ok(m)) ==> m.wf(),
    ensures
        !has_smooth_alpha(color.pixels@) && mask is Some && mask->0 is Err ==> r
            == Err::<Vec<u8>, ImageError>(mask->0->Err_0),
        !(!has_smooth_alpha(color.pixels@) && mask is Some && mask->0 is Err) ==> {
            let p = visible_icon(masked_icon(color, mask));
            &&& fully_transparent(p) ==> r is Err && r->Err_0 is TransparentIcon
            &&& !fully_transparent(p) ==> r is Ok && encodes_cleaned(
                p,
                color.width as int,
                color.height as int,
                r->Ok_0@,
            )
        },
{
    let mut color = color;
    let ghost original = color;
    let smooth = has_smooth_alpha_channel(color.pixels.as_slice());
    if !smooth {
        match mask {
            Some(Ok(m)) => {
                apply_icon_mask_alpha(&mut color, &m);
            },
            Some(Err(e)) => {
                return Err(e);
            },
            None => {},
        }
    }
    assert(color.pixels@ == masked_icon(original, mask));
    if is_fully_transparent(color.pixels.as_slice()) {
        restore_opaque_alpha_for_visible_icon_pixels(&mut color.pixels);
    }
    assert(color.pixels@ == visible_icon(masked_icon(original, mask)));
    if is_fully_transparent(color.pixels.as_slice()) {
        return Err(ImageError::TransparentIcon);
    }
    Ok(encode_cleaned(color))
}

/// An icon whose colour bitmap carries its own partial transparency keeps it: whatever
/// the mask (a compatible one, an incompatible one, none, or an error reading it),
/// `icon_bitmaps_to_png` succeeds with the PNG of the colour pixels as they are, only
/// cleaned of a backing plate and cropped, so anti-aliased edges keep their alpha.
pub proof fn lemma_smooth_alpha_ignores_mask(
    color: RgbaBitmap,
    mask: Option<Result<RgbaBitmap, ImageError>>,
    r: Result<Vec<u8>, ImageError>,
    k: int,
)
    requires
        color.wf(),
        0 <= k < color.pixels@.len() / 4,
        0 < color.pixels@[4 * k + 3] < 255,
        !has_smooth_alpha(color.pixels@) && mask is Some && mask->0 is Err ==> r
            == Err::<Vec<u8>, ImageError>(mask->0->Err_0),
        !(!has_smooth_alpha(color.pixels@) && mask is Some && mask->0 is Err) ==> {
            let p = visible_icon(masked_icon(color, mask));
            &&& fully_transparent(p) ==> r is Err && r->Err_0 is TransparentIcon
            &&& !fully_transparent(p) ==> r is Ok && encodes_cleaned(
                p,
                color.width as int,
                color.height as int,
                r->Ok_0@,
            )
        },
    ensures
        r is Ok,
        encodes_cleaned(color.pixels@, color.width as int, color.height as int, r->Ok_0@),
{
    assert(crate::bitmap::alpha_at(color.pixels@, k) == color.pixels@[4 * k + 3]);
    assert(has_smooth_alpha(color.pixels@));
    assert(masked_icon(color, mask) == color.pixels@);
    assert(!fully_transparent(color.pixels@));
    assert(visible_icon(color.pixels@) == color.pixels@);
}

/// Turns a shell thumbnail into PNG bytes; a fully transparent thumbnail is refused.
pub fn bitmap_to_png(bitmap: RgbaBitmap) -> (r: Result<Vec<u8>, ImageError>)
    requires
        bitmap.wf(),
    ensures
        fully_transparent(bitmap.pixels@) ==> r matches Err(ImageError::TransparentThumbnail),
        !fully_transparent(bitmap.pixels@) ==> r is Ok && encodes_cleaned(
            bitmap.pixels@,
            bitmap.width as int,
            bitmap.height as int,
            r->Ok_0@,
        ),
{
    if is_fully_transparent(bitmap.pixels.as_slice()) {
        return Err(ImageError::TransparentThumbnail);
    }
    Ok(encode_cleaned(bitmap))
}

} // verus!
