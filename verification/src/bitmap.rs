//! Pixel processing for shell icons and thumbnails: 32-bit RGBA buffers, four
//! bytes per pixel (red, green, blue, alpha), rows top to bottom.

use vstd::prelude::*;

verus! {

/// Bytes per RGBA pixel.
pub const BYTES_PER_PIXEL: usize = 4;
/// In a classic icon AND mask a channel above this value marks a transparent pixel.
pub const ICON_MASK_ALPHA_THRESHOLD: u8 = 127;
/// Alpha of a fully transparent pixel.
pub const TRANSPARENT_ALPHA: u8 = 0;
/// Alpha of a fully opaque pixel.
pub const OPAQUE_ALPHA: u8 = 255;
/// A channel at or above this value counts as white for background removal.
pub const WHITE_CHANNEL_MIN: u8 = 246;

/// The number of whole pixels in a byte buffer (a trailing partial pixel is ignored).
pub open spec fn pixel_count(s: Seq<u8>) -> int {
    s.len() as int / 4
}

/// The alpha byte of pixel `k`.
pub open spec fn alpha_at(s: Seq<u8>, k: int) -> u8 {
    s[4 * k + 3]
}

/// Some whole pixel is partly transparent: 0 < alpha < 255.
pub open spec fn has_smooth_alpha(s: Seq<u8>) -> bool {
    exists|k: int| 0 <= k < pixel_count(s) && 0 < #[trigger] alpha_at(s, k) < 255
}

/// Every whole pixel has alpha 0.
pub open spec fn fully_transparent(s: Seq<u8>) -> bool {
    forall|k: int| 0 <= k < pixel_count(s) ==> #[trigger] alpha_at(s, k) == 0
}

/// Every whole pixel has alpha 255.
pub open spec fn fully_opaque(s: Seq<u8>) -> bool {
    forall|k: int| 0 <= k < pixel_count(s) ==> #[trigger] alpha_at(s, k) == 255
}

/// Pixel `k` has a non-black colour.
pub open spec fn has_colour(s: Seq<u8>, k: int) -> bool {
    s[4 * k] != 0 || s[4 * k + 1] != 0 || s[4 * k + 2] != 0
}

/// Some whole pixel has a non-black colour.
pub open spec fn any_colour(s: Seq<u8>) -> bool {
    exists|k: int| 0 <= k < pixel_count(s) && #[trigger] has_colour(s, k)
}

/// `t` is `s` with the alpha byte of every whole pixel set to 255.
pub open spec fn with_opaque_alpha(s: Seq<u8>) -> Seq<u8> {
    Seq::new(
        s.len(),
        |i: int| if i % 4 == 3 && i < 4 * pixel_count(s) { 255u8 } else { s[i] },
    )
}

/// Whether some pixel is partly transparent, i.e. the image carries a real alpha channel.
pub fn has_smooth_alpha_channel(rgba: &[u8]) -> (r: bool)
    ensures
        r == has_smooth_alpha(rgba@),
{
    let len = rgba.len();
    let count = len / 4;
    let mut k: usize = 0;
    while k < count
        invariant
            k <= count == pixel_count(rgba@),
            len == rgba@.len(),
            forall|j: int| 0 <= j < k ==> !(0 < #[trigger] alpha_at(rgba@, j) < 255),
        decreases count - k,
    {
        let alpha = rgba[4 * k + 3];
        if alpha > TRANSPARENT_ALPHA && alpha < OPAQUE_ALPHA {
            assert(0 < alpha_at(rgba@, k as int) < 255);
            return true;
        }
        k = k + 1;
    }
    false
}

/// Whether every pixel is fully transparent (a blank image would render invisibly).
pub fn is_fully_transparent(rgba: &[u8]) -> (r: bool)
    ensures
        r == fully_transparent(rgba@),
{
    let len = rgba.len();
    let count = len / 4;
    let mut k: usize = 0;
    while k < count
        invariant
            k <= count == pixel_count(rgba@),
            len == rgba@.len(),
            forall|j: int| 0 <= j < k ==> #[trigger] alpha_at(rgba@, j) == 0,
        decreases count - k,
    {
        if rgba[4 * k + 3] != TRANSPARENT_ALPHA {
            assert(alpha_at(rgba@, k as int) != 0);
            return false;
        }
        k = k + 1;
    }
    true
}

/// Whether every pixel is fully opaque.
pub fn is_fully_opaque(rgba: &[u8]) -> (r: bool)
    ensures
        r == fully_opaque(rgba@),
{
    let len = rgba.len();
    let count = len / 4;
    let mut k: usize = 0;
    while k < count
        invariant
            k <= count == pixel_count(rgba@),
            len == rgba@.len(),
            forall|j: int| 0 <= j < k ==> #[trigger] alpha_at(rgba@, j) == 255,
        decreases count - k,
    {
        if rgba[4 * k + 3] != OPAQUE_ALPHA {
            assert(alpha_at(rgba@, k as int) != 255);
            return false;
        }
        k = k + 1;
    }
    true
}

/// Whether some pixel has a non-black colour.
pub fn has_visible_colour(rgba: &[u8]) -> (r: bool)
    ensures
        r == any_colour(rgba@),
{
    let len = rgba.len();
    let count = len / 4;
    let mut k: usize = 0;
    while k < count
        invariant
            k <= count == pixel_count(rgba@),
            len == rgba@.len(),
            forall|j: int| 0 <= j < k ==> !#[trigger] has_colour(rgba@, j),
        decreases count - k,
    {
        if rgba[4 * k] != 0 || rgba[4 * k + 1] != 0 || rgba[4 * k + 2] != 0 {
            assert(has_colour(rgba@, k as int));
            return true;
        }
        k = k + 1;
    }
    false
}

/// Icons that carry colour but no readable alpha or mask: showing the colours beats an
/// empty image, so when any pixel is non-black every pixel becomes opaque.
pub fn restore_opaque_alpha_for_visible_icon_pixels(rgba: &mut Vec<u8>)
    ensures
        any_colour(old(rgba)@) ==> final(rgba)@ == with_opaque_alpha(old(rgba)@),
        !any_colour(old(rgba)@) ==> final(rgba)@ == old(rgba)@,
{
    if !has_visible_colour(rgba.as_slice()) {
        return;
    }
    let len = rgba.len();
    let count = len / 4;
    let ghost original = rgba@;
    let mut k: usize = 0;
    while k < count
        invariant
            k <= count == pixel_count(original),
            rgba@.len() == original.len() == len,
            forall|i: int|
                0 <= i < rgba@.len() ==> #[trigger] rgba@[i] == if i % 4 == 3 && i < 4 * k {
                    255u8
                } else {
                    original[i]
                },
        decreases count - k,
    {
        rgba.set(4 * k + 3, OPAQUE_ALPHA);
        k = k + 1;
    }
    assert(rgba@ =~= with_opaque_alpha(original));
}

/// Reorders every pixel from the BGRA layout of a device-independent bitmap to RGBA.
pub fn bgra_to_rgba(pixels: &mut Vec<u8>)
    ensures
        final(pixels)@.len() == old(pixels)@.len(),
        forall|i: int|
            0 <= i < old(pixels)@.len() ==> #[trigger] final(pixels)@[i] == if i >= 4
                * pixel_count(old(pixels)@) {
                old(pixels)@[i]
            } else if i % 4 == 0 {
                old(pixels)@[i + 2]
            } else if i % 4 == 2 {
                old(pixels)@[i - 2]
            } else {
                old(pixels)@[i]
            },
{
    let ghost original = pixels@;
    let len = pixels.len();
    let count = len / 4;
    let mut k: usize = 0;
    while k < count
        invariant
            k <= count == pixel_count(original),
            pixels@.len() == original.len() == len,
            forall|i: int|
                0 <= i < original.len() ==> #[trigger] pixels@[i] == if i >= 4 * k {
                    original[i]
                } else if i % 4 == 0 {
                    original[i + 2]
                } else if i % 4 == 2 {
                    original[i - 2]
                } else {
                    original[i]
                },
        decreases count - k,
    {
        let blue = pixels[4 * k];
        let red = pixels[4 * k + 2];
        pixels.set(4 * k, red);
        pixels.set(4 * k + 2, blue);
        k = k + 1;
    }
}


/// A 32-bit bitmap converted to RGBA.
pub struct RgbaBitmap {
    pub width: i32,
    pub height: i32,
    pub pixels: Vec<u8>,
}

impl RgbaBitmap {
    /// Positive dimensions and exactly four bytes per pixel.
    pub open spec fn wf(&self) -> bool {
        &&& self.width > 0
        &&& self.height > 0
        &&& self.pixels@.len() == 4 * (self.width * self.height)
    }
}

/// In a classic AND mask, pixel `k` is transparent when any colour channel is above 127.
pub open spec fn mask_transparent(mask: Seq<u8>, k: int) -> bool {
    mask[4 * k] > ICON_MASK_ALPHA_THRESHOLD || mask[4 * k + 1] > ICON_MASK_ALPHA_THRESHOLD
        || mask[4 * k + 2] > ICON_MASK_ALPHA_THRESHOLD
}

/// `color` with each alpha byte taken from the mask: 0 where the mask is transparent,
/// 255 elsewhere.
pub open spec fn masked_pixels(color: Seq<u8>, mask: Seq<u8>) -> Seq<u8> {
    Seq::new(
        color.len(),
        |i: int|
            if i % 4 == 3 {
                if mask_transparent(mask, i / 4) {
                    TRANSPARENT_ALPHA
                } else {
                    OPAQUE_ALPHA
                }
            } else {
                color[i]
            },
    )
}

/// Fills the alpha channel of `color` from a classic icon AND mask (white transparent,
/// black opaque). A mask of another width, or shorter than the colour bitmap, is ignored.
pub fn apply_icon_mask_alpha(color: &mut RgbaBitmap, mask: &RgbaBitmap)
    requires
        old(color).wf(),
        mask.wf(),
    ensures
        final(color).width == old(color).width,
        final(color).height == old(color).height,
        (mask.width != old(color).width || mask.height < old(color).height)
            ==> final(color).pixels@ == old(color).pixels@,
        !(mask.width != old(color).width || mask.height < old(color).height)
            ==> final(color).pixels@ == masked_pixels(old(color).pixels@, mask.pixels@),
{
    if mask.width != color.width || mask.height < color.height {
        return;
    }
    let ghost original = color.pixels@;
    let len = color.pixels.len();
    let mask_len = mask.pixels.len();
    let count = len / 4;
    proof {
        assert(4 * (color.width * color.height) <= 4 * (mask.width * mask.height)) by (
        nonlinear_arith)
            requires
                color.width == mask.width,
                color.height <= mask.height,
                color.width > 0,
        ;
    }
    let mut k: usize = 0;
    while k < count
        invariant
            k <= count,
            count == len / 4,
            len == original.len() == color.pixels@.len(),
            len % 4 == 0,
            len <= mask_len == mask.pixels@.len(),
            color.width == old(color).width,
            color.height == old(color).height,
            forall|i: int|
                0 <= i < len ==> #[trigger] color.pixels@[i] == if i % 4 == 3 && i < 4 * k {
                    if mask_transparent(mask.pixels@, i / 4) {
                        TRANSPARENT_ALPHA
                    } else {
                        OPAQUE_ALPHA
                    }
                } else {
                    original[i]
                },
        decreases count - k,
    {
        let is_transparent = mask.pixels[4 * k] > ICON_MASK_ALPHA_THRESHOLD || mask.pixels[4 * k
            + 1] > ICON_MASK_ALPHA_THRESHOLD || mask.pixels[4 * k + 2] > ICON_MASK_ALPHA_THRESHOLD;
        let alpha = if is_transparent {
            TRANSPARENT_ALPHA
        } else {
            OPAQUE_ALPHA
        };
        assert(is_transparent == mask_transparent(mask.pixels@, ((4 * k + 3) as int) / 4));
        color.pixels.set(4 * k + 3, alpha);
        k = k + 1;
    }
    assert(color.pixels@ =~= masked_pixels(original, mask.pixels@));
}

} // verus!
