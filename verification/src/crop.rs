//! Cropping of transparent padding: the visible content of an icon is cut out with a
//! small margin and centred on a square transparent canvas, so that icons from every
//! source render at the same visual size.

use vstd::prelude::*;
use crate::background::{idx, in_grid, alpha_idx, lemma_grid_index};

verus! {

/// Pixel `(x, y)` carries content: its alpha is above 0, so even faint anti-aliased
/// edges are kept.
pub open spec fn is_content(s: Seq<u8>, w: int, x: int, y: int) -> bool {
    s[alpha_idx(w, x, y)] > 0
}

/// Some pixel of the `w` by `h` image carries content.
pub open spec fn has_content(s: Seq<u8>, w: int, h: int) -> bool {
    exists|x: int, y: int| in_grid(w, h, x, y) && #[trigger] is_content(s, w, x, y)
}

/// `x0..=x1` by `y0..=y1` is the tight box around the content: every content pixel lies
/// inside it and each of its four sides passes through a content pixel.
pub open spec fn is_content_box(s: Seq<u8>, w: int, h: int, x0: int, y0: int, x1: int, y1: int) -> bool {
    &&& forall|x: int, y: int|
        in_grid(w, h, x, y) && #[trigger] is_content(s, w, x, y) ==> x0 <= x <= x1 && y0 <= y <= y1
    &&& exists|y: int| in_grid(w, h, x0, y) && #[trigger] is_content(s, w, x0, y)
    &&& exists|y: int| in_grid(w, h, x1, y) && #[trigger] is_content(s, w, x1, y)
    &&& exists|x: int| in_grid(w, h, x, y0) && #[trigger] is_content(s, w, x, y0)
    &&& exists|x: int| in_grid(w, h, x, y1) && #[trigger] is_content(s, w, x, y1)
}

/// The tight content box `(x0, y0, x1, y1)` of an image that has content.
pub open spec fn content_box(s: Seq<u8>, w: int, h: int) -> (int, int, int, int) {
    choose|b: (int, int, int, int)| is_content_box(s, w, h, b.0, b.1, b.2, b.3)
}

/// `(x, y)` was visited by a row-major scan that has finished `rows` rows and the first
/// `cols` pixels of the next one.
pub open spec fn scanned(w: int, rows: int, cols: int, x: int, y: int) -> bool {
    0 <= x < w && 0 <= y && (y < rows || (y == rows && x < cols))
}

/// Some scanned pixel carries content.
pub open spec fn content_scanned(s: Seq<u8>, w: int, rows: int, cols: int) -> bool {
    exists|x: int, y: int| scanned(w, rows, cols, x, y) && #[trigger] is_content(s, w, x, y)
}

/// `x0..=x1` by `y0..=y1` is the tight box around the scanned content.
pub open spec fn scanned_box(
    s: Seq<u8>,
    w: int,
    rows: int,
    cols: int,
    x0: int,
    y0: int,
    x1: int,
    y1: int,
) -> bool {
    &&& forall|x: int, y: int|
        scanned(w, rows, cols, x, y) && #[trigger] is_content(s, w, x, y) ==> x0 <= x <= x1 && y0
            <= y <= y1
    &&& exists|y: int| scanned(w, rows, cols, x0, y) && #[trigger] is_content(s, w, x0, y)
    &&& exists|y: int| scanned(w, rows, cols, x1, y) && #[trigger] is_content(s, w, x1, y)
    &&& exists|x: int| scanned(w, rows, cols, x, y0) && #[trigger] is_content(s, w, x, y0)
    &&& exists|x: int| scanned(w, rows, cols, x, y1) && #[trigger] is_content(s, w, x, y1)
}

/// The content box is unique.
pub proof fn lemma_content_box_unique(
    s: Seq<u8>,
    w: int,
    h: int,
    a: (int, int, int, int),
    b: (int, int, int, int),
)
    requires
        is_content_box(s, w, h, a.0, a.1, a.2, a.3),
        is_content_box(s, w, h, b.0, b.1, b.2, b.3),
    ensures
        a == b,
{
}

/// The tight content box of the whole image, or `None` when no pixel carries content.
fn content_bounds(width: usize, height: usize, pixels: &[u8]) -> (r: Option<
    (usize, usize, usize, usize),
>)
    requires
        4 * (width * height) <= pixels@.len(),
    ensures
        r is None <==> !has_content(pixels@, width as int, height as int),
        r matches Some(b) ==> b.0 <= b.2 < width && b.1 <= b.3 < height,
        r matches Some(b) ==> is_content_box(
            pixels@,
            width as int,
            height as int,
            b.0 as int,
            b.1 as int,
            b.2 as int,
            b.3 as int,
        ),
{
    let ghost s = pixels@;
    let ghost w = width as int;
    let ghost h = height as int;
    let len = pixels.len();
    let mut found = false;
    let mut min_x: usize = 0;
    let mut min_y: usize = 0;
    let mut max_x: usize = 0;
    let mut max_y: usize = 0;
    let mut y: usize = 0;
    while y < height
        invariant
            s == pixels@,
            w == width,
            h == height,
            4 * (width * height) <= pixels@.len(),
            len == pixels@.len(),
            y <= height,
            found == content_scanned(s, w, y as int, 0),
            found ==> scanned_box(s, w, y as int, 0, min_x as int, min_y as int, max_x as int, max_y as int),
            found ==> max_x < width && max_y < height && min_x <= max_x && min_y <= max_y,
        decreases height - y,
    {
        let mut x: usize = 0;
        while x < width
            invariant
                s == pixels@,
                w == width,
                h == height,
                4 * (width * height) <= pixels@.len(),
                len == pixels@.len(),
                y < height,
                x <= width,
                found == content_scanned(s, w, y as int, x as int),
                found ==> scanned_box(
                    s,
                    w,
                    y as int,
                    x as int,
                    min_x as int,
                    min_y as int,
                    max_x as int,
                    max_y as int,
                ),
                found ==> max_x < width && max_y < height && min_x <= max_x && min_y <= max_y,
            decreases width - x,
        {
            proof {
                lemma_grid_index(w, h, x as int, y as int);
                assert(y * width + x < width * height);
                assert(4 * (y * width + x) + 3 < pixels@.len());
            }
            let alpha = pixels[4 * (y * width + x) + 3];
            let ghost before_found = found;
            let ghost b0 = min_x as int;
            let ghost b1 = min_y as int;
            let ghost b2 = max_x as int;
            let ghost b3 = max_y as int;
            if alpha > 0 {
                assert(is_content(s, w, x as int, y as int));
                if !found {
                    min_x = x;
                    min_y = y;
                    max_x = x;
                    max_y = y;
                    found = true;
                } else {
                    if x < min_x {
                        min_x = x;
                    }
                    if y < min_y {
                        min_y = y;
                    }
                    if x > max_x {
                        max_x = x;
                    }
                    if y > max_y {
                        max_y = y;
                    }
                }
                proof {
                    assert(scanned(w, y as int, x + 1, x as int, y as int));
                    assert forall|xx: int, yy: int|
                        scanned(w, y as int, x + 1, xx, yy) && #[trigger] is_content(s, w, xx, yy) implies min_x
                        <= xx <= max_x && min_y <= yy <= max_y by {
                        if !(xx == x && yy == y) {
                            assert(scanned(w, y as int, x as int, xx, yy));
                        }
                    }
                    if before_found {
                        if min_x != x {
                            let wy = choose|yy: int| scanned(w, y as int, x as int, b0, yy) && #[trigger] is_content(s, w, b0, yy);
                            assert(scanned(w, y as int, x + 1, b0, wy));
                        }
                        if max_x != x {
                            let wy = choose|yy: int| scanned(w, y as int, x as int, b2, yy) && #[trigger] is_content(s, w, b2, yy);
                            assert(scanned(w, y as int, x + 1, b2, wy));
                        }
                        if min_y != y {
                            let wx = choose|xx: int| scanned(w, y as int, x as int, xx, b1) && #[trigger] is_content(s, w, xx, b1);
                            assert(scanned(w, y as int, x + 1, wx, b1));
                        }
                        if max_y != y {
                            let wx = choose|xx: int| scanned(w, y as int, x as int, xx, b3) && #[trigger] is_content(s, w, xx, b3);
                            assert(scanned(w, y as int, x + 1, wx, b3));
                        }
                    }
                }
            } else {
                proof {
                    assert forall|xx: int, yy: int|
                        scanned(w, y as int, x + 1, xx, yy) && #[trigger] is_content(s, w, xx, yy) implies scanned(
                        w,
                        y as int,
                        x as int,
                        xx,
                        yy,
                    ) by {}
                    if found {
                        let wy = choose|yy: int| scanned(w, y as int, x as int, b0, yy) && #[trigger] is_content(s, w, b0, yy);
                        assert(scanned(w, y as int, x + 1, b0, wy));
                        let wy2 = choose|yy: int| scanned(w, y as int, x as int, b2, yy) && #[trigger] is_content(s, w, b2, yy);
                        assert(scanned(w, y as int, x + 1, b2, wy2));
                        let wx = choose|xx: int| scanned(w, y as int, x as int, xx, b1) && #[trigger] is_content(s, w, xx, b1);
                        assert(scanned(w, y as int, x + 1, wx, b1));
                        let wx2 = choose|xx: int| scanned(w, y as int, x as int, xx, b3) && #[trigger] is_content(s, w, xx, b3);
                        assert(scanned(w, y as int, x + 1, wx2, b3));
                    }
                }
            }
            x = x + 1;
        }
        proof {
            assert forall|xx: int, yy: int| #[trigger] scanned(w, y + 1, 0, xx, yy) == scanned(w, y as int, w, xx, yy) by {}
        }
        y = y + 1;
    }
    proof {
        assert forall|xx: int, yy: int| #[trigger] scanned(w, h, 0, xx, yy) == in_grid(w, h, xx, yy) by {}
    }
    if found {
        Some((min_x, min_y, max_x, max_y))
    } else {
        None
    }
}

/// The margin kept on each side of content `n` pixels long: 4% of `n`, rounded up.
pub open spec fn content_margin(n: int) -> int {
    (n + 24) / 25
}

/// Start of the cropped range around content spanning `lo..=hi`: the margin before it,
/// clamped at 0.
pub open spec fn crop_start(lo: int, hi: int) -> int {
    let m = content_margin(hi - lo + 1);
    if lo >= m {
        lo - m
    } else {
        0
    }
}

/// End (exclusive) of the cropped range around content spanning `lo..=hi`: the margin
/// after it, clamped at `limit`.
pub open spec fn crop_end(lo: int, hi: int, limit: int) -> int {
    let m = content_margin(hi - lo + 1);
    if hi + 1 + m <= limit {
        hi + 1 + m
    } else {
        limit
    }
}

/// The byte offset of channel `c` of pixel `(col, r)` in a square image of side `side`.
pub open spec fn square_index(side: int, r: int, col: int, c: int) -> int {
    4 * (r * side + col) + c
}

/// Channel `c` of pixel `(col, r)` of the square canvas: the `cw` by `ch` crop whose top
/// left source pixel is `(left, top)` sits centred on it (rounded towards the top left),
/// everything around it is transparent black.
pub open spec fn square_byte(
    s: Seq<u8>,
    w: int,
    left: int,
    top: int,
    cw: int,
    ch: int,
    side: int,
    r: int,
    col: int,
    c: int,
) -> u8 {
    let ox = (side - cw) / 2;
    let oy = (side - ch) / 2;
    if oy <= r < oy + ch && ox <= col < ox + cw {
        s[4 * idx(w, col - ox + left, r - oy + top) + c]
    } else {
        0u8
    }
}

/// `out` is the square canvas of side `side` holding the content box `b` of the `w` by
/// `h` image `s`, widened by its margins and centred.
pub open spec fn is_square_crop(
    s: Seq<u8>,
    w: int,
    h: int,
    b: (int, int, int, int),
    side: int,
    out: Seq<u8>,
) -> bool {
    let left = crop_start(b.0, b.2);
    let right = crop_end(b.0, b.2, w);
    let top = crop_start(b.1, b.3);
    let bottom = crop_end(b.1, b.3, h);
    let cw = right - left;
    let ch = bottom - top;
    &&& side == if cw >= ch {
        cw
    } else {
        ch
    }
    &&& out.len() == 4 * (side * side)
    &&& forall|r: int, col: int, c: int|
        0 <= r < side && 0 <= col < side && 0 <= c < 4 ==> out[#[trigger] square_index(
            side,
            r,
            col,
            c,
        )] == square_byte(s, w, left, top, cw, ch, side, r, col, c)
}

/// `out`, of `rw` by `rh` pixels, is the `w` by `h` image `s` with its transparent
/// padding cropped: `s` itself when no pixel is visible, else the square crop around the
/// content box.
pub open spec fn cropped(s: Seq<u8>, w: int, h: int, rw: int, rh: int, out: Seq<u8>) -> bool {
    &&& !has_content(s, w, h) ==> rw == w && rh == h && out == s
    &&& has_content(s, w, h) ==> {
        let b = content_box(s, w, h);
        &&& is_content_box(s, w, h, b.0, b.1, b.2, b.3)
        &&& rw == rh
        &&& is_square_crop(s, w, h, b, rw, out)
    }
}

/// A cropped image of positive size with four bytes per pixel again has a positive
/// size and four bytes per pixel.
pub proof fn lemma_cropped_size(s: Seq<u8>, w: int, h: int, rw: int, rh: int, out: Seq<u8>)
    requires
        cropped(s, w, h, rw, rh, out),
        w > 0,
        h > 0,
        s.len() == 4 * (w * h),
    ensures
        rw > 0,
        rh > 0,
        out.len() == 4 * (rw * rh),
{
    if has_content(s, w, h) {
        let b = content_box(s, w, h);
        let y = choose|y: int| in_grid(w, h, b.0, y) && #[trigger] is_content(s, w, b.0, y);
        assert(b.0 <= b.2);
        let x = choose|x: int| in_grid(w, h, x, b.1) && #[trigger] is_content(s, w, x, b.1);
        assert(b.1 <= b.3);
    }
}

proof fn lemma_square_order(side: int, r1: int, c1: int, r2: int, c2: int)
    requires
        0 <= c1 < side,
        0 <= c2 < side,
        0 <= r1,
        r1 < r2 || (r1 == r2 && c1 < c2),
    ensures
        r1 * side + c1 < r2 * side + c2,
{
    if r1 < r2 {
        assert(r1 * side + side <= r2 * side) by (nonlinear_arith)
            requires
                r1 < r2,
                0 <= side,
        ;
    }
}

/// Cuts away the fully transparent border of an RGBA image, keeps a margin of 4% of the
/// content size (rounded up) on each side where the image allows, and centres the result
/// on a transparent square canvas whose side is the larger crop dimension. An image
/// without any visible pixel is returned unchanged.
#[verifier::rlimit(40)]
pub fn crop_transparent_padding(width: u32, height: u32, pixels: &[u8]) -> (r: (u32, u32, Vec<u8>))
    requires
        4 * (width * height) <= pixels@.len(),
    ensures
        cropped(pixels@, width as int, height as int, r.0 as int, r.1 as int, r.2@),
{
    let w = width as usize;
    let h = height as usize;
    let ghost s = pixels@;
    let len = pixels.len();
    let bounds = content_bounds(w, h, pixels);
    let (x0, y0, x1, y1) = match bounds {
        None => {
            return (width, height, vstd::slice::slice_to_vec(pixels));
        },
        Some(b) => b,
    };
    proof {
        lemma_content_box_unique(
            s,
            w as int,
            h as int,
            content_box(s, w as int, h as int),
            (x0 as int, y0 as int, x1 as int, y1 as int),
        );
        assert(4 * w <= 4 * (w * h) && 4 * h <= 4 * (w * h)) by (nonlinear_arith)
            requires
                x1 < w,
                y1 < h,
        ;
    }
    let margin_x = (x1 - x0 + 1 + 24) / 25;
    let margin_y = (y1 - y0 + 1 + 24) / 25;
    let left = if x0 >= margin_x {
        x0 - margin_x
    } else {
        0
    };
    let top = if y0 >= margin_y {
        y0 - margin_y
    } else {
        0
    };
    let right = if x1 + 1 + margin_x <= w {
        x1 + 1 + margin_x
    } else {
        w
    };
    let bottom = if y1 + 1 + margin_y <= h {
        y1 + 1 + margin_y
    } else {
        h
    };
    let crop_width = right - left;
    let crop_height = bottom - top;
    let side = if crop_width >= crop_height {
        crop_width
    } else {
        crop_height
    };
    let offset_x = (side - crop_width) / 2;
    let offset_y = (side - crop_height) / 2;
    let ghost sl = left as int;
    let ghost st = top as int;
    let ghost scw = crop_width as int;
    let ghost sch = crop_height as int;
    let ghost ss = side as int;
    let mut out: Vec<u8> = Vec::new();
    let mut row: usize = 0;
    while row < side
        invariant
            s == pixels@,
            4 * (w * h) <= pixels@.len(),
            len == pixels@.len(),
            right <= w,
            bottom <= h,
            left <= right,
            top <= bottom,
            crop_width == right - left,
            crop_height == bottom - top,
            side >= crop_width,
            side >= crop_height,
            offset_x == (side - crop_width) / 2,
            offset_y == (side - crop_height) / 2,
            sl == left,
            st == top,
            scw == crop_width,
            sch == crop_height,
            ss == side,
            row <= side,
            out@.len() == 4 * (row * side),
            forall|r: int, col: int, c: int|
                0 <= r < row && 0 <= col < side && 0 <= c < 4 ==> out@[#[trigger] square_index(
                    ss,
                    r,
                    col,
                    c,
                )] == square_byte(s, w as int, sl, st, scw, sch, ss, r, col, c),
        decreases side - row,
    {
        let mut col: usize = 0;
        while col < side
            invariant
                s == pixels@,
                4 * (w * h) <= pixels@.len(),
                len == pixels@.len(),
                right <= w,
                bottom <= h,
                left <= right,
                top <= bottom,
                crop_width == right - left,
                crop_height == bottom - top,
                side >= crop_width,
                side >= crop_height,
                offset_x == (side - crop_width) / 2,
                offset_y == (side - crop_height) / 2,
                sl == left,
                st == top,
                scw == crop_width,
                sch == crop_height,
                ss == side,
                row < side,
                col <= side,
                out@.len() == 4 * (row * side + col),
                forall|r: int, cc: int, c: int|
                    0 <= r < side && 0 <= cc < side && 0 <= c < 4 && (r < row || (r == row && cc
                        < col)) ==> out@[#[trigger] square_index(ss, r, cc, c)] == square_byte(
                        s,
                        w as int,
                        sl,
                        st,
                        scw,
                        sch,
                        ss,
                        r,
                        cc,
                        c,
                    ),
            decreases side - col,
        {
            let ghost before = out@;
            if offset_y <= row && row < offset_y + crop_height && offset_x <= col && col
                < offset_x + crop_width {
                let sx = col - offset_x + left;
                let sy = row - offset_y + top;
                proof {
                    lemma_grid_index(w as int, h as int, sx as int, sy as int);
                }
                let base = 4 * (sy * w + sx);
                out.push(pixels[base]);
                out.push(pixels[base + 1]);
                out.push(pixels[base + 2]);
                out.push(pixels[base + 3]);
            } else {
                out.push(0);
                out.push(0);
                out.push(0);
                out.push(0);
            }
            proof {
                assert forall|r: int, cc: int, c: int|
                    0 <= r < side && 0 <= cc < side && 0 <= c < 4 && (r < row || (r == row && cc
                        <= col)) implies out@[#[trigger] square_index(ss, r, cc, c)] == square_byte(
                    s,
                    w as int,
                    sl,
                    st,
                    scw,
                    sch,
                    ss,
                    r,
                    cc,
                    c,
                ) by {
                    if r < row || cc < col {
                        lemma_square_order(ss, r, cc, row as int, col as int);
                        assert(square_index(ss, r, cc, c) < before.len());
                        assert(out@[square_index(ss, r, cc, c)] == before[square_index(ss, r, cc, c)]);
                    } else {
                        assert(square_index(ss, r, cc, c) == before.len() + c);
                    }
                }
            }
            col = col + 1;
        }
        proof {
            assert(row * side + side == (row + 1) * side) by (nonlinear_arith);
        }
        row = row + 1;
    }
    proof {
        assert(side <= w || side <= h);
        assert(is_square_crop(s, w as int, h as int, content_box(s, w as int, h as int), ss, out@));
        assert(is_content_box(s, w as int, h as int, x0 as int, y0 as int, x1 as int, y1 as int));
    }
    (side as u32, side as u32, out)
}

} // verus!
