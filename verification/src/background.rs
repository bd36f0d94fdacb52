//! Removal of a solid white backing plate from an opaque icon: the white pixels that
//! connect to the image border through white pixels become transparent.

use vstd::prelude::*;
use std::collections::VecDeque;
use crate::bitmap::{fully_opaque, is_fully_opaque, WHITE_CHANNEL_MIN, TRANSPARENT_ALPHA};

verus! {

/// The position of pixel `(x, y)` in row-major order.
pub open spec fn idx(w: int, x: int, y: int) -> int {
    y * w + x
}

/// `(x, y)` lies inside a `w` by `h` image.
pub open spec fn in_grid(w: int, h: int, x: int, y: int) -> bool {
    0 <= x < w && 0 <= y < h
}

/// `(x, y)` lies on the outermost ring of the image.
pub open spec fn on_edge(w: int, h: int, x: int, y: int) -> bool {
    x == 0 || x == w - 1 || y == 0 || y == h - 1
}

/// `(x1, y1)` and `(x2, y2)` share a side.
pub open spec fn adjacent(x1: int, y1: int, x2: int, y2: int) -> bool {
    (x1 == x2 && (y1 == y2 + 1 || y2 == y1 + 1)) || (y1 == y2 && (x1 == x2 + 1 || x2 == x1 + 1))
}

/// Pixel `(x, y)` counts as white: red, green and blue all at least 246.
pub open spec fn white_px(s: Seq<u8>, w: int, x: int, y: int) -> bool {
    let i = 4 * idx(w, x, y);
    s[i] >= WHITE_CHANNEL_MIN && s[i + 1] >= WHITE_CHANNEL_MIN && s[i + 2] >= WHITE_CHANNEL_MIN
}

/// `p` is a path of side-sharing white pixels inside the image that starts on the border.
pub open spec fn white_path(s: Seq<u8>, w: int, h: int, p: Seq<(int, int)>) -> bool {
    &&& p.len() > 0
    &&& on_edge(w, h, p[0].0, p[0].1)
    &&& forall|i: int|
        0 <= i < p.len() ==> in_grid(w, h, #[trigger] p[i].0, p[i].1) && white_px(
            s,
            w,
            p[i].0,
            p[i].1,
        )
    &&& forall|i: int|
        0 <= i < p.len() - 1 ==> adjacent(#[trigger] p[i].0, p[i].1, p[i + 1].0, p[i + 1].1)
}

/// `(x, y)` belongs to the white background: some white path from the border ends there.
pub open spec fn in_background(s: Seq<u8>, w: int, h: int, x: int, y: int) -> bool {
    exists|p: Seq<(int, int)>| #[trigger] white_path(s, w, h, p) && p.last() == (x, y)
}

/// The backing plate is removed only from a fully opaque image whose four corners are white.
pub open spec fn clears_background(s: Seq<u8>, w: int, h: int) -> bool {
    &&& w > 0
    &&& h > 0
    &&& fully_opaque(s)
    &&& white_px(s, w, 0, 0)
    &&& white_px(s, w, w - 1, 0)
    &&& white_px(s, w, 0, h - 1)
    &&& white_px(s, w, w - 1, h - 1)
}

/// The byte offset of the alpha channel of pixel `(x, y)`.
pub open spec fn alpha_idx(w: int, x: int, y: int) -> int {
    4 * idx(w, x, y) + 3
}

pub proof fn lemma_grid_index(w: int, h: int, x: int, y: int)
    requires
        in_grid(w, h, x, y),
    ensures
        0 <= idx(w, x, y) < w * h,
        0 <= 4 * idx(w, x, y) + 3 < 4 * (w * h),
{
    assert(0 <= y * w + x < w * h) by (nonlinear_arith)
        requires
            0 <= x < w,
            0 <= y < h,
    ;
}

pub proof fn lemma_grid_index_injective(w: int, x1: int, y1: int, x2: int, y2: int)
    requires
        0 <= x1 < w,
        0 <= x2 < w,
        0 <= y1,
        0 <= y2,
        idx(w, x1, y1) == idx(w, x2, y2),
    ensures
        x1 == x2 && y1 == y2,
{
    assert(y1 == y2) by (nonlinear_arith)
        requires
            0 <= x1 < w,
            0 <= x2 < w,
            0 <= y1,
            0 <= y2,
            y1 * w + x1 == y2 * w + x2,
    {
        if y1 < y2 {
            assert(y1 * w + w <= y2 * w);
        } else if y2 < y1 {
            assert(y2 * w + w <= y1 * w);
        }
    }
}

/// The number of pixels not visited yet.
pub open spec fn unvisited(v: Seq<bool>) -> nat
    decreases v.len(),
{
    if v.len() == 0 {
        0
    } else {
        unvisited(v.drop_last()) + if v.last() {
            0nat
        } else {
            1nat
        }
    }
}

proof fn lemma_unvisited_update(v: Seq<bool>, i: int)
    requires
        0 <= i < v.len(),
        !v[i],
    ensures
        unvisited(v.update(i, true)) + 1 == unvisited(v),
    decreases v.len(),
{
    if i < v.len() - 1 {
        lemma_unvisited_update(v.drop_last(), i);
        assert(v.update(i, true).drop_last() =~= v.drop_last().update(i, true));
    } else {
        assert(v.update(i, true).drop_last() =~= v.drop_last());
    }
}

/// Every side neighbour of `(x, y)` inside the image is visited.
pub open spec fn expanded(v: Seq<bool>, w: int, h: int, x: int, y: int) -> bool {
    forall|a: int, b: int|
        in_grid(w, h, a, b) && #[trigger] adjacent(x, y, a, b) ==> v[idx(w, a, b)]
}

/// Whether pixel `(x, y)` is white.
fn pixel_is_white(rgba: &Vec<u8>, width: usize, height: usize, x: usize, y: usize) -> (r: bool)
    requires
        in_grid(width as int, height as int, x as int, y as int),
        4 * (width * height) <= rgba@.len(),
    ensures
        r == white_px(rgba@, width as int, x as int, y as int),
{
    let len = rgba.len();
    proof {
        lemma_grid_index(width as int, height as int, x as int, y as int);
    }
    let offset = (y * width + x) * 4;
    rgba[offset] >= WHITE_CHANNEL_MIN && rgba[offset + 1] >= WHITE_CHANNEL_MIN && rgba[offset + 2]
        >= WHITE_CHANNEL_MIN
}


/// Red, green and blue of pixel `(x, y)` are as in the original image.
pub open spec fn rgb_kept(o: Seq<u8>, s: Seq<u8>, w: int, x: int, y: int) -> bool {
    let i = 4 * idx(w, x, y);
    s[i] == o[i] && s[i + 1] == o[i + 1] && s[i + 2] == o[i + 2]
}

/// `(x, y)` is waiting in the work queue.
pub open spec fn queued(q: Seq<(usize, usize)>, x: int, y: int) -> bool {
    exists|j: int| 0 <= j < q.len() && #[trigger] q[j] == (x as usize, y as usize)
}

/// What the flood fill keeps true of each pixel of the image.
pub open spec fn pixel_ok(
    o: Seq<u8>,
    s: Seq<u8>,
    v: Seq<bool>,
    q: Seq<(usize, usize)>,
    w: int,
    h: int,
    x: int,
    y: int,
) -> bool {
    let a = alpha_idx(w, x, y);
    let seen = v[idx(w, x, y)];
    let white = white_px(o, w, x, y);
    &&& rgb_kept(o, s, w, x, y)
    &&& (s[a] == 255 || (s[a] == 0 && seen && white))
    &&& (seen && white ==> in_background(o, w, h, x, y))
    &&& (seen && white ==> (queued(q, x, y) || (s[a] == 0 && expanded(v, w, h, x, y))))
}

/// A queued position is an in-image, visited, white background pixel.
pub open spec fn entry_ok(o: Seq<u8>, v: Seq<bool>, w: int, h: int, e: (usize, usize)) -> bool {
    let x = e.0 as int;
    let y = e.1 as int;
    &&& in_grid(w, h, x, y)
    &&& v[idx(w, x, y)]
    &&& white_px(o, w, x, y)
    &&& in_background(o, w, h, x, y)
}

/// The state of the flood fill after its seeding.
pub open spec fn fill_inv(
    o: Seq<u8>,
    s: Seq<u8>,
    v: Seq<bool>,
    q: Seq<(usize, usize)>,
    w: int,
    h: int,
) -> bool {
    &&& w > 0 && h > 0
    &&& s.len() == o.len()
    &&& 4 * (w * h) <= o.len()
    &&& v.len() == w * h
    &&& forall|i: int| 4 * (w * h) <= i < s.len() ==> s[i] == o[i]
    &&& forall|x: int, y: int| in_grid(w, h, x, y) ==> #[trigger] pixel_ok(o, s, v, q, w, h, x, y)
    &&& forall|j: int| 0 <= j < q.len() ==> #[trigger] entry_ok(o, v, w, h, q[j])
    &&& forall|x: int, y: int|
        in_grid(w, h, x, y) && on_edge(w, h, x, y) && #[trigger] white_px(o, w, x, y) ==> v[idx(
            w,
            x,
            y,
        )]
}

/// The pixel being expanded: already cleared, visited, white and part of the background.
pub open spec fn center_ok(o: Seq<u8>, s: Seq<u8>, v: Seq<bool>, w: int, h: int, cx: int, cy: int) -> bool {
    &&& in_grid(w, h, cx, cy)
    &&& s[alpha_idx(w, cx, cy)] == 0
    &&& v[idx(w, cx, cy)]
    &&& white_px(o, w, cx, cy)
    &&& in_background(o, w, h, cx, cy)
    &&& rgb_kept(o, s, w, cx, cy)
}

/// The state while the neighbours of `(cx, cy)` are being visited.
pub open spec fn expand_inv(
    o: Seq<u8>,
    s: Seq<u8>,
    v: Seq<bool>,
    q: Seq<(usize, usize)>,
    w: int,
    h: int,
    cx: int,
    cy: int,
) -> bool {
    &&& w > 0 && h > 0
    &&& s.len() == o.len()
    &&& 4 * (w * h) <= o.len()
    &&& v.len() == w * h
    &&& forall|i: int| 4 * (w * h) <= i < s.len() ==> s[i] == o[i]
    &&& center_ok(o, s, v, w, h, cx, cy)
    &&& forall|x: int, y: int|
        in_grid(w, h, x, y) && !(x == cx && y == cy) ==> #[trigger] pixel_ok(
            o,
            s,
            v,
            q,
            w,
            h,
            x,
            y,
        )
    &&& forall|j: int| 0 <= j < q.len() ==> #[trigger] entry_ok(o, v, w, h, q[j])
    &&& forall|x: int, y: int|
        in_grid(w, h, x, y) && on_edge(w, h, x, y) && #[trigger] white_px(o, w, x, y) ==> v[idx(
            w,
            x,
            y,
        )]
}

/// Marks neighbour `(nx, ny)` of the background pixel `(cx, cy)` and queues it when white.
fn visit_neighbour(
    rgba: &Vec<u8>,
    visited: &mut Vec<bool>,
    queue: &mut VecDeque<(usize, usize)>,
    width: usize,
    height: usize,
    nx: usize,
    ny: usize,
    Ghost(o): Ghost<Seq<u8>>,
    Ghost(cx): Ghost<int>,
    Ghost(cy): Ghost<int>,
)
    requires
        in_grid(width as int, height as int, nx as int, ny as int),
        adjacent(cx, cy, nx as int, ny as int),
        expand_inv(o, rgba@, old(visited)@, old(queue)@, width as int, height as int, cx, cy),
    ensures
        expand_inv(o, rgba@, final(visited)@, final(queue)@, width as int, height as int, cx, cy),
        final(visited)@[idx(width as int, nx as int, ny as int)],
        forall|i: int| 0 <= i < old(visited)@.len() && old(visited)@[i] ==> final(visited)@[i],
        2 * unvisited(final(visited)@) + final(queue)@.len() <= 2 * unvisited(old(visited)@) + old(
            queue,
        )@.len(),
{
    let ghost w = width as int;
    let ghost h = height as int;
    let ghost v0 = visited@;
    let ghost q0 = queue@;
    let ghost n = idx(w, nx as int, ny as int);
    let len = rgba.len();
    proof {
        lemma_grid_index(w, h, nx as int, ny as int);
        assert(pixel_ok(o, rgba@, v0, q0, w, h, nx as int, ny as int));
    }
    let index = ny * width + nx;
    if !visited[index] {
        visited.set(index, true);
        proof {
            lemma_unvisited_update(v0, n);
        }
        let white = pixel_is_white(rgba, width, height, nx, ny);
        if white {
            proof {
                lemma_path_step(o, w, h, cx, cy, nx as int, ny as int);
            }
            queue.push_back((nx, ny));
        }
        let ghost v1 = visited@;
        let ghost q1 = queue@;
        proof {
            assert(forall|j: int| 0 <= j < q0.len() ==> q1[j] == q0[j]);
            assert forall|x: int, y: int|
                in_grid(w, h, x, y) && !(x == cx && y == cy) implies #[trigger] pixel_ok(
                o,
                rgba@,
                v1,
                q1,
                w,
                h,
                x,
                y,
            ) by {
                lemma_grid_index(w, h, x, y);
                assert(pixel_ok(o, rgba@, v0, q0, w, h, x, y));
                if x == nx && y == ny {
                    if white {
                        assert(q1[q0.len() as int] == (nx, ny));
                    }
                } else {
                    if idx(w, x, y) == n {
                        lemma_grid_index_injective(w, x, y, nx as int, ny as int);
                    }
                    if v1[idx(w, x, y)] && white_px(o, w, x, y) {
                        if queued(q0, x, y) {
                            let j = choose|j: int| 0 <= j < q0.len() && #[trigger] q0[j] == (
                                x as usize,
                                y as usize,
                            );
                            assert(q1[j] == (x as usize, y as usize));
                        } else {
                            assert(expanded(v0, w, h, x, y));
                            assert forall|a: int, b: int|
                                in_grid(w, h, a, b) && #[trigger] adjacent(x, y, a, b) implies v1[idx(
                                w,
                                a,
                                b,
                            )] by {
                                lemma_grid_index(w, h, a, b);
                            }
                        }
                    }
                }
            }
            assert forall|j: int| 0 <= j < q1.len() implies #[trigger] entry_ok(
                o,
                v1,
                w,
                h,
                q1[j],
            ) by {
                if j < q0.len() {
                    assert(entry_ok(o, v0, w, h, q0[j]));
                    lemma_grid_index(w, h, q0[j].0 as int, q0[j].1 as int);
                }
            }
            assert forall|x: int, y: int|
                in_grid(w, h, x, y) && on_edge(w, h, x, y) && #[trigger] white_px(
                    o,
                    w,
                    x,
                    y,
                ) implies v1[idx(w, x, y)] by {
                lemma_grid_index(w, h, x, y);
            }
            lemma_grid_index(w, h, cx, cy);
        }
    }
}

/// Clears the popped background pixel `(cx, cy)` and visits its side neighbours.
fn expand_popped(
    rgba: &mut Vec<u8>,
    visited: &mut Vec<bool>,
    queue: &mut VecDeque<(usize, usize)>,
    width: usize,
    height: usize,
    cx: usize,
    cy: usize,
    Ghost(o): Ghost<Seq<u8>>,
    Ghost(full): Ghost<Seq<(usize, usize)>>,
)
    requires
        fill_inv(o, old(rgba)@, old(visited)@, full, width as int, height as int),
        full.len() > 0,
        full[0] == (cx, cy),
        old(queue)@ == full.subrange(1, full.len() as int),
    ensures
        fill_inv(o, final(rgba)@, final(visited)@, final(queue)@, width as int, height as int),
        2 * unvisited(final(visited)@) + final(queue)@.len() < 2 * unvisited(old(visited)@)
            + full.len(),
{
    let ghost w = width as int;
    let ghost h = height as int;
    let ghost s0 = rgba@;
    let ghost v0 = visited@;
    let ghost q0 = queue@;
    let ghost x0 = cx as int;
    let ghost y0 = cy as int;
    let len = rgba.len();
    proof {
        assert(entry_ok(o, v0, w, h, full[0]));
        lemma_grid_index(w, h, x0, y0);
    }
    rgba.set((cy * width + cx) * 4 + 3, TRANSPARENT_ALPHA);
    proof {
        let s1 = rgba@;
        assert(pixel_ok(o, s0, v0, full, w, h, x0, y0));
        assert forall|x: int, y: int|
            in_grid(w, h, x, y) && !(x == x0 && y == y0) implies #[trigger] pixel_ok(
            o,
            s1,
            v0,
            q0,
            w,
            h,
            x,
            y,
        ) by {
            lemma_grid_index(w, h, x, y);
            assert(pixel_ok(o, s0, v0, full, w, h, x, y));
            if alpha_idx(w, x, y) == alpha_idx(w, x0, y0) {
                lemma_grid_index_injective(w, x, y, x0, y0);
            }
            if queued(full, x, y) {
                let j = choose|j: int| 0 <= j < full.len() && #[trigger] full[j] == (
                    x as usize,
                    y as usize,
                );
                if j == 0 {
                    assert((x as usize) == cx && (y as usize) == cy);
                }
                assert(q0[j - 1] == full[j]);
            }
        }
        assert forall|j: int| 0 <= j < q0.len() implies #[trigger] entry_ok(o, v0, w, h, q0[j]) by {
            assert(q0[j] == full[j + 1]);
            assert(entry_ok(o, v0, w, h, full[j + 1]));
        }
        assert(expand_inv(o, s1, v0, q0, w, h, x0, y0));
    }
    let ghost left = idx(w, x0 - 1, y0);
    let ghost right = idx(w, x0 + 1, y0);
    let ghost up = idx(w, x0, y0 - 1);
    let ghost down = idx(w, x0, y0 + 1);
    if cx > 0 {
        visit_neighbour(rgba, visited, queue, width, height, cx - 1, cy, Ghost(o), Ghost(x0), Ghost(y0));
    }
    assert(cx > 0 ==> visited@[left]);
    if cx + 1 < width {
        visit_neighbour(rgba, visited, queue, width, height, cx + 1, cy, Ghost(o), Ghost(x0), Ghost(y0));
        proof {
            if cx > 0 {
                lemma_grid_index(w, h, x0 - 1, y0);
            }
        }
    }
    assert(cx > 0 ==> visited@[left]);
    assert(cx + 1 < width ==> visited@[right]);
    if cy > 0 {
        visit_neighbour(rgba, visited, queue, width, height, cx, cy - 1, Ghost(o), Ghost(x0), Ghost(y0));
        proof {
            if cx > 0 {
                lemma_grid_index(w, h, x0 - 1, y0);
            }
            if cx + 1 < width {
                lemma_grid_index(w, h, x0 + 1, y0);
            }
        }
    }
    assert(cx > 0 ==> visited@[left]);
    assert(cx + 1 < width ==> visited@[right]);
    assert(cy > 0 ==> visited@[up]);
    if cy + 1 < height {
        visit_neighbour(rgba, visited, queue, width, height, cx, cy + 1, Ghost(o), Ghost(x0), Ghost(y0));
        proof {
            if cx > 0 {
                lemma_grid_index(w, h, x0 - 1, y0);
            }
            if cx + 1 < width {
                lemma_grid_index(w, h, x0 + 1, y0);
            }
            if cy > 0 {
                lemma_grid_index(w, h, x0, y0 - 1);
            }
        }
    }
    assert(cx > 0 ==> visited@[left]);
    assert(cx + 1 < width ==> visited@[right]);
    assert(cy > 0 ==> visited@[up]);
    assert(cy + 1 < height ==> visited@[down]);
    proof {
        let s2 = rgba@;
        let v2 = visited@;
        let q2 = queue@;
        assert(expand_inv(o, s2, v2, q2, w, h, x0, y0));
        assert forall|a: int, b: int|
            in_grid(w, h, a, b) && #[trigger] adjacent(x0, y0, a, b) implies v2[idx(w, a, b)] by {
        }
        assert(pixel_ok(o, s2, v2, q2, w, h, x0, y0));
        assert(fill_inv(o, s2, v2, q2, w, h));
    }
}

/// The white pixels of column `a` in the top and bottom rows are visited.
pub open spec fn column_seeded(o: Seq<u8>, v: Seq<bool>, w: int, h: int, a: int) -> bool {
    &&& white_px(o, w, a, 0) ==> v[idx(w, a, 0)]
    &&& white_px(o, w, a, h - 1) ==> v[idx(w, a, h - 1)]
}

/// The white pixels of row `b` in the leftmost and rightmost columns are visited.
pub open spec fn row_seeded(o: Seq<u8>, v: Seq<bool>, w: int, h: int, b: int) -> bool {
    &&& white_px(o, w, 0, b) ==> v[idx(w, 0, b)]
    &&& white_px(o, w, w - 1, b) ==> v[idx(w, w - 1, b)]
}

/// The state while the border pixels are being seeded: only white border pixels are
/// visited, and each of them is queued.
pub open spec fn seed_inv(o: Seq<u8>, v: Seq<bool>, q: Seq<(usize, usize)>, w: int, h: int) -> bool {
    &&& v.len() == w * h
    &&& forall|x: int, y: int|
        in_grid(w, h, x, y) && #[trigger] v[idx(w, x, y)] ==> on_edge(w, h, x, y) && white_px(
            o,
            w,
            x,
            y,
        ) && queued(q, x, y)
    &&& forall|j: int| 0 <= j < q.len() ==> #[trigger] entry_ok(o, v, w, h, q[j])
}

/// Visits and queues the white border pixel `(x, y)`.
fn seed_pixel(
    visited: &mut Vec<bool>,
    queue: &mut VecDeque<(usize, usize)>,
    width: usize,
    height: usize,
    x: usize,
    y: usize,
    Ghost(o): Ghost<Seq<u8>>,
)
    requires
        in_grid(width as int, height as int, x as int, y as int),
        on_edge(width as int, height as int, x as int, y as int),
        white_px(o, width as int, x as int, y as int),
        4 * (width * height) <= o.len(),
        seed_inv(o, old(visited)@, old(queue)@, width as int, height as int),
    ensures
        seed_inv(o, final(visited)@, final(queue)@, width as int, height as int),
        final(visited)@[idx(width as int, x as int, y as int)],
        forall|i: int|
            0 <= i < old(visited)@.len() && old(visited)@[i] ==> #[trigger] final(visited)@[i],
{
    let ghost w = width as int;
    let ghost h = height as int;
    let ghost v0 = visited@;
    let ghost q0 = queue@;
    proof {
        lemma_grid_index(w, h, x as int, y as int);
        lemma_edge_in_background(o, w, h, x as int, y as int);
    }
    let len = visited.len();
    visited.set(y * width + x, true);
    queue.push_back((x, y));
    proof {
        let v1 = visited@;
        let q1 = queue@;
        assert(q1[q0.len() as int] == (x, y));
        assert forall|a: int, b: int| in_grid(w, h, a, b) && #[trigger] v1[idx(w, a, b)] implies on_edge(
            w,
            h,
            a,
            b,
        ) && white_px(o, w, a, b) && queued(q1, a, b) by {
            lemma_grid_index(w, h, a, b);
            if idx(w, a, b) == idx(w, x as int, y as int) {
                lemma_grid_index_injective(w, a, b, x as int, y as int);
            } else {
                let j = choose|j: int| 0 <= j < q0.len() && #[trigger] q0[j] == (
                    a as usize,
                    b as usize,
                );
                assert(q1[j] == q0[j]);
            }
        }
        assert forall|j: int| 0 <= j < q1.len() implies #[trigger] entry_ok(o, v1, w, h, q1[j]) by {
            if j < q0.len() {
                assert(q1[j] == q0[j]);
                assert(entry_ok(o, v0, w, h, q0[j]));
                lemma_grid_index(w, h, q0[j].0 as int, q0[j].1 as int);
            }
        }
    }
}

proof fn lemma_path_visited(
    o: Seq<u8>,
    s: Seq<u8>,
    v: Seq<bool>,
    w: int,
    h: int,
    p: Seq<(int, int)>,
    i: int,
)
    requires
        fill_inv(o, s, v, Seq::empty(), w, h),
        white_path(o, w, h, p),
        0 <= i < p.len(),
    ensures
        v[idx(w, p[i].0, p[i].1)],
    decreases i,
{
    assert(in_grid(w, h, p[i].0, p[i].1) && white_px(o, w, p[i].0, p[i].1));
    if i > 0 {
        lemma_path_visited(o, s, v, w, h, p, i - 1);
        let a = p[i - 1].0;
        let b = p[i - 1].1;
        assert(in_grid(w, h, a, b) && white_px(o, w, a, b));
        assert(adjacent(a, b, p[i].0, p[i].1));
        assert(pixel_ok(o, s, v, Seq::empty(), w, h, a, b));
        assert(expanded(v, w, h, a, b));
    }
}

/// `s` is `o` after removal of its white backing plate: unchanged unless
/// `clears_background` holds; then every pixel keeps its colour, the white pixels
/// connected to the border get alpha 0, all others alpha 255, and bytes past the
/// `w` by `h` pixels stay as they were.
pub open spec fn background_removed(o: Seq<u8>, s: Seq<u8>, w: int, h: int) -> bool {
    &&& s.len() == o.len()
    &&& !clears_background(o, w, h) ==> s == o
    &&& clears_background(o, w, h) ==> {
        &&& forall|i: int| 4 * (w * h) <= i < o.len() ==> s[i] == o[i]
        &&& forall|x: int, y: int| in_grid(w, h, x, y) ==> #[trigger] rgb_kept(o, s, w, x, y)
        &&& forall|x: int, y: int|
            in_grid(w, h, x, y) ==> s[#[trigger] alpha_idx(w, x, y)] == if in_background(
                o,
                w,
                h,
                x,
                y,
            ) {
                0u8
            } else {
                255u8
            }
    }
}

/// An image without a white backing plate comes out byte for byte as it went in: one
/// whose corner pixel `(cx, cy)` has a red, green or blue channel `c` below 246, or one
/// with a pixel `k` that is not fully opaque.
pub proof fn lemma_no_plate_keeps_image(
    o: Seq<u8>,
    s: Seq<u8>,
    w: int,
    h: int,
    cx: int,
    cy: int,
    c: int,
    k: int,
)
    requires
        background_removed(o, s, w, h),
        (cx == 0 || cx == w - 1) && (cy == 0 || cy == h - 1) && 0 <= c < 3 && o[4 * (cy * w
            + cx) + c] < 246 || 0 <= k < o.len() / 4 && o[4 * k + 3] != 255,
    ensures
        s == o,
{
    assert(WHITE_CHANNEL_MIN == 246);
    if 0 <= k < o.len() / 4 && o[4 * k + 3] != 255 {
        assert(crate::bitmap::alpha_at(o, k) == o[4 * k + 3]);
        assert(!fully_opaque(o));
    }
    assert(!clears_background(o, w, h));
}

/// When the image is fully opaque and its four corners are white, clears the alpha of
/// every white pixel connected to the border through white pixels (a solid backing
/// plate); otherwise leaves the image alone.
pub fn remove_solid_background_if_opaque(rgba: &mut Vec<u8>, width: usize, height: usize)
    requires
        4 * (width * height) <= old(rgba)@.len(),
    ensures
        background_removed(old(rgba)@, final(rgba)@, width as int, height as int),
{
    if width == 0 || height == 0 {
        return;
    }
    if !is_fully_opaque(rgba.as_slice()) {
        return;
    }
    let top_left = pixel_is_white(rgba, width, height, 0, 0);
    let top_right = pixel_is_white(rgba, width, height, width - 1, 0);
    let bottom_left = pixel_is_white(rgba, width, height, 0, height - 1);
    let bottom_right = pixel_is_white(rgba, width, height, width - 1, height - 1);
    if !(top_left && top_right && bottom_left && bottom_right) {
        return;
    }
    let ghost o = rgba@;
    let ghost w = width as int;
    let ghost h = height as int;
    let len = rgba.len();
    assert(width * height <= len) by (nonlinear_arith)
        requires
            4 * (width * height) <= len,
    ;
    let mut visited = vec![false; width * height];
    let mut queue: VecDeque<(usize, usize)> = VecDeque::new();
    proof {
        assert forall|x: int, y: int| in_grid(w, h, x, y) && #[trigger] visited@[idx(w, x, y)] implies on_edge(
            w,
            h,
            x,
            y,
        ) && white_px(o, w, x, y) && queued(queue@, x, y) by {
            lemma_grid_index(w, h, x, y);
        }
    }
    let mut x: usize = 0;
    while x < width
        invariant
            x <= width,
            w == width as int,
            h == height as int,
            rgba@ == o,
            4 * (width * height) <= o.len(),
            width > 0 && height > 0,
            seed_inv(o, visited@, queue@, w, h),
            forall|a: int| 0 <= a < x ==> #[trigger] column_seeded(o, visited@, w, h, a),
        decreases width - x,
    {
        let ghost v_start = visited@;
        if pixel_is_white(rgba, width, height, x, 0) {
            seed_pixel(&mut visited, &mut queue, width, height, x, 0, Ghost(o));
        }
        if pixel_is_white(rgba, width, height, x, height - 1) {
            seed_pixel(&mut visited, &mut queue, width, height, x, height - 1, Ghost(o));
        }
        proof {
            assert forall|a: int| 0 <= a < x + 1 implies #[trigger] column_seeded(
                o,
                visited@,
                w,
                h,
                a,
            ) by {
                lemma_grid_index(w, h, a, 0);
                lemma_grid_index(w, h, a, h - 1);
                if a < x {
                    assert(column_seeded(o, v_start, w, h, a));
                }
            }
        }
        x = x + 1;
    }
    assert(x == width);
    assert forall|a: int| 0 <= a < w implies #[trigger] column_seeded(o, visited@, w, h, a) by {
        assert(0 <= a < x);
    }
    let last_row = height - 1;
    let mut y: usize = 1;
    while y < last_row
        invariant
            1 <= y,
            y <= last_row || last_row == 0,
            w == width as int,
            h == height as int,
            rgba@ == o,
            4 * (width * height) <= o.len(),
            width > 0 && height > 0,
            last_row == height - 1,
            len == o.len(),
            seed_inv(o, visited@, queue@, w, h),
            forall|a: int| 0 <= a < w ==> #[trigger] column_seeded(o, visited@, w, h, a),
            forall|b: int| 1 <= b < y ==> #[trigger] row_seeded(o, visited@, w, h, b),
        decreases last_row - y,
    {
        let ghost v_start = visited@;
        proof {
            lemma_grid_index(w, h, 0, y as int);
            lemma_grid_index(w, h, w - 1, y as int);
        }
        if pixel_is_white(rgba, width, height, 0, y) && !visited[y * width] {
            seed_pixel(&mut visited, &mut queue, width, height, 0, y, Ghost(o));
        }
        if pixel_is_white(rgba, width, height, width - 1, y) && !visited[y * width + (width - 1)] {
            seed_pixel(&mut visited, &mut queue, width, height, width - 1, y, Ghost(o));
        }
        proof {
            assert forall|a: int| 0 <= a < w implies #[trigger] column_seeded(
                o,
                visited@,
                w,
                h,
                a,
            ) by {
                lemma_grid_index(w, h, a, 0);
                lemma_grid_index(w, h, a, h - 1);
                assert(column_seeded(o, v_start, w, h, a));
            }
            assert forall|b: int| 1 <= b < y + 1 implies #[trigger] row_seeded(
                o,
                visited@,
                w,
                h,
                b,
            ) by {
                lemma_grid_index(w, h, 0, b);
                lemma_grid_index(w, h, w - 1, b);
                if b < y {
                    assert(row_seeded(o, v_start, w, h, b));
                }
            }
        }
        y = y + 1;
    }
    proof {
        assert forall|x: int, y: int| in_grid(w, h, x, y) implies #[trigger] pixel_ok(
            o,
            rgba@,
            visited@,
            queue@,
            w,
            h,
            x,
            y,
        ) by {
            lemma_grid_index(w, h, x, y);
            assert(alpha_idx(w, x, y) == 4 * idx(w, x, y) + 3);
            assert(crate::bitmap::alpha_at(o, idx(w, x, y)) == 255);
            if visited@[idx(w, x, y)] {
                lemma_edge_in_background(o, w, h, x, y);
            }
        }
        assert forall|x: int, y: int|
            in_grid(w, h, x, y) && on_edge(w, h, x, y) && #[trigger] white_px(o, w, x, y) implies visited@[idx(
            w,
            x,
            y,
        )] by {
            lemma_grid_index(w, h, x, y);
            if y == 0 || y == h - 1 {
                assert(column_seeded(o, visited@, w, h, x));
            } else {
                assert(row_seeded(o, visited@, w, h, y));
            }
        }
        assert(fill_inv(o, rgba@, visited@, queue@, w, h));
    }
    loop
        invariant
            fill_inv(o, rgba@, visited@, queue@, w, h),
            w == width as int,
            h == height as int,
        ensures
            fill_inv(o, rgba@, visited@, queue@, w, h),
            queue@.len() == 0,
        decreases 2 * unvisited(visited@) + queue@.len(),
    {
        let ghost full = queue@;
        match queue.pop_front() {
            None => {
                break ;
            },
            Some(position) => {
                let (cx, cy) = position;
                expand_popped(
                    rgba,
                    &mut visited,
                    &mut queue,
                    width,
                    height,
                    cx,
                    cy,
                    Ghost(o),
                    Ghost(full),
                );
            },
        }
    }
    proof {
        let s = rgba@;
        let v = visited@;
        assert(queue@ =~= Seq::<(usize, usize)>::empty());
        assert forall|x: int, y: int| in_grid(w, h, x, y) implies #[trigger] rgb_kept(o, s, w, x, y) by {
            assert(pixel_ok(o, s, v, queue@, w, h, x, y));
        }
        assert forall|x: int, y: int| in_grid(w, h, x, y) implies s[#[trigger] alpha_idx(
            w,
            x,
            y,
        )] == if in_background(o, w, h, x, y) {
            0u8
        } else {
            255u8
        } by {
            assert(pixel_ok(o, s, v, queue@, w, h, x, y));
            if in_background(o, w, h, x, y) {
                let p = choose|p: Seq<(int, int)>| #[trigger] white_path(o, w, h, p) && p.last() == (
                    x,
                    y,
                );
                lemma_path_visited(o, s, v, w, h, p, p.len() - 1);
                assert(!queued(queue@, x, y));
            }
        }
    }
}

proof fn lemma_path_step(s: Seq<u8>, w: int, h: int, a: int, b: int, x: int, y: int)
    requires
        in_background(s, w, h, a, b),
        adjacent(a, b, x, y),
        in_grid(w, h, x, y),
        white_px(s, w, x, y),
    ensures
        in_background(s, w, h, x, y),
{
    let p = choose|p: Seq<(int, int)>| #[trigger] white_path(s, w, h, p) && p.last() == (a, b);
    let q = p.push((x, y));
    assert forall|i: int| 0 <= i < q.len() implies in_grid(w, h, #[trigger] q[i].0, q[i].1)
        && white_px(s, w, q[i].0, q[i].1) by {
        if i < p.len() {
            assert(q[i] == p[i]);
        }
    }
    assert forall|i: int| 0 <= i < q.len() - 1 implies adjacent(
        #[trigger] q[i].0,
        q[i].1,
        q[i + 1].0,
        q[i + 1].1,
    ) by {
        assert(q[i] == p[i]);
        if i < p.len() - 1 {
            assert(q[i + 1] == p[i + 1]);
        }
    }
    assert(white_path(s, w, h, q));
    assert(q.last() == (x, y));
}

proof fn lemma_edge_in_background(s: Seq<u8>, w: int, h: int, x: int, y: int)
    requires
        in_grid(w, h, x, y),
        on_edge(w, h, x, y),
        white_px(s, w, x, y),
    ensures
        in_background(s, w, h, x, y),
{
    let p = seq![(x, y)];
    assert(white_path(s, w, h, p));
    assert(p.last() == (x, y));
}

} // verus!
