//! Outline post-filters: Sobel edge detection on the depth or the colour buffer, with a
//! square stamp of the outline colour at each edge pixel.
use vstd::prelude::*;
use crate::framebuffer::{chan, FrameBuffer, FrameView, MAX_DIM};
use crate::math::{fsub, fx_sub, ONE};
use crate::vector::Vec4;

verus! {

/// The outline colour: opaque black.
pub open spec fn outline_color() -> Vec4 {
    Vec4 { x: 0, y: 0, z: 0, w: ONE }
}

/// Source sampled by a filter: `0`, `1`, `2` for the colour channels, `3` for depth.
pub open spec fn sample_at(v: FrameView, src: int, x: int, y: int) -> int {
    let i = y * v.width + x;
    if src == 3 {
        v.depth[i] as int
    } else {
        chan(v.color[i], src)
    }
}

pub open spec fn abs(a: int) -> int {
    if a < 0 {
        -a
    } else {
        a
    }
}

/// `|Gx| + |Gy|` of the 3x3 Sobel kernels at `(x, y)`.
pub open spec fn sobel_mag(v: FrameView, src: int, x: int, y: int) -> int {
    let gx = (sample_at(v, src, x + 1, y - 1) + 2 * sample_at(v, src, x + 1, y) + sample_at(
        v,
        src,
        x + 1,
        y + 1,
    )) - (sample_at(v, src, x - 1, y - 1) + 2 * sample_at(v, src, x - 1, y) + sample_at(
        v,
        src,
        x - 1,
        y + 1,
    ));
    let gy = (sample_at(v, src, x - 1, y + 1) + 2 * sample_at(v, src, x, y + 1) + sample_at(
        v,
        src,
        x + 1,
        y + 1,
    )) - (sample_at(v, src, x - 1, y - 1) + 2 * sample_at(v, src, x, y - 1) + sample_at(
        v,
        src,
        x + 1,
        y - 1,
    ));
    abs(gx) + abs(gy)
}

/// Width of the border left out of edge detection: the line width, at least one pixel.
pub open spec fn border(line_width: int) -> int {
    if line_width < 1 {
        1
    } else {
        line_width
    }
}

pub open spec fn max_int(a: int, b: int) -> int {
    if a >= b {
        a
    } else {
        b
    }
}

/// Gradient magnitude: of the depth, or the largest over the three colour channels.
pub open spec fn gradient(v: FrameView, use_depth: bool, x: int, y: int) -> int {
    if use_depth {
        sobel_mag(v, 3, x, y)
    } else {
        max_int(max_int(sobel_mag(v, 0, x, y), sobel_mag(v, 1, x, y)), sobel_mag(v, 2, x, y))
    }
}

/// `(x, y)` is an edge: an interior, non-background pixel whose gradient exceeds the
/// threshold.
pub open spec fn is_edge(v: FrameView, use_depth: bool, threshold: int, line_width: int, x: int, y: int) -> bool {
    let b = border(line_width);
    &&& b <= x < v.width - b
    &&& b <= y < v.height - b
    &&& v.depth[y * v.width + x] < ONE
    &&& gradient(v, use_depth, x, y) > threshold
}

/// `(px, py)` lies in the `line_width`-sized square stamped at some edge pixel.
pub open spec fn outlined(v: FrameView, use_depth: bool, threshold: int, line_width: int, px: int, py: int) -> bool {
    exists|mx: int, my: int|
        0 <= mx <= px && 0 <= my <= py && px < mx + line_width && py < my + line_width && #[trigger] is_edge(v, use_depth, threshold, line_width, mx, my)
}

/// The colour of pixel `(px, py)` after outlining.
pub open spec fn outline_result(v: FrameView, use_depth: bool, threshold: int, line_width: int, px: int, py: int) -> Vec4 {
    if outlined(v, use_depth, threshold, line_width, px, py) {
        outline_color()
    } else {
        v.color[py * v.width + px]
    }
}

proof fn lemma_pixel_index(w: int, h: int, x: int, y: int)
    requires
        0 <= x < w,
        0 <= y < h,
        w <= MAX_DIM,
        h <= MAX_DIM,
    ensures
        0 <= y * w + x < w * h,
        w * h <= MAX_DIM * MAX_DIM,
{
    assert(0 <= y * w + x < w * h) by (nonlinear_arith)
        requires
            0 <= x < w,
            0 <= y < h,
    ;
    assert(w * h <= MAX_DIM * MAX_DIM) by (nonlinear_arith)
        requires
            0 <= w <= MAX_DIM,
            0 <= h <= MAX_DIM,
    ;
}

fn sample_exec(fb: &FrameBuffer, src: u8, x: usize, y: usize) -> (r: i64)
    requires
        fb.wf(),
        x < fb.width,
        y < fb.height,
        src <= 3,
    ensures
        r == sample_at(fb@, src as int, x as int, y as int),
{
    proof {
        lemma_pixel_index(fb.width as int, fb.height as int, x as int, y as int);
    }
    let i = y * fb.width + x;
    if src == 3 {
        fb.depth[i] as i64
    } else if src == 0 {
        fb.data[i].x as i64
    } else if src == 1 {
        fb.data[i].y as i64
    } else {
        fb.data[i].z as i64
    }
}

fn abs_exec(a: i64) -> (r: i64)
    requires
        a > i64::MIN,
    ensures
        r == abs(a as int),
{
    if a < 0 {
        -a
    } else {
        a
    }
}

fn sobel_exec(fb: &FrameBuffer, src: u8, x: usize, y: usize) -> (r: i64)
    requires
        fb.wf(),
        1 <= x,
        x + 1 < fb.width,
        1 <= y,
        y + 1 < fb.height,
        src <= 3,
    ensures
        r == sobel_mag(fb@, src as int, x as int, y as int),
{
    let a00 = sample_exec(fb, src, x - 1, y - 1);
    let a10 = sample_exec(fb, src, x, y - 1);
    let a20 = sample_exec(fb, src, x + 1, y - 1);
    let a01 = sample_exec(fb, src, x - 1, y);
    let a21 = sample_exec(fb, src, x + 1, y);
    let a02 = sample_exec(fb, src, x - 1, y + 1);
    let a12 = sample_exec(fb, src, x, y + 1);
    let a22 = sample_exec(fb, src, x + 1, y + 1);
    let gx = (a20 + 2 * a21 + a22) - (a00 + 2 * a01 + a02);
    let gy = (a02 + 2 * a12 + a22) - (a00 + 2 * a10 + a20);
    abs_exec(gx) + abs_exec(gy)
}

fn is_edge_exec(fb: &FrameBuffer, use_depth: bool, threshold: i32, line_width: usize, x: usize, y: usize) -> (r: bool)
    requires
        fb.wf(),
        x < fb.width,
        y < fb.height,
    ensures
        r == is_edge(fb@, use_depth, threshold as int, line_width as int, x as int, y as int),
{
    let b: usize = if line_width < 1 { 1 } else { line_width };
    if x < b || y < b || x + b >= fb.width || y + b >= fb.height {
        return false;
    }
    proof {
        lemma_pixel_index(fb.width as int, fb.height as int, x as int, y as int);
    }
    if fb.depth[y * fb.width + x] >= ONE {
        return false;
    }
    let g = if use_depth {
        sobel_exec(fb, 3, x, y)
    } else {
        let g0 = sobel_exec(fb, 0, x, y);
        let g1 = sobel_exec(fb, 1, x, y);
        let g2 = sobel_exec(fb, 2, x, y);
        let m01 = if g0 >= g1 { g0 } else { g1 };
        if m01 >= g2 { m01 } else { g2 }
    };
    g > threshold as i64
}

/// The edge flags of every pixel, row-major.
fn edge_marks(fb: &FrameBuffer, use_depth: bool, threshold: i32, line_width: usize) -> (r: Vec<bool>)
    requires
        fb.wf(),
    ensures
        r@.len() == fb.width * fb.height,
        forall|px: int, py: int|
            0 <= px < fb.width && 0 <= py < fb.height ==> r@[py * fb.width + px] == is_edge(
                fb@,
                use_depth,
                threshold as int,
                line_width as int,
                px,
                py,
            ),
{
    let w = fb.width;
    let h = fb.height;
    let mut marks: Vec<bool> = Vec::new();
    let mut y: usize = 0;
    while y < h
        invariant
            fb.wf(),
            w == fb.width,
            h == fb.height,
            0 <= y <= h,
            marks@.len() == y * w,
            forall|px: int, py: int|
                0 <= px < w && 0 <= py < y ==> marks@[py * w + px] == is_edge(
                    fb@,
                    use_depth,
                    threshold as int,
                    line_width as int,
                    px,
                    py,
                ),
        decreases h - y,
    {
        let mut x: usize = 0;
        while x < w
            invariant
                fb.wf(),
                w == fb.width,
                h == fb.height,
                y < h,
                0 <= x <= w,
                marks@.len() == y * w + x,
                forall|px: int, py: int|
                    0 <= px < w && 0 <= py < y ==> marks@[py * w + px] == is_edge(
                        fb@,
                        use_depth,
                        threshold as int,
                        line_width as int,
                        px,
                        py,
                    ),
                forall|px: int|
                    0 <= px < x ==> marks@[y * w + px] == is_edge(
                        fb@,
                        use_depth,
                        threshold as int,
                        line_width as int,
                        px,
                        y as int,
                    ),
            decreases w - x,
        {
            let e = is_edge_exec(fb, use_depth, threshold, line_width, x, y);
            let ghost before = marks@;
            marks.push(e);
            proof {
                assert forall|px: int, py: int| 0 <= px < w && 0 <= py < y implies marks@[py * w
                    + px] == is_edge(fb@, use_depth, threshold as int, line_width as int, px, py) by {
                    assert(py * w + px < y * w) by (nonlinear_arith)
                        requires
                            0 <= px < w,
                            0 <= py < y,
                    ;
                    assert(py * w + px >= 0) by (nonlinear_arith)
                        requires
                            0 <= px,
                            0 <= py,
                            w >= 0,
                    ;
                    assert(marks@[py * w + px] == before[py * w + px]);
                }
            }
            x = x + 1;
        }
        proof {
            assert((y + 1) * w == y * w + w) by (nonlinear_arith);
        }
        y = y + 1;
    }
    proof {
        assert(h * w == w * h) by (nonlinear_arith);
    }
    marks
}

/// Some edge pixel's stamp reaches `(px, py)`.
fn window_has_mark(
    marks: &Vec<bool>,
    w: usize,
    h: usize,
    px: usize,
    py: usize,
    line_width: usize,
    ghost_v: Ghost<FrameView>,
    use_depth: bool,
    threshold: i32,
) -> (r: bool)
    requires
        w <= MAX_DIM,
        h <= MAX_DIM,
        px < w,
        py < h,
        marks@.len() == w * h,
        forall|mx: int, my: int|
            0 <= mx < w && 0 <= my < h ==> marks@[my * w + mx] == is_edge(
                ghost_v@,
                use_depth,
                threshold as int,
                line_width as int,
                mx,
                my,
            ),
        ghost_v@.width == w,
        ghost_v@.height == h,
    ensures
        r == outlined(ghost_v@, use_depth, threshold as int, line_width as int, px as int, py as int),
{
    let x0: usize = if px + 1 >= line_width { px + 1 - line_width } else { 0 };
    let y0: usize = if py + 1 >= line_width { py + 1 - line_width } else { 0 };
    let mut my: usize = y0;
    while my <= py
        invariant
            w <= MAX_DIM,
            h <= MAX_DIM,
            px < w,
            py < h,
            marks@.len() == w * h,
            forall|mx: int, my2: int|
                0 <= mx < w && 0 <= my2 < h ==> marks@[my2 * w + mx] == is_edge(
                    ghost_v@,
                    use_depth,
                    threshold as int,
                    line_width as int,
                    mx,
                    my2,
                ),
            x0 == (if px + 1 >= line_width { px + 1 - line_width } else { 0 }),
            y0 == (if py + 1 >= line_width { py + 1 - line_width } else { 0 }),
            y0 <= my <= py + 1,
            forall|mx: int, my2: int|
                0 <= mx <= px && 0 <= my2 < my && px < mx + line_width && py < my2 + line_width
                    ==> !is_edge(ghost_v@, use_depth, threshold as int, line_width as int, mx, my2),
        decreases py + 1 - my,
    {
        let mut mx: usize = x0;
        while mx <= px
            invariant
                w <= MAX_DIM,
                h <= MAX_DIM,
                px < w,
                py < h,
                my <= py,
                marks@.len() == w * h,
                forall|mx2: int, my2: int|
                    0 <= mx2 < w && 0 <= my2 < h ==> marks@[my2 * w + mx2] == is_edge(
                        ghost_v@,
                        use_depth,
                        threshold as int,
                        line_width as int,
                        mx2,
                        my2,
                    ),
                x0 == (if px + 1 >= line_width { px + 1 - line_width } else { 0 }),
                y0 == (if py + 1 >= line_width { py + 1 - line_width } else { 0 }),
                y0 <= my,
                x0 <= mx <= px + 1,
                forall|mx2: int, my2: int|
                    0 <= mx2 <= px && 0 <= my2 < my && px < mx2 + line_width && py < my2
                        + line_width ==> !is_edge(ghost_v@, use_depth, threshold as int, line_width as int, mx2, my2),
                forall|mx2: int|
                    0 <= mx2 < mx && px < mx2 + line_width ==> !is_edge(
                        ghost_v@,
                        use_depth,
                        threshold as int,
                        line_width as int,
                        mx2,
                        my as int,
                    ),
            decreases px + 1 - mx,
        {
            proof {
                lemma_pixel_index(w as int, h as int, mx as int, my as int);
            }
            if marks[my * w + mx] {
                proof {
                    let (a, b) = (mx as int, my as int);
                    assert(is_edge(ghost_v@, use_depth, threshold as int, line_width as int, a, b));
                    assert(0 <= a <= px && 0 <= b <= py && px < a + line_width && py < b + line_width);
                    assert(outlined(ghost_v@, use_depth, threshold as int, line_width as int, px as int, py as int));
                }
                return true;
            }
            mx = mx + 1;
        }
        my = my + 1;
    }
    false
}

/// Marks the edge pixels of a snapshot of the buffer, then paints a `line_width` square
/// of the outline colour at each of them; depths are left alone.
pub fn draw_outline(fb: &mut FrameBuffer, use_depth: bool, threshold: i32, line_width: usize)
    requires
        old(fb).wf(),
    ensures
        final(fb).wf(),
        final(fb).width == old(fb).width,
        final(fb).height == old(fb).height,
        final(fb).depth@ == old(fb).depth@,
        forall|px: int, py: int|
            0 <= px < old(fb).width && 0 <= py < old(fb).height ==> final(fb).data@[py
                * old(fb).width + px] == outline_result(
                old(fb)@,
                use_depth,
                threshold as int,
                line_width as int,
                px,
                py,
            ),
{
    let ghost v0 = fb@;
    let marks = edge_marks(fb, use_depth, threshold, line_width);
    let w = fb.width;
    let h = fb.height;
    let mut y: usize = 0;
    while y < h
        invariant
            fb.wf(),
            v0.wf(),
            fb.width == w,
            fb.height == h,
            w == v0.width,
            h == v0.height,
            fb.depth@ == v0.depth,
            marks@.len() == w * h,
            forall|mx: int, my: int|
                0 <= mx < w && 0 <= my < h ==> marks@[my * w + mx] == is_edge(
                    v0,
                    use_depth,
                    threshold as int,
                    line_width as int,
                    mx,
                    my,
                ),
            0 <= y <= h,
            forall|px: int, py: int|
                0 <= px < w && 0 <= py < h ==> fb.data@[#[trigger] (py * w + px)] == (if py < y {
                    outline_result(v0, use_depth, threshold as int, line_width as int, px, py)
                } else {
                    v0.color[py * w + px]
                }),
        decreases h - y,
    {
        let mut x: usize = 0;
        while x < w
            invariant
                fb.wf(),
                v0.wf(),
                fb.width == w,
                fb.height == h,
                w == v0.width,
                h == v0.height,
                fb.depth@ == v0.depth,
                marks@.len() == w * h,
                forall|mx: int, my: int|
                    0 <= mx < w && 0 <= my < h ==> marks@[my * w + mx] == is_edge(
                        v0,
                        use_depth,
                        threshold as int,
                        line_width as int,
                        mx,
                        my,
                    ),
                y < h,
                0 <= x <= w,
                forall|px: int, py: int|
                    0 <= px < w && 0 <= py < h ==> fb.data@[#[trigger] (py * w + px)] == (if py < y
                        || (py == y && px < x) {
                        outline_result(v0, use_depth, threshold as int, line_width as int, px, py)
                    } else {
                        v0.color[py * w + px]
                    }),
            decreases w - x,
        {
            proof {
                lemma_pixel_index(w as int, h as int, x as int, y as int);
            }
            let hit = window_has_mark(&marks, w, h, x, y, line_width, Ghost(v0), use_depth, threshold);
            let ghost before = fb.data@;
            if hit {
                fb.data.set(y * w + x, Vec4 { x: 0, y: 0, z: 0, w: ONE });
            }
            proof {
                assert forall|px: int, py: int| 0 <= px < w && 0 <= py < h implies fb.data@[
                    #[trigger] (py * w + px)] == (if py < y || (py == y && px < x + 1) {
                    outline_result(v0, use_depth, threshold as int, line_width as int, px, py)
                } else {
                    v0.color[py * w + px]
                }) by {
                    if px != x || py != y {
                        if py < y {
                            assert(py * w + px < y * w + x) by (nonlinear_arith)
                                requires
                                    0 <= px < w,
                                    py < y,
                                    0 <= x,
                            ;
                        } else if py > y {
                            assert(py * w + px > y * w + x) by (nonlinear_arith)
                                requires
                                    0 <= x < w,
                                    py > y,
                                    0 <= px,
                            ;
                        }
                        lemma_pixel_index(w as int, h as int, px, py);
                        assert(fb.data@[py * w + px] == before[py * w + px]);
                    }
                }
            }
            x = x + 1;
        }
        y = y + 1;
    }
}


/// Relies on `rand::random_ratio`: `true` with probability `numerator / denominator`,
/// always `false` for a zero numerator and always `true` when numerator and denominator
/// are equal; it panics when `denominator == 0` or `numerator > denominator`.
#[verifier::external_body]
fn chance(numerator: u32, denominator: u32) -> (r: bool)
    requires
        0 < denominator,
        numerator <= denominator,
    ensures
        numerator == 0 ==> !r,
        numerator == denominator ==> r,
{
    rand::random_ratio(numerator, denominator)
}

/// Relies on `rand::random_range`: a value of the half-open range `lo..hi`, which must
/// not be empty.
#[verifier::external_body]
fn random_between(lo: i64, hi: i64) -> (r: i64)
    requires
        lo < hi,
    ensures
        lo <= r < hi,
{
    rand::random_range(lo..hi)
}

/// `1 - c` on the colour channels; alpha is kept.
pub open spec fn inverted(c: Vec4) -> Vec4 {
    Vec4 {
        x: fsub(ONE as int, c.x as int) as i32,
        y: fsub(ONE as int, c.y as int) as i32,
        z: fsub(ONE as int, c.z as int) as i32,
        w: c.w,
    }
}

/// Two colour channels exchanged: red and green (`0`), red and blue (`1`), green and
/// blue (`2`).
pub open spec fn swapped(c: Vec4, k: int) -> Vec4 {
    if k == 0 {
        Vec4 { x: c.y, y: c.x, z: c.z, w: c.w }
    } else if k == 1 {
        Vec4 { x: c.z, y: c.y, z: c.x, w: c.w }
    } else {
        Vec4 { x: c.x, y: c.z, z: c.y, w: c.w }
    }
}

/// `d` is `c`, `c` inverted, or `c` with two channels exchanged.
pub open spec fn glitch_of(c: Vec4, d: Vec4) -> bool {
    d == c || d == inverted(c) || d == swapped(c, 0) || d == swapped(c, 1) || d == swapped(c, 2)
}

/// `d` is a glitched copy of some pixel of `orig`.
pub open spec fn glitch_derived(orig: Seq<Vec4>, d: Vec4) -> bool {
    exists|j: int| 0 <= j < orig.len() && #[trigger] glitch_of(orig[j], d)
}

fn invert_exec(c: Vec4) -> (r: Vec4)
    ensures
        r == inverted(c),
{
    Vec4 { x: fx_sub(ONE, c.x), y: fx_sub(ONE, c.y), z: fx_sub(ONE, c.z), w: c.w }
}

fn clamp_index(v: i64, n: usize) -> (r: usize)
    requires
        1 <= n <= MAX_DIM,
    ensures
        r < n,
        r == clamp_to(v as int, n as int),
{
    if v < 0 {
        0
    } else if v >= n as i64 {
        n - 1
    } else {
        v as usize
    }
}

/// `v` kept inside `0 .. n`.
pub open spec fn clamp_to(v: int, n: int) -> int {
    if v < 0 {
        0
    } else if v >= n {
        n - 1
    } else {
        v
    }
}

/// What happens to one pixel of a glitch band that is not inverted as a whole.
#[derive(Clone, Copy, Debug, PartialEq, Eq, Structural)]
pub enum PixelTweak {
    Keep,
    Invert,
    /// Exchange two channels, numbered as in `swapped`.
    Swap(u8),
}

/// A pixel displacement of the jitter pass.
#[derive(Clone, Copy, Debug, PartialEq, Eq, Structural)]
pub struct Jitter {
    pub dx: i32,
    pub dy: i32,
}

/// Colour of a band pixel taken from `c`: inverted when the whole band is, else as its
/// own tweak says.
pub open spec fn tweaked(c: Vec4, reverse: bool, t: PixelTweak) -> Vec4 {
    if reverse {
        inverted(c)
    } else {
        match t {
            PixelTweak::Keep => c,
            PixelTweak::Invert => inverted(c),
            PixelTweak::Swap(k) => swapped(c, k as int),
        }
    }
}

/// Colour of pixel `(px, py)` after a band pass on row `cy` over columns
/// `start_x .. end_x`: taken from the snapshot `offset` columns further (clamped to the
/// row), then tweaked.
pub open spec fn band_pixel(
    cur: Seq<Vec4>,
    snapshot: Seq<Vec4>,
    w: int,
    cy: int,
    offset: int,
    start_x: int,
    end_x: int,
    reverse: bool,
    tweaks: Seq<PixelTweak>,
    px: int,
    py: int,
) -> Vec4 {
    if py == cy && start_x <= px < end_x {
        tweaked(snapshot[cy * w + clamp_to(px + offset, w)], reverse, tweaks[px - start_x])
    } else {
        cur[py * w + px]
    }
}

/// Colour of pixel `(px, py)` after a jitter pass on row `y`: a jittered pixel takes the
/// snapshot's pixel at its displacement (clamped to the buffer).
pub open spec fn jitter_pixel(
    cur: Seq<Vec4>,
    snapshot: Seq<Vec4>,
    w: int,
    h: int,
    y: int,
    jitter: Seq<Option<Jitter>>,
    px: int,
    py: int,
) -> Vec4 {
    if py == y {
        match jitter[px] {
            Some(j) => snapshot[clamp_to(y + j.dy, h) * w + clamp_to(px + j.dx, w)],
            None => cur[py * w + px],
        }
    } else {
        cur[py * w + px]
    }
}

/// Every pixel of `cur` is a glitched copy of a pixel of `snapshot`.
pub open spec fn all_derived(snapshot: Seq<Vec4>, cur: Seq<Vec4>) -> bool {
    forall|i: int| 0 <= i < cur.len() ==> glitch_derived(snapshot, #[trigger] cur[i])
}

pub open spec fn all_swaps_ok(tweaks: Seq<PixelTweak>) -> bool {
    forall|k: int| 0 <= k < tweaks.len() ==> swap_ok(#[trigger] tweaks[k])
}

/// A swap tweak names one of the three channel pairs.
pub open spec fn swap_ok(t: PixelTweak) -> bool {
    t matches PixelTweak::Swap(k) ==> k < 3
}

proof fn lemma_tweaked_is_glitch(c: Vec4, reverse: bool, t: PixelTweak)
    requires
        swap_ok(t),
    ensures
        glitch_of(c, tweaked(c, reverse, t)),
{
}

/// One row of a glitch band: columns `start_x .. end_x` of row `cy` take the snapshot's
/// pixel `offset` columns away, tweaked per pixel.
pub fn apply_band_row(
    fb: &mut FrameBuffer,
    snapshot: &Vec<Vec4>,
    cy: usize,
    offset: i32,
    start_x: usize,
    end_x: usize,
    reverse: bool,
    tweaks: &Vec<PixelTweak>,
)
    requires
        old(fb).wf(),
        snapshot@.len() == old(fb).data@.len(),
        cy < old(fb).height,
        start_x <= end_x <= old(fb).width,
        tweaks@.len() == end_x - start_x,
    ensures
        final(fb).wf(),
        final(fb).width == old(fb).width,
        final(fb).height == old(fb).height,
        final(fb).depth@ == old(fb).depth@,
        forall|px: int, py: int|
            0 <= px < old(fb).width && 0 <= py < old(fb).height ==> final(fb).data@[py
                * old(fb).width + px] == band_pixel(
                old(fb).data@,
                snapshot@,
                old(fb).width as int,
                cy as int,
                offset as int,
                start_x as int,
                end_x as int,
                reverse,
                tweaks@,
                px,
                py,
            ),
        (forall|k: int| 0 <= k < tweaks@.len() ==> swap_ok(#[trigger] tweaks@[k])) && (forall|i: int|
            0 <= i < old(fb).data@.len() ==> glitch_derived(snapshot@, #[trigger] old(fb).data@[i]))
            ==> forall|i: int|
            0 <= i < final(fb).data@.len() ==> glitch_derived(snapshot@, #[trigger] final(fb).data@[i]),
{
    let ghost v0 = fb.data@;
    let ghost derived0 = all_derived(snapshot@, v0);
    let ghost swaps_ok = all_swaps_ok(tweaks@);
    let w = fb.width;
    let h = fb.height;
    let mut x = start_x;
    while x < end_x
        invariant
            fb.wf(),
            fb.width == w,
            fb.height == h,
            fb.depth@ == old(fb).depth@,
            v0 == old(fb).data@,
            snapshot@.len() == v0.len(),
            v0.len() == w * h,
            derived0 == all_derived(snapshot@, v0),
            swaps_ok == all_swaps_ok(tweaks@),
            cy < h,
            start_x <= x <= end_x <= w,
            tweaks@.len() == end_x - start_x,
            forall|px: int, py: int|
                0 <= px < w && 0 <= py < h ==> fb.data@[#[trigger] (py * w + px)] == band_pixel(
                    v0,
                    snapshot@,
                    w as int,
                    cy as int,
                    offset as int,
                    start_x as int,
                    x as int,
                    reverse,
                    tweaks@,
                    px,
                    py,
                ),
            derived0 && swaps_ok ==> all_derived(snapshot@, fb.data@),
        decreases end_x - x,
    {
        let src_x = clamp_index(x as i64 + offset as i64, w);
        proof {
            lemma_pixel_index(w as int, h as int, x as int, cy as int);
            lemma_pixel_index(w as int, h as int, src_x as int, cy as int);
        }
        let c = snapshot[cy * w + src_x];
        let t = tweaks[x - start_x];
        let color = if reverse {
            invert_exec(c)
        } else {
            match t {
                PixelTweak::Keep => c,
                PixelTweak::Invert => invert_exec(c),
                PixelTweak::Swap(k) => if k == 0 {
                    Vec4 { x: c.y, y: c.x, z: c.z, w: c.w }
                } else if k == 1 {
                    Vec4 { x: c.z, y: c.y, z: c.x, w: c.w }
                } else {
                    Vec4 { x: c.x, y: c.z, z: c.y, w: c.w }
                },
            }
        };
        assert(color == tweaked(snapshot@[cy * w + src_x], reverse, tweaks@[x - start_x]));
        let ghost before = fb.data@;
        fb.data.set(cy * w + x, color);
        proof {
            assert forall|px: int, py: int| 0 <= px < w && 0 <= py < h implies fb.data@[
                #[trigger] (py * w + px)] == band_pixel(
                v0,
                snapshot@,
                w as int,
                cy as int,
                offset as int,
                start_x as int,
                x + 1,
                reverse,
                tweaks@,
                px,
                py,
            ) by {
                lemma_pixel_index(w as int, h as int, px, py);
                if px != x || py != cy {
                    lemma_distinct_index(w as int, px, py, x as int, cy as int);
                    assert(fb.data@[py * w + px] == before[py * w + px]);
                }
            }
            if derived0 && swaps_ok {
                assert forall|i: int| 0 <= i < fb.data@.len() implies glitch_derived(
                    snapshot@,
                    #[trigger] fb.data@[i],
                ) by {
                    if i == cy * w + x {
                        assert(all_swaps_ok(tweaks@));
                        assert(swap_ok(tweaks@[x - start_x]));
                        lemma_tweaked_is_glitch(snapshot@[cy * w + src_x], reverse, tweaks@[x - start_x]);
                        assert(glitch_of(snapshot@[cy * w + src_x], fb.data@[i]));
                    } else {
                        assert(fb.data@[i] == before[i]);
                    }
                }
            }
        }
        x = x + 1;
    }
}

/// The jitter pass over row `y`: each pixel with a displacement takes the snapshot's
/// pixel at that displacement.
pub fn apply_jitter_row(fb: &mut FrameBuffer, snapshot: &Vec<Vec4>, y: usize, jitter: &Vec<Option<Jitter>>)
    requires
        old(fb).wf(),
        snapshot@.len() == old(fb).data@.len(),
        y < old(fb).height,
        jitter@.len() == old(fb).width,
    ensures
        final(fb).wf(),
        final(fb).width == old(fb).width,
        final(fb).height == old(fb).height,
        final(fb).depth@ == old(fb).depth@,
        forall|px: int, py: int|
            0 <= px < old(fb).width && 0 <= py < old(fb).height ==> final(fb).data@[py
                * old(fb).width + px] == jitter_pixel(
                old(fb).data@,
                snapshot@,
                old(fb).width as int,
                old(fb).height as int,
                y as int,
                jitter@,
                px,
                py,
            ),
        (forall|i: int|
            0 <= i < old(fb).data@.len() ==> glitch_derived(snapshot@, #[trigger] old(fb).data@[i]))
            ==> forall|i: int|
            0 <= i < final(fb).data@.len() ==> glitch_derived(snapshot@, #[trigger] final(fb).data@[i]),
{
    let ghost v0 = fb.data@;
    let ghost derived0 = all_derived(snapshot@, v0);
    let w = fb.width;
    let h = fb.height;
    let mut x: usize = 0;
    while x < w
        invariant
            fb.wf(),
            fb.width == w,
            fb.height == h,
            fb.depth@ == old(fb).depth@,
            v0 == old(fb).data@,
            snapshot@.len() == v0.len(),
            v0.len() == w * h,
            derived0 == all_derived(snapshot@, v0),
            y < h,
            0 <= x <= w,
            jitter@.len() == w,
            forall|px: int, py: int|
                0 <= px < w && 0 <= py < h ==> fb.data@[#[trigger] (py * w + px)] == (if py == y
                    && px < x {
                    jitter_pixel(v0, snapshot@, w as int, h as int, y as int, jitter@, px, py)
                } else {
                    v0[py * w + px]
                }),
            derived0 ==> all_derived(snapshot@, fb.data@),
        decreases w - x,
    {
        let ghost before = fb.data@;
        proof {
            lemma_pixel_index(w as int, h as int, x as int, y as int);
        }
        match jitter[x] {
            Some(j) => {
                let rx = clamp_index(x as i64 + j.dx as i64, w);
                let ry = clamp_index(y as i64 + j.dy as i64, h);
                proof {
                    lemma_pixel_index(w as int, h as int, rx as int, ry as int);
                }
                let c = snapshot[ry * w + rx];
                fb.data.set(y * w + x, c);
                proof {
                    if derived0 {
                        assert forall|i: int| 0 <= i < fb.data@.len() implies glitch_derived(
                            snapshot@,
                            #[trigger] fb.data@[i],
                        ) by {
                            if i == y * w + x {
                                assert(glitch_of(snapshot@[ry * w + rx], fb.data@[i]));
                            } else {
                                assert(fb.data@[i] == before[i]);
                            }
                        }
                    }
                }
            },
            None => {},
        }
        proof {
            assert forall|px: int, py: int| 0 <= px < w && 0 <= py < h implies fb.data@[
                #[trigger] (py * w + px)] == (if py == y && px < x + 1 {
                jitter_pixel(v0, snapshot@, w as int, h as int, y as int, jitter@, px, py)
            } else {
                v0[py * w + px]
            }) by {
                lemma_pixel_index(w as int, h as int, px, py);
                if px != x || py != y {
                    lemma_distinct_index(w as int, px, py, x as int, y as int);
                    assert(fb.data@[py * w + px] == before[py * w + px]);
                }
            }
        }
        x = x + 1;
    }
    proof {
        assert forall|px: int, py: int|
            0 <= px < w && 0 <= py < h implies fb.data@[#[trigger] (py * w + px)] == jitter_pixel(
            v0,
            snapshot@,
            w as int,
            h as int,
            y as int,
            jitter@,
            px,
            py,
        ) by {}
    }
}

proof fn lemma_distinct_index(w: int, x1: int, y1: int, x2: int, y2: int)
    requires
        0 <= x1 < w,
        0 <= x2 < w,
        0 <= y1,
        0 <= y2,
        x1 != x2 || y1 != y2,
    ensures
        y1 * w + x1 != y2 * w + x2,
{
    if y1 < y2 {
        assert(y1 * w + x1 < y2 * w + x2) by (nonlinear_arith)
            requires
                0 <= x1 < w,
                0 <= x2,
                y1 < y2,
        ;
    } else if y2 < y1 {
        assert(y2 * w + x2 < y1 * w + x1) by (nonlinear_arith)
            requires
                0 <= x2 < w,
                0 <= x1,
                y2 < y1,
        ;
    }
}

/// The tweak of one band pixel, drawn: a channel swap with chance 3 in 10, else an
/// inversion with chance 1 in 5, else nothing.
fn draw_tweak() -> (r: PixelTweak)
    ensures
        swap_ok(r),
{
    if chance(3, 10) {
        PixelTweak::Swap(random_between(0, 3) as u8)
    } else if chance(1, 5) {
        PixelTweak::Invert
    } else {
        PixelTweak::Keep
    }
}

/// A random scan-line glitch. Each row, with chance 1 in 10, starts a band of 1 to 10
/// rows in which a random segment is shifted sideways by up to 8 pixels and recoloured
/// (`apply_band_row`); otherwise, with chance 1 in 50 per pixel, pixels take a nearby
/// pixel (`apply_jitter_row`). Every output pixel is a copy of some input pixel, possibly
/// inverted or with two channels exchanged; depths are left alone.
pub fn glitch_effect(fb: &mut FrameBuffer)
    requires
        old(fb).wf(),
    ensures
        final(fb).wf(),
        final(fb).width == old(fb).width,
        final(fb).height == old(fb).height,
        final(fb).depth@ == old(fb).depth@,
        forall|i: int|
            0 <= i < final(fb).data@.len() ==> glitch_derived(old(fb).data@, #[trigger] final(fb).data@[i]),
{
    let snapshot = fb.data.clone();
    assert(snapshot@ =~= old(fb).data@);
    let width = fb.width;
    let height = fb.height;
    proof {
        assert forall|i: int| 0 <= i < fb.data@.len() implies glitch_derived(snapshot@, #[trigger] fb.data@[i]) by {
            assert(glitch_of(snapshot@[i], fb.data@[i]));
        }
    }
    if width == 0 || height == 0 {
        return;
    }
    let mut y: usize = 0;
    while y < height
        invariant
            fb.wf(),
            fb.width == width,
            fb.height == height,
            fb.depth@ == old(fb).depth@,
            snapshot@ == old(fb).data@,
            1 <= width <= MAX_DIM,
            1 <= height <= MAX_DIM,
            fb.data@.len() == snapshot@.len(),
            forall|i: int| 0 <= i < fb.data@.len() ==> glitch_derived(snapshot@, #[trigger] fb.data@[i]),
        decreases height - y,
    {
        if chance(1, 10) {
            let offset = random_between(-8, 8) as i32;
            let affect_rows = random_between(1, 11) as usize;
            let start_x = random_between(0, width as i64) as usize;
            let widest: i64 = if width / 4 > 10 { (width / 4) as i64 } else { 10 };
            let segment = random_between(10, widest + 1) as usize;
            let end_x = if start_x + segment < width { start_x + segment } else { width };
            let reverse = chance(3, 10);
            let mut dy: usize = 0;
            while dy < affect_rows && y + dy < height
                invariant
                    fb.wf(),
                    fb.width == width,
                    fb.height == height,
                    fb.depth@ == old(fb).depth@,
                    snapshot@ == old(fb).data@,
                    1 <= width <= MAX_DIM,
                    1 <= height <= MAX_DIM,
                    y < height,
                    start_x <= end_x <= width,
                    1 <= affect_rows <= 10,
                    dy <= affect_rows,
                    fb.data@.len() == snapshot@.len(),
                    forall|i: int| 0 <= i < fb.data@.len() ==> glitch_derived(snapshot@, #[trigger] fb.data@[i]),
                decreases affect_rows - dy,
            {
                let mut tweaks: Vec<PixelTweak> = Vec::new();
                let mut x = start_x;
                while x < end_x
                    invariant
                        start_x <= x <= end_x,
                        tweaks@.len() == x - start_x,
                        forall|k: int| 0 <= k < tweaks@.len() ==> swap_ok(#[trigger] tweaks@[k]),
                    decreases end_x - x,
                {
                    tweaks.push(draw_tweak());
                    x = x + 1;
                }
                apply_band_row(fb, &snapshot, y + dy, offset, start_x, end_x, reverse, &tweaks);
                dy = dy + 1;
            }
        } else {
            let mut jitter: Vec<Option<Jitter>> = Vec::new();
            let mut x: usize = 0;
            while x < width
                invariant
                    0 <= x <= width,
                    jitter@.len() == x,
                decreases width - x,
            {
                if chance(1, 50) {
                    let dx = random_between(-3, 3) as i32;
                    let dy = random_between(-1, 1) as i32;
                    jitter.push(Some(Jitter { dx, dy }));
                } else {
                    jitter.push(None);
                }
                x = x + 1;
            }
            apply_jitter_row(fb, &snapshot, y, &jitter);
        }
        y = y + 1;
    }
}

} // verus!
