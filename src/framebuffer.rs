//! Colour and depth storage with the depth-tested write, box-filter supersampling and
//! conversion to 8-bit RGBA.
use vstd::prelude::*;
use crate::math::{clamp01, floor_div, fx_clamp01, HALF, ONE};
use crate::vector::Vec4;

verus! {

/// Largest width or height: pixel centres must stay addressable in 16.16 fixed point.
pub const MAX_DIM: usize = 32767;

/// Colour (RGBA, fixed point) and depth (`0` near, `ONE` far) of each pixel, row-major.
#[derive(Clone, Debug)]
pub struct FrameBuffer {
    pub width: usize,
    pub height: usize,
    pub data: Vec<Vec4>,
    pub depth: Vec<i32>,
}

/// What a frame buffer holds.
pub struct FrameView {
    pub width: nat,
    pub height: nat,
    pub color: Seq<Vec4>,
    pub depth: Seq<i32>,
}

impl View for FrameBuffer {
    type V = FrameView;

    open spec fn view(&self) -> FrameView {
        FrameView {
            width: self.width as nat,
            height: self.height as nat,
            color: self.data@,
            depth: self.depth@,
        }
    }
}

impl FrameView {
    pub open spec fn wf(&self) -> bool {
        &&& self.width <= MAX_DIM
        &&& self.height <= MAX_DIM
        &&& self.color.len() == self.width * self.height
        &&& self.depth.len() == self.width * self.height
    }

    pub open spec fn index(&self, x: int, y: int) -> int {
        y * self.width + x
    }

    /// A write of depth `d` at `(x, y)` is committed: the pixel exists, `d` lies in
    /// `[0, ONE]` and is strictly nearer than what is stored.
    pub open spec fn accepts(&self, x: int, y: int, d: int) -> bool {
        &&& 0 <= x < self.width
        &&& 0 <= y < self.height
        &&& 0 <= d <= ONE
        &&& d < self.depth[self.index(x, y)]
    }

    /// The buffer after a depth-tested write.
    pub open spec fn put(self, x: int, y: int, c: Vec4, d: int) -> FrameView {
        if self.accepts(x, y, d) {
            FrameView {
                color: self.color.update(self.index(x, y), c),
                depth: self.depth.update(self.index(x, y), d as i32),
                ..self
            }
        } else {
            self
        }
    }
}

pub open spec fn chan(c: Vec4, k: int) -> int {
    if k == 0 {
        c.x as int
    } else if k == 1 {
        c.y as int
    } else if k == 2 {
        c.z as int
    } else {
        c.w as int
    }
}

/// Sum of channel `k` over `n` consecutive pixels from `start`.
pub open spec fn row_sum(s: Seq<Vec4>, start: int, n: int, k: int) -> int
    decreases n,
{
    if n <= 0 {
        0
    } else {
        row_sum(s, start, n - 1, k) + chan(s[start + n - 1], k)
    }
}

/// Sum of channel `k` over the `f`-wide rows `y0 .. y0 + m` from column `x0`.
pub open spec fn block_sum(s: Seq<Vec4>, w: int, x0: int, y0: int, f: int, m: int, k: int) -> int
    decreases m,
{
    if m <= 0 {
        0
    } else {
        block_sum(s, w, x0, y0, f, m - 1, k) + row_sum(s, (y0 + m - 1) * w + x0, f, k)
    }
}

/// Mean of channel `k` over the `f x f` block of output pixel `(ox, oy)`, rounded down.
pub open spec fn block_mean(v: FrameView, f: int, ox: int, oy: int, k: int) -> int {
    block_sum(v.color, v.width as int, ox * f, oy * f, f, f, k) / (f * f)
}

pub open spec fn ssaa_pixel(v: FrameView, f: int, ox: int, oy: int) -> Vec4 {
    Vec4 {
        x: block_mean(v, f, ox, oy, 0) as i32,
        y: block_mean(v, f, ox, oy, 1) as i32,
        z: block_mean(v, f, ox, oy, 2) as i32,
        w: block_mean(v, f, ox, oy, 3) as i32,
    }
}

/// A fixed-point channel as a byte: clamped to `[0, ONE]`, scaled to 255, rounded.
pub open spec fn to_byte(c: int) -> int {
    (clamp01(c) * 255 + HALF) / (ONE as int)
}

proof fn lemma_index_in(w: int, h: int, x: int, y: int)
    requires
        0 <= x < w,
        0 <= y < h,
        w <= MAX_DIM,
        h <= MAX_DIM,
    ensures
        0 <= y * w <= y * w + x < w * h <= MAX_DIM * MAX_DIM,
{
    assert(0 <= y * w <= y * w + x < w * h <= MAX_DIM * MAX_DIM) by (nonlinear_arith)
        requires
            0 <= x < w,
            0 <= y < h,
            w <= MAX_DIM,
            h <= MAX_DIM,
    ;
}

proof fn lemma_block_index(w: int, h: int, f: int, ox: int, oy: int, fx: int, fy: int)
    requires
        f >= 1,
        0 <= ox < w / f,
        0 <= oy < h / f,
        0 <= fx < f,
        0 <= fy < f,
        w <= MAX_DIM,
        h <= MAX_DIM,
    ensures
        0 <= ox * f + fx < w,
        0 <= oy * f + fy < h,
        f * f <= w * h,
{
    vstd::arithmetic::div_mod::lemma_fundamental_div_mod(w, f);
    vstd::arithmetic::div_mod::lemma_fundamental_div_mod(h, f);
    vstd::arithmetic::div_mod::lemma_mod_pos_bound(w, f);
    vstd::arithmetic::div_mod::lemma_mod_pos_bound(h, f);
    let qw = w / f;
    let qh = h / f;
    assert(0 <= ox * f + fx < w) by (nonlinear_arith)
        requires
            0 <= ox < qw,
            0 <= fx < f,
            w == f * qw + w % f,
            0 <= w % f,
    ;
    assert(0 <= oy * f + fy < h) by (nonlinear_arith)
        requires
            0 <= oy < qh,
            0 <= fy < f,
            h == f * qh + h % f,
            0 <= h % f,
    ;
    assert(f <= w) by (nonlinear_arith)
        requires
            1 <= qw,
            w == f * qw + w % f,
            0 <= w % f,
            f >= 1,
    ;
    assert(f <= h) by (nonlinear_arith)
        requires
            1 <= qh,
            h == f * qh + h % f,
            0 <= h % f,
            f >= 1,
    ;
    assert(f * f <= w * h) by (nonlinear_arith)
        requires
            1 <= f <= w,
            f <= h,
    ;
}

proof fn lemma_mean_in_range(s: int, n: int)
    requires
        n >= 1,
        i32::MIN * n <= s <= i32::MAX * n,
    ensures
        i32::MIN <= s / n <= i32::MAX,
{
    vstd::arithmetic::div_mod::lemma_div_is_ordered(i32::MIN * n, s, n);
    vstd::arithmetic::div_mod::lemma_div_is_ordered(s, i32::MAX * n, n);
    vstd::arithmetic::div_mod::lemma_div_multiples_vanish(i32::MIN as int, n);
    vstd::arithmetic::div_mod::lemma_div_multiples_vanish(i32::MAX as int, n);
    assert(i32::MIN * n == n * i32::MIN);
    assert(i32::MAX * n == n * i32::MAX);
}

proof fn lemma_output_index(nw: int, px: int, py: int, oy: int)
    requires
        0 <= px < nw,
        0 <= py < oy,
    ensures
        0 <= py * nw + px < oy * nw,
{
    assert(0 <= py * nw + px < oy * nw) by (nonlinear_arith)
        requires
            0 <= px < nw,
            0 <= py < oy,
    ;
}


/// Writing a pixel at depth `d1` and then at a depth `d2 >= d1` leaves the buffer as the
/// first write left it; when the first write was committed, a second write at a depth
/// `0 <= d2 < d1` replaces both colour and depth.
pub proof fn lemma_depth_test_monotone(
    v: FrameView,
    x: int,
    y: int,
    c1: Vec4,
    d1: int,
    c2: Vec4,
    d2: int,
)
    requires
        v.wf(),
        0 <= d1,
    ensures
        d2 >= d1 ==> v.put(x, y, c1, d1).put(x, y, c2, d2) == v.put(x, y, c1, d1),
        v.accepts(x, y, d1) && 0 <= d2 < d1 ==> ({
            let after = v.put(x, y, c1, d1).put(x, y, c2, d2);
            &&& after.color[v.index(x, y)] == c2
            &&& after.depth[v.index(x, y)] == d2
            &&& after.width == v.width
            &&& after.height == v.height
        }),
{
    if 0 <= x < v.width && 0 <= y < v.height {
        lemma_index_in(v.width as int, v.height as int, x, y);
    }
}

proof fn lemma_row_sum_uniform(s: Seq<Vec4>, start: int, n: int, k: int, c: Vec4)
    requires
        0 <= n,
        forall|j: int| start <= j < start + n ==> s[j] == c,
    ensures
        row_sum(s, start, n, k) == n * chan(c, k),
    decreases n,
{
    if n == 0 {
        assert(0 * chan(c, k) == 0);
    } else {
        assert(s[start + n - 1] == c);
        lemma_row_sum_uniform(s, start, n - 1, k, c);
        assert((n - 1) * chan(c, k) + chan(c, k) == n * chan(c, k)) by (nonlinear_arith);
    }
}

proof fn lemma_block_sum_uniform(v: FrameView, f: int, ox: int, oy: int, m: int, k: int, c: Vec4)
    requires
        v.wf(),
        f >= 1,
        0 <= ox < (v.width as int) / f,
        0 <= oy < (v.height as int) / f,
        0 <= m <= f,
        forall|i: int| 0 <= i < v.color.len() ==> v.color[i] == c,
    ensures
        block_sum(v.color, v.width as int, ox * f, oy * f, f, m, k) == m * f * chan(c, k),
    decreases m,
{
    if m == 0 {
        assert(0 * f * chan(c, k) == 0) by (nonlinear_arith);
    } else {
        let w = v.width as int;
        let h = v.height as int;
        lemma_block_sum_uniform(v, f, ox, oy, m - 1, k, c);
        let start = (oy * f + m - 1) * w + ox * f;
        assert forall|j: int| start <= j < start + f implies v.color[j] == c by {
            let fx = j - start;
            lemma_block_index(w, h, f, ox, oy, fx, m - 1);
            lemma_index_in(w, h, ox * f + fx, oy * f + m - 1);
        }
        lemma_row_sum_uniform(v.color, start, f, k, c);
        assert((m - 1) * f * chan(c, k) + f * chan(c, k) == m * f * chan(c, k)) by (nonlinear_arith);
    }
}

/// Downsampling a buffer whose pixels all hold one colour gives that colour in every
/// output pixel, for any factor.
pub proof fn lemma_ssaa_uniform(v: FrameView, f: int, c: Vec4)
    requires
        v.wf(),
        f >= 1,
        forall|i: int| 0 <= i < v.color.len() ==> v.color[i] == c,
    ensures
        forall|ox: int, oy: int|
            0 <= ox < (v.width as int) / f && 0 <= oy < (v.height as int) / f ==> ssaa_pixel(v, f, ox, oy) == c,
{
    assert forall|ox: int, oy: int|
        0 <= ox < (v.width as int) / f && 0 <= oy < (v.height as int) / f implies ssaa_pixel(v, f, ox, oy) == c by {
        assert forall|k: int| 0 <= k < 4 implies block_mean(v, f, ox, oy, k) == chan(c, k) by {
            lemma_block_sum_uniform(v, f, ox, oy, f, k, c);
            assert(f * f * chan(c, k) == chan(c, k) * (f * f)) by (nonlinear_arith);
            assert(f * f > 0) by (nonlinear_arith)
                requires
                    f >= 1,
            ;
            vstd::arithmetic::div_mod::lemma_div_multiples_vanish(chan(c, k), f * f);
            assert((f * f) * chan(c, k) == chan(c, k) * (f * f)) by (nonlinear_arith);
        }
        assert(block_mean(v, f, ox, oy, 0) == chan(c, 0));
        assert(block_mean(v, f, ox, oy, 1) == chan(c, 1));
        assert(block_mean(v, f, ox, oy, 2) == chan(c, 2));
        assert(block_mean(v, f, ox, oy, 3) == chan(c, 3));
    }
}

/// A depth as a grey level: `255 (ONE - d) / ONE`, rounded down, `d` clamped to `[0, ONE]`.
pub open spec fn gray_byte(d: int) -> int {
    ((ONE - clamp01(d)) * 255) / (ONE as int)
}

fn channel_byte(c: i32) -> (r: u8)
    ensures
        r == to_byte(c as int),
{
    let v = fx_clamp01(c);
    proof {
        assert(v * 255 + HALF <= ONE * 255 + HALF) by (nonlinear_arith)
            requires
                0 <= v <= ONE,
        ;
        vstd::arithmetic::div_mod::lemma_div_is_ordered(v * 255 + HALF, ONE * 255 + HALF, ONE as int);
        assert(0 <= v * 255) by (nonlinear_arith)
            requires
                0 <= v,
        ;
    }
    ((v as u32 * 255 + HALF as u32) / ONE as u32) as u8
}

impl FrameBuffer {
    pub open spec fn wf(&self) -> bool {
        self@.wf()
    }

    /// A buffer of transparent black at the far depth.
    pub fn new(width: usize, height: usize) -> (r: FrameBuffer)
        requires
            width <= MAX_DIM,
            height <= MAX_DIM,
        ensures
            r.wf(),
            r.width == width,
            r.height == height,
            forall|i: int|
                0 <= i < width * height ==> r.data@[i] == (Vec4 { x: 0, y: 0, z: 0, w: 0 }),
            forall|i: int| 0 <= i < width * height ==> r.depth@[i] == ONE,
    {
        proof {
            assert(width * height <= MAX_DIM * MAX_DIM) by (nonlinear_arith)
                requires
                    width <= MAX_DIM,
                    height <= MAX_DIM,
            ;
        }
        let n = width * height;
        let data = vec![Vec4 { x: 0, y: 0, z: 0, w: 0 }; n];
        let depth = vec![ONE; n];
        FrameBuffer { width, height, data, depth }
    }

    /// Every pixel takes `color` and the far depth.
    pub fn clear(&mut self, color: Vec4)
        requires
            old(self).wf(),
        ensures
            final(self).wf(),
            final(self).width == old(self).width,
            final(self).height == old(self).height,
            forall|i: int| 0 <= i < final(self).data@.len() ==> final(self).data@[i] == color,
            forall|i: int| 0 <= i < final(self).depth@.len() ==> final(self).depth@[i] == ONE,
    {
        let n = self.data.len();
        let mut i: usize = 0;
        while i < n
            invariant
                self.wf(),
                self.width == old(self).width,
                self.height == old(self).height,
                n == self.data@.len(),
                0 <= i <= n,
                forall|j: int| 0 <= j < i ==> self.data@[j] == color,
                forall|j: int| 0 <= j < i ==> self.depth@[j] == ONE,
            decreases n - i,
        {
            self.data.set(i, color);
            self.depth.set(i, ONE);
            i = i + 1;
        }
    }

    /// Writes `color` and `depth` at `(x, y)` when the pixel exists, `depth` lies in
    /// `[0, ONE]` and is strictly nearer than the stored depth; otherwise does nothing.
    pub fn put_pixel(&mut self, x: usize, y: usize, color: Vec4, depth: i32)
        requires
            old(self).wf(),
        ensures
            final(self).wf(),
            final(self)@ == old(self)@.put(x as int, y as int, color, depth as int),
    {
        if x < self.width && y < self.height {
            proof {
                lemma_index_in(self.width as int, self.height as int, x as int, y as int);
                assert(self.data@.len() == self.width * self.height);
            }
            let idx = y * self.width + x;
            if 0 <= depth && depth <= ONE && depth < self.depth[idx] {
                self.data.set(idx, color);
                self.depth.set(idx, depth);
            }
        }
        proof {
            assert(final(self)@.color =~= old(self)@.put(x as int, y as int, color, depth as int).color);
            assert(final(self)@.depth =~= old(self)@.put(x as int, y as int, color, depth as int).depth);
        }
    }

    /// Mean colour of the `f x f` block of source pixels behind output pixel `(ox, oy)`.
    fn block_mean_exec(&self, f: usize, ox: usize, oy: usize) -> (r: Vec4)
        requires
            self.wf(),
            f >= 1,
            ox < self.width / f,
            oy < self.height / f,
        ensures
            r == ssaa_pixel(self@, f as int, ox as int, oy as int),
    {
        let ghost v = self@;
        let ghost w = self.width as int;
        proof {
            lemma_block_index(w, self.height as int, f as int, ox as int, oy as int, 0, 0);
            assert(f * f <= MAX_DIM * MAX_DIM) by (nonlinear_arith)
                requires
                    f * f <= self.width * self.height,
                    self.width <= MAX_DIM,
                    self.height <= MAX_DIM,
            ;
        }
        let x0 = ox * f;
        let y0 = oy * f;
        let mut s0: i128 = 0;
        let mut s1: i128 = 0;
        let mut s2: i128 = 0;
        let mut s3: i128 = 0;
        let mut fy: usize = 0;
        while fy < f
            invariant
                self.wf(),
                v == self@,
                w == self.width,
                f >= 1,
                ox < self.width / f,
                oy < self.height / f,
                x0 == ox * f,
                y0 == oy * f,
                f * f <= MAX_DIM * MAX_DIM,
                0 <= fy <= f,
                s0 == block_sum(v.color, w, x0 as int, y0 as int, f as int, fy as int, 0),
                s1 == block_sum(v.color, w, x0 as int, y0 as int, f as int, fy as int, 1),
                s2 == block_sum(v.color, w, x0 as int, y0 as int, f as int, fy as int, 2),
                s3 == block_sum(v.color, w, x0 as int, y0 as int, f as int, fy as int, 3),
                i32::MIN * (fy * f) <= s0 <= i32::MAX * (fy * f),
                i32::MIN * (fy * f) <= s1 <= i32::MAX * (fy * f),
                i32::MIN * (fy * f) <= s2 <= i32::MAX * (fy * f),
                i32::MIN * (fy * f) <= s3 <= i32::MAX * (fy * f),
            decreases f - fy,
        {
            proof {
                lemma_block_index(w, self.height as int, f as int, ox as int, oy as int, 0, fy as int);
                lemma_index_in(w, self.height as int, x0 as int, (y0 + fy) as int);
            }
            let row_start = (y0 + fy) * self.width + x0;
            let ghost b0 = s0;
            let ghost b1 = s1;
            let ghost b2 = s2;
            let ghost b3 = s3;
            let mut fx: usize = 0;
            while fx < f
                invariant
                    self.wf(),
                    v == self@,
                    w == self.width,
                    f >= 1,
                    ox < self.width / f,
                    oy < self.height / f,
                    x0 == ox * f,
                    y0 == oy * f,
                    fy < f,
                    f * f <= MAX_DIM * MAX_DIM,
                    row_start == (y0 + fy) * w + x0,
                    0 <= fx <= f,
                    s0 == b0 + row_sum(v.color, row_start as int, fx as int, 0),
                    s1 == b1 + row_sum(v.color, row_start as int, fx as int, 1),
                    s2 == b2 + row_sum(v.color, row_start as int, fx as int, 2),
                    s3 == b3 + row_sum(v.color, row_start as int, fx as int, 3),
                    i32::MIN * (fy * f + fx) <= s0 <= i32::MAX * (fy * f + fx),
                    i32::MIN * (fy * f + fx) <= s1 <= i32::MAX * (fy * f + fx),
                    i32::MIN * (fy * f + fx) <= s2 <= i32::MAX * (fy * f + fx),
                    i32::MIN * (fy * f + fx) <= s3 <= i32::MAX * (fy * f + fx),
                decreases f - fx,
            {
                proof {
                    lemma_block_index(
                        w,
                        self.height as int,
                        f as int,
                        ox as int,
                        oy as int,
                        fx as int,
                        fy as int,
                    );
                    lemma_index_in(w, self.height as int, (x0 + fx) as int, (y0 + fy) as int);
                    assert((y0 + fy) * w + x0 + fx == row_start + fx);
                    assert(fy * f + fx < f * f) by (nonlinear_arith)
                        requires
                            fy < f,
                            fx < f,
                    ;
                }
                let c = self.data[row_start + fx];
                s0 = s0 + c.x as i128;
                s1 = s1 + c.y as i128;
                s2 = s2 + c.z as i128;
                s3 = s3 + c.w as i128;
                fx = fx + 1;
            }
            proof {
                assert((fy + 1) * f == fy * f + f) by (nonlinear_arith);
            }
            fy = fy + 1;
        }
        let n = (f * f) as i128;
        proof {
            assert(f * f >= 1) by (nonlinear_arith)
                requires
                    f >= 1,
            ;
            lemma_mean_in_range(s0 as int, n as int);
            lemma_mean_in_range(s1 as int, n as int);
            lemma_mean_in_range(s2 as int, n as int);
            lemma_mean_in_range(s3 as int, n as int);
        }
        Vec4 {
            x: floor_div(s0, n) as i32,
            y: floor_div(s1, n) as i32,
            z: floor_div(s2, n) as i32,
            w: floor_div(s3, n) as i32,
        }
    }

    /// Box-filter downsampling by `factor`: each output pixel is the per-channel mean of a
    /// `factor x factor` block. With `factor == 1` the result is a copy; otherwise the
    /// depth of the result is the far value.
    pub fn ssaa(&self, factor: usize) -> (r: FrameBuffer)
        requires
            self.wf(),
            factor >= 1,
        ensures
            r.wf(),
            r.width == self.width / factor,
            r.height == self.height / factor,
            forall|ox: int, oy: int|
                0 <= ox < r.width && 0 <= oy < r.height ==> r.data@[oy * r.width + ox]
                    == ssaa_pixel(self@, factor as int, ox, oy),
            factor == 1 ==> r.data@ == self.data@ && r.depth@ == self.depth@,
            factor > 1 ==> forall|i: int| 0 <= i < r.depth@.len() ==> r.depth@[i] == ONE,
    {
        if factor == 1 {
            assert(self.width / 1 == self.width && self.height / 1 == self.height);
            let r = FrameBuffer {
                width: self.width,
                height: self.height,
                data: self.data.clone(),
                depth: self.depth.clone(),
            };
            proof {
                assert(r.data@ =~= self.data@);
                assert(r.depth@ =~= self.depth@);
                assert forall|ox: int, oy: int|
                    0 <= ox < r.width && 0 <= oy < r.height implies r.data@[oy * r.width + ox]
                    == ssaa_pixel(self@, 1, ox, oy) by {
                    lemma_index_in(self.width as int, self.height as int, ox, oy);
                    let c = self.data@[oy * self.width + ox];
                    let idx = oy * self.width + ox;
                    assert(ox * 1 == ox && oy * 1 == oy);
                    assert((oy + 0) * self.width + ox == idx);
                    assert forall|k: int| 0 <= k < 4 implies block_sum(
                        self.data@,
                        self.width as int,
                        ox,
                        oy,
                        1,
                        1,
                        k,
                    ) == chan(c, k) by {
                        assert(row_sum(self.data@, idx, 0, k) == 0);
                        assert(idx + 1 - 1 == idx);
                        assert(row_sum(self.data@, idx, 1, k) == row_sum(self.data@, idx, 0, k) + chan(self.data@[idx], k));
                        assert(row_sum(self.data@, idx, 1, k) == chan(c, k));
                        assert(block_sum(self.data@, self.width as int, ox, oy, 1, 0, k) == 0);
                    }
                    assert(block_sum(self.data@, self.width as int, ox, oy, 1, 1, 0) == chan(c, 0));
                    assert(block_sum(self.data@, self.width as int, ox, oy, 1, 1, 1) == chan(c, 1));
                    assert(block_sum(self.data@, self.width as int, ox, oy, 1, 1, 2) == chan(c, 2));
                    assert(block_sum(self.data@, self.width as int, ox, oy, 1, 1, 3) == chan(c, 3));
                    assert forall|k: int| 0 <= k < 4 implies block_mean(self@, 1, ox, oy, k) == chan(c, k) by {
                        assert(block_sum(self.data@, self.width as int, ox * 1, oy * 1, 1, 1, k) == chan(c, k));
                        assert(chan(c, k) / (1int * 1int) == chan(c, k));
                    }
                    assert(block_mean(self@, 1, ox, oy, 0) == chan(c, 0));
                    assert(block_mean(self@, 1, ox, oy, 1) == chan(c, 1));
                    assert(block_mean(self@, 1, ox, oy, 2) == chan(c, 2));
                    assert(block_mean(self@, 1, ox, oy, 3) == chan(c, 3));
                }
            }
            return r;
        }
        let nw = self.width / factor;
        let nh = self.height / factor;
        proof {
            vstd::arithmetic::div_mod::lemma_div_is_ordered_by_denominator(self.width as int, 1, factor as int);
            vstd::arithmetic::div_mod::lemma_div_is_ordered_by_denominator(self.height as int, 1, factor as int);
            assert(nw * nh <= MAX_DIM * MAX_DIM) by (nonlinear_arith)
                requires
                    nw <= MAX_DIM,
                    nh <= MAX_DIM,
            ;
        }
        let mut data: Vec<Vec4> = Vec::new();
        let mut oy: usize = 0;
        while oy < nh
            invariant
                self.wf(),
                factor >= 1,
                nw == self.width / factor,
                nh == self.height / factor,
                nw <= MAX_DIM,
                nh <= MAX_DIM,
                0 <= oy <= nh,
                data@.len() == oy * nw,
                forall|px: int, py: int|
                    0 <= px < nw && 0 <= py < oy ==> data@[py * nw + px] == ssaa_pixel(
                        self@,
                        factor as int,
                        px,
                        py,
                    ),
            decreases nh - oy,
        {
            let mut ox: usize = 0;
            while ox < nw
                invariant
                    self.wf(),
                    factor >= 1,
                    nw == self.width / factor,
                    nh == self.height / factor,
                    nw <= MAX_DIM,
                    nh <= MAX_DIM,
                    oy < nh,
                    0 <= ox <= nw,
                    data@.len() == oy * nw + ox,
                    forall|px: int, py: int|
                        0 <= px < nw && 0 <= py < oy ==> data@[py * nw + px] == ssaa_pixel(
                            self@,
                            factor as int,
                            px,
                            py,
                        ),
                    forall|px: int|
                        0 <= px < ox ==> data@[oy * nw + px] == ssaa_pixel(
                            self@,
                            factor as int,
                            px,
                            oy as int,
                        ),
                decreases nw - ox,
            {
                proof {
                    lemma_index_in(nw as int, nh as int, ox as int, oy as int);
                }
                let c = self.block_mean_exec(factor, ox, oy);
                let ghost before = data@;
                data.push(c);
                proof {
                    assert forall|px: int, py: int|
                        0 <= px < nw && 0 <= py < oy implies data@[py * nw + px] == ssaa_pixel(
                        self@,
                        factor as int,
                        px,
                        py,
                    ) by {
                        lemma_output_index(nw as int, px, py, oy as int);
                        assert(data@[py * nw + px] == before[py * nw + px]);
                    }
                }
                ox = ox + 1;
            }
            proof {
                assert((oy + 1) * nw == oy * nw + nw) by (nonlinear_arith);
                assert forall|px: int, py: int|
                    0 <= px < nw && 0 <= py < oy + 1 implies data@[py * nw + px] == ssaa_pixel(
                    self@,
                    factor as int,
                    px,
                    py,
                ) by {
                    if py < oy {
                    } else {
                        assert(py == oy);
                    }
                }
            }
            oy = oy + 1;
        }
        let depth = vec![ONE; nw * nh];
        proof {
            assert(nh * nw == nw * nh) by (nonlinear_arith);
        }
        FrameBuffer { width: nw, height: nh, data, depth }
    }
    /// The colour buffer as 8-bit RGBA, row-major: each channel clamped to `[0, ONE]`,
    /// scaled to 255 and rounded.
    pub fn to_rgba8(&self) -> (r: Vec<u8>)
        requires
            self.wf(),
        ensures
            r@.len() == 4 * self.data@.len(),
            forall|i: int, k: int|
                0 <= i < self.data@.len() && 0 <= k < 4 ==> r@[4 * i + k] == to_byte(
                    chan(self.data@[i], k),
                ),
    {
        let n = self.data.len();
        proof {
            assert(self.width * self.height <= MAX_DIM * MAX_DIM) by (nonlinear_arith)
                requires
                    self.width <= MAX_DIM,
                    self.height <= MAX_DIM,
            ;
        }
        let mut out: Vec<u8> = Vec::new();
        let mut i: usize = 0;
        while i < n
            invariant
                n == self.data@.len(),
                n <= MAX_DIM * MAX_DIM,
                0 <= i <= n,
                out@.len() == 4 * i,
                forall|j: int, k: int|
                    0 <= j < i && 0 <= k < 4 ==> out@[4 * j + k] == to_byte(chan(self.data@[j], k)),
            decreases n - i,
        {
            let c = self.data[i];
            out.push(channel_byte(c.x));
            out.push(channel_byte(c.y));
            out.push(channel_byte(c.z));
            out.push(channel_byte(c.w));
            proof {
                assert forall|j: int, k: int| 0 <= j < i + 1 && 0 <= k < 4 implies out@[4 * j + k]
                    == to_byte(chan(self.data@[j], k)) by {
                    if j == i {
                        assert(k == 0 || k == 1 || k == 2 || k == 3);
                    }
                }
            }
            i = i + 1;
        }
        out
    }

    /// The depth buffer as 8-bit grey, near bright and far dark: `255 (1 - d)`, rounded
    /// down, with `d` clamped to `[0, ONE]`.
    pub fn depth_to_gray8(&self) -> (r: Vec<u8>)
        requires
            self.wf(),
        ensures
            r@.len() == self.depth@.len(),
            forall|i: int| 0 <= i < self.depth@.len() ==> r@[i] == gray_byte(self.depth@[i] as int),
    {
        let n = self.depth.len();
        let mut out: Vec<u8> = Vec::new();
        let mut i: usize = 0;
        while i < n
            invariant
                n == self.depth@.len(),
                0 <= i <= n,
                out@.len() == i,
                forall|j: int| 0 <= j < i ==> out@[j] == gray_byte(self.depth@[j] as int),
            decreases n - i,
        {
            let d = fx_clamp01(self.depth[i]);
            proof {
                assert((ONE - d) * 255 <= ONE * 255) by (nonlinear_arith)
                    requires
                        0 <= d <= ONE,
                ;
                vstd::arithmetic::div_mod::lemma_div_is_ordered((ONE - d) * 255, ONE * 255, ONE as int);
                assert(0 <= (ONE - d) * 255) by (nonlinear_arith)
                    requires
                        0 <= d <= ONE,
                ;
            }
            out.push((((ONE - d) as u32 * 255) / ONE as u32) as u8);
            i = i + 1;
        }
        out
    }
}

} // verus!
