//! The resampler: maps the source raster onto the target grid through a
//! selectable kernel.
//!
//! A target cell `x` samples the source at the rational coordinate
//! `(x + off/100) * (iw - 1) / w`, held exactly as the integer pair
//! `((100*x + off) * (iw - 1), 100 * w)`.  Nearest-source kernels round
//! that rational by one of three rules; the blending kernels interpolate
//! channels as exact rationals and truncate.  Any tap outside the source
//! raster reads the fully transparent sentinel.
use vstd::prelude::*;

use crate::sprite::{pixel_at, pixel_or_default, Sprite};
use crate::Color;

verus! {

/// The interpolation kernel of the resampler.
#[derive(Clone, Copy, PartialEq, Eq, Structural, Debug)]
pub enum SampleMode {
    Round,
    Floor,
    Ceiling,
    Linear,
    Bicubic,
    Lanczos,
}

impl Default for SampleMode {
    fn default() -> (m: SampleMode)
        ensures
            m == SampleMode::Round,
    {
        SampleMode::Round
    }
}

/// Numerator of the source coordinate of target cell `x` under offset
/// `off`, over denominator `coord_den(w)`.
pub open spec fn coord_num(x: int, off: int, iw: int) -> int {
    (100 * x + off) * (iw - 1)
}

/// Denominator of the source coordinate for target extent `w`.
pub open spec fn coord_den(w: int) -> int {
    100 * w
}

/// `n / d` rounded half away from zero, negatives saturated to zero.
pub open spec fn round_coord(n: int, d: int) -> int {
    if n <= 0 {
        0
    } else {
        (2 * n + d) / (2 * d)
    }
}

/// `n / d` rounded down, negatives saturated to zero.
pub open spec fn floor_coord(n: int, d: int) -> int {
    if n < 0 {
        0
    } else {
        n / d
    }
}

/// `n / d` rounded up, negatives saturated to zero.
pub open spec fn ceil_coord(n: int, d: int) -> int {
    if n <= 0 {
        0
    } else {
        (n - 1) / d + 1
    }
}

/// A nearest-source resampled buffer under a given rounding rule:
/// 0 = round, 1 = floor, 2 = ceiling.
pub open spec fn sample_nearest_spec(
    data: Seq<Color>,
    iw: int,
    ih: int,
    w: int,
    h: int,
    ox: int,
    oy: int,
    rule: int,
) -> Seq<Color> {
    Seq::new(
        (w * h) as nat,
        |i: int|
            {
                let nx = coord_num(i % w, ox, iw);
                let ny = coord_num(i / w, oy, ih);
                let cx = if rule == 0 {
                    round_coord(nx, coord_den(w))
                } else if rule == 1 {
                    floor_coord(nx, coord_den(w))
                } else {
                    ceil_coord(nx, coord_den(w))
                };
                let cy = if rule == 0 {
                    round_coord(ny, coord_den(h))
                } else if rule == 1 {
                    floor_coord(ny, coord_den(h))
                } else {
                    ceil_coord(ny, coord_den(h))
                };
                pixel_at(data, iw, ih, cx, cy)
            },
    )
}

/// Dimension and offset bounds under which the kernels are computed
/// exactly in machine integers.
pub open spec fn sample_dims_ok(
    mode: SampleMode,
    iw: int,
    ih: int,
    w: int,
    h: int,
    ox: int,
    oy: int,
) -> bool {
    1 <= iw <= 0xffff && 1 <= ih <= 0xffff && 1 <= w <= 0xffff && 1 <= h <= 0xffff && -100000
        <= ox <= 100000 && -100000 <= oy <= 100000 && (mode == SampleMode::Bicubic ==> iw <= 2048
        && ih <= 2048 && w <= 2048 && h <= 2048 && -100 <= ox <= 100 && -100 <= oy <= 100)
}

fn coord_parts(x: usize, off: i32, iw: usize, w: usize) -> (r: (i64, i64))
    requires
        x < w,
        1 <= iw <= 0xffff,
        1 <= w <= 0xffff,
        -100000 <= off <= 100000,
    ensures
        r.0 == coord_num(x as int, off as int, iw as int),
        r.1 == coord_den(w as int),
        -6600000000000 <= r.0 <= 6600000000000,
        100 <= r.1 <= 6553500,
{
    let base: i64 = 100 * x as i64 + off as i64;
    assert(-6600000000000 <= base * (iw as i64 - 1) <= 6600000000000) by (nonlinear_arith)
        requires
            -100000 <= base <= 6653500,
            0 <= iw as i64 - 1 <= 65534,
    ;
    let n: i64 = base * (iw as i64 - 1);
    (n, 100 * w as i64)
}

fn round_coord_fn(n: i64, d: i64) -> (c: i64)
    requires
        1 <= d <= 10000000,
        -7000000000000 <= n <= 7000000000000,
    ensures
        c == round_coord(n as int, d as int),
        0 <= c,
{
    if n <= 0 {
        0
    } else {
        (2 * n + d) / (2 * d)
    }
}

fn floor_coord_fn(n: i64, d: i64) -> (c: i64)
    requires
        1 <= d <= 10000000,
        -7000000000000 <= n <= 7000000000000,
    ensures
        c == floor_coord(n as int, d as int),
        0 <= c,
{
    if n < 0 {
        0
    } else {
        n / d
    }
}

fn ceil_coord_fn(n: i64, d: i64) -> (c: i64)
    requires
        1 <= d <= 10000000,
        -7000000000000 <= n <= 7000000000000,
    ensures
        c == ceil_coord(n as int, d as int),
        0 <= c,
{
    if n <= 0 {
        0
    } else {
        (n - 1) / d + 1
    }
}

fn sample_nearest(
    input: &Sprite,
    width: usize,
    height: usize,
    ox: i32,
    oy: i32,
    rule: u8,
) -> (out: Vec<Color>)
    requires
        input.wf(),
        rule < 3,
        sample_dims_ok(
            SampleMode::Round,
            input.width as int,
            input.height as int,
            width as int,
            height as int,
            ox as int,
            oy as int,
        ),
    ensures
        out@ == sample_nearest_spec(
            input.data@,
            input.width as int,
            input.height as int,
            width as int,
            height as int,
            ox as int,
            oy as int,
            rule as int,
        ),
{
    let ghost gspec = sample_nearest_spec(
        input.data@,
        input.width as int,
        input.height as int,
        width as int,
        height as int,
        ox as int,
        oy as int,
        rule as int,
    );
    assert(width * height <= 0xffff * 0xffff) by (nonlinear_arith)
        requires
            width <= 0xffff,
            height <= 0xffff,
    ;
    let n: usize = width * height;
    let mut out: Vec<Color> = Vec::new();
    let mut i: usize = 0;
    while i < n
        invariant
            input.wf(),
            input.width <= 0xffff,
            input.height <= 0xffff,
            rule < 3,
            n == width * height,
            sample_dims_ok(
                SampleMode::Round,
                input.width as int,
                input.height as int,
                width as int,
                height as int,
                ox as int,
                oy as int,
            ),
            gspec == sample_nearest_spec(
                input.data@,
                input.width as int,
                input.height as int,
                width as int,
                height as int,
                ox as int,
                oy as int,
                rule as int,
            ),
            i <= n,
            out@.len() == i,
            forall|x: int| 0 <= x < i ==> out@[x] == gspec[x],
        decreases n - i,
    {
        let x: usize = i % width;
        let y: usize = i / width;
        assert(y < height) by (nonlinear_arith)
            requires
                i < n,
                n == width * height,
                width >= 1,
                y == i / width,
        ;
        let (nx, dx) = coord_parts(x, ox, input.width, width);
        let (ny, dy) = coord_parts(y, oy, input.height, height);
        let cx: i64 = if rule == 0 {
            round_coord_fn(nx, dx)
        } else if rule == 1 {
            floor_coord_fn(nx, dx)
        } else {
            ceil_coord_fn(nx, dx)
        };
        let cy: i64 = if rule == 0 {
            round_coord_fn(ny, dy)
        } else if rule == 1 {
            floor_coord_fn(ny, dy)
        } else {
            ceil_coord_fn(ny, dy)
        };
        let c = pixel_or_default(input, cx, cy);
        out.push(c);
        i = i + 1;
    }
    assert(out@ =~= gspec);
    out
}

/// Resamples by nearest source pixel, rounding the coordinate to the
/// nearest integer (half away from zero).
pub fn sample_round(input: &Sprite, width: usize, height: usize, ox: i32, oy: i32) -> (out: Vec<
    Color,
>)
    requires
        input.wf(),
        sample_dims_ok(
            SampleMode::Round,
            input.width as int,
            input.height as int,
            width as int,
            height as int,
            ox as int,
            oy as int,
        ),
    ensures
        out@ == sample_nearest_spec(
            input.data@,
            input.width as int,
            input.height as int,
            width as int,
            height as int,
            ox as int,
            oy as int,
            0,
        ),
{
    sample_nearest(input, width, height, ox, oy, 0)
}

/// Resamples by nearest source pixel, rounding the coordinate down.
pub fn sample_floor(input: &Sprite, width: usize, height: usize, ox: i32, oy: i32) -> (out: Vec<
    Color,
>)
    requires
        input.wf(),
        sample_dims_ok(
            SampleMode::Round,
            input.width as int,
            input.height as int,
            width as int,
            height as int,
            ox as int,
            oy as int,
        ),
    ensures
        out@ == sample_nearest_spec(
            input.data@,
            input.width as int,
            input.height as int,
            width as int,
            height as int,
            ox as int,
            oy as int,
            1,
        ),
{
    sample_nearest(input, width, height, ox, oy, 1)
}

/// Resamples by nearest source pixel, rounding the coordinate up.
pub fn sample_ceil(input: &Sprite, width: usize, height: usize, ox: i32, oy: i32) -> (out: Vec<
    Color,
>)
    requires
        input.wf(),
        sample_dims_ok(
            SampleMode::Round,
            input.width as int,
            input.height as int,
            width as int,
            height as int,
            ox as int,
            oy as int,
        ),
    ensures
        out@ == sample_nearest_spec(
            input.data@,
            input.width as int,
            input.height as int,
            width as int,
            height as int,
            ox as int,
            oy as int,
            2,
        ),
{
    sample_nearest(input, width, height, ox, oy, 2)
}

/// Resampler identity: mapping a raster onto a target grid of its own size
/// with zero offset under the ceiling rule reproduces it exactly.
pub proof fn lemma_sample_ceiling_identity(data: Seq<Color>, w: int, h: int)
    requires
        data.len() == w * h,
        1 <= w <= 0xffff,
        1 <= h <= 0xffff,
    ensures
        sample_nearest_spec(data, w, h, w, h, 0, 0, 2) == data,
{
    let out = sample_nearest_spec(data, w, h, w, h, 0, 0, 2);
    assert forall|i: int| 0 <= i < w * h implies out[i] == data[i] by {
        let x = i % w;
        let y = i / w;
        assert(0 <= x < w && 0 <= y < h && y * w + x == i) by (nonlinear_arith)
            requires
                0 <= i < w * h,
                1 <= w,
                x == i % w,
                y == i / w,
        ;
        lemma_ceil_coord_identity(x, w);
        lemma_ceil_coord_identity(y, h);
        assert(pixel_at(data, w, h, x, y) == data[i]);
    }
    assert(out =~= data);
}

proof fn lemma_ceil_coord_identity(x: int, w: int)
    requires
        0 <= x < w,
        1 <= w <= 0xffff,
    ensures
        ceil_coord(coord_num(x, 0, w), coord_den(w)) == x,
{
    let n = coord_num(x, 0, w);
    let d = coord_den(w);
    assert(n == 100 * x * (w - 1)) by (nonlinear_arith)
        requires
            n == (100 * x + 0) * (w - 1),
    ;
    if x == 0 || w == 1 {
        assert(n == 0) by (nonlinear_arith)
            requires
                n == 100 * x * (w - 1),
                x == 0 || w == 1,
        ;
    } else {
        assert(d * (x - 1) <= n - 1 && n - 1 < d * x && n > 0) by (nonlinear_arith)
            requires
                n == 100 * x * (w - 1),
                d == 100 * w,
                1 <= x < w,
        ;
        assert((n - 1) / d == x - 1) by (nonlinear_arith)
            requires
                d * (x - 1) <= n - 1 < d * x,
                d > 0,
        ;
    }
}

/// One bilinearly blended channel: the exact rational
/// `(1-sy)*((1-sx)*c1 + sx*c2) + sy*((1-sx)*c3 + sx*c4)` over denominator
/// `dx * dy`, truncated toward zero and clamped to `[0, 255]`.
pub open spec fn blend_channel(
    c1: int,
    c2: int,
    c3: int,
    c4: int,
    sxn: int,
    dx: int,
    syn: int,
    dy: int,
) -> int {
    let top = (dx - sxn) * c1 + sxn * c2;
    let bot = (dx - sxn) * c3 + sxn * c4;
    let num = (dy - syn) * top + syn * bot;
    let den = dx * dy;
    if num < 0 {
        0
    } else if num / den > 255 {
        255
    } else {
        num / den
    }
}

/// The bilinearly resampled buffer: each target cell blends the 2x2 source
/// neighborhood at its coordinate, every channel (alpha included)
/// interpolated independently.
pub open spec fn sample_linear_spec(
    data: Seq<Color>,
    iw: int,
    ih: int,
    w: int,
    h: int,
    ox: int,
    oy: int,
) -> Seq<Color> {
    Seq::new(
        (w * h) as nat,
        |i: int|
            {
                let nx = coord_num(i % w, ox, iw);
                let dx = coord_den(w);
                let ny = coord_num(i / w, oy, ih);
                let dy = coord_den(h);
                let ix = if nx < 0 {
                    0
                } else {
                    nx / dx
                };
                let sxn = nx - ix * dx;
                let iy = if ny < 0 {
                    0
                } else {
                    ny / dy
                };
                let syn = ny - iy * dy;
                let c1 = pixel_at(data, iw, ih, ix, iy);
                let c2 = pixel_at(data, iw, ih, ix + 1, iy);
                let c3 = pixel_at(data, iw, ih, ix, iy + 1);
                let c4 = pixel_at(data, iw, ih, ix + 1, iy + 1);
                Color {
                    red: blend_channel(
                        c1.red as int,
                        c2.red as int,
                        c3.red as int,
                        c4.red as int,
                        sxn,
                        dx,
                        syn,
                        dy,
                    ) as u8,
                    green: blend_channel(
                        c1.green as int,
                        c2.green as int,
                        c3.green as int,
                        c4.green as int,
                        sxn,
                        dx,
                        syn,
                        dy,
                    ) as u8,
                    blue: blend_channel(
                        c1.blue as int,
                        c2.blue as int,
                        c3.blue as int,
                        c4.blue as int,
                        sxn,
                        dx,
                        syn,
                        dy,
                    ) as u8,
                    alpha: blend_channel(
                        c1.alpha as int,
                        c2.alpha as int,
                        c3.alpha as int,
                        c4.alpha as int,
                        sxn,
                        dx,
                        syn,
                        dy,
                    ) as u8,
                }
            },
    )
}

fn blend_channel_fn(c1: u8, c2: u8, c3: u8, c4: u8, sxn: i64, dx: i64, syn: i64, dy: i64) -> (r:
    u8)
    requires
        1 <= dx <= 10000000,
        1 <= dy <= 10000000,
        -7000000000000 <= sxn <= 7000000000000,
        -7000000000000 <= syn <= 7000000000000,
    ensures
        r as int == blend_channel(
            c1 as int,
            c2 as int,
            c3 as int,
            c4 as int,
            sxn as int,
            dx as int,
            syn as int,
            dy as int,
        ),
{
    let wx: i128 = dx as i128 - sxn as i128;
    assert(-1800000000000000 <= wx * (c1 as i128) <= 1800000000000000 && -1800000000000000 <= (
    sxn as i128) * (c2 as i128) <= 1800000000000000 && -1800000000000000 <= wx * (c3 as i128)
        <= 1800000000000000 && -1800000000000000 <= (sxn as i128) * (c4 as i128)
        <= 1800000000000000) by (nonlinear_arith)
        requires
            -7000010000000 <= wx <= 7000010000000,
            -7000000000000 <= sxn as i128 <= 7000000000000,
            0 <= c1 as i128 <= 255,
            0 <= c2 as i128 <= 255,
            0 <= c3 as i128 <= 255,
            0 <= c4 as i128 <= 255,
    ;
    let top: i128 = wx * (c1 as i128) + (sxn as i128) * (c2 as i128);
    let bot: i128 = wx * (c3 as i128) + (sxn as i128) * (c4 as i128);
    let wy: i128 = dy as i128 - syn as i128;
    assert(-0x10000000000000000000000000 <= wy * top <= 0x10000000000000000000000000
        && -0x10000000000000000000000000 <= (syn as i128) * bot <= 0x10000000000000000000000000
        && 0 < (dx as i128) * (dy as i128) <= 100000000000000) by (nonlinear_arith)
        requires
            -7000010000000 <= wy <= 7000010000000,
            -7000000000000 <= syn as i128 <= 7000000000000,
            -3600000000000000 <= top <= 3600000000000000,
            -3600000000000000 <= bot <= 3600000000000000,
            1 <= dx as i128 <= 10000000,
            1 <= dy as i128 <= 10000000,
    ;
    let num: i128 = wy * top + (syn as i128) * bot;
    let den: i128 = (dx as i128) * (dy as i128);
    if num < 0 {
        0
    } else if num / den > 255 {
        255
    } else {
        (num / den) as u8
    }
}

/// Resamples by bilinear blending over each coordinate's 2x2 neighborhood.
pub fn sample_linear(input: &Sprite, width: usize, height: usize, ox: i32, oy: i32) -> (out: Vec<
    Color,
>)
    requires
        input.wf(),
        sample_dims_ok(
            SampleMode::Linear,
            input.width as int,
            input.height as int,
            width as int,
            height as int,
            ox as int,
            oy as int,
        ),
    ensures
        out@ == sample_linear_spec(
            input.data@,
            input.width as int,
            input.height as int,
            width as int,
            height as int,
            ox as int,
            oy as int,
        ),
{
    let ghost gspec = sample_linear_spec(
        input.data@,
        input.width as int,
        input.height as int,
        width as int,
        height as int,
        ox as int,
        oy as int,
    );
    assert(width * height <= 0xffff * 0xffff) by (nonlinear_arith)
        requires
            width <= 0xffff,
            height <= 0xffff,
    ;
    let n: usize = width * height;
    let mut out: Vec<Color> = Vec::new();
    let mut i: usize = 0;
    while i < n
        invariant
            input.wf(),
            input.width <= 0xffff,
            input.height <= 0xffff,
            n == width * height,
            sample_dims_ok(
                SampleMode::Linear,
                input.width as int,
                input.height as int,
                width as int,
                height as int,
                ox as int,
                oy as int,
            ),
            gspec == sample_linear_spec(
                input.data@,
                input.width as int,
                input.height as int,
                width as int,
                height as int,
                ox as int,
                oy as int,
            ),
            i <= n,
            out@.len() == i,
            forall|x: int| 0 <= x < i ==> out@[x] == gspec[x],
        decreases n - i,
    {
        let x: usize = i % width;
        let y: usize = i / width;
        assert(y < height) by (nonlinear_arith)
            requires
                i < n,
                n == width * height,
                width >= 1,
                y == i / width,
        ;
        let (nx, dx) = coord_parts(x, ox, input.width, width);
        let (ny, dy) = coord_parts(y, oy, input.height, height);
        let ix: i64 = if nx < 0 {
            0
        } else {
            nx / dx
        };
        proof {
            if nx >= 0 {
                assert(0 <= nx - (nx / dx) * dx < dx) by (nonlinear_arith)
                    requires
                        nx >= 0,
                        dx > 0,
                ;
                assert(0 <= nx / dx <= nx) by (nonlinear_arith)
                    requires
                        nx >= 0,
                        dx >= 1,
                ;
            }
        }
        let sxn: i64 = nx - ix * dx;
        let iy: i64 = if ny < 0 {
            0
        } else {
            ny / dy
        };
        proof {
            if ny >= 0 {
                assert(0 <= ny - (ny / dy) * dy < dy) by (nonlinear_arith)
                    requires
                        ny >= 0,
                        dy > 0,
                ;
                assert(0 <= ny / dy <= ny) by (nonlinear_arith)
                    requires
                        ny >= 0,
                        dy >= 1,
                ;
            }
        }
        let syn: i64 = ny - iy * dy;
        let c1 = pixel_or_default(input, ix, iy);
        let c2 = pixel_or_default(input, ix + 1, iy);
        let c3 = pixel_or_default(input, ix, iy + 1);
        let c4 = pixel_or_default(input, ix + 1, iy + 1);
        let r = blend_channel_fn(c1.red, c2.red, c3.red, c4.red, sxn, dx, syn, dy);
        let g = blend_channel_fn(c1.green, c2.green, c3.green, c4.green, sxn, dx, syn, dy);
        let b = blend_channel_fn(c1.blue, c2.blue, c3.blue, c4.blue, sxn, dx, syn, dy);
        let a = blend_channel_fn(c1.alpha, c2.alpha, c3.alpha, c4.alpha, sxn, dx, syn, dy);
        out.push(Color::new(r, g, b, a));
        i = i + 1;
    }
    assert(out@ =~= gspec);
    out
}

/// The numerator of a Catmull-Rom cubic Hermite interpolation over the
/// rational parameter `tn / td`: the exact value of
/// `a_*t^3 + b_*t^2 + c_*t + d_` (with the usual half-integer
/// coefficients) multiplied by `2 * td^3`.
pub open spec fn hermite_num(a: int, b: int, c: int, d: int, tn: int, td: int) -> int {
    (-a + 3 * b - 3 * c + d) * ((tn * tn) * tn) + (2 * a - 5 * b + 4 * c - d) * ((tn * tn) * td)
        + (c - a) * (tn * (td * td)) + (2 * b) * ((td * td) * td)
}

/// The numerator of a separable bicubic blend of a 4x4 tap neighborhood:
/// a horizontal Hermite pass per row, then a vertical pass over the rows.
#[verifier::inline]
pub open spec fn bicubic_num(
    p00: int,
    p10: int,
    p20: int,
    p30: int,
    p01: int,
    p11: int,
    p21: int,
    p31: int,
    p02: int,
    p12: int,
    p22: int,
    p32: int,
    p03: int,
    p13: int,
    p23: int,
    p33: int,
    sxn: int,
    dx: int,
    syn: int,
    dy: int,
) -> int {
    hermite_num(
        hermite_num(p00, p10, p20, p30, sxn, dx),
        hermite_num(p01, p11, p21, p31, sxn, dx),
        hermite_num(p02, p12, p22, p32, sxn, dx),
        hermite_num(p03, p13, p23, p33, sxn, dx),
        syn,
        dy,
    )
}

/// A bicubic numerator truncated toward zero over its denominator
/// `4 * dx^3 * dy^3` and clamped to `[0, 255]`.
pub open spec fn bicubic_clamp(num: int, dx: int, dy: int) -> int {
    let den = (2 * ((dx * dx) * dx)) * (2 * ((dy * dy) * dy));
    if num < 0 {
        0
    } else if num / den > 255 {
        255
    } else {
        num / den
    }
}

/// One bicubically blended pixel from the 4x4 neighborhood around
/// `(ix, iy)`.
pub open spec fn bicubic_pixel(
    data: Seq<Color>,
    iw: int,
    ih: int,
    ix: int,
    iy: int,
    sxn: int,
    dx: int,
    syn: int,
    dy: int,
) -> Color {
    let q00 = pixel_at(data, iw, ih, ix - 1, iy - 1);
    let q10 = pixel_at(data, iw, ih, ix, iy - 1);
    let q20 = pixel_at(data, iw, ih, ix + 1, iy - 1);
    let q30 = pixel_at(data, iw, ih, ix + 2, iy - 1);
    let q01 = pixel_at(data, iw, ih, ix - 1, iy);
    let q11 = pixel_at(data, iw, ih, ix, iy);
    let q21 = pixel_at(data, iw, ih, ix + 1, iy);
    let q31 = pixel_at(data, iw, ih, ix + 2, iy);
    let q02 = pixel_at(data, iw, ih, ix - 1, iy + 1);
    let q12 = pixel_at(data, iw, ih, ix, iy + 1);
    let q22 = pixel_at(data, iw, ih, ix + 1, iy + 1);
    let q32 = pixel_at(data, iw, ih, ix + 2, iy + 1);
    let q03 = pixel_at(data, iw, ih, ix - 1, iy + 2);
    let q13 = pixel_at(data, iw, ih, ix, iy + 2);
    let q23 = pixel_at(data, iw, ih, ix + 1, iy + 2);
    let q33 = pixel_at(data, iw, ih, ix + 2, iy + 2);
    Color {
        red: bicubic_clamp(
            bicubic_num(
                q00.red as int,
                q10.red as int,
                q20.red as int,
                q30.red as int,
                q01.red as int,
                q11.red as int,
                q21.red as int,
                q31.red as int,
                q02.red as int,
                q12.red as int,
                q22.red as int,
                q32.red as int,
                q03.red as int,
                q13.red as int,
                q23.red as int,
                q33.red as int,
                sxn,
                dx,
                syn,
                dy,
            ),
            dx,
            dy,
        ) as u8,
        green: bicubic_clamp(
            bicubic_num(
                q00.green as int,
                q10.green as int,
                q20.green as int,
                q30.green as int,
                q01.green as int,
                q11.green as int,
                q21.green as int,
                q31.green as int,
                q02.green as int,
                q12.green as int,
                q22.green as int,
                q32.green as int,
                q03.green as int,
                q13.green as int,
                q23.green as int,
                q33.green as int,
                sxn,
                dx,
                syn,
                dy,
            ),
            dx,
            dy,
        ) as u8,
        blue: bicubic_clamp(
            bicubic_num(
                q00.blue as int,
                q10.blue as int,
                q20.blue as int,
                q30.blue as int,
                q01.blue as int,
                q11.blue as int,
                q21.blue as int,
                q31.blue as int,
                q02.blue as int,
                q12.blue as int,
                q22.blue as int,
                q32.blue as int,
                q03.blue as int,
                q13.blue as int,
                q23.blue as int,
                q33.blue as int,
                sxn,
                dx,
                syn,
                dy,
            ),
            dx,
            dy,
        ) as u8,
        alpha: bicubic_clamp(
            bicubic_num(
                q00.alpha as int,
                q10.alpha as int,
                q20.alpha as int,
                q30.alpha as int,
                q01.alpha as int,
                q11.alpha as int,
                q21.alpha as int,
                q31.alpha as int,
                q02.alpha as int,
                q12.alpha as int,
                q22.alpha as int,
                q32.alpha as int,
                q03.alpha as int,
                q13.alpha as int,
                q23.alpha as int,
                q33.alpha as int,
                sxn,
                dx,
                syn,
                dy,
            ),
            dx,
            dy,
        ) as u8,
    }
}

/// The bicubically resampled buffer.
pub open spec fn sample_bicubic_spec(
    data: Seq<Color>,
    iw: int,
    ih: int,
    w: int,
    h: int,
    ox: int,
    oy: int,
) -> Seq<Color> {
    Seq::new(
        (w * h) as nat,
        |i: int|
            {
                let nx = coord_num(i % w, ox, iw);
                let dx = coord_den(w);
                let ny = coord_num(i / w, oy, ih);
                let dy = coord_den(h);
                let ix = if nx < 0 {
                    0
                } else {
                    nx / dx
                };
                let sxn = nx - ix * dx;
                let iy = if ny < 0 {
                    0
                } else {
                    ny / dy
                };
                let syn = ny - iy * dy;
                bicubic_pixel(data, iw, ih, ix, iy, sxn, dx, syn, dy)
            },
    )
}

fn cubic_hermite_row(a: u8, b: u8, c: u8, d: u8, tn: i64, td: i64) -> (r: i128)
    requires
        -210000 <= tn <= 210000,
        1 <= td <= 210000,
    ensures
        r == hermite_num(a as int, b as int, c as int, d as int, tn as int, td as int),
        -57000000000000000000 <= r <= 57000000000000000000,
{
    let tni: i128 = tn as i128;
    let tdi: i128 = td as i128;
    assert(-44100000000 <= tni * tni <= 44100000000 && 0 < tdi * tdi <= 44100000000)
        by (nonlinear_arith)
        requires
            -210000 <= tni <= 210000,
            1 <= tdi <= 210000,
    ;
    let t2: i128 = tni * tni;
    let d2: i128 = tdi * tdi;
    assert(-9261000000000000 <= t2 * tni <= 9261000000000000 && -9261000000000000 <= t2 * tdi
        <= 9261000000000000 && -9261000000000000 <= tni * d2 <= 9261000000000000 && 0 < d2 * tdi
        <= 9261000000000000) by (nonlinear_arith)
        requires
            -44100000000 <= t2 <= 44100000000,
            0 < d2 <= 44100000000,
            -210000 <= tni <= 210000,
            1 <= tdi <= 210000,
    ;
    let t3: i128 = t2 * tni;
    let t2d: i128 = t2 * tdi;
    let td2t: i128 = tni * d2;
    let d3: i128 = d2 * tdi;
    let ca: i128 = -(a as i128) + 3 * (b as i128) - 3 * (c as i128) + (d as i128);
    let cb: i128 = 2 * (a as i128) - 5 * (b as i128) + 4 * (c as i128) - (d as i128);
    let cc: i128 = (c as i128) - (a as i128);
    let cd: i128 = 2 * (b as i128);
    assert(-19000000000000000000 <= ca * t3 <= 19000000000000000000 && -29000000000000000000 <= cb
        * t2d <= 29000000000000000000 && -3000000000000000000 <= cc * td2t
        <= 3000000000000000000 && -5000000000000000000 <= cd * d3 <= 5000000000000000000)
        by (nonlinear_arith)
        requires
            -2040 <= ca <= 2040,
            -3060 <= cb <= 3060,
            -255 <= cc <= 255,
            0 <= cd <= 510,
            -9261000000000000 <= t3 <= 9261000000000000,
            -9261000000000000 <= t2d <= 9261000000000000,
            -9261000000000000 <= td2t <= 9261000000000000,
            0 < d3 <= 9261000000000000,
    ;
    ca * t3 + cb * t2d + cc * td2t + cd * d3
}

fn cubic_hermite_col(a: i128, b: i128, c: i128, d: i128, tn: i64, td: i64) -> (r: i128)
    requires
        -210000 <= tn <= 210000,
        1 <= td <= 210000,
        -57000000000000000000 <= a <= 57000000000000000000,
        -57000000000000000000 <= b <= 57000000000000000000,
        -57000000000000000000 <= c <= 57000000000000000000,
        -57000000000000000000 <= d <= 57000000000000000000,
    ensures
        r == hermite_num(a as int, b as int, c as int, d as int, tn as int, td as int),
        -30000000000000000000000000000000000000 <= r <= 30000000000000000000000000000000000000,
{
    let tni: i128 = tn as i128;
    let tdi: i128 = td as i128;
    assert(-44100000000 <= tni * tni <= 44100000000 && 0 < tdi * tdi <= 44100000000)
        by (nonlinear_arith)
        requires
            -210000 <= tni <= 210000,
            1 <= tdi <= 210000,
    ;
    let t2: i128 = tni * tni;
    let d2: i128 = tdi * tdi;
    assert(-9261000000000000 <= t2 * tni <= 9261000000000000 && -9261000000000000 <= t2 * tdi
        <= 9261000000000000 && -9261000000000000 <= tni * d2 <= 9261000000000000 && 0 < d2 * tdi
        <= 9261000000000000) by (nonlinear_arith)
        requires
            -44100000000 <= t2 <= 44100000000,
            0 < d2 <= 44100000000,
            -210000 <= tni <= 210000,
            1 <= tdi <= 210000,
    ;
    let t3: i128 = t2 * tni;
    let t2d: i128 = t2 * tdi;
    let td2t: i128 = tni * d2;
    let d3: i128 = d2 * tdi;
    let ca: i128 = -a + 3 * b - 3 * c + d;
    let cb: i128 = 2 * a - 5 * b + 4 * c - d;
    let cc: i128 = c - a;
    let cd: i128 = 2 * b;
    assert(-7000000000000000000000000000000000000 <= ca * t3
        <= 7000000000000000000000000000000000000 && -7000000000000000000000000000000000000 <= cb
        * t2d <= 7000000000000000000000000000000000000
        && -7000000000000000000000000000000000000 <= cc * td2t
        <= 7000000000000000000000000000000000000 && -7000000000000000000000000000000000000 <= cd
        * d3 <= 7000000000000000000000000000000000000) by (nonlinear_arith)
        requires
            -684000000000000000000 <= ca <= 684000000000000000000,
            -684000000000000000000 <= cb <= 684000000000000000000,
            -684000000000000000000 <= cc <= 684000000000000000000,
            -684000000000000000000 <= cd <= 684000000000000000000,
            -9261000000000000 <= t3 <= 9261000000000000,
            -9261000000000000 <= t2d <= 9261000000000000,
            -9261000000000000 <= td2t <= 9261000000000000,
            0 < d3 <= 9261000000000000,
    ;
    ca * t3 + cb * t2d + cc * td2t + cd * d3
}

fn bicubic_channel_fn(
    p00: u8,
    p10: u8,
    p20: u8,
    p30: u8,
    p01: u8,
    p11: u8,
    p21: u8,
    p31: u8,
    p02: u8,
    p12: u8,
    p22: u8,
    p32: u8,
    p03: u8,
    p13: u8,
    p23: u8,
    p33: u8,
    sxn: i64,
    dx: i64,
    syn: i64,
    dy: i64,
) -> (r: u8)
    requires
        -210000 <= sxn <= 210000,
        1 <= dx <= 210000,
        -210000 <= syn <= 210000,
        1 <= dy <= 210000,
    ensures
        r as int == bicubic_clamp(
            bicubic_num(
                p00 as int,
                p10 as int,
                p20 as int,
                p30 as int,
                p01 as int,
                p11 as int,
                p21 as int,
                p31 as int,
                p02 as int,
                p12 as int,
                p22 as int,
                p32 as int,
                p03 as int,
                p13 as int,
                p23 as int,
                p33 as int,
                sxn as int,
                dx as int,
                syn as int,
                dy as int,
            ),
            dx as int,
            dy as int,
        ),
{
    let h0 = cubic_hermite_row(p00, p10, p20, p30, sxn, dx);
    let h1 = cubic_hermite_row(p01, p11, p21, p31, sxn, dx);
    let h2 = cubic_hermite_row(p02, p12, p22, p32, sxn, dx);
    let h3 = cubic_hermite_row(p03, p13, p23, p33, sxn, dx);
    let num = cubic_hermite_col(h0, h1, h2, h3, syn, dy);
    let dxi: i128 = dx as i128;
    let dyi: i128 = dy as i128;
    assert(0 < dxi * dxi <= 44100000000 && 0 < dyi * dyi <= 44100000000 && 0 < (dxi * dxi) * dxi
        <= 9261000000000000 && 0 < (dyi * dyi) * dyi <= 9261000000000000) by (nonlinear_arith)
        requires
            1 <= dxi <= 210000,
            1 <= dyi <= 210000,
    ;
    let dx3: i128 = (dxi * dxi) * dxi;
    let dy3: i128 = (dyi * dyi) * dyi;
    assert(0 < (2 * dx3) * (2 * dy3) <= 0x10000000000000000000000000000) by (nonlinear_arith)
        requires
            0 < dx3 <= 9261000000000000,
            0 < dy3 <= 9261000000000000,
    ;
    let den: i128 = (2 * dx3) * (2 * dy3);
    if num < 0 {
        0
    } else if num / den > 255 {
        255
    } else {
        (num / den) as u8
    }
}

/// Resamples by separable Catmull-Rom bicubic convolution over each
/// coordinate's 4x4 neighborhood.
#[verifier::rlimit(100)]
pub fn sample_bicubic(input: &Sprite, width: usize, height: usize, ox: i32, oy: i32) -> (out: Vec<
    Color,
>)
    requires
        input.wf(),
        sample_dims_ok(
            SampleMode::Bicubic,
            input.width as int,
            input.height as int,
            width as int,
            height as int,
            ox as int,
            oy as int,
        ),
    ensures
        out@ == sample_bicubic_spec(
            input.data@,
            input.width as int,
            input.height as int,
            width as int,
            height as int,
            ox as int,
            oy as int,
        ),
{
    let ghost gspec = sample_bicubic_spec(
        input.data@,
        input.width as int,
        input.height as int,
        width as int,
        height as int,
        ox as int,
        oy as int,
    );
    assert(width * height <= 2048 * 2048) by (nonlinear_arith)
        requires
            width <= 2048,
            height <= 2048,
    ;
    let n: usize = width * height;
    let mut out: Vec<Color> = Vec::new();
    let mut i: usize = 0;
    while i < n
        invariant
            input.wf(),
            n == width * height,
            sample_dims_ok(
                SampleMode::Bicubic,
                input.width as int,
                input.height as int,
                width as int,
                height as int,
                ox as int,
                oy as int,
            ),
            gspec == sample_bicubic_spec(
                input.data@,
                input.width as int,
                input.height as int,
                width as int,
                height as int,
                ox as int,
                oy as int,
            ),
            i <= n,
            out@.len() == i,
            forall|x: int| 0 <= x < i ==> out@[x] == gspec[x],
        decreases n - i,
    {
        let x: usize = i % width;
        let y: usize = i / width;
        assert(y < height) by (nonlinear_arith)
            requires
                i < n,
                n == width * height,
                width >= 1,
                y == i / width,
        ;
        let (nx, dx) = coord_parts(x, ox, input.width, width);
        let (ny, dy) = coord_parts(y, oy, input.height, height);
        proof {
            assert(-210000 <= nx <= 430000000000 && -210000 <= ny <= 430000000000)
                by (nonlinear_arith)
                requires
                    nx == (100 * (x as int) + ox) * (input.width - 1),
                    ny == (100 * (y as int) + oy) * (input.height - 1),
                    0 <= x as int <= 2047,
                    0 <= y as int <= 2047,
                    -100 <= ox <= 100,
                    -100 <= oy <= 100,
                    1 <= input.width <= 2048,
                    1 <= input.height <= 2048,
            ;
        }
        let ix: i64 = if nx < 0 {
            0
        } else {
            nx / dx
        };
        proof {
            if nx >= 0 {
                assert(0 <= nx - (nx / dx) * dx < dx) by (nonlinear_arith)
                    requires
                        nx >= 0,
                        dx > 0,
                ;
                assert(0 <= nx / dx <= nx) by (nonlinear_arith)
                    requires
                        nx >= 0,
                        dx >= 1,
                ;
            }
        }
        let sxn: i64 = nx - ix * dx;
        let iy: i64 = if ny < 0 {
            0
        } else {
            ny / dy
        };
        proof {
            if ny >= 0 {
                assert(0 <= ny - (ny / dy) * dy < dy) by (nonlinear_arith)
                    requires
                        ny >= 0,
                        dy > 0,
                ;
                assert(0 <= ny / dy <= ny) by (nonlinear_arith)
                    requires
                        ny >= 0,
                        dy >= 1,
                ;
            }
        }
        let syn: i64 = ny - iy * dy;
        let q00 = pixel_or_default(input, ix - 1, iy - 1);
        let q10 = pixel_or_default(input, ix, iy - 1);
        let q20 = pixel_or_default(input, ix + 1, iy - 1);
        let q30 = pixel_or_default(input, ix + 2, iy - 1);
        let q01 = pixel_or_default(input, ix - 1, iy);
        let q11 = pixel_or_default(input, ix, iy);
        let q21 = pixel_or_default(input, ix + 1, iy);
        let q31 = pixel_or_default(input, ix + 2, iy);
        let q02 = pixel_or_default(input, ix - 1, iy + 1);
        let q12 = pixel_or_default(input, ix, iy + 1);
        let q22 = pixel_or_default(input, ix + 1, iy + 1);
        let q32 = pixel_or_default(input, ix + 2, iy + 1);
        let q03 = pixel_or_default(input, ix - 1, iy + 2);
        let q13 = pixel_or_default(input, ix, iy + 2);
        let q23 = pixel_or_default(input, ix + 1, iy + 2);
        let q33 = pixel_or_default(input, ix + 2, iy + 2);
        let r = bicubic_channel_fn(
            q00.red,
            q10.red,
            q20.red,
            q30.red,
            q01.red,
            q11.red,
            q21.red,
            q31.red,
            q02.red,
            q12.red,
            q22.red,
            q32.red,
            q03.red,
            q13.red,
            q23.red,
            q33.red,
            sxn,
            dx,
            syn,
            dy,
        );
        let g = bicubic_channel_fn(
            q00.green,
            q10.green,
            q20.green,
            q30.green,
            q01.green,
            q11.green,
            q21.green,
            q31.green,
            q02.green,
            q12.green,
            q22.green,
            q32.green,
            q03.green,
            q13.green,
            q23.green,
            q33.green,
            sxn,
            dx,
            syn,
            dy,
        );
        let b = bicubic_channel_fn(
            q00.blue,
            q10.blue,
            q20.blue,
            q30.blue,
            q01.blue,
            q11.blue,
            q21.blue,
            q31.blue,
            q02.blue,
            q12.blue,
            q22.blue,
            q32.blue,
            q03.blue,
            q13.blue,
            q23.blue,
            q33.blue,
            sxn,
            dx,
            syn,
            dy,
        );
        let a = bicubic_channel_fn(
            q00.alpha,
            q10.alpha,
            q20.alpha,
            q30.alpha,
            q01.alpha,
            q11.alpha,
            q21.alpha,
            q31.alpha,
            q02.alpha,
            q12.alpha,
            q22.alpha,
            q32.alpha,
            q03.alpha,
            q13.alpha,
            q23.alpha,
            q33.alpha,
            sxn,
            dx,
            syn,
            dy,
        );
        out.push(Color::new(r, g, b, a));
        i = i + 1;
    }
    assert(out@ =~= gspec);
    out
}

/// The resampled buffer under a kernel.  The windowed-sinc kernel is not a
/// rational function of its inputs and is not provided here; its spec is
/// the empty buffer and `sample_image` refuses the mode.
pub open spec fn sample_image_spec(
    mode: SampleMode,
    data: Seq<Color>,
    iw: int,
    ih: int,
    w: int,
    h: int,
    ox: int,
    oy: int,
) -> Seq<Color> {
    match mode {
        SampleMode::Round => sample_nearest_spec(data, iw, ih, w, h, ox, oy, 0),
        SampleMode::Floor => sample_nearest_spec(data, iw, ih, w, h, ox, oy, 1),
        SampleMode::Ceiling => sample_nearest_spec(data, iw, ih, w, h, ox, oy, 2),
        SampleMode::Linear => sample_linear_spec(data, iw, ih, w, h, ox, oy),
        SampleMode::Bicubic => sample_bicubic_spec(data, iw, ih, w, h, ox, oy),
        SampleMode::Lanczos => Seq::empty(),
    }
}

/// Resamples `input` to a `width` by `height` buffer under the selected
/// kernel and fractional offsets, in hundredths of a source pixel.
pub fn sample_image(
    input: &Sprite,
    mode: SampleMode,
    width: usize,
    height: usize,
    ox: i32,
    oy: i32,
) -> (out: Vec<Color>)
    requires
        input.wf(),
        mode != SampleMode::Lanczos,
        sample_dims_ok(
            mode,
            input.width as int,
            input.height as int,
            width as int,
            height as int,
            ox as int,
            oy as int,
        ),
    ensures
        out@ == sample_image_spec(
            mode,
            input.data@,
            input.width as int,
            input.height as int,
            width as int,
            height as int,
            ox as int,
            oy as int,
        ),
        out@.len() == width * height,
{
    match mode {
        SampleMode::Round => sample_round(input, width, height, ox, oy),
        SampleMode::Floor => sample_floor(input, width, height, ox, oy),
        SampleMode::Ceiling => sample_ceil(input, width, height, ox, oy),
        SampleMode::Linear => sample_linear(input, width, height, ox, oy),
        _ => sample_bicubic(input, width, height, ox, oy),
    }
}

/// Resampler identity under the round rule, on targets of extent at most
/// two: there the coordinate `x * (w - 1) / w` never loses more than half
/// a pixel, so it rounds back to `x`.  On wider targets the late cells
/// round down (cell 3 of 4 lands on 2.25); only the ceiling rule
/// reproduces the raster at every size.
pub proof fn lemma_sample_round_identity_small(data: Seq<Color>, w: int, h: int)
    requires
        data.len() == w * h,
        1 <= w <= 2,
        1 <= h <= 2,
    ensures
        sample_nearest_spec(data, w, h, w, h, 0, 0, 0) == data,
{
    let out = sample_nearest_spec(data, w, h, w, h, 0, 0, 0);
    assert forall|i: int| 0 <= i < w * h implies out[i] == data[i] by {
        let x = i % w;
        let y = i / w;
        assert(0 <= x < w && 0 <= y < h && y * w + x == i) by (nonlinear_arith)
            requires
                0 <= i < w * h,
                1 <= w,
                x == i % w,
                y == i / w,
        ;
        lemma_round_coord_identity_small(x, w);
        lemma_round_coord_identity_small(y, h);
        assert(pixel_at(data, w, h, x, y) == data[i]);
    }
    assert(out =~= data);
}

proof fn lemma_round_coord_identity_small(x: int, w: int)
    requires
        0 <= x < w,
        1 <= w <= 2,
    ensures
        round_coord(coord_num(x, 0, w), coord_den(w)) == x,
{
    assert(coord_num(x, 0, w) == 100 * x * (w - 1)) by (nonlinear_arith)
        requires
            coord_num(x, 0, w) == (100 * x + 0) * (w - 1),
    ;
    if x == 0 || w == 1 {
        assert(100 * x * (w - 1) == 0) by (nonlinear_arith)
            requires
                x == 0 || w == 1,
        ;
    } else {
        assert(x == 1 && w == 2);
        assert(coord_num(x, 0, w) == 100) by (nonlinear_arith)
            requires
                x == 1,
                w == 2,
                coord_num(x, 0, w) == (100 * x + 0) * (w - 1),
        ;
        assert(coord_den(w) == 200);
        assert(round_coord(100, 200) == (2 * 100 + 200) / (2 * 200));
        assert(round_coord(100, 200) == 1);
    }
}

} // verus!
