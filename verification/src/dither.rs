//! Dithering and direct palette quantization.
//!
//! Ordered dithering adds `255 * amount * (t - 1/2)` to each color channel,
//! where `t` is a normalized threshold-matrix entry and `amount` is
//! `dither_amount / 1000`.  The sum is an exact rational with denominator
//! `2000 * m` for a matrix of `m` entries, so each output channel is computed
//! here as an integer numerator truncated toward zero and clamped to
//! `[0, 255]`, exactly as the real-valued formula prescribes.
use vstd::prelude::*;

use rayon::iter::{IndexedParallelIterator, IntoParallelRefIterator, ParallelIterator};

use crate::kmeans::{dither_kmeans, divisor_of, kmeans_assignments, kmeans_fuel, kmeans_initial, kmeans_iterate, kmeans_output_spec, lemma_kmeans_iterate_wf, PIXEL_CAP};
use crate::sprite::Sprite;
use crate::{paint_opaque, transparent, Color};

verus! {

/// How (and whether) pixels are perturbed before palette snapping.
///
/// The two error-diffusion variants are accepted for completeness but are
/// deliberately not implemented as diffusion: they gate transparency exactly
/// like `NoDither`.
#[derive(Clone, Copy, PartialEq, Eq, Structural, Debug)]
pub enum DitherMode {
    NoDither,
    Bayer8x8,
    Bayer4x4,
    Bayer2x2,
    Cluster8x8,
    Cluster4x4,
    FloydComponent,
    FloydDistributed,
}

impl Default for DitherMode {
    fn default() -> (m: DitherMode)
        ensures
            m == DitherMode::NoDither,
    {
        DitherMode::NoDither
    }
}

/// Which color space and metric drive the palette lookup.
///
/// `KMeans` selects the clustering quantizer with its fixed redmean metric;
/// the others select a direct nearest-palette-entry search.
#[derive(Clone, Copy, PartialEq, Eq, Structural, Debug)]
pub enum DistanceMode {
    KMeans,
    RGB,
    CIE76,
    CIE94,
    CIEDE2000,
    XYZ,
    YCC,
    YIQ,
    YUV,
}

impl Default for DistanceMode {
    fn default() -> (m: DistanceMode)
        ensures
            m == DistanceMode::KMeans,
    {
        DistanceMode::KMeans
    }
}

/// The direct modes whose conversion and metric are exact rational functions
/// of the channels, and hence live here; the remaining direct modes go
/// through irrational transcendental curves and are left to callers.
pub open spec fn exact_direct_mode(mode: DistanceMode) -> bool {
    mode == DistanceMode::RGB || mode == DistanceMode::YCC || mode == DistanceMode::YIQ
        || mode == DistanceMode::YUV
}

/// The distance modes this module handles end to end.
pub open spec fn core_distance_mode(mode: DistanceMode) -> bool {
    mode == DistanceMode::KMeans || exact_direct_mode(mode)
}

/// Numerators of the 8x8 Bayer threshold matrix, over denominator 64.
pub open spec fn bayer8x8_nums() -> Seq<u8> {
    seq![
        0u8, 32, 8, 40, 2, 34, 10, 42,
        48, 16, 56, 24, 50, 18, 58, 26,
        12, 44, 4, 36, 14, 46, 6, 38,
        60, 28, 52, 20, 62, 30, 54, 22,
        3, 35, 11, 43, 1, 33, 9, 41,
        51, 19, 59, 27, 49, 17, 57, 25,
        15, 47, 7, 39, 13, 45, 5, 37,
        63, 31, 55, 23, 61, 29, 53, 21,
    ]
}

/// Numerators of the 4x4 Bayer threshold matrix, over denominator 16.
pub open spec fn bayer4x4_nums() -> Seq<u8> {
    seq![0u8, 8, 2, 10, 12, 4, 14, 6, 3, 11, 1, 9, 15, 7, 13, 5]
}

/// Numerators of the 2x2 Bayer threshold matrix, over denominator 4.
pub open spec fn bayer2x2_nums() -> Seq<u8> {
    seq![0u8, 2, 3, 1]
}

/// Numerators of the 8x8 cluster-dot threshold matrix, over denominator 64.
pub open spec fn cluster8x8_nums() -> Seq<u8> {
    seq![
        24u8, 10, 12, 26, 35, 47, 49, 37,
        8, 0, 2, 14, 45, 59, 61, 51,
        22, 6, 4, 16, 43, 57, 63, 53,
        30, 20, 18, 28, 33, 41, 55, 39,
        34, 46, 48, 36, 25, 11, 13, 27,
        44, 58, 60, 50, 9, 1, 3, 15,
        42, 56, 62, 52, 23, 7, 5, 17,
        32, 40, 54, 38, 31, 21, 19, 29,
    ]
}

/// Numerators of the 4x4 cluster-dot threshold matrix, over denominator 16.
pub open spec fn cluster4x4_nums() -> Seq<u8> {
    seq![12u8, 5, 6, 13, 4, 0, 1, 7, 11, 3, 2, 8, 15, 10, 9, 14]
}

fn bayer8x8_matrix() -> (m: Vec<u8>)
    ensures
        m@ == bayer8x8_nums(),
{
    let m: Vec<u8> = vec![
        0u8, 32, 8, 40, 2, 34, 10, 42,
        48, 16, 56, 24, 50, 18, 58, 26,
        12, 44, 4, 36, 14, 46, 6, 38,
        60, 28, 52, 20, 62, 30, 54, 22,
        3, 35, 11, 43, 1, 33, 9, 41,
        51, 19, 59, 27, 49, 17, 57, 25,
        15, 47, 7, 39, 13, 45, 5, 37,
        63, 31, 55, 23, 61, 29, 53, 21,
    ];
    assert(m@ =~= bayer8x8_nums());
    m
}

fn bayer4x4_matrix() -> (m: Vec<u8>)
    ensures
        m@ == bayer4x4_nums(),
{
    let m: Vec<u8> = vec![0u8, 8, 2, 10, 12, 4, 14, 6, 3, 11, 1, 9, 15, 7, 13, 5];
    assert(m@ =~= bayer4x4_nums());
    m
}

fn bayer2x2_matrix() -> (m: Vec<u8>)
    ensures
        m@ == bayer2x2_nums(),
{
    let m: Vec<u8> = vec![0u8, 2, 3, 1];
    assert(m@ =~= bayer2x2_nums());
    m
}

fn cluster8x8_matrix() -> (m: Vec<u8>)
    ensures
        m@ == cluster8x8_nums(),
{
    let m: Vec<u8> = vec![
        24u8, 10, 12, 26, 35, 47, 49, 37,
        8, 0, 2, 14, 45, 59, 61, 51,
        22, 6, 4, 16, 43, 57, 63, 53,
        30, 20, 18, 28, 33, 41, 55, 39,
        34, 46, 48, 36, 25, 11, 13, 27,
        44, 58, 60, 50, 9, 1, 3, 15,
        42, 56, 62, 52, 23, 7, 5, 17,
        32, 40, 54, 38, 31, 21, 19, 29,
    ];
    assert(m@ =~= cluster8x8_nums());
    m
}

fn cluster4x4_matrix() -> (m: Vec<u8>)
    ensures
        m@ == cluster4x4_nums(),
{
    let m: Vec<u8> = vec![12u8, 5, 6, 13, 4, 0, 1, 7, 11, 3, 2, 8, 15, 10, 9, 14];
    assert(m@ =~= cluster4x4_nums());
    m
}

/// The threshold matrix of an ordered mode, with its side length.
pub open spec fn matrix_of(mode: DitherMode) -> (Seq<u8>, int) {
    match mode {
        DitherMode::Bayer8x8 => (bayer8x8_nums(), 8),
        DitherMode::Bayer4x4 => (bayer4x4_nums(), 4),
        DitherMode::Bayer2x2 => (bayer2x2_nums(), 2),
        DitherMode::Cluster8x8 => (cluster8x8_nums(), 8),
        DitherMode::Cluster4x4 => (cluster4x4_nums(), 4),
        _ => (bayer8x8_nums(), 8),
    }
}

pub open spec fn ordered_mode(mode: DitherMode) -> bool {
    mode == DitherMode::Bayer8x8 || mode == DitherMode::Bayer4x4 || mode == DitherMode::Bayer2x2
        || mode == DitherMode::Cluster8x8 || mode == DitherMode::Cluster4x4
}

/// One channel after the ordered-dither perturbation: the exact value of
/// `ch + 255 * (amount/1000) * (num/msq - 1/2)` over common denominator
/// `2000 * msq`, truncated toward zero and clamped to `[0, 255]`.
pub open spec fn dither_channel(ch: int, num: int, msq: int, amount: int) -> int {
    let n = ch * 2000 * msq + 255 * amount * (2 * num - msq);
    let d = 2000 * msq;
    if n < 0 {
        0
    } else if n / d > 255 {
        255
    } else {
        n / d
    }
}

/// One pixel after the ordered-dither stage: below the alpha threshold it
/// becomes the transparent sentinel; otherwise its channels are perturbed by
/// the matrix entry for its grid position and its alpha is forced opaque.
pub open spec fn dither_threshold_pixel(
    c: Color,
    x: int,
    y: int,
    matrix: Seq<u8>,
    side: int,
    amount: int,
    alpha_threshold: int,
) -> Color {
    if c.alpha < alpha_threshold {
        transparent()
    } else {
        let num = matrix[(y % side) * side + x % side] as int;
        let msq = side * side;
        Color {
            red: dither_channel(c.red as int, num, msq, amount) as u8,
            green: dither_channel(c.green as int, num, msq, amount) as u8,
            blue: dither_channel(c.blue as int, num, msq, amount) as u8,
            alpha: 255,
        }
    }
}

/// The whole buffer after the ordered-dither stage.
pub open spec fn dither_threshold_apply_spec(
    input: Seq<Color>,
    w: int,
    matrix: Seq<u8>,
    side: int,
    amount: int,
    alpha_threshold: int,
) -> Seq<Color> {
    Seq::new(input.len(), |i: int| dither_threshold_pixel(
        input[i],
        i % w,
        i / w,
        matrix,
        side,
        amount,
        alpha_threshold,
    ))
}

/// One pixel after the pass-through stage: transparency is gated by the
/// alpha threshold and surviving pixels are forced opaque.
pub open spec fn dither_none_pixel(c: Color, alpha_threshold: int) -> Color {
    if c.alpha < alpha_threshold {
        transparent()
    } else {
        Color { red: c.red, green: c.green, blue: c.blue, alpha: 255 }
    }
}

/// The whole buffer after the pass-through stage.
pub open spec fn dither_none_apply_spec(input: Seq<Color>, alpha_threshold: int) -> Seq<Color> {
    Seq::new(input.len(), |i: int| dither_none_pixel(input[i], alpha_threshold))
}

/// The pre-quantization buffer for a dither mode: ordered modes perturb,
/// every other mode only gates transparency.
pub open spec fn pre_dither_spec(
    mode: DitherMode,
    input: Seq<Color>,
    w: int,
    amount: int,
    alpha_threshold: int,
) -> Seq<Color> {
    if ordered_mode(mode) {
        let (matrix, side) = matrix_of(mode);
        dither_threshold_apply_spec(input, w, matrix, side, amount, alpha_threshold)
    } else {
        dither_none_apply_spec(input, alpha_threshold)
    }
}

fn dither_one_channel(ch: u8, num: u8, msq: i64, amount: u16) -> (r: u8)
    requires
        4 <= msq <= 64,
        amount <= 1000,
    ensures
        r == dither_channel(ch as int, num as int, msq as int, amount as int),
{
    let a: i64 = ch as i64 * 2000;
    assert(0 <= a * msq <= 510000 * 64) by (nonlinear_arith)
        requires
            0 <= a <= 510000,
            4 <= msq <= 64,
    ;
    let b: i64 = 255 * (amount as i64);
    let t: i64 = 2 * (num as i64) - msq;
    assert(-255000 * 574 <= b * t <= 255000 * 574) by (nonlinear_arith)
        requires
            0 <= b <= 255000,
            -64 <= t <= 574,
    ;
    let n: i64 = a * msq + b * t;
    let d: i64 = 2000 * msq;
    if n < 0 {
        0
    } else if n / d > 255 {
        255
    } else {
        (n / d) as u8
    }
}

/// Applies the ordered-dither perturbation to a whole buffer.
pub fn dither_threshold_apply(
    input: &Vec<Color>,
    width: usize,
    matrix: &Vec<u8>,
    side: usize,
    amount: u16,
    alpha_threshold: u8,
) -> (out: Vec<Color>)
    requires
        width >= 1,
        side == 2 || side == 4 || side == 8,
        matrix@.len() == side * side,
        amount <= 1000,
    ensures
        out@ == dither_threshold_apply_spec(
            input@,
            width as int,
            matrix@,
            side as int,
            amount as int,
            alpha_threshold as int,
        ),
{
    let ghost gspec = dither_threshold_apply_spec(
        input@,
        width as int,
        matrix@,
        side as int,
        amount as int,
        alpha_threshold as int,
    );
    let mut out: Vec<Color> = Vec::new();
    let n: usize = input.len();
    let mut i: usize = 0;
    while i < n
        invariant
            n == input@.len(),
            width >= 1,
            side == 2 || side == 4 || side == 8,
            matrix@.len() == side * side,
            amount <= 1000,
            i <= n,
            out@.len() == i,
            gspec == dither_threshold_apply_spec(
                input@,
                width as int,
                matrix@,
                side as int,
                amount as int,
                alpha_threshold as int,
            ),
            forall|j: int| 0 <= j < i ==> out@[j] == gspec[j],
        decreases n - i,
    {
        let c = input[i];
        let x: usize = i % width;
        let y: usize = i / width;
        if c.alpha < alpha_threshold {
            out.push(Color::new(0, 0, 0, 0));
        } else {
            let xm: usize = x % side;
            let ym: usize = y % side;
            assert(ym * side + xm < side * side) by (nonlinear_arith)
                requires
                    2 <= side,
                    xm < side,
                    ym < side,
            ;
            let id: usize = ym * side + xm;
            let num: u8 = matrix[id];
            let msq: i64 = (side * side) as i64;
            let r = dither_one_channel(c.red, num, msq, amount);
            let g = dither_one_channel(c.green, num, msq, amount);
            let b = dither_one_channel(c.blue, num, msq, amount);
            out.push(Color::new(r, g, b, 255));
            assert(out@[i as int] == gspec[i as int]);
        }
        i = i + 1;
    }
    assert(out@ =~= gspec);
    out
}

/// Applies the transparency gate to a whole buffer.
pub fn dither_none_apply(input: &Vec<Color>, alpha_threshold: u8) -> (out: Vec<Color>)
    ensures
        out@ == dither_none_apply_spec(input@, alpha_threshold as int),
{
    let mut out: Vec<Color> = Vec::new();
    let n: usize = input.len();
    let mut i: usize = 0;
    while i < n
        invariant
            n == input@.len(),
            i <= n,
            out@.len() == i,
            forall|j: int| 0 <= j < i ==> out@[j] == dither_none_pixel(
                input@[j],
                alpha_threshold as int,
            ),
        decreases n - i,
    {
        let c = input[i];
        if c.alpha < alpha_threshold {
            out.push(Color::new(0, 0, 0, 0));
        } else {
            out.push(Color::new(c.red, c.green, c.blue, 255));
        }
        i = i + 1;
    }
    assert(out@ =~= dither_none_apply_spec(input@, alpha_threshold as int));
    out
}

/// Builds the threshold matrix and side length for an ordered mode.
pub fn ordered_matrix(mode: DitherMode) -> (r: (Vec<u8>, usize))
    requires
        ordered_mode(mode),
    ensures
        r.0@ == matrix_of(mode).0,
        r.1 as int == matrix_of(mode).1,
        r.1 == 2 || r.1 == 4 || r.1 == 8,
        r.0@.len() == r.1 * r.1,
{
    match mode {
        DitherMode::Bayer8x8 => (bayer8x8_matrix(), 8),
        DitherMode::Bayer4x4 => (bayer4x4_matrix(), 4),
        DitherMode::Bayer2x2 => (bayer2x2_matrix(), 2),
        DitherMode::Cluster8x8 => (cluster8x8_matrix(), 8),
        _ => (cluster4x4_matrix(), 4),
    }
}

/// A color in a three-channel space, held as integers in a fixed-point scale
/// chosen per space so that each conversion below is exact: 1 for RGB,
/// 10^5 for YCC, 10^6 for YIQ, 10^9 for YUV.  Distances compare only within
/// one space, so the uniform scale never changes which entry is nearest.
#[derive(Clone, Copy, PartialEq, Eq, Structural, Debug)]
pub struct Components {
    pub c0: i64,
    pub c1: i64,
    pub c2: i64,
}

pub open spec fn rgb_components(c: Color) -> Components {
    Components { c0: c.red as int as i64, c1: c.green as int as i64, c2: c.blue as int as i64 }
}

pub open spec fn ycc_components(c: Color) -> Components {
    let r = c.red as int;
    let g = c.green as int;
    let b = c.blue as int;
    Components {
        c0: (29900 * r + 58700 * g + 11400 * b) as i64,
        c1: (50000 * b - 16874 * r - 33126 * g) as i64,
        c2: (50000 * r - 41869 * g - 8131 * b) as i64,
    }
}

pub open spec fn yiq_components(c: Color) -> Components {
    let r = c.red as int;
    let g = c.green as int;
    let b = c.blue as int;
    Components {
        c0: (299900 * r + 587000 * g + 114000 * b) as i64,
        c1: (595716 * r - 274453 * g - 321264 * b) as i64,
        c2: (211456 * r - 522591 * g + 311350 * b) as i64,
    }
}

pub open spec fn yuv_components(c: Color) -> Components {
    let r = c.red as int;
    let g = c.green as int;
    let b = c.blue as int;
    let y6 = 299900 * r + 587000 * g + 114000 * b;
    Components {
        c0: (1000 * y6) as i64,
        c1: (492 * (1000000 * b - y6)) as i64,
        c2: (887 * (1000000 * r - y6)) as i64,
    }
}

/// The conversion a direct distance mode applies to each color.
pub open spec fn mode_components(mode: DistanceMode, c: Color) -> Components {
    match mode {
        DistanceMode::YCC => ycc_components(c),
        DistanceMode::YIQ => yiq_components(c),
        DistanceMode::YUV => yuv_components(c),
        _ => rgb_components(c),
    }
}

/// Every exact conversion stays well inside this symmetric channel bound.
pub open spec fn comp_bounded(c: Components) -> bool {
    -300_000_000_000 <= c.c0 <= 300_000_000_000 && -300_000_000_000 <= c.c1 <= 300_000_000_000
        && -300_000_000_000 <= c.c2 <= 300_000_000_000
}

/// Squared Euclidean distance between two component triples.
pub open spec fn dist2(a: Components, b: Components) -> int {
    (b.c0 - a.c0) * (b.c0 - a.c0) + (b.c1 - a.c1) * (b.c1 - a.c1) + (b.c2 - a.c2) * (b.c2 - a.c2)
}

pub fn color_to_rgb(c: &Color) -> (r: Components)
    ensures
        r == rgb_components(*c),
        comp_bounded(r),
{
    Components { c0: c.red as i64, c1: c.green as i64, c2: c.blue as i64 }
}

pub fn color_to_ycc(c: &Color) -> (r: Components)
    ensures
        r == ycc_components(*c),
        comp_bounded(r),
{
    let red = c.red as i64;
    let green = c.green as i64;
    let blue = c.blue as i64;
    Components {
        c0: 29900 * red + 58700 * green + 11400 * blue,
        c1: 50000 * blue - 16874 * red - 33126 * green,
        c2: 50000 * red - 41869 * green - 8131 * blue,
    }
}

pub fn color_to_yiq(c: &Color) -> (r: Components)
    ensures
        r == yiq_components(*c),
        comp_bounded(r),
{
    let red = c.red as i64;
    let green = c.green as i64;
    let blue = c.blue as i64;
    Components {
        c0: 299900 * red + 587000 * green + 114000 * blue,
        c1: 595716 * red - 274453 * green - 321264 * blue,
        c2: 211456 * red - 522591 * green + 311350 * blue,
    }
}

pub fn color_to_yuv(c: &Color) -> (r: Components)
    ensures
        r == yuv_components(*c),
        comp_bounded(r),
{
    let red = c.red as i64;
    let green = c.green as i64;
    let blue = c.blue as i64;
    let y6: i64 = 299900 * red + 587000 * green + 114000 * blue;
    Components {
        c0: 1000 * y6,
        c1: 492 * (1000000 * blue - y6),
        c2: 887 * (1000000 * red - y6),
    }
}

/// Converts a color for a direct distance mode.
pub fn color_components(mode: DistanceMode, c: &Color) -> (r: Components)
    requires
        exact_direct_mode(mode),
    ensures
        r == mode_components(mode, *c),
        comp_bounded(r),
{
    match mode {
        DistanceMode::YCC => color_to_ycc(c),
        DistanceMode::YIQ => color_to_yiq(c),
        DistanceMode::YUV => color_to_yuv(c),
        _ => color_to_rgb(c),
    }
}

/// Squared Euclidean distance between two bounded component triples.
pub fn color_dist2(a: &Components, b: &Components) -> (d: i128)
    requires
        comp_bounded(*a),
        comp_bounded(*b),
    ensures
        d == dist2(*a, *b),
        d >= 0,
{
    let d0: i128 = b.c0 as i128 - a.c0 as i128;
    let d1: i128 = b.c1 as i128 - a.c1 as i128;
    let d2: i128 = b.c2 as i128 - a.c2 as i128;
    assert(0 <= d0 * d0 <= 0x20_0000_0000_0000_0000_0000 && 0 <= d1 * d1
        <= 0x20_0000_0000_0000_0000_0000 && 0 <= d2 * d2 <= 0x20_0000_0000_0000_0000_0000)
        by (nonlinear_arith)
        requires
            -600_000_000_000 <= d0 <= 600_000_000_000,
            -600_000_000_000 <= d1 <= 600_000_000_000,
            -600_000_000_000 <= d2 <= 600_000_000_000,
    ;
    d0 * d0 + d1 * d1 + d2 * d2
}

/// The index of the first minimum of a non-empty sequence.
pub open spec fn argmin_first(s: Seq<int>) -> int
    decreases s.len(),
{
    if s.len() <= 1 {
        0
    } else {
        let p = argmin_first(s.drop_last());
        if s[s.len() - 1] < s[p] {
            s.len() - 1
        } else {
            p
        }
    }
}

/// `argmin_first` lies in range, attains the minimum, and no earlier index
/// does.
pub proof fn lemma_argmin_first(s: Seq<int>)
    requires
        s.len() > 0,
    ensures
        0 <= argmin_first(s) < s.len(),
        forall|j: int| 0 <= j < s.len() ==> s[argmin_first(s)] <= #[trigger] s[j],
        forall|j: int| 0 <= j < argmin_first(s) ==> s[argmin_first(s)] < #[trigger] s[j],
    decreases s.len(),
{
    if s.len() > 1 {
        lemma_argmin_first(s.drop_last());
        assert(forall|j: int| 0 <= j < s.len() - 1 ==> s[j] == s.drop_last()[j]);
    }
}

/// The distances from `c` to every palette entry under a direct mode.
pub open spec fn palette_distances(palette: Seq<Color>, mode: DistanceMode, c: Color) -> Seq<
    int,
> {
    Seq::new(
        palette.len(),
        |j: int| dist2(mode_components(mode, c), mode_components(mode, palette[j])),
    )
}

/// The palette index a direct mode maps `c` to: entry 0 for fully
/// transparent input, otherwise the first entry at minimal distance.
pub open spec fn find_closest_idx(palette: Seq<Color>, mode: DistanceMode, c: Color) -> int {
    if c.alpha == 0 {
        0
    } else {
        argmin_first(palette_distances(palette, mode, c))
    }
}

/// Finds the palette entry a direct mode maps `color` to.
///
/// `palette_components` must hold the converted palette, as built by
/// `color_components` over the same mode.
#[verifier::rlimit(60)]
pub fn palette_find_closest(
    palette: &Vec<Color>,
    palette_components: &Vec<Components>,
    mode: DistanceMode,
    color: Color,
) -> (idx: usize)
    requires
        exact_direct_mode(mode),
        palette@.len() > 0,
        palette_components@.len() == palette@.len(),
        forall|j: int| 0 <= j < palette@.len() ==> palette_components@[j] == mode_components(
            mode,
            palette@[j],
        ),
    ensures
        idx as int == find_closest_idx(palette@, mode, color),
        idx < palette@.len(),
{
    proof {
        lemma_argmin_first(palette_distances(palette@, mode, color));
    }
    if color.alpha == 0 {
        return 0;
    }
    let ghost dists = palette_distances(palette@, mode, color);
    let target = color_components(mode, &color);
    let mut best: usize = 0;
    proof {
        assert(comp_bounded(mode_components(mode, palette@[0])));
    }
    let mut best_dist: i128 = color_dist2(&target, &palette_components[0]);
    let mut j: usize = 1;
    while j < palette.len()
        invariant
            exact_direct_mode(mode),
            palette@.len() > 0,
            palette_components@.len() == palette@.len(),
            forall|jj: int| 0 <= jj < palette@.len() ==> palette_components@[jj]
                == mode_components(mode, palette@[jj]),
            dists == palette_distances(palette@, mode, color),
            target == mode_components(mode, color),
            1 <= j <= palette@.len(),
            best < j,
            best as int == argmin_first(dists.take(j as int)),
            best_dist == dists[best as int],
        decreases palette@.len() - j,
    {
        proof {
            assert(comp_bounded(mode_components(mode, palette@[j as int])));
        }
        let d = color_dist2(&target, &palette_components[j]);
        proof {
            let prefix = dists.take(j as int);
            let next = dists.take(j as int + 1);
            assert(next.drop_last() =~= prefix);
            assert(next[next.len() - 1] == dists[j as int]);
            assert(d == dists[j as int]);
            assert(argmin_first(next) == if dists[j as int] < prefix[argmin_first(prefix)] {
                j as int
            } else {
                argmin_first(prefix)
            });
        }
        if d < best_dist {
            best = j;
            best_dist = d;
        }
        j = j + 1;
    }
    assert(dists.take(palette@.len() as int) =~= dists);
    best
}

/// One direct-mode output pixel built from an already pre-dithered pixel:
/// a transparent pixel passes through, any other is snapped to its first
/// nearest palette entry and painted opaque.
pub open spec fn direct_snap(palette: Seq<Color>, mode: DistanceMode, pre: Color) -> Color {
    if pre.alpha == 0 {
        pre
    } else {
        paint_opaque(palette[find_closest_idx(palette, mode, pre)])
    }
}

/// The whole direct-mode dither stage.  An ordered mode perturbs first
/// and snaps the perturbed (opaque) pixel; the pass-through modes snap the
/// pixel as it stands, so a fully transparent pixel that survives a zero
/// alpha threshold still maps unconditionally to palette entry 0.
pub open spec fn dither_direct_spec(
    dmode: DitherMode,
    input: Seq<Color>,
    w: int,
    amount: int,
    alpha_threshold: int,
    palette: Seq<Color>,
    mode: DistanceMode,
) -> Seq<Color> {
    if ordered_mode(dmode) {
        let pre = pre_dither_spec(dmode, input, w, amount, alpha_threshold);
        Seq::new(pre.len(), |i: int| direct_snap(palette, mode, pre[i]))
    } else {
        Seq::new(
            input.len(),
            |i: int|
                if input[i].alpha < alpha_threshold {
                    transparent()
                } else {
                    paint_opaque(palette[find_closest_idx(palette, mode, input[i])])
                },
        )
    }
}

/// One output pixel of the ordered direct path, from its flat index.
pub open spec fn direct_threshold_pixel(
    c: Color,
    x: int,
    y: int,
    matrix: Seq<u8>,
    side: int,
    amount: int,
    alpha_threshold: int,
    palette: Seq<Color>,
    mode: DistanceMode,
) -> Color {
    direct_snap(palette, mode, dither_threshold_pixel(c, x, y, matrix, side, amount, alpha_threshold))
}

/// Computes one output pixel of the ordered direct path.
pub fn dither_direct_pixel(
    i: usize,
    c: &Color,
    width: usize,
    matrix: &Vec<u8>,
    side: usize,
    amount: u16,
    alpha_threshold: u8,
    palette: &Vec<Color>,
    palette_components: &Vec<Components>,
    mode: DistanceMode,
) -> (out: Color)
    requires
        width >= 1,
        side == 2 || side == 4 || side == 8,
        matrix@.len() == side * side,
        amount <= 1000,
        exact_direct_mode(mode),
        palette@.len() > 0,
        palette_components@.len() == palette@.len(),
        forall|j: int| 0 <= j < palette@.len() ==> palette_components@[j] == mode_components(
            mode,
            palette@[j],
        ),
    ensures
        out == direct_threshold_pixel(
            *c,
            i as int % width as int,
            i as int / width as int,
            matrix@,
            side as int,
            amount as int,
            alpha_threshold as int,
            palette@,
            mode,
        ),
{
    let x: usize = i % width;
    let y: usize = i / width;
    if c.alpha < alpha_threshold {
        return Color::new(0, 0, 0, 0);
    }
    let xm: usize = x % side;
    let ym: usize = y % side;
    assert(ym * side + xm < side * side) by (nonlinear_arith)
        requires
            2 <= side,
            xm < side,
            ym < side,
    ;
    let id: usize = ym * side + xm;
    let num: u8 = matrix[id];
    let msq: i64 = (side * side) as i64;
    let r = dither_one_channel(c.red, num, msq, amount);
    let g = dither_one_channel(c.green, num, msq, amount);
    let b = dither_one_channel(c.blue, num, msq, amount);
    let pre = Color::new(r, g, b, 255);
    let idx = palette_find_closest(palette, palette_components, mode, pre);
    let p = palette[idx];
    Color::new(p.red, p.green, p.blue, 255)
}

/// Relies on rayon's indexed parallel map:
/// `par_iter().enumerate().map(f).collect::<Vec<_>>()` yields a vector of
/// the input's length whose element `i` is `f(i, &input[i])`, in index
/// order.  The closure only calls the verified `dither_direct_pixel`.
#[verifier::external_body]
fn par_dither_direct(
    input: &Vec<Color>,
    width: usize,
    matrix: &Vec<u8>,
    side: usize,
    amount: u16,
    alpha_threshold: u8,
    palette: &Vec<Color>,
    palette_components: &Vec<Components>,
    mode: DistanceMode,
) -> (out: Vec<Color>)
    requires
        width >= 1,
        side == 2 || side == 4 || side == 8,
        matrix@.len() == side * side,
        amount <= 1000,
        exact_direct_mode(mode),
        palette@.len() > 0,
        palette_components@.len() == palette@.len(),
        forall|j: int| 0 <= j < palette@.len() ==> palette_components@[j] == mode_components(
            mode,
            palette@[j],
        ),
    ensures
        out@.len() == input@.len(),
        forall|i: int| 0 <= i < input@.len() ==> out@[i] == direct_threshold_pixel(
            input@[i],
            i % width as int,
            i / width as int,
            matrix@,
            side as int,
            amount as int,
            alpha_threshold as int,
            palette@,
            mode,
        ),
{
    input.par_iter().enumerate().map(
        |(i, c)| dither_direct_pixel(
            i, c, width, matrix, side, amount, alpha_threshold, palette,
            palette_components, mode,
        ),
    ).collect()
}

/// The pass-through direct path: gate transparency, then snap each
/// surviving pixel to the palette.  The pass-through branch of
/// `dither_direct_spec` reads neither the width nor the dither amount, so
/// they are fixed in the contract.
pub fn dither_none(
    input: &Vec<Color>,
    palette: &Vec<Color>,
    palette_components: &Vec<Components>,
    mode: DistanceMode,
    alpha_threshold: u8,
) -> (out: Vec<Color>)
    requires
        exact_direct_mode(mode),
        palette@.len() > 0,
        palette_components@.len() == palette@.len(),
        forall|j: int| 0 <= j < palette@.len() ==> palette_components@[j] == mode_components(
            mode,
            palette@[j],
        ),
    ensures
        out@ == dither_direct_spec(
            DitherMode::NoDither,
            input@,
            1,
            0,
            alpha_threshold as int,
            palette@,
            mode,
        ),
{
    let mut out: Vec<Color> = Vec::new();
    let n: usize = input.len();
    let mut i: usize = 0;
    while i < n
        invariant
            n == input@.len(),
            exact_direct_mode(mode),
            palette@.len() > 0,
            palette_components@.len() == palette@.len(),
            forall|j: int| 0 <= j < palette@.len() ==> palette_components@[j] == mode_components(
                mode,
                palette@[j],
            ),
            i <= n,
            out@.len() == i,
            forall|x: int| 0 <= x < i ==> #[trigger] out@[x] == if input@[x].alpha
                < alpha_threshold {
                transparent()
            } else {
                paint_opaque(palette@[find_closest_idx(palette@, mode, input@[x])])
            },
        decreases n - i,
    {
        let c = input[i];
        if c.alpha < alpha_threshold {
            out.push(Color::new(0, 0, 0, 0));
        } else {
            let idx = palette_find_closest(palette, palette_components, mode, c);
            let p = palette[idx];
            out.push(Color::new(p.red, p.green, p.blue, 255));
        }
        i = i + 1;
    }
    assert(out@ =~= dither_direct_spec(
        DitherMode::NoDither,
        input@,
        1,
        0,
        alpha_threshold as int,
        palette@,
        mode,
    ));
    out
}

/// The ordered direct path: perturb each pixel by its threshold-matrix
/// entry, then snap it to the palette.  Per-pixel work is independent and
/// fanned out in parallel.
pub fn dither_threshold(
    dmode: DitherMode,
    input: &Vec<Color>,
    palette: &Vec<Color>,
    palette_components: &Vec<Components>,
    mode: DistanceMode,
    width: usize,
    amount: u16,
    alpha_threshold: u8,
) -> (out: Vec<Color>)
    requires
        ordered_mode(dmode),
        width >= 1,
        amount <= 1000,
        exact_direct_mode(mode),
        palette@.len() > 0,
        palette_components@.len() == palette@.len(),
        forall|j: int| 0 <= j < palette@.len() ==> palette_components@[j] == mode_components(
            mode,
            palette@[j],
        ),
    ensures
        out@ == dither_direct_spec(
            dmode,
            input@,
            width as int,
            amount as int,
            alpha_threshold as int,
            palette@,
            mode,
        ),
{
    let (matrix, side) = ordered_matrix(dmode);
    let out = par_dither_direct(
        input,
        width,
        &matrix,
        side,
        amount,
        alpha_threshold,
        palette,
        palette_components,
        mode,
    );
    assert(out@ =~= dither_direct_spec(
        dmode,
        input@,
        width as int,
        amount as int,
        alpha_threshold as int,
        palette@,
        mode,
    ));
    out
}

/// The whole dither-and-quantize stage for a core distance mode: the
/// clustering quantizer runs the seeded relaxation over the pre-dithered
/// buffer as one batch, a direct mode snaps each pre-dithered pixel on its
/// own.
pub open spec fn dither_image_spec(
    dmode: DitherMode,
    dist_mode: DistanceMode,
    input: Seq<Color>,
    w: int,
    amount: int,
    alpha_threshold: int,
    palette: Seq<Color>,
    divisor: int,
) -> Seq<Color> {
    if dist_mode == DistanceMode::KMeans {
        kmeans_output_spec(dmode, input, w, amount, alpha_threshold, palette, divisor)
    } else {
        dither_direct_spec(dmode, input, w, amount, alpha_threshold, palette, dist_mode)
    }
}

/// Transparency and palette membership of the quantized output: a pixel
/// below the alpha threshold leaves as the transparent sentinel, and every
/// other pixel leaves fully opaque with the channels of some palette entry.
pub proof fn lemma_dither_image_props(
    dmode: DitherMode,
    dist_mode: DistanceMode,
    input: Seq<Color>,
    w: int,
    amount: int,
    alpha_threshold: int,
    palette: Seq<Color>,
    divisor: int,
)
    requires
        palette.len() > 0,
    ensures
        dither_image_spec(dmode, dist_mode, input, w, amount, alpha_threshold, palette, divisor)
            .len() == input.len(),
        forall|i: int| 0 <= i < input.len() && (#[trigger] input[i]).alpha < alpha_threshold
            ==> dither_image_spec(
            dmode,
            dist_mode,
            input,
            w,
            amount,
            alpha_threshold,
            palette,
            divisor,
        )[i] == transparent(),
        forall|i: int|
            0 <= i < input.len() && (#[trigger] dither_image_spec(
                dmode,
                dist_mode,
                input,
                w,
                amount,
                alpha_threshold,
                palette,
                divisor,
            )[i]).alpha != 0 ==> dither_image_spec(
                dmode,
                dist_mode,
                input,
                w,
                amount,
                alpha_threshold,
                palette,
                divisor,
            )[i].alpha == 255 && exists|j: int|
                0 <= j < palette.len() && crate::same_rgb(
                    dither_image_spec(
                        dmode,
                        dist_mode,
                        input,
                        w,
                        amount,
                        alpha_threshold,
                        palette,
                        divisor,
                    )[i],
                    #[trigger] palette[j],
                ),
{
    let pre = pre_dither_spec(dmode, input, w, amount, alpha_threshold);
    let out = dither_image_spec(
        dmode,
        dist_mode,
        input,
        w,
        amount,
        alpha_threshold,
        palette,
        divisor,
    );
    if dist_mode == DistanceMode::KMeans {
        lemma_kmeans_iterate_wf(pre, palette, divisor, kmeans_initial(palette.len() as int), kmeans_fuel());
    }
    assert forall|i: int|
        0 <= i < input.len() && (#[trigger] out[i]).alpha != 0 implies out[i].alpha == 255
        && exists|j: int|
        0 <= j < palette.len() && crate::same_rgb(out[i], #[trigger] palette[j]) by {
        if dist_mode == DistanceMode::KMeans {
            let assign = kmeans_assignments(pre, palette, divisor);
            assert(out[i] == paint_opaque(palette[assign[i]]));
            assert(crate::same_rgb(out[i], palette[assign[i]]));
        } else if ordered_mode(dmode) {
            let idx = find_closest_idx(palette, dist_mode, pre[i]);
            if pre[i].alpha != 0 {
                lemma_argmin_first(palette_distances(palette, dist_mode, pre[i]));
            }
            assert(0 <= idx < palette.len());
            assert(out[i] == paint_opaque(palette[idx]));
            assert(crate::same_rgb(out[i], palette[idx]));
        } else {
            let idx = find_closest_idx(palette, dist_mode, input[i]);
            if input[i].alpha != 0 {
                lemma_argmin_first(palette_distances(palette, dist_mode, input[i]));
            }
            assert(0 <= idx < palette.len());
            assert(out[i] == paint_opaque(palette[idx]));
            assert(crate::same_rgb(out[i], palette[idx]));
        }
    }
}

/// Quantizes a pre-processed buffer into `output` under a core distance
/// mode, dithering first as the dither mode asks.
pub fn dither_image(
    dmode: DitherMode,
    dist_mode: DistanceMode,
    amount: u16,
    alpha_threshold: u8,
    palette: &Vec<Color>,
    palette_weight: i32,
    input: &Vec<Color>,
    output: &mut Sprite,
    width: usize,
    height: usize,
)
    requires
        old(output).width == width,
        old(output).height == height,
        width >= 1,
        input@.len() == width * height,
        input@.len() <= PIXEL_CAP,
        palette@.len() >= 1,
        0 <= palette_weight <= 31,
        amount <= 1000,
        core_distance_mode(dist_mode),
    ensures
        final(output).width == width,
        final(output).height == height,
        final(output).data@ == dither_image_spec(
            dmode,
            dist_mode,
            input@,
            width as int,
            amount as int,
            alpha_threshold as int,
            palette@,
            divisor_of(palette_weight as int),
        ),
        final(output).wf(),
{
    if matches!(dist_mode, DistanceMode::KMeans) {
        dither_kmeans(
            dmode,
            amount,
            alpha_threshold,
            palette,
            palette_weight,
            input,
            output,
            width,
            height,
        );
        return;
    }
    let mut palette_components: Vec<Components> = Vec::new();
    let mut j: usize = 0;
    while j < palette.len()
        invariant
            exact_direct_mode(dist_mode),
            j <= palette@.len(),
            palette_components@.len() == j,
            forall|x: int| 0 <= x < j ==> palette_components@[x] == mode_components(
                dist_mode,
                palette@[x],
            ),
        decreases palette@.len() - j,
    {
        let comp = color_components(dist_mode, &palette[j]);
        palette_components.push(comp);
        j = j + 1;
    }
    let out: Vec<Color> = if is_ordered_mode(dmode) {
        dither_threshold(
            dmode,
            input,
            palette,
            &palette_components,
            dist_mode,
            width,
            amount,
            alpha_threshold,
        )
    } else {
        dither_none(input, palette, &palette_components, dist_mode, alpha_threshold)
    };
    output.data = out;
}

/// Decides `ordered_mode`.
pub fn is_ordered_mode(mode: DitherMode) -> (r: bool)
    ensures
        r == ordered_mode(mode),
{
    match mode {
        DitherMode::Bayer8x8 => true,
        DitherMode::Bayer4x4 => true,
        DitherMode::Bayer2x2 => true,
        DitherMode::Cluster8x8 => true,
        DitherMode::Cluster4x4 => true,
        _ => false,
    }
}

proof fn lemma_square_props(x: int)
    by (nonlinear_arith)
    ensures
        x * x >= 0,
        x * x == (-x) * (-x),
        x == 0 ==> x * x == 0,
{
}

/// Distance sanity of the squared Euclidean metric: it vanishes on a
/// triple against itself, is symmetric, and is never negative.  Together
/// with the corresponding redmean facts this covers every metric this
/// library computes.
pub proof fn lemma_dist2_props(a: Components, b: Components)
    ensures
        dist2(a, a) == 0,
        dist2(a, b) == dist2(b, a),
        dist2(a, b) >= 0,
{
    lemma_square_props(b.c0 - a.c0);
    lemma_square_props(b.c1 - a.c1);
    lemma_square_props(b.c2 - a.c2);
    lemma_square_props(0);
    assert(a.c0 - b.c0 == -(b.c0 - a.c0) && a.c1 - b.c1 == -(b.c1 - a.c1) && a.c2 - b.c2 == -(b.c2
        - a.c2));
}

} // verus!
