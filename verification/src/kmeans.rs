//! The clustering quantizer: palette-seeded k-means relaxation under the
//! redmean metric.
//!
//! The real-valued metric is `sqrt(D / 512) / 765` with
//! `D = 512 * (2*dr^2 + 4*dg^2 + 3*db^2) + (r0 + r1) * (dr^2 - db^2)`,
//! an integer.  The square root and the positive constant factor never
//! change which color is nearer, so assignments compare `D` directly, and a
//! cluster variance (mean squared distance) is carried as the exact rational
//! `sum(D) / (299635200 * count)`.  Every round of the relaxation is a pure
//! function of the previous round, stated by `kmeans_round`; the seeded
//! quantizer is proved to return exactly the assignment of that state
//! machine after at most sixteen rounds.
use vstd::prelude::*;

use rand::seq::IndexedRandom;

use crate::dither::{
    argmin_first, dither_none_apply, dither_threshold_apply, is_ordered_mode, lemma_argmin_first,
    ordered_matrix, pre_dither_spec, DitherMode,
};
use vstd::arithmetic::power2::{lemma2_to64, lemma_pow2_strictly_increases, pow2};

use crate::sprite::Sprite;
use crate::{paint_opaque, same_rgb, transparent, Color};

verus! {

/// The denominator relating a summed scaled distance to a real variance:
/// `512 * (3 * 255)^2`.
pub const VARIANCE_DEN: u64 = 299635200;

/// The largest value `redmean_scaled` can take.
pub const REDMEAN_MAX: u64 = 332797950;

/// The largest pixel count the quantizer accepts in one run.
pub const PIXEL_CAP: usize = 16777216;

/// The scaled squared redmean distance between two colors; alpha is
/// ignored.  Monotone in the real metric, and exactly representable.
pub open spec fn redmean_scaled(a: Color, b: Color) -> int {
    let dr = a.red - b.red;
    let dg = a.green - b.green;
    let db = a.blue - b.blue;
    512 * (2 * (dr * dr) + 4 * (dg * dg) + 3 * (db * db)) + (a.red + b.red) * ((dr * dr) - (db
        * db))
}

proof fn lemma_redmean_bounds_int(dr: int, dg: int, db: int, s: int)
    by (nonlinear_arith)
    requires
        -255 <= dr <= 255,
        -255 <= dg <= 255,
        -255 <= db <= 255,
        0 <= s <= 510,
    ensures
        0 <= 512 * (2 * (dr * dr) + 4 * (dg * dg) + 3 * (db * db)) + s * ((dr * dr) - (db * db))
            <= REDMEAN_MAX,
        512 * (2 * (dr * dr) + 4 * (dg * dg) + 3 * (db * db)) + s * ((dr * dr) - (db * db)) == 0
            ==> (dr == 0 && dg == 0 && db == 0),
        512 * (2 * (dr * dr) + 4 * (dg * dg) + 3 * (db * db)) + s * ((dr * dr) - (db * db)) == 512
            * (2 * ((-dr) * (-dr)) + 4 * ((-dg) * (-dg)) + 3 * ((-db) * (-db))) + s * (((-dr) * (
        -dr)) - ((-db) * (-db))),
        (dr == 0 && dg == 0 && db == 0) ==> 512 * (2 * (dr * dr) + 4 * (dg * dg) + 3 * (db * db))
            + s * ((dr * dr) - (db * db)) == 0,
{
}

/// The scaled redmean distance is nonnegative, bounded, symmetric, and zero
/// exactly on colors with equal channels.
pub proof fn lemma_redmean_props(a: Color, b: Color)
    ensures
        0 <= redmean_scaled(a, b) <= REDMEAN_MAX,
        redmean_scaled(a, b) == redmean_scaled(b, a),
        redmean_scaled(a, b) == 0 <==> same_rgb(a, b),
{
    let dr = a.red - b.red;
    let dg = a.green - b.green;
    let db = a.blue - b.blue;
    lemma_redmean_bounds_int(dr, dg, db, a.red + b.red);
    assert(b.red - a.red == -dr && b.green - a.green == -dg && b.blue - a.blue == -db);
}

/// Computes the scaled squared redmean distance.
pub fn quant_distance(color0: &Color, color1: &Color) -> (d: u64)
    ensures
        d as int == redmean_scaled(*color0, *color1),
        d <= REDMEAN_MAX,
{
    proof {
        lemma_redmean_props(*color0, *color1);
    }
    let dr: i64 = color0.red as i64 - color1.red as i64;
    let dg: i64 = color0.green as i64 - color1.green as i64;
    let db: i64 = color0.blue as i64 - color1.blue as i64;
    let s: i64 = color0.red as i64 + color1.red as i64;
    assert(0 <= dr * dr <= 65025 && 0 <= dg * dg <= 65025 && 0 <= db * db <= 65025)
        by (nonlinear_arith)
        requires
            -255 <= dr <= 255,
            -255 <= dg <= 255,
            -255 <= db <= 255,
    ;
    let sq: i64 = 512 * (2 * (dr * dr) + 4 * (dg * dg) + 3 * (db * db));
    let rm: i64 = dr * dr - db * db;
    assert(-510 * 65025 <= s * rm <= 510 * 65025) by (nonlinear_arith)
        requires
            0 <= s <= 510,
            -65025 <= rm <= 65025,
    ;
    (sq + s * rm) as u64
}

/// Sum of the red channels of a buffer.
pub open spec fn sum_red(s: Seq<Color>) -> int
    decreases s.len(),
{
    if s.len() == 0 {
        0
    } else {
        sum_red(s.drop_last()) + s.last().red
    }
}

/// Sum of the green channels of a buffer.
pub open spec fn sum_green(s: Seq<Color>) -> int
    decreases s.len(),
{
    if s.len() == 0 {
        0
    } else {
        sum_green(s.drop_last()) + s.last().green
    }
}

/// Sum of the blue channels of a buffer.
pub open spec fn sum_blue(s: Seq<Color>) -> int
    decreases s.len(),
{
    if s.len() == 0 {
        0
    } else {
        sum_blue(s.drop_last()) + s.last().blue
    }
}

/// The channel-wise integer mean of a cluster, optionally pulled toward a
/// seed color: with a nonzero `divisor` the seed joins the mean with weight
/// `len / divisor`.  The result of an empty cluster with no weight is the
/// transparent sentinel, and the alpha channel is always zero.
pub open spec fn colors_mean_spec(list: Seq<Color>, seed: Color, divisor: int) -> Color {
    let n = list.len() as int;
    let wc = if divisor != 0 {
        n / divisor
    } else {
        0
    };
    let den = n + wc;
    if den == 0 {
        transparent()
    } else {
        Color {
            red: ((sum_red(list) + seed.red * wc) / den) as u8,
            green: ((sum_green(list) + seed.green * wc) / den) as u8,
            blue: ((sum_blue(list) + seed.blue * wc) / den) as u8,
            alpha: 0,
        }
    }
}

proof fn lemma_mean_channel_fits(num: int, den: int)
    by (nonlinear_arith)
    requires
        den > 0,
        0 <= num <= 255 * den,
    ensures
        0 <= num / den <= 255,
{
}

/// Computes `colors_mean_spec`: the integer mean of `color_list`, pulled
/// toward `color` with weight `len / palette_weight` when `palette_weight`
/// is nonzero.
pub fn quant_colors_mean(color_list: &Vec<Color>, color: Color, palette_weight: u64) -> (m: Color)
    requires
        color_list@.len() <= PIXEL_CAP,
    ensures
        m == colors_mean_spec(color_list@, color, palette_weight as int),
{
    let n: usize = color_list.len();
    let mut r: u64 = 0;
    let mut g: u64 = 0;
    let mut b: u64 = 0;
    let mut i: usize = 0;
    while i < n
        invariant
            n == color_list@.len(),
            n <= PIXEL_CAP,
            i <= n,
            r == sum_red(color_list@.take(i as int)),
            g == sum_green(color_list@.take(i as int)),
            b == sum_blue(color_list@.take(i as int)),
            r <= 255 * i,
            g <= 255 * i,
            b <= 255 * i,
        decreases n - i,
    {
        let c = color_list[i];
        proof {
            assert(color_list@.take(i as int + 1).drop_last() =~= color_list@.take(i as int));
            assert(color_list@.take(i as int + 1).last() == color_list@[i as int]);
        }
        r = r + c.red as u64;
        g = g + c.green as u64;
        b = b + c.blue as u64;
        i = i + 1;
    }
    proof {
        assert(color_list@.take(n as int) =~= color_list@);
    }
    let wc: u64 = if palette_weight != 0 {
        (n as u64) / palette_weight
    } else {
        0
    };
    let den: u64 = n as u64 + wc;
    proof {
        if palette_weight != 0 {
            assert(wc <= n) by (nonlinear_arith)
                requires
                    palette_weight >= 1,
                    wc == n as u64 / palette_weight,
            ;
        }
        assert(color.red as int * wc <= 255 * wc && color.green as int * wc <= 255 * wc
            && color.blue as int * wc <= 255 * wc) by (nonlinear_arith)
            requires
                color.red <= 255 && color.green <= 255 && color.blue <= 255,
                wc >= 0,
        ;
    }
    if den == 0 {
        Color::new(0, 0, 0, 0)
    } else {
        let rn: u64 = r + color.red as u64 * wc;
        let gn: u64 = g + color.green as u64 * wc;
        let bn: u64 = b + color.blue as u64 * wc;
        proof {
            lemma_mean_channel_fits(rn as int, den as int);
            lemma_mean_channel_fits(gn as int, den as int);
            lemma_mean_channel_fits(bn as int, den as int);
        }
        Color::new((rn / den) as u8, (gn / den) as u8, (bn / den) as u8, 0)
    }
}

/// Sum of scaled squared distances from each member to `mean`.
pub open spec fn dist_sum(s: Seq<Color>, mean: Color) -> int
    decreases s.len(),
{
    if s.len() == 0 {
        0
    } else {
        dist_sum(s.drop_last(), mean) + redmean_scaled(s.last(), mean)
    }
}

pub proof fn lemma_dist_sum_bounded(s: Seq<Color>, mean: Color)
    ensures
        0 <= dist_sum(s, mean) <= REDMEAN_MAX * s.len(),
    decreases s.len(),
{
    if s.len() > 0 {
        lemma_dist_sum_bounded(s.drop_last(), mean);
        lemma_redmean_props(s.last(), mean);
        assert(REDMEAN_MAX * s.len() == REDMEAN_MAX * (s.len() - 1) + REDMEAN_MAX)
            by (nonlinear_arith);
    }
}

/// A cluster variance held exactly: its value is
/// `sum / (VARIANCE_DEN * count)`, and `count == 0` marks the undefined
/// variance of an empty cluster.
#[derive(Clone, Copy, PartialEq, Eq, Structural, Debug)]
pub struct Variance {
    pub sum: u64,
    pub count: u64,
}

/// The variance record of a cluster: the summed scaled squared distance to
/// the cluster's own unweighted mean, over the member count.
pub open spec fn variance_of(cluster: Seq<Color>) -> Variance {
    Variance {
        sum: dist_sum(cluster, colors_mean_spec(cluster, transparent(), 0)) as u64,
        count: cluster.len() as u64,
    }
}

/// Computes `variance_of`.
pub fn quant_colors_variance(color_list: &Vec<Color>) -> (v: Variance)
    requires
        color_list@.len() <= PIXEL_CAP,
    ensures
        v == variance_of(color_list@),
        v.sum <= REDMEAN_MAX * v.count,
        v.count == color_list@.len(),
{
    let mean = quant_colors_mean(color_list, Color::new(0, 0, 0, 0), 0);
    let n: usize = color_list.len();
    let mut sum: u64 = 0;
    let mut i: usize = 0;
    while i < n
        invariant
            n == color_list@.len(),
            n <= PIXEL_CAP,
            i <= n,
            mean == colors_mean_spec(color_list@, transparent(), 0),
            sum == dist_sum(color_list@.take(i as int), mean),
            sum <= REDMEAN_MAX * i,
        decreases n - i,
    {
        let c = color_list[i];
        proof {
            assert(color_list@.take(i as int + 1).drop_last() =~= color_list@.take(i as int));
            assert(color_list@.take(i as int + 1).last() == color_list@[i as int]);
            assert(REDMEAN_MAX * (i + 1) == REDMEAN_MAX * i + REDMEAN_MAX) by (nonlinear_arith);
        }
        let d = quant_distance(&c, &mean);
        sum = sum + d;
        i = i + 1;
    }
    proof {
        assert(color_list@.take(n as int) =~= color_list@);
        lemma_dist_sum_bounded(color_list@, mean);
    }
    Variance { sum, count: n as u64 }
}

/// Whether the variance delta of one cluster falls below the fixed
/// 5e-5 convergence threshold.  A pair with an undefined side never blocks
/// convergence, mirroring how a comparison against an undefined variance
/// cannot register a delta.
pub open spec fn small_delta(a: Variance, b: Variance) -> bool {
    if a.count == 0 || b.count == 0 {
        true
    } else {
        let diff = a.sum * b.count - b.sum * a.count;
        let abs_diff = if diff < 0 {
            -diff
        } else {
            diff
        };
        20000 * abs_diff < VARIANCE_DEN * a.count * b.count
    }
}

/// Decides `small_delta` exactly, by cross-multiplication.
pub fn variance_delta_small(a: &Variance, b: &Variance) -> (r: bool)
    requires
        a.sum <= REDMEAN_MAX * a.count,
        b.sum <= REDMEAN_MAX * b.count,
        a.count <= PIXEL_CAP,
        b.count <= PIXEL_CAP,
    ensures
        r == small_delta(*a, *b),
{
    if a.count == 0 || b.count == 0 {
        return true;
    }
    assert(a.sum as int * b.count as int <= REDMEAN_MAX * PIXEL_CAP * PIXEL_CAP && b.sum as int
        * a.count as int <= REDMEAN_MAX * PIXEL_CAP * PIXEL_CAP && VARIANCE_DEN as int
        * a.count as int * b.count as int <= VARIANCE_DEN * PIXEL_CAP * PIXEL_CAP)
        by (nonlinear_arith)
        requires
            a.sum as int <= REDMEAN_MAX * a.count,
            b.sum as int <= REDMEAN_MAX * b.count,
            0 <= a.count <= PIXEL_CAP,
            0 <= b.count <= PIXEL_CAP,
    ;
    let lhs: u128 = a.sum as u128 * b.count as u128;
    let rhs: u128 = b.sum as u128 * a.count as u128;
    let abs_diff: u128 = if lhs >= rhs {
        lhs - rhs
    } else {
        rhs - lhs
    };
    let bound: u128 = VARIANCE_DEN as u128 * a.count as u128 * b.count as u128;
    20000 * abs_diff < bound
}

/// The members of cluster `j` under an assignment, in buffer order.
pub open spec fn cluster_members(data: Seq<Color>, assign: Seq<int>, j: int) -> Seq<Color>
    decreases data.len(),
{
    if data.len() == 0 || assign.len() != data.len() {
        Seq::empty()
    } else if assign.last() == j {
        cluster_members(data.drop_last(), assign.drop_last(), j).push(data.last())
    } else {
        cluster_members(data.drop_last(), assign.drop_last(), j)
    }
}

/// The distances from `c` to each entry of `list` under the redmean metric.
pub open spec fn redmean_dists(c: Color, list: Seq<Color>) -> Seq<int> {
    Seq::new(list.len(), |j: int| redmean_scaled(c, list[j]))
}

/// The first nearest entry of `list` to `c`.
pub open spec fn nearest_idx(c: Color, list: Seq<Color>) -> int {
    argmin_first(redmean_dists(c, list))
}

/// Finds the first nearest entry of `color_list` to `color`.
pub fn quant_nearest_color_idx(color: Color, color_list: &Vec<Color>) -> (idx: usize)
    requires
        color_list@.len() >= 1,
    ensures
        idx as int == nearest_idx(color, color_list@),
        idx < color_list@.len(),
{
    proof {
        lemma_argmin_first(redmean_dists(color, color_list@));
    }
    let ghost dists = redmean_dists(color, color_list@);
    let mut idx: usize = 0;
    let mut dist_min: u64 = quant_distance(&color, &color_list[0]);
    let mut i: usize = 1;
    while i < color_list.len()
        invariant
            color_list@.len() >= 1,
            dists == redmean_dists(color, color_list@),
            1 <= i <= color_list@.len(),
            idx < i,
            idx as int == argmin_first(dists.take(i as int)),
            dist_min == dists[idx as int],
        decreases color_list@.len() - i,
    {
        let d = quant_distance(&color, &color_list[i]);
        proof {
            let prefix = dists.take(i as int);
            let next = dists.take(i as int + 1);
            assert(next.drop_last() =~= prefix);
            assert(next[next.len() - 1] == dists[i as int]);
            assert(d == dists[i as int]);
            assert(argmin_first(next) == if dists[i as int] < prefix[argmin_first(prefix)] {
                i as int
            } else {
                argmin_first(prefix)
            });
        }
        if d < dist_min {
            dist_min = d;
            idx = i;
        }
        i = i + 1;
    }
    proof {
        assert(dists.take(color_list@.len() as int) =~= dists);
    }
    idx
}

/// The element views of a list of cluster buffers.
pub open spec fn cluster_views(cl: Seq<Vec<Color>>) -> Seq<Seq<Color>> {
    Seq::new(cl.len(), |j: int| cl[j]@)
}

/// Relies on rand's `IndexedRandom::choose` with the thread-local
/// generator: it returns a uniformly chosen element of a non-empty slice
/// and `None` on an empty one.  Nothing beyond membership is promised.
#[verifier::external_body]
fn quant_pick_random_color(data: &Sprite) -> (c: Color)
    ensures
        data.data@.len() > 0 ==> data.data@.contains(c),
        data.data@.len() == 0 ==> c == transparent(),
{
    data.data.as_slice().choose(&mut rand::rng()).copied().unwrap_or_default()
}

/// The seed weight divisor of a palette weight: `2^w` for a positive
/// weight, and zero (no pull toward the seed) otherwise.
pub open spec fn divisor_of(pw: int) -> int {
    if pw > 0 {
        pow2(pw as nat) as int
    } else {
        0
    }
}

/// Computes `divisor_of`.
pub fn weight_divisor(palette_weight: i32) -> (d: u64)
    requires
        palette_weight <= 31,
    ensures
        d as int == divisor_of(palette_weight as int),
{
    if palette_weight <= 0 {
        return 0;
    }
    proof {
        lemma2_to64();
    }
    let mut d: u64 = 1;
    let mut c: i32 = 0;
    while c < palette_weight
        invariant
            0 <= c <= palette_weight <= 31,
            d == pow2(c as nat),
        decreases palette_weight - c,
    {
        proof {
            lemma2_to64();
            lemma_pow2_strictly_increases(c as nat, 31);
        }
        d = d * 2;
        c = c + 1;
    }
    d
}

/// One free-mode centroid is acceptable: the plain mean of its non-empty
/// cluster, or for an empty cluster some pixel of the buffer (the random
/// reseed) or the transparent sentinel when the buffer itself is empty.
pub open spec fn free_centroid_ok(
    clusters: Seq<Seq<Color>>,
    cents: Seq<Color>,
    data: Seq<Color>,
    j: int,
) -> bool {
    if clusters[j].len() > 0 {
        cents[j] == colors_mean_spec(clusters[j], transparent(), 0)
    } else {
        data.contains(cents[j]) || cents[j] == transparent()
    }
}

/// All free-mode centroids are acceptable.
pub open spec fn free_centroids_ok(
    clusters: Seq<Seq<Color>>,
    cents: Seq<Color>,
    data: Seq<Color>,
) -> bool {
    forall|j: int| 0 <= j < cents.len() ==> #[trigger] free_centroid_ok(clusters, cents, data, j)
}

/// Recomputes the centroid list from the cluster lists: in the seeded mode
/// a non-empty cluster takes its weighted mean pulled toward its palette
/// entry and an empty cluster keeps the palette entry; in the free mode a
/// non-empty cluster takes its plain mean and an empty cluster is reseeded
/// with a random pixel of `data`.
pub fn quant_get_cluster_centroid(
    quant_cluster_list: &Vec<Vec<Color>>,
    quant_centroid_list: &mut Vec<Color>,
    palette: &Vec<Color>,
    data: &Sprite,
    pal_in: bool,
    divisor: u64,
)
    requires
        quant_cluster_list@.len() == palette@.len(),
        old(quant_centroid_list)@.len() == palette@.len(),
        forall|j: int| 0 <= j < quant_cluster_list@.len() ==> #[trigger] quant_cluster_list@[j]@.len()
            <= PIXEL_CAP,
    ensures
        final(quant_centroid_list)@.len() == palette@.len(),
        pal_in ==> final(quant_centroid_list)@ == seeded_centroids(
            cluster_views(quant_cluster_list@),
            palette@,
            divisor as int,
        ),
        !pal_in ==> free_centroids_ok(
            cluster_views(quant_cluster_list@),
            final(quant_centroid_list)@,
            data.data@,
        ),
{
    let k: usize = palette.len();
    let mut out: Vec<Color> = Vec::new();
    let mut j: usize = 0;
    while j < k
        invariant
            k == palette@.len(),
            quant_cluster_list@.len() == k,
            forall|jj: int| 0 <= jj < k ==> #[trigger] quant_cluster_list@[jj]@.len() <= PIXEL_CAP,
            j <= k,
            out@.len() == j,
            pal_in ==> forall|jj: int| 0 <= jj < j ==> out@[jj] == seeded_centroids(
                cluster_views(quant_cluster_list@),
                palette@,
                divisor as int,
            )[jj],
            !pal_in ==> forall|jj: int|
                0 <= jj < j ==> free_centroid_ok(
                    cluster_views(quant_cluster_list@),
                    out@,
                    data.data@,
                    jj,
                ),
        decreases k - j,
    {
        let cl: &Vec<Color> = &quant_cluster_list[j];
        let c: Color = if cl.len() > 0 {
            if pal_in {
                quant_colors_mean(cl, palette[j], divisor)
            } else {
                quant_colors_mean(cl, Color::new(0, 0, 0, 0), 0)
            }
        } else {
            if pal_in {
                palette[j]
            } else {
                quant_pick_random_color(data)
            }
        };
        let ghost pre = out@;
        out.push(c);
        proof {
            let views = cluster_views(quant_cluster_list@);
            if pal_in {
                assert(out@[j as int] == seeded_centroids(views, palette@, divisor as int)[
                    j as int
                ]);
            } else {
                assert(views[j as int] == quant_cluster_list@[j as int]@);
                assert forall|jj: int| 0 <= jj < j + 1 implies free_centroid_ok(
                    views,
                    out@,
                    data.data@,
                    jj,
                ) by {
                    if jj < j {
                        assert(free_centroid_ok(views, pre, data.data@, jj));
                        assert(out@[jj] == pre[jj]);
                    } else {
                        assert(out@[jj] == c);
                    }
                }
            }
        }
        j = j + 1;
    }
    *quant_centroid_list = out;
    proof {
        if pal_in {
            assert(quant_centroid_list@ =~= seeded_centroids(
                cluster_views(quant_cluster_list@),
                palette@,
                divisor as int,
            ));
        }
    }
}

/// The whole relaxation state after a round: cluster member lists, their
/// variance records, the assignment, and whether the round converged.
pub struct KState {
    pub clusters: Seq<Seq<Color>>,
    pub prev: Seq<Variance>,
    pub assign: Seq<int>,
    pub stop: bool,
}

/// The centroid list of the seeded mode: a non-empty cluster takes its
/// weighted mean pulled toward its seed palette entry, an empty cluster
/// keeps the seed itself.
pub open spec fn seeded_centroids(
    clusters: Seq<Seq<Color>>,
    palette: Seq<Color>,
    divisor: int,
) -> Seq<Color> {
    Seq::new(
        clusters.len(),
        |j: int|
            if clusters[j].len() > 0 {
                colors_mean_spec(clusters[j], palette[j], divisor)
            } else {
                palette[j]
            },
    )
}

/// One round of the seeded relaxation: recompute centroids from the
/// previous clusters, reassign every pixel to its first nearest centroid,
/// regroup, and compare each cluster's variance with the previous round.
pub open spec fn kmeans_round(
    data: Seq<Color>,
    palette: Seq<Color>,
    divisor: int,
    st: KState,
) -> KState {
    let cents = seeded_centroids(st.clusters, palette, divisor);
    let assign = Seq::new(data.len(), |i: int| nearest_idx(data[i], cents));
    let clusters = Seq::new(palette.len(), |j: int| cluster_members(data, assign, j));
    let vars = Seq::new(palette.len(), |j: int| variance_of(clusters[j]));
    KState {
        clusters,
        prev: vars,
        assign,
        stop: forall|j: int| 0 <= j < palette.len() ==> small_delta(st.prev[j], vars[j]),
    }
}

/// Runs rounds until one converges or the fuel is spent, and returns the
/// final state.
pub open spec fn kmeans_iterate(
    data: Seq<Color>,
    palette: Seq<Color>,
    divisor: int,
    st: KState,
    fuel: nat,
) -> KState
    decreases fuel,
{
    let st1 = kmeans_round(data, palette, divisor, st);
    if st1.stop || fuel <= 1 {
        st1
    } else {
        kmeans_iterate(data, palette, divisor, st1, (fuel - 1) as nat)
    }
}

/// The state before the first round: every cluster empty, every previous
/// variance the whole unit (so a first round converges only if every
/// cluster variance is within the threshold of one).
pub open spec fn kmeans_initial(k: int) -> KState {
    KState {
        clusters: Seq::new(k as nat, |j: int| Seq::empty()),
        prev: Seq::new(k as nat, |j: int| Variance { sum: VARIANCE_DEN, count: 1 }),
        assign: Seq::empty(),
        stop: false,
    }
}

/// The fixed round cap of the relaxation.
pub open spec fn kmeans_fuel() -> nat {
    16
}

/// The assignment the seeded quantizer returns for a buffer.
pub open spec fn kmeans_assignments(data: Seq<Color>, palette: Seq<Color>, divisor: int) -> Seq<
    int,
> {
    kmeans_iterate(data, palette, divisor, kmeans_initial(palette.len() as int), kmeans_fuel()).assign
}

/// A round always yields one cluster, one variance and one centroid per
/// palette entry, and in-range assignments.
pub proof fn lemma_kmeans_round_wf(data: Seq<Color>, palette: Seq<Color>, divisor: int, st: KState)
    requires
        palette.len() > 0,
        st.clusters.len() == palette.len(),
    ensures
        kmeans_round(data, palette, divisor, st).clusters.len() == palette.len(),
        kmeans_round(data, palette, divisor, st).prev.len() == palette.len(),
        kmeans_round(data, palette, divisor, st).assign.len() == data.len(),
        forall|i: int| 0 <= i < data.len() ==> 0 <= #[trigger] kmeans_round(
            data,
            palette,
            divisor,
            st,
        ).assign[i] < palette.len(),
{
    let cents = seeded_centroids(st.clusters, palette, divisor);
    assert forall|i: int| 0 <= i < data.len() implies 0 <= #[trigger] kmeans_round(
        data,
        palette,
        divisor,
        st,
    ).assign[i] < palette.len() by {
        lemma_argmin_first(redmean_dists(data[i], cents));
    }
}

/// `kmeans_iterate` keeps the shape facts of `lemma_kmeans_round_wf`.
pub proof fn lemma_kmeans_iterate_wf(
    data: Seq<Color>,
    palette: Seq<Color>,
    divisor: int,
    st: KState,
    fuel: nat,
)
    requires
        palette.len() > 0,
        st.clusters.len() == palette.len(),
    ensures
        kmeans_iterate(data, palette, divisor, st, fuel).clusters.len() == palette.len(),
        kmeans_iterate(data, palette, divisor, st, fuel).assign.len() == data.len(),
        forall|i: int| 0 <= i < data.len() ==> 0 <= #[trigger] kmeans_iterate(
            data,
            palette,
            divisor,
            st,
            fuel,
        ).assign[i] < palette.len(),
    decreases fuel,
{
    lemma_kmeans_round_wf(data, palette, divisor, st);
    let st1 = kmeans_round(data, palette, divisor, st);
    if !(st1.stop || fuel <= 1) {
        lemma_kmeans_iterate_wf(data, palette, divisor, st1, (fuel - 1) as nat);
    }
}

/// Runs the relaxation and returns the final cluster index of every pixel.
///
/// With `pal_in` (the seeded mode) the result is exactly the assignment of
/// the `kmeans_iterate` state machine; the free mode reseeds empty clusters
/// at random, so only shape and range are promised of it.
#[verifier::rlimit(100)]
pub fn quant_compute_kmeans(
    palette: &Vec<Color>,
    palette_weight: i32,
    data: &Sprite,
    pal_in: bool,
) -> (assignment: Vec<usize>)
    requires
        palette@.len() >= 1,
        data.data@.len() <= PIXEL_CAP,
        0 <= palette_weight <= 31,
    ensures
        assignment@.len() == data.data@.len(),
        forall|i: int| 0 <= i < assignment@.len() ==> #[trigger] assignment@[i] < palette@.len(),
        pal_in ==> Seq::new(assignment@.len(), |i: int| assignment@[i] as int)
            == kmeans_assignments(data.data@, palette@, divisor_of(palette_weight as int)),
{
    let k: usize = palette.len();
    let n: usize = data.data.len();
    let divisor: u64 = weight_divisor(palette_weight);
    let ghost gdiv: int = divisor_of(palette_weight as int);
    let ghost dataseq = data.data@;
    let ghost goal = kmeans_iterate(
        dataseq,
        palette@,
        gdiv,
        kmeans_initial(k as int),
        kmeans_fuel(),
    );
    let mut quant_cluster_list: Vec<Vec<Color>> = Vec::new();
    let mut jj: usize = 0;
    while jj < k
        invariant
            jj <= k,
            quant_cluster_list@.len() == jj,
            forall|j: int| 0 <= j < jj ==> #[trigger] quant_cluster_list@[j]@ == Seq::<
                Color,
            >::empty(),
        decreases k - jj,
    {
        quant_cluster_list.push(Vec::new());
        jj = jj + 1;
    }
    let mut quant_centroid_list: Vec<Color> = Vec::new();
    let mut jj: usize = 0;
    while jj < k
        invariant
            jj <= k,
            quant_centroid_list@.len() == jj,
        decreases k - jj,
    {
        quant_centroid_list.push(Color::new(0, 0, 0, 0));
        jj = jj + 1;
    }
    let mut previous_variance: Vec<Variance> = Vec::new();
    let mut jj: usize = 0;
    while jj < k
        invariant
            jj <= k,
            previous_variance@.len() == jj,
            forall|j: int| 0 <= j < jj ==> #[trigger] previous_variance@[j] == (Variance {
                sum: VARIANCE_DEN,
                count: 1,
            }),
        decreases k - jj,
    {
        previous_variance.push(Variance { sum: VARIANCE_DEN, count: 1 });
        jj = jj + 1;
    }
    let mut quant_assignment: Vec<usize> = Vec::new();
    let mut iter: usize = 0;
    let mut done: bool = false;
    let ghost mut cur: KState = kmeans_initial(k as int);
    proof {
        assert(cluster_views(quant_cluster_list@) =~= cur.clusters);
        assert(previous_variance@ =~= cur.prev);
    }
    while !done
        invariant
            palette@.len() == k,
            k >= 1,
            dataseq == data.data@,
            n == dataseq.len(),
            n <= PIXEL_CAP,
            divisor as int == gdiv,
            goal == kmeans_iterate(
                dataseq,
                palette@,
                gdiv,
                kmeans_initial(k as int),
                kmeans_fuel(),
            ),
            quant_cluster_list@.len() == k,
            forall|j: int| 0 <= j < k ==> #[trigger] quant_cluster_list@[j]@.len() <= n,
            quant_centroid_list@.len() == k,
            previous_variance@.len() == k,
            forall|j: int| 0 <= j < k ==> (#[trigger] previous_variance@[j]).sum <= REDMEAN_MAX
                * previous_variance@[j].count && previous_variance@[j].count <= PIXEL_CAP,
            iter <= 16,
            !done ==> iter < 16,
            pal_in ==> cur.clusters.len() == k,
            pal_in ==> cur.prev == previous_variance@,
            pal_in ==> cur.clusters == cluster_views(quant_cluster_list@),
            pal_in && !done ==> kmeans_iterate(dataseq, palette@, gdiv, cur, (16 - iter) as nat)
                == goal,
            pal_in && iter == 0 ==> cur == kmeans_initial(k as int),
            done ==> quant_assignment@.len() == n,
            done ==> forall|i: int| 0 <= i < n ==> #[trigger] quant_assignment@[i] < k,
            pal_in && done ==> Seq::new(n as nat, |i: int| quant_assignment@[i] as int)
                == goal.assign,
        decreases 17 - iter,
    {
        quant_get_cluster_centroid(
            &quant_cluster_list,
            &mut quant_centroid_list,
            palette,
            data,
            pal_in,
            divisor,
        );
        let ghost cents = quant_centroid_list@;
        let ghost st1 = kmeans_round(dataseq, palette@, gdiv, cur);
        proof {
            if pal_in {
                assert(cents == seeded_centroids(cur.clusters, palette@, gdiv));
            }
        }
        let mut fresh: Vec<Vec<Color>> = Vec::new();
        let mut jj: usize = 0;
        while jj < k
            invariant
                jj <= k,
                fresh@.len() == jj,
                forall|j: int| 0 <= j < jj ==> #[trigger] fresh@[j]@ == Seq::<Color>::empty(),
            decreases k - jj,
        {
            fresh.push(Vec::new());
            jj = jj + 1;
        }
        quant_cluster_list = fresh;
        let mut new_assignment: Vec<usize> = Vec::new();
        let mut i: usize = 0;
        while i < n
            invariant
                palette@.len() == k,
                k >= 1,
                dataseq == data.data@,
                n == dataseq.len(),
                n <= PIXEL_CAP,
                quant_centroid_list@ == cents,
                cents.len() == k,
                i <= n,
                new_assignment@.len() == i,
                forall|ii: int| 0 <= ii < i ==> #[trigger] new_assignment@[ii] < k,
                forall|ii: int| 0 <= ii < i ==> #[trigger] new_assignment@[ii] as int
                    == nearest_idx(dataseq[ii], cents),
                quant_cluster_list@.len() == k,
                forall|j: int| 0 <= j < k ==> #[trigger] quant_cluster_list@[j]@
                    == cluster_members(
                    dataseq.take(i as int),
                    Seq::new(i as nat, |x: int| new_assignment@[x] as int),
                    j,
                ),
                forall|j: int| 0 <= j < k ==> #[trigger] quant_cluster_list@[j]@.len() <= i,
            decreases n - i,
        {
            let color = data.data[i];
            let a = quant_nearest_color_idx(color, &quant_centroid_list);
            let ghost oldclusters = quant_cluster_list@;
            let ghost oldamap = Seq::new(i as nat, |x: int| new_assignment@[x] as int);
            new_assignment.push(a);
            quant_cluster_list[a].push(color);
            proof {
                let amap = Seq::new(i as nat + 1, |x: int| new_assignment@[x] as int);
                assert(amap.drop_last() =~= oldamap);
                assert(dataseq.take(i as int + 1).drop_last() =~= dataseq.take(i as int));
                assert(dataseq.take(i as int + 1).last() == dataseq[i as int]);
                assert(amap.last() == a as int);
                assert forall|j: int| 0 <= j < k implies #[trigger] quant_cluster_list@[j]@
                    == cluster_members(dataseq.take(i as int + 1), amap, j) by {
                    if j == a as int {
                        assert(quant_cluster_list@[j]@ == oldclusters[j]@.push(color));
                    } else {
                        assert(quant_cluster_list@[j]@ == oldclusters[j]@);
                    }
                }
            }
            i = i + 1;
        }
        proof {
            assert(dataseq.take(n as int) =~= dataseq);
            if pal_in {
                let amap = Seq::new(n as nat, |x: int| new_assignment@[x] as int);
                assert(amap =~= st1.assign);
                assert forall|j: int| 0 <= j < k implies cluster_views(quant_cluster_list@)[j]
                    == st1.clusters[j] by {
                    assert(quant_cluster_list@[j]@ == cluster_members(dataseq, amap, j));
                }
                assert(cluster_views(quant_cluster_list@) =~= st1.clusters);
            }
        }
        let mut new_variance: Vec<Variance> = Vec::new();
        let mut delta_ok: bool = true;
        let mut j: usize = 0;
        while j < k
            invariant
                palette@.len() == k,
                n <= PIXEL_CAP,
                quant_cluster_list@.len() == k,
                forall|jx: int| 0 <= jx < k ==> #[trigger] quant_cluster_list@[jx]@.len() <= n,
                previous_variance@.len() == k,
                forall|jx: int| 0 <= jx < k ==> (#[trigger] previous_variance@[jx]).sum
                    <= REDMEAN_MAX * previous_variance@[jx].count && previous_variance@[jx].count
                    <= PIXEL_CAP,
                j <= k,
                new_variance@.len() == j,
                forall|jx: int| 0 <= jx < j ==> #[trigger] new_variance@[jx] == variance_of(
                    quant_cluster_list@[jx]@,
                ),
                forall|jx: int| 0 <= jx < j ==> (#[trigger] new_variance@[jx]).sum <= REDMEAN_MAX
                    * new_variance@[jx].count && new_variance@[jx].count <= PIXEL_CAP,
                delta_ok == forall|jx: int|
                    0 <= jx < j ==> small_delta(
                        previous_variance@[jx],
                        #[trigger] new_variance@[jx],
                    ),
            decreases k - j,
        {
            let v = quant_colors_variance(&quant_cluster_list[j]);
            let ok = variance_delta_small(&previous_variance[j], &v);
            let ghost wasok = delta_ok;
            delta_ok = delta_ok && ok;
            let ghost prevnv = new_variance@;
            new_variance.push(v);
            proof {
                assert(new_variance@[j as int] == v);
                assert(forall|jx: int| 0 <= jx < j ==> #[trigger] new_variance@[jx]
                    == prevnv[jx]);
                if wasok && ok {
                    assert forall|jx: int| 0 <= jx < j + 1 implies small_delta(
                        previous_variance@[jx],
                        #[trigger] new_variance@[jx],
                    ) by {}
                } else if !wasok {
                    let jx0 = choose|jx: int| 0 <= jx < j && !small_delta(
                        previous_variance@[jx],
                        #[trigger] prevnv[jx],
                    );
                    assert(!small_delta(previous_variance@[jx0], new_variance@[jx0]));
                } else {
                    assert(!small_delta(previous_variance@[j as int], new_variance@[j as int]));
                }
            }
            j = j + 1;
        }
        quant_assignment = new_assignment;
        iter = iter + 1;
        proof {
            if pal_in {
                assert forall|jx: int| 0 <= jx < k implies st1.prev[jx]
                    == #[trigger] new_variance@[jx] by {
                    assert(st1.clusters[jx] == quant_cluster_list@[jx]@);
                }
                assert(new_variance@ =~= st1.prev);
                assert(st1.stop == delta_ok);
            }
        }
        previous_variance = new_variance;
        if delta_ok || iter >= 16 {
            done = true;
        }
        proof {
            if pal_in {
                let fuel_old = (16 - (iter - 1)) as nat;
                assert(kmeans_iterate(dataseq, palette@, gdiv, cur, fuel_old) == goal);
                if st1.stop || fuel_old <= 1 {
                    assert(kmeans_iterate(dataseq, palette@, gdiv, cur, fuel_old) == st1);
                    assert(done);
                    assert(Seq::new(n as nat, |i: int| quant_assignment@[i] as int)
                        =~= goal.assign);
                } else {
                    assert(kmeans_iterate(dataseq, palette@, gdiv, cur, fuel_old)
                        == kmeans_iterate(
                        dataseq,
                        palette@,
                        gdiv,
                        st1,
                        (fuel_old - 1) as nat,
                    ));
                    assert(!done);
                }
            }
            cur = st1;
        }
    }
    proof {
        if pal_in {
            assert(Seq::new(quant_assignment@.len(), |i: int| quant_assignment@[i] as int)
                == kmeans_assignments(dataseq, palette@, gdiv));
        }
    }
    quant_assignment
}

/// The whole clustering-mode dither stage: gate or perturb the buffer,
/// cluster it as one batch in seeded mode, then paint each surviving pixel
/// with the palette entry of its final cluster.
pub open spec fn kmeans_output_spec(
    mode: DitherMode,
    input: Seq<Color>,
    w: int,
    amount: int,
    alpha_threshold: int,
    palette: Seq<Color>,
    divisor: int,
) -> Seq<Color> {
    let pre = pre_dither_spec(mode, input, w, amount, alpha_threshold);
    let assign = kmeans_assignments(pre, palette, divisor);
    Seq::new(
        pre.len(),
        |i: int|
            if pre[i].alpha == 0 {
                pre[i]
            } else {
                paint_opaque(palette[assign[i]])
            },
    )
}

/// The clustering-mode dither stage: pre-dither the buffer, run the seeded
/// relaxation over it, and paint every non-transparent pixel with the
/// palette entry of its cluster.
pub fn dither_kmeans(
    mode: DitherMode,
    amount: u16,
    alpha_threshold: u8,
    palette: &Vec<Color>,
    palette_weight: i32,
    input: &Vec<Color>,
    output: &mut Sprite,
    width: usize,
    height: usize,
)
    requires
        old(output).width == width,
        old(output).height == height,
        width >= 1,
        input@.len() == width * height,
        input@.len() <= PIXEL_CAP,
        palette@.len() >= 1,
        0 <= palette_weight <= 31,
        amount <= 1000,
    ensures
        final(output).width == width,
        final(output).height == height,
        final(output).data@ == kmeans_output_spec(
            mode,
            input@,
            width as int,
            amount as int,
            alpha_threshold as int,
            palette@,
            divisor_of(palette_weight as int),
        ),
        final(output).wf(),
{
    let pre: Vec<Color> = if is_ordered_mode(mode) {
        let (matrix, side) = ordered_matrix(mode);
        dither_threshold_apply(input, width, &matrix, side, amount, alpha_threshold)
    } else {
        dither_none_apply(input, alpha_threshold)
    };
    let ghost prespec = pre_dither_spec(
        mode,
        input@,
        width as int,
        amount as int,
        alpha_threshold as int,
    );
    assert(pre@ == prespec);
    let temp = Sprite { width, height, data: pre };
    let assignments = quant_compute_kmeans(palette, palette_weight, &temp, true);
    let ghost assignseq = kmeans_assignments(prespec, palette@, divisor_of(palette_weight as int));
    let n: usize = temp.data.len();
    let mut out: Vec<Color> = Vec::new();
    let mut i: usize = 0;
    while i < n
        invariant
            n == temp.data@.len(),
            temp.data@ == prespec,
            assignments@.len() == n,
            forall|x: int| 0 <= x < n ==> #[trigger] assignments@[x] < palette@.len(),
            Seq::new(assignments@.len(), |x: int| assignments@[x] as int) == assignseq,
            palette@.len() >= 1,
            i <= n,
            out@.len() == i,
            forall|x: int| 0 <= x < i ==> #[trigger] out@[x] == if prespec[x].alpha == 0 {
                prespec[x]
            } else {
                paint_opaque(palette@[assignseq[x]])
            },
        decreases n - i,
    {
        let c = temp.data[i];
        proof {
            assert(assignseq[i as int] == assignments@[i as int] as int);
        }
        if c.alpha == 0 {
            out.push(c);
        } else {
            let p = palette[assignments[i]];
            out.push(Color::new(p.red, p.green, p.blue, 255));
        }
        i = i + 1;
    }
    output.data = out;
    proof {
        assert(output.data@ =~= kmeans_output_spec(
            mode,
            input@,
            width as int,
            amount as int,
            alpha_threshold as int,
            palette@,
            divisor_of(palette_weight as int),
        ));
    }
}

/// Every member of a cluster is a pixel of the buffer that the assignment
/// sent to that cluster.
proof fn lemma_cluster_members_elem(data: Seq<Color>, assign: Seq<int>, j: int)
    requires
        assign.len() == data.len(),
    ensures
        forall|x: int| 0 <= x < cluster_members(data, assign, j).len() ==> exists|i: int|
            0 <= i < data.len() && assign[i] == j && data[i] == #[trigger] cluster_members(
                data,
                assign,
                j,
            )[x],
    decreases data.len(),
{
    if data.len() > 0 {
        lemma_cluster_members_elem(data.drop_last(), assign.drop_last(), j);
        let whole = cluster_members(data, assign, j);
        let prefix = cluster_members(data.drop_last(), assign.drop_last(), j);
        assert forall|x: int| 0 <= x < whole.len() implies exists|i: int|
            0 <= i < data.len() && assign[i] == j && data[i] == #[trigger] whole[x] by {
            if x < prefix.len() {
                let i0 = choose|i: int|
                    0 <= i < data.drop_last().len() && assign.drop_last()[i] == j
                        && data.drop_last()[i] == prefix[x];
                assert(0 <= i0 < data.len() && assign[i0] == j && data[i0] == whole[x]);
            } else {
                let i0 = data.len() - 1;
                assert(0 <= i0 < data.len() && assign[i0] == j && data[i0] == whole[x]);
            }
        }
    }
}

/// Channel sums of a buffer whose pixels all share the channels of `v`.
proof fn lemma_sum_uniform(s: Seq<Color>, v: Color)
    requires
        forall|i: int| 0 <= i < s.len() ==> same_rgb(#[trigger] s[i], v),
    ensures
        sum_red(s) == v.red * s.len(),
        sum_green(s) == v.green * s.len(),
        sum_blue(s) == v.blue * s.len(),
    decreases s.len(),
{
    if s.len() == 0 {
        assert(v.red * 0 == 0) by (nonlinear_arith);
        assert(v.green * 0 == 0) by (nonlinear_arith);
        assert(v.blue * 0 == 0) by (nonlinear_arith);
    } else {
        lemma_sum_uniform(s.drop_last(), v);
        assert(v.red * s.len() == v.red * (s.len() - 1) + v.red) by (nonlinear_arith);
        assert(v.green * s.len() == v.green * (s.len() - 1) + v.green) by (nonlinear_arith);
        assert(v.blue * s.len() == v.blue * (s.len() - 1) + v.blue) by (nonlinear_arith);
    }
}

proof fn lemma_div_exact(a: int, den: int)
    by (nonlinear_arith)
    requires
        den > 0,
    ensures
        (a * den) / den == a,
{
}

/// The weighted mean of a cluster whose members and seed all share the
/// channels of `v` shares them too.
proof fn lemma_mean_uniform(list: Seq<Color>, seed: Color, divisor: int, v: Color)
    requires
        list.len() > 0,
        forall|i: int| 0 <= i < list.len() ==> same_rgb(#[trigger] list[i], v),
        same_rgb(seed, v),
        divisor >= 0,
    ensures
        same_rgb(colors_mean_spec(list, seed, divisor), v),
{
    lemma_sum_uniform(list, v);
    let n = list.len() as int;
    let wc: int = if divisor != 0 {
        n / divisor
    } else {
        0
    };
    assert(wc >= 0) by (nonlinear_arith)
        requires
            n >= 0,
            divisor >= 0,
            wc == if divisor != 0 {
                n / divisor
            } else {
                0
            },
    ;
    let den = n + wc;
    assert(v.red * n + v.red * wc == v.red * den && v.green * n + v.green * wc == v.green * den
        && v.blue * n + v.blue * wc == v.blue * den) by (nonlinear_arith)
        requires
            den == n + wc,
    ;
    lemma_div_exact(v.red as int, den);
    lemma_div_exact(v.green as int, den);
    lemma_div_exact(v.blue as int, den);
}

/// If every centroid shares channels with its palette entry and `c` shares
/// channels with some palette entry, then `c` is assigned to a centroid
/// whose palette entry shares the channels of `c`.
proof fn lemma_assign_quantized(c: Color, cents: Seq<Color>, palette: Seq<Color>)
    requires
        cents.len() == palette.len(),
        palette.len() > 0,
        forall|j: int| 0 <= j < palette.len() ==> same_rgb(#[trigger] cents[j], palette[j]),
        exists|j: int| 0 <= j < palette.len() && same_rgb(c, #[trigger] palette[j]),
    ensures
        0 <= nearest_idx(c, cents) < palette.len(),
        same_rgb(c, palette[nearest_idx(c, cents)]),
{
    let dists = redmean_dists(c, cents);
    lemma_argmin_first(dists);
    let j0 = choose|j: int| 0 <= j < palette.len() && same_rgb(c, #[trigger] palette[j]);
    lemma_redmean_props(c, cents[j0]);
    assert(dists[j0] == 0);
    let win = argmin_first(dists);
    lemma_redmean_props(c, cents[win]);
    assert(dists[win] <= dists[j0]);
    assert(same_rgb(c, cents[win]));
}

/// Every pixel of the buffer carries the channels of some palette entry.
pub open spec fn buffer_quantized(data: Seq<Color>, palette: Seq<Color>) -> bool {
    forall|i: int| 0 <= i < data.len() ==> exists|j: int|
        0 <= j < palette.len() && same_rgb(#[trigger] data[i], palette[j])
}

/// The clusters of a state all hold only pixels sharing the channels of
/// their palette entry.
pub open spec fn clusters_quantized(clusters: Seq<Seq<Color>>, palette: Seq<Color>) -> bool {
    forall|j: int, x: int|
        0 <= j < clusters.len() && 0 <= x < clusters[j].len() ==> same_rgb(
            #[trigger] clusters[j][x],
            palette[j],
        )
}

/// One round keeps the clusters quantized and assigns every pixel to an
/// entry with its own channels, when every pixel is a palette color.
proof fn lemma_round_quantized(data: Seq<Color>, palette: Seq<Color>, divisor: int, st: KState)
    requires
        palette.len() > 0,
        divisor >= 0,
        st.clusters.len() == palette.len(),
        clusters_quantized(st.clusters, palette),
        buffer_quantized(data, palette),
    ensures
        kmeans_round(data, palette, divisor, st).clusters.len() == palette.len(),
        clusters_quantized(kmeans_round(data, palette, divisor, st).clusters, palette),
        forall|i: int| 0 <= i < data.len() ==> same_rgb(
            #[trigger] data[i],
            palette[kmeans_round(data, palette, divisor, st).assign[i]],
        ),
{
    let cents = seeded_centroids(st.clusters, palette, divisor);
    assert forall|j: int| 0 <= j < palette.len() implies same_rgb(
        #[trigger] cents[j],
        palette[j],
    ) by {
        if st.clusters[j].len() > 0 {
            lemma_mean_uniform(st.clusters[j], palette[j], divisor, palette[j]);
        }
    }
    let st1 = kmeans_round(data, palette, divisor, st);
    assert forall|i: int| 0 <= i < data.len() implies same_rgb(
        #[trigger] data[i],
        palette[st1.assign[i]],
    ) by {
        lemma_assign_quantized(data[i], cents, palette);
    }
    assert forall|j: int, x: int|
        0 <= j < st1.clusters.len() && 0 <= x < st1.clusters[j].len() implies same_rgb(
        #[trigger] st1.clusters[j][x],
        palette[j],
    ) by {
        lemma_cluster_members_elem(data, st1.assign, j);
        let i0 = choose|i: int|
            0 <= i < data.len() && st1.assign[i] == j && data[i] == st1.clusters[j][x];
    }
}

proof fn lemma_iterate_quantized(
    data: Seq<Color>,
    palette: Seq<Color>,
    divisor: int,
    st: KState,
    fuel: nat,
)
    requires
        palette.len() > 0,
        divisor >= 0,
        st.clusters.len() == palette.len(),
        clusters_quantized(st.clusters, palette),
        buffer_quantized(data, palette),
        fuel >= 1,
    ensures
        forall|i: int| 0 <= i < data.len() ==> same_rgb(
            #[trigger] data[i],
            palette[kmeans_iterate(data, palette, divisor, st, fuel).assign[i]],
        ),
    decreases fuel,
{
    lemma_round_quantized(data, palette, divisor, st);
    lemma_kmeans_round_wf(data, palette, divisor, st);
    let st1 = kmeans_round(data, palette, divisor, st);
    if !(st1.stop || fuel <= 1) {
        lemma_iterate_quantized(data, palette, divisor, st1, (fuel - 1) as nat);
    }
}

/// Fixed point of the seeded quantizer: on a buffer whose every pixel
/// already carries the channels of some palette entry, the relaxation
/// assigns each pixel to an entry with exactly its channels, whatever the
/// seed weight.  Re-painting therefore leaves every color channel of the
/// buffer unchanged.
pub proof fn lemma_kmeans_fixed_point(data: Seq<Color>, palette: Seq<Color>, divisor: int)
    requires
        palette.len() > 0,
        divisor >= 0,
        buffer_quantized(data, palette),
    ensures
        forall|i: int| 0 <= i < data.len() ==> same_rgb(
            #[trigger] data[i],
            palette[kmeans_assignments(data, palette, divisor)[i]],
        ),
{
    let init = kmeans_initial(palette.len() as int);
    assert(init.clusters.len() == palette.len());
    assert forall|j: int, x: int|
        0 <= j < init.clusters.len() && 0 <= x < init.clusters[j].len() implies same_rgb(
        #[trigger] init.clusters[j][x],
        palette[j],
    ) by {
        assert(init.clusters[j] == Seq::<Color>::empty());
    }
    lemma_iterate_quantized(data, palette, divisor, init, kmeans_fuel());
}

/// Clustering fixed point at the quantizer's boundary: a buffer that is
/// already quantized output (every pixel either the transparent sentinel
/// or an opaque pixel carrying some palette entry's channels) passes
/// through the clustering stage unchanged, whatever the seed weight.
/// A transparent pixel's channels are black, so the hypothesis asks that
/// black also be a palette color whenever such pixels are present.
pub proof fn lemma_kmeans_output_fixed_point(
    q: Seq<Color>,
    w: int,
    amount: int,
    alpha_threshold: int,
    palette: Seq<Color>,
    divisor: int,
)
    requires
        palette.len() > 0,
        divisor >= 0,
        1 <= alpha_threshold <= 255,
        forall|i: int| 0 <= i < q.len() ==> (#[trigger] q[i]).alpha == 0 || q[i].alpha == 255,
        forall|i: int| 0 <= i < q.len() && (#[trigger] q[i]).alpha == 0 ==> q[i] == transparent(),
        buffer_quantized(q, palette),
    ensures
        kmeans_output_spec(
            DitherMode::NoDither,
            q,
            w,
            amount,
            alpha_threshold,
            palette,
            divisor,
        ) == q,
{
    let pre = pre_dither_spec(DitherMode::NoDither, q, w, amount, alpha_threshold);
    assert(pre =~= q);
    lemma_kmeans_fixed_point(q, palette, divisor);
    lemma_kmeans_iterate_wf(
        q,
        palette,
        divisor,
        kmeans_initial(palette.len() as int),
        kmeans_fuel(),
    );
    let out = kmeans_output_spec(
        DitherMode::NoDither,
        q,
        w,
        amount,
        alpha_threshold,
        palette,
        divisor,
    );
    let assign = kmeans_assignments(q, palette, divisor);
    assert forall|i: int| 0 <= i < q.len() implies out[i] == q[i] by {
        if q[i].alpha != 0 {
            assert(same_rgb(q[i], palette[assign[i]]));
        }
    }
    assert(out =~= q);
}

} // verus!
