//! k-means clustering of colors: nearest-centroid assignment, centroid
//! update, Lloyd refinement and the weighted draw of k-means++ seeding.

use vstd::prelude::*;
use crate::color::Rgb;

verus! {

/// Index of the centroid nearest to `p` among the first `j` of `cents`;
/// on a tie the lowest index wins.
pub open spec fn nearest_among(p: Rgb, cents: Seq<Rgb>, j: int) -> int
    decreases j,
{
    if j <= 1 {
        0
    } else {
        let best = nearest_among(p, cents, j - 1);
        if p.distance_squared_spec(cents[j - 1]) < p.distance_squared_spec(cents[best]) {
            j - 1
        } else {
            best
        }
    }
}

pub open spec fn nearest(p: Rgb, cents: Seq<Rgb>) -> int {
    nearest_among(p, cents, cents.len() as int)
}

/// The nearest centroid of every sample.
pub open spec fn assignments(pixels: Seq<Rgb>, cents: Seq<Rgb>) -> Seq<usize> {
    Seq::new(pixels.len(), |i: int| nearest(pixels[i], cents) as usize)
}

pub open spec fn channel(p: Rgb, ch: int) -> int {
    if ch == 0 {
        p.r as int
    } else if ch == 1 {
        p.g as int
    } else {
        p.b as int
    }
}

/// Sum of channel `ch` over the first `n` samples assigned to cluster `c`.
pub open spec fn cluster_sum(pixels: Seq<Rgb>, assign: Seq<usize>, c: int, n: int, ch: int) -> int
    decreases n,
{
    if n <= 0 {
        0
    } else {
        cluster_sum(pixels, assign, c, n - 1, ch) + if assign[n - 1] as int == c {
            channel(pixels[n - 1], ch)
        } else {
            0
        }
    }
}

/// Number of the first `n` samples assigned to cluster `c`.
pub open spec fn cluster_count(assign: Seq<usize>, c: int, n: int) -> int
    decreases n,
{
    if n <= 0 {
        0
    } else {
        cluster_count(assign, c, n - 1) + if assign[n - 1] as int == c {
            1int
        } else {
            0
        }
    }
}

/// Mean color of cluster `c`; the previous centroid when the cluster is empty.
pub open spec fn cluster_mean(pixels: Seq<Rgb>, assign: Seq<usize>, c: int, old: Rgb) -> Rgb {
    let n = pixels.len() as int;
    let k = cluster_count(assign, c, n);
    if k > 0 {
        Rgb {
            r: (cluster_sum(pixels, assign, c, n, 0) / k) as u16,
            g: (cluster_sum(pixels, assign, c, n, 1) / k) as u16,
            b: (cluster_sum(pixels, assign, c, n, 2) / k) as u16,
        }
    } else {
        old
    }
}

/// Every centroid replaced by the mean of its cluster.
pub open spec fn update_centroids(pixels: Seq<Rgb>, assign: Seq<usize>, cents: Seq<Rgb>) -> Seq<
    Rgb,
> {
    Seq::new(cents.len(), |c: int| cluster_mean(pixels, assign, c, cents[c]))
}

/// Lloyd refinement for at most `iters` rounds, starting from the centroids
/// `cents` and the previous assignment `prev`; it stops early when no
/// sample changes cluster.
pub open spec fn lloyd(pixels: Seq<Rgb>, cents: Seq<Rgb>, prev: Seq<usize>, iters: nat) -> Seq<Rgb>
    decreases iters,
{
    if iters == 0 {
        cents
    } else {
        let a = assignments(pixels, cents);
        if a == prev {
            cents
        } else {
            lloyd(pixels, update_centroids(pixels, a, cents), a, (iters - 1) as nat)
        }
    }
}

/// The assignment that refinement starts from: every sample in cluster 0.
pub open spec fn all_zero(n: nat) -> Seq<usize> {
    Seq::new(n, |i: int| 0usize)
}

/// `r` is a possible result of clustering `pixels` into `k` groups: the
/// samples themselves when there are at most `k`, otherwise Lloyd
/// refinement from `k` seeds chosen by k-means++ (`seeds_by`, with each
/// threshold below the total weight of its step).
pub open spec fn kmeans_outcome(pixels: Seq<Rgb>, k: int, iters: nat, r: Seq<Rgb>) -> bool {
    if pixels.len() <= k {
        r == pixels
    } else {
        exists|first: int, ths: Seq<int>|
            {
                &&& 0 <= first < pixels.len()
                &&& ths.len() == k - 1
                &&& thresholds_valid(pixels, first, ths, k)
                &&& r == lloyd(pixels, seeds_by(pixels, first, ths, k as nat), all_zero(pixels.len()), iters)
            }
    }
}

/// Sum of the first `n` weights.
pub open spec fn prefix_sum(w: Seq<u64>, n: int) -> int
    decreases n,
{
    if n <= 0 {
        0
    } else {
        prefix_sum(w, n - 1) + w[n - 1]
    }
}

proof fn lemma_nearest_bounds(p: Rgb, cents: Seq<Rgb>, j: int)
    requires
        1 <= j,
    ensures
        0 <= nearest_among(p, cents, j) < j,
    decreases j,
{
    if j > 1 {
        lemma_nearest_bounds(p, cents, j - 1);
    }
}

pub proof fn lemma_cluster_bounds(pixels: Seq<Rgb>, assign: Seq<usize>, c: int, n: int, ch: int)
    requires
        0 <= n <= pixels.len(),
        n <= assign.len(),
    ensures
        0 <= cluster_sum(pixels, assign, c, n, ch) <= cluster_count(assign, c, n) * 65535,
        0 <= cluster_count(assign, c, n) <= n,
    decreases n,
{
    if n > 0 {
        lemma_cluster_bounds(pixels, assign, c, n - 1, ch);
    }
}

pub proof fn lemma_prefix_bound(w: Seq<u64>, n: int)
    requires
        0 <= n <= w.len(),
    ensures
        0 <= prefix_sum(w, n) <= n * 0xffff_ffff_ffff_ffff,
    decreases n,
{
    if n > 0 {
        lemma_prefix_bound(w, n - 1);
    }
}

proof fn lemma_prefix_monotonic(w: Seq<u64>, m: int, n: int)
    requires
        0 <= m <= n <= w.len(),
    ensures
        prefix_sum(w, m) <= prefix_sum(w, n),
    decreases n - m,
{
    if m < n {
        lemma_prefix_monotonic(w, m, n - 1);
    }
}

/// The weighted draw from index `i` on: the first index whose running
/// total exceeds `t`, or 0 when none does.
pub open spec fn pick_from(w: Seq<u64>, t: int, i: int) -> int
    decreases w.len() - i,
{
    if i < 0 || i >= w.len() {
        0
    } else if prefix_sum(w, i + 1) > t {
        i
    } else {
        pick_from(w, t, i + 1)
    }
}

/// The index that a threshold `t` selects from the weights `w`.
pub open spec fn weighted_pick(w: Seq<u64>, t: int) -> int {
    pick_from(w, t, 0)
}

/// A threshold below a positive total picks an index of positive weight.
pub proof fn lemma_pick_positive(w: Seq<u64>, t: int, i: int)
    requires
        0 <= i <= w.len(),
        prefix_sum(w, i) <= t,
        t < prefix_sum(w, w.len() as int),
    ensures
        0 <= pick_from(w, t, i) < w.len(),
        w[pick_from(w, t, i)] > 0,
    decreases w.len() - i,
{
    if i == w.len() {
    } else if prefix_sum(w, i + 1) > t {
    } else {
        lemma_pick_positive(w, t, i + 1);
    }
}

pub proof fn lemma_pick_bounds(w: Seq<u64>, t: int, i: int)
    requires
        w.len() >= 1,
    ensures
        0 <= pick_from(w, t, i) < w.len(),
    decreases w.len() - i,
{
    if 0 <= i < w.len() && prefix_sum(w, i + 1) <= t {
        lemma_pick_bounds(w, t, i + 1);
    }
}

/// Squared distance from `p` to the nearest of the seeds.
pub open spec fn min_dist(p: Rgb, seeds: Seq<Rgb>) -> int
    decreases seeds.len(),
{
    if seeds.len() == 0 {
        0
    } else if seeds.len() == 1 {
        p.distance_squared_spec(seeds[0])
    } else {
        let m = min_dist(p, seeds.drop_last());
        let d = p.distance_squared_spec(seeds.last());
        if d < m {
            d
        } else {
            m
        }
    }
}

/// The k-means++ weight of every sample: its squared distance to the
/// nearest seed chosen so far.
pub open spec fn seed_weights(pixels: Seq<Rgb>, seeds: Seq<Rgb>) -> Seq<u64> {
    Seq::new(pixels.len(), |i: int| min_dist(pixels[i], seeds) as u64)
}

/// Total k-means++ weight for the seeds chosen so far.
pub open spec fn seed_total(pixels: Seq<Rgb>, seeds: Seq<Rgb>) -> int {
    prefix_sum(seed_weights(pixels, seeds), pixels.len() as int)
}

/// The first `j` seeds of k-means++: the sample at `first`, then for each
/// further seed the sample that its threshold picks by weight.
pub open spec fn seeds_by(pixels: Seq<Rgb>, first: int, ths: Seq<int>, j: nat) -> Seq<Rgb>
    decreases j,
{
    if j <= 1 {
        seq![pixels[first]]
    } else {
        let prev = seeds_by(pixels, first, ths, (j - 1) as nat);
        prev.push(pixels[weighted_pick(seed_weights(pixels, prev), ths[j - 2])])
    }
}

/// Every threshold lies below the total weight at its step, or is 0 when
/// that total is 0.
pub open spec fn thresholds_valid(pixels: Seq<Rgb>, first: int, ths: Seq<int>, k: int) -> bool {
    forall|j: int|
        1 <= j < k ==> {
            let t = #[trigger] seed_total(pixels, seeds_by(pixels, first, ths, j as nat));
            (t == 0 && ths[j - 1] == 0) || (0 <= ths[j - 1] < t)
        }
}

pub proof fn lemma_min_dist(p: Rgb, seeds: Seq<Rgb>)
    requires
        seeds.len() >= 1,
    ensures
        0 <= min_dist(p, seeds) <= 3 * 65535 * 65535,
        forall|m: int| 0 <= m < seeds.len() ==> min_dist(p, seeds) <= p.distance_squared_spec(
            #[trigger] seeds[m],
        ),
    decreases seeds.len(),
{
    lemma_distance_bounds(p, seeds[0]);
    if seeds.len() > 1 {
        lemma_min_dist(p, seeds.drop_last());
        lemma_distance_bounds(p, seeds.last());
        assert forall|m: int| 0 <= m < seeds.len() implies min_dist(p, seeds)
            <= p.distance_squared_spec(#[trigger] seeds[m]) by {
            if m < seeds.len() - 1 {
                assert(seeds.drop_last()[m] == seeds[m]);
            }
        }
    }
}

pub proof fn lemma_distance_bounds(p: Rgb, q: Rgb)
    ensures
        0 <= p.distance_squared_spec(q) <= 3 * 65535 * 65535,
{
    let (dr, dg, db) = (p.r - q.r, p.g - q.g, p.b - q.b);
    assert(0 <= dr * dr <= 65535 * 65535) by (nonlinear_arith)
        requires
            -65535 <= dr <= 65535,
    ;
    assert(0 <= dg * dg <= 65535 * 65535) by (nonlinear_arith)
        requires
            -65535 <= dg <= 65535,
    ;
    assert(0 <= db * db <= 65535 * 65535) by (nonlinear_arith)
        requires
            -65535 <= db <= 65535,
    ;
}

/// Seeds depend only on the thresholds of the steps taken so far.
pub proof fn lemma_seeds_prefix(pixels: Seq<Rgb>, first: int, ths: Seq<int>, x: int, j: nat)
    requires
        1 <= j <= ths.len() + 1,
    ensures
        seeds_by(pixels, first, ths.push(x), j) == seeds_by(pixels, first, ths, j),
        seeds_by(pixels, first, ths, j).len() == j,
    decreases j,
{
    if j > 1 {
        lemma_seeds_prefix(pixels, first, ths, x, (j - 1) as nat);
        assert(ths.push(x)[j - 2] == ths[j - 2]);
    }
}

/// The first `j` of `k` seeds are the seeds of step `j`.
pub proof fn lemma_seeds_take(pixels: Seq<Rgb>, first: int, ths: Seq<int>, j: nat, k: nat)
    requires
        1 <= j <= k,
    ensures
        seeds_by(pixels, first, ths, k).len() == k,
        seeds_by(pixels, first, ths, k).subrange(0, j as int) == seeds_by(pixels, first, ths, j),
    decreases k,
{
    if k > 1 {
        if j < k {
            lemma_seeds_take(pixels, first, ths, j, (k - 1) as nat);
            let prev = seeds_by(pixels, first, ths, (k - 1) as nat);
            assert(seeds_by(pixels, first, ths, k).subrange(0, j as int) =~= prev.subrange(0, j as int));
        } else {
            lemma_seeds_take(pixels, first, ths, 1, (k - 1) as nat);
            assert(seeds_by(pixels, first, ths, k).subrange(0, j as int) =~= seeds_by(pixels, first, ths, k));
        }
    } else {
        assert(seeds_by(pixels, first, ths, k).subrange(0, j as int) =~= seeds_by(pixels, first, ths, k));
    }
}

/// The k-means++ law: when the weight at a step is positive, the seed
/// chosen there is at positive distance from every earlier seed.
pub proof fn lemma_seed_is_new(pixels: Seq<Rgb>, first: int, ths: Seq<int>, k: nat, j: int)
    requires
        0 <= first < pixels.len(),
        1 <= j < k,
        ths.len() == k - 1,
        thresholds_valid(pixels, first, ths, k as int),
        seed_total(pixels, seeds_by(pixels, first, ths, j as nat)) > 0,
    ensures
        forall|m: int|
            0 <= m < j ==> seeds_by(pixels, first, ths, k)[j].distance_squared_spec(
                #[trigger] seeds_by(pixels, first, ths, k)[m],
            ) > 0,
{
    let prev = seeds_by(pixels, first, ths, j as nat);
    let w = seed_weights(pixels, prev);
    let t = ths[j - 1];
    assert(0 <= t < seed_total(pixels, prev));
    lemma_pick_positive(w, t, 0);
    let s = pick_from(w, t, 0);
    lemma_seeds_take(pixels, first, ths, (j + 1) as nat, k);
    lemma_seeds_take(pixels, first, ths, j as nat, (j + 1) as nat);
    let all = seeds_by(pixels, first, ths, k);
    assert(all[j] == seeds_by(pixels, first, ths, (j + 1) as nat)[j]);
    assert(all[j] == pixels[s]);
    lemma_min_dist(pixels[s], prev);
    assert forall|m: int| 0 <= m < j implies all[j].distance_squared_spec(#[trigger] all[m]) > 0 by {
        assert(all[m] == seeds_by(pixels, first, ths, (j + 1) as nat)[m]);
        assert(seeds_by(pixels, first, ths, (j + 1) as nat)[m] == prev[m]);
        assert(min_dist(pixels[s], prev) <= pixels[s].distance_squared_spec(prev[m]));
        assert(w[s] == min_dist(pixels[s], prev) as u64);
    }
}

/// Index of the centroid nearest to `p`, the lowest one on a tie.
pub fn nearest_centroid(p: &Rgb, cents: &Vec<Rgb>) -> (j: usize)
    requires
        cents.len() >= 1,
    ensures
        j == nearest(*p, cents@),
        j < cents.len(),
{
    let mut min_dist: u64 = u64::MAX;
    let mut min_idx: usize = 0;
    let mut j: usize = 0;
    while j < cents.len()
        invariant
            0 <= j <= cents.len(),
            j == 0 ==> min_idx == 0 && min_dist == u64::MAX,
            j >= 1 ==> min_idx == nearest_among(*p, cents@, j as int) && min_dist
                == p.distance_squared_spec(cents@[min_idx as int]),
            j >= 1 ==> min_idx < j,
        decreases cents.len() - j,
    {
        proof {
            if j >= 1 {
                lemma_nearest_bounds(*p, cents@, j as int);
            }
        }
        let d = p.distance_squared(&cents[j]);
        if d < min_dist {
            min_dist = d;
            min_idx = j;
        }
        j = j + 1;
    }
    proof {
        lemma_nearest_bounds(*p, cents@, cents.len() as int);
    }
    min_idx
}

/// The weighted draw of k-means++: the first index whose running weight
/// total exceeds `threshold`, or `0` when no running total does.
///
/// With `threshold` uniform below the total weight, each index comes out
/// with probability proportional to its weight.
pub fn select_weighted(weights: &Vec<u64>, threshold: u128) -> (i: usize)
    ensures
        prefix_sum(weights@, weights.len() as int) > threshold ==> {
            &&& i < weights.len()
            &&& prefix_sum(weights@, i + 1) > threshold
            &&& forall|j: int| 0 <= j < i ==> #[trigger] prefix_sum(weights@, j + 1) <= threshold
        },
        prefix_sum(weights@, weights.len() as int) <= threshold ==> i == 0,
        i == weighted_pick(weights@, threshold as int),
{
    let mut cumulative: u128 = 0;
    let mut i: usize = 0;
    while i < weights.len()
        invariant
            0 <= i <= weights.len(),
            cumulative == prefix_sum(weights@, i as int),
            forall|j: int| 0 <= j < i ==> #[trigger] prefix_sum(weights@, j + 1) <= threshold,
            weighted_pick(weights@, threshold as int) == pick_from(weights@, threshold as int, i as int),
        decreases weights.len() - i,
    {
        proof {
            lemma_prefix_bound(weights@, i + 1);
            assert((i + 1) * 0xffff_ffff_ffff_ffffu128 <= 0xffff_ffff_ffff_ffff_ffff_ffff_ffff_ffff)
                by (nonlinear_arith)
                requires
                    i < 0xffff_ffff_ffff_ffff,
            ;
        }
        cumulative = cumulative + weights[i] as u128;
        if cumulative > threshold {
            proof {
                lemma_prefix_monotonic(weights@, i + 1, weights.len() as int);
            }
            return i;
        }
        i = i + 1;
    }
    proof {
        if weights.len() > 0 {
            assert(prefix_sum(weights@, (weights.len() - 1) + 1) <= threshold);
        }
    }
    0
}

} // verus!
