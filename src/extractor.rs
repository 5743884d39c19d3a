//! The extraction pipeline: sampling a bitmap, clustering the samples and
//! synthesizing the terminal color scheme.

use vstd::prelude::*;
use crate::cluster::{
    all_zero, assignments, cluster_count, cluster_mean, cluster_sum, lemma_cluster_bounds, lloyd,
    kmeans_outcome, lemma_min_dist, lemma_pick_bounds, lemma_prefix_bound, lemma_seed_is_new,
    lemma_seeds_prefix, lemma_seeds_take, min_dist, nearest, nearest_centroid, prefix_sum,
    seed_total, seed_weights, seeds_by, select_weighted, thresholds_valid, update_centroids,
};
use crate::color::{lemma_div_le, Rgb};
use crate::palette::{
    accent_candidates, adjust_accent, brightened, contrast_level, decide_dark, default_accent,
    first_saturated_from, luminance_total, palette16, pick_limit, pick_step, saturated_only,
    scheme_background, scheme_cursor, scheme_foreground, terminal_colors,
};
use crate::random::random_below;
use crate::sampler::{all_colors, filter_usable, grid_pixels, lemma_samples_nonempty, samples, Bitmap};
use crate::scheme::ColorScheme;
use crate::sort::{by_hue, by_luminance, sort_by_hue, sort_by_luminance};

verus! {

/// Options for color extraction.
pub struct ExtractionOptions {
    /// Number of colors to extract (the `k` of k-means).
    pub color_count: usize,
    /// Force dark (`Some(true)`), light (`Some(false)`), or decide from the image (`None`).
    pub prefers_dark: Option<bool>,
    /// Contrast level in thousandths, from 1500 (low) to 4500 (high).
    pub contrast_ratio: u32,
    /// Background adjustment strength in thousandths, from 300 (subtle) to 900 (intense).
    pub background_intensity: u32,
}

impl ExtractionOptions {
    /// The option values that extraction accepts.
    pub open spec fn valid(&self) -> bool {
        &&& self.color_count >= 1
        &&& 1500 <= self.contrast_ratio <= 4500
    }
}

impl Default for ExtractionOptions {
    fn default() -> (o: ExtractionOptions)
        ensures
            o.color_count == 16,
            o.prefers_dark == None::<bool>,
            o.contrast_ratio == 3000,
            o.background_intensity == 600,
    {
        ExtractionOptions {
            color_count: 16,
            prefers_dark: None,
            contrast_ratio: 3000,
            background_intensity: 600,
        }
    }
}

/// `s` is the scheme synthesized for `wallpaper` from the centroids
/// `cents`, sorted by ascending luminance, under `options`.
pub open spec fn synthesized(
    s: ColorScheme,
    wallpaper: String,
    cents: Seq<Rgb>,
    options: ExtractionOptions,
) -> bool {
    &&& s.wallpaper == wallpaper
    &&& s.alpha == 100
    &&& s.is_dark == decide_dark(cents, options.prefers_dark)
    &&& s.background == scheme_background(cents, s.is_dark, options.background_intensity as int)
    &&& s.foreground == scheme_foreground(s.is_dark)
    &&& s.cursor == scheme_cursor(cents, s.foreground)
    &&& s.colors@ == palette16(
        s.background,
        s.foreground,
        terminal_colors(cents, 6, s.is_dark, options.contrast_ratio as int),
        s.is_dark,
    )
}

/// The pixels of `image::imageops::resize` with the triangle filter, for an
/// RGBA buffer of the given size scaled to the new size.
pub uninterp spec fn triangle_resized(
    rgba: Seq<u8>,
    width: u32,
    height: u32,
    new_width: u32,
    new_height: u32,
) -> Seq<u8>;

/// Relies on `image::imageops::resize` with `FilterType::Triangle` over an
/// RGBA buffer: the result has the requested size, four bytes per pixel,
/// and depends on the source pixels and the two sizes alone.
#[verifier::external_body]
fn resize_triangle(rgba: &Vec<u8>, width: u32, height: u32, new_width: u32, new_height: u32) -> (r:
    Vec<u8>)
    requires
        rgba.len() == 4 * width * height,
        new_width >= 1,
        new_height >= 1,
        new_width <= width,
        new_height <= height,
    ensures
        r@ == triangle_resized(rgba@, width, height, new_width, new_height),
        r.len() == 4 * new_width * new_height,
{
    let src = image::RgbaImage::from_raw(width, height, rgba.clone()).unwrap();
    image::imageops::resize(&src, new_width, new_height, image::imageops::FilterType::Triangle)
        .into_raw()
}

/// An image with a longer edge `long` and a shorter edge `short` (both at
/// least 1) scaled down to a longer edge of `max_dim` (at least 1): the
/// shorter edge is scaled by the same ratio, rounded to nearest, and kept at
/// least 1. Result: (longer edge, shorter edge).
pub open spec fn fit_edges(long: int, short: int, max_dim: int) -> (int, int) {
    let l2 = if max_dim >= 1 {
        max_dim
    } else {
        1
    };
    let s2 = (2 * short * l2 + long) / (2 * long);
    (l2, if s2 >= 1 {
        s2
    } else {
        1
    })
}

/// Width and height after scaling down so that the longer edge is
/// `max_dim`, keeping the aspect ratio and at least one pixel per edge;
/// unchanged when both already fit, 0x0 when the image has no pixels.
pub open spec fn scaled_size(width: u32, height: u32, max_dim: u32) -> (u32, u32) {
    if width <= max_dim && height <= max_dim {
        (width, height)
    } else if width == 0 || height == 0 {
        (0, 0)
    } else if width >= height {
        let (l, s) = fit_edges(width as int, height as int, max_dim as int);
        (l as u32, s as u32)
    } else {
        let (l, s) = fit_edges(height as int, width as int, max_dim as int);
        (s as u32, l as u32)
    }
}

/// The pixels after scaling down.
pub open spec fn scaled_pixels(img: Bitmap, max_dim: u32) -> Seq<u8> {
    let (w, h) = scaled_size(img.width, img.height, max_dim);
    if img.width <= max_dim && img.height <= max_dim {
        img.rgba@
    } else if img.width == 0 || img.height == 0 {
        Seq::empty()
    } else {
        triangle_resized(img.rgba@, img.width, img.height, w, h)
    }
}

proof fn lemma_fit_edges(long: int, short: int, max_dim: int)
    requires
        1 <= short <= long,
        0 <= max_dim < long,
    ensures
        1 <= fit_edges(long, short, max_dim).0 <= long,
        1 <= fit_edges(long, short, max_dim).1 <= short,
{
    let l2 = if max_dim >= 1 {
        max_dim
    } else {
        1
    };
    let s2 = (2 * short * l2 + long) / (2 * long);
    assert(s2 <= short) by (nonlinear_arith)
        requires
            1 <= short <= long,
            1 <= l2 <= long,
            s2 == (2 * short * l2 + long) / (2 * long),
    ;
}

/// The edges of `fit_edges`, computed.
fn fit_edges_exec(long: u32, short: u32, max_dim: u32) -> (r: (u32, u32))
    requires
        1 <= short <= long,
        max_dim < long,
    ensures
        r.0 as int == fit_edges(long as int, short as int, max_dim as int).0,
        r.1 as int == fit_edges(long as int, short as int, max_dim as int).1,
{
    proof {
        lemma_fit_edges(long as int, short as int, max_dim as int);
    }
    let l2: u32 = if max_dim >= 1 {
        max_dim
    } else {
        1
    };
    proof {
        assert(2 * short as int * l2 as int + long as int <= 2 * 0xffff_ffff * 0xffff_ffff
            + 0xffff_ffff) by (nonlinear_arith)
            requires
                long <= 0xffff_ffff,
                l2 <= 0xffff_ffff,
                short <= 0xffff_ffff,
        ;
    }
    let s2: u128 = (2 * short as u128 * l2 as u128 + long as u128) / (2 * long as u128);
    (l2, if s2 >= 1 {
        s2 as u32
    } else {
        1
    })
}

/// The color samples that extraction clusters.
pub open spec fn image_samples(img: Bitmap, max_dim: u32, step: u32) -> Seq<Rgb> {
    let (w, h) = scaled_size(img.width, img.height, max_dim);
    samples(w as int, h as int, scaled_pixels(img, max_dim), step as int)
}

/// Why extraction failed.
#[derive(Clone, Copy, Debug, PartialEq, Eq, Structural)]
pub enum ExtractError {
    /// Neither sampling pass produced a single color.
    NoValidPixels,
}

impl ExtractError {
    pub fn message(&self) -> (m: String)
        ensures
            m@ == "No valid pixels found in image"@,
    {
        String::from_str("No valid pixels found in image")
    }
}

/// Extracts dominant colors from images with k-means clustering.
pub struct ColorExtractor {
    /// Longest edge, in pixels, that an image is scaled down to before sampling.
    pub max_dimension: u32,
    /// Only every `sample_step`-th row and column is sampled.
    pub sample_step: u32,
    /// Upper bound on Lloyd refinement rounds.
    pub max_iterations: usize,
}

pub proof fn lemma_lloyd_len(pixels: Seq<Rgb>, cents: Seq<Rgb>, prev: Seq<usize>, iters: nat)
    ensures
        lloyd(pixels, cents, prev, iters).len() == cents.len(),
    decreases iters,
{
    if iters > 0 {
        let a = assignments(pixels, cents);
        if a != prev {
            lemma_lloyd_len(pixels, update_centroids(pixels, a, cents), a, (iters - 1) as nat);
        }
    }
}

fn zeroed_u128(k: usize) -> (v: Vec<u128>)
    ensures
        v@ == Seq::new(k as nat, |i: int| 0u128),
{
    let mut v: Vec<u128> = Vec::new();
    let mut i: usize = 0;
    while i < k
        invariant
            0 <= i <= k,
            v@ =~= Seq::new(i as nat, |j: int| 0u128),
        decreases k - i,
    {
        v.push(0);
        i = i + 1;
    }
    v
}

fn zeroed_usize(k: usize) -> (v: Vec<usize>)
    ensures
        v@ == Seq::new(k as nat, |i: int| 0usize),
{
    let mut v: Vec<usize> = Vec::new();
    let mut i: usize = 0;
    while i < k
        invariant
            0 <= i <= k,
            v@ =~= Seq::new(i as nat, |j: int| 0usize),
        decreases k - i,
    {
        v.push(0);
        i = i + 1;
    }
    v
}

impl Default for ColorExtractor {
    fn default() -> (e: ColorExtractor)
        ensures
            e.max_dimension == 200,
            e.sample_step == 4,
            e.max_iterations == 20,
    {
        ColorExtractor::new()
    }
}

impl ColorExtractor {
    /// The default extractor: images scaled to at most 200 px, every 4th row
    /// and column sampled, at most 20 refinement rounds.
    pub fn new() -> (e: ColorExtractor)
        ensures
            e.max_dimension == 200,
            e.sample_step == 4,
            e.max_iterations == 20,
    {
        ColorExtractor { max_dimension: 200, sample_step: 4, max_iterations: 20 }
    }

    /// One assignment pass: every sample's nearest centroid is written into
    /// `assign`; the result tells whether any entry changed.
    #[verifier::rlimit(40)]
    fn assign_step(pixels: &Vec<Rgb>, cents: &Vec<Rgb>, assign: &mut Vec<usize>) -> (changed: bool)
        requires
            cents.len() >= 1,
            old(assign).len() == pixels.len(),
        ensures
            final(assign)@ == assignments(pixels@, cents@),
            changed <==> final(assign)@ != old(assign)@,
            forall|i: int| 0 <= i < pixels.len() ==> #[trigger] final(assign)@[i] < cents.len(),
    {
        let ghost prev = assign@;
        let mut changed = false;
        let mut i: usize = 0;
        while i < pixels.len()
            invariant
                0 <= i <= pixels.len(),
                cents.len() >= 1,
                assign.len() == pixels.len(),
                prev.len() == pixels.len(),
                forall|j: int|
                    0 <= j < i ==> #[trigger] assign@[j] == nearest(pixels@[j], cents@) as usize,
                forall|j: int| 0 <= j < i ==> #[trigger] assign@[j] < cents.len(),
                forall|j: int| i <= j < pixels.len() ==> #[trigger] assign@[j] == prev[j],
                changed <==> exists|j: int| 0 <= j < i && #[trigger] assign@[j] != prev[j],
            decreases pixels.len() - i,
        {
            let m = nearest_centroid(&pixels[i], cents);
            let ghost was_changed = changed;
            let ghost old_a = assign@;
            if assign[i] != m {
                assign.set(i, m);
                changed = true;
                assert(assign@[i as int] != prev[i as int]);
            } else {
                assert(assign@[i as int] == prev[i as int]);
            }
            proof {
                if was_changed {
                    let j = choose|j: int| 0 <= j < i && #[trigger] old_a[j] != prev[j];
                    assert(assign@[j] == old_a[j]);
                    assert(0 <= j < i + 1 && assign@[j] != prev[j]);
                }
                if !changed {
                    assert forall|j: int| 0 <= j < i + 1 implies #[trigger] assign@[j] == prev[j] by {
                        if j < i {
                            assert(!(0 <= j < i && assign@[j] != prev[j]));
                        }
                    }
                }
            }
            i = i + 1;
        }
        assert(assign@ =~= assignments(pixels@, cents@));
        proof {
            if !changed {
                assert(assign@ =~= prev);
            } else {
                let j = choose|j: int| 0 <= j < pixels.len() && #[trigger] assign@[j] != prev[j];
                assert(assign@[j] != prev[j]);
            }
        }
        changed
    }

    /// One update pass: every centroid with at least one sample becomes the
    /// mean of its samples; the others stay.
    #[verifier::rlimit(40)]
    fn update_step(pixels: &Vec<Rgb>, assign: &Vec<usize>, cents: &mut Vec<Rgb>)
        requires
            old(cents).len() >= 1,
            assign.len() == pixels.len(),
            forall|i: int| 0 <= i < pixels.len() ==> #[trigger] assign@[i] < old(cents).len(),
        ensures
            final(cents)@ == update_centroids(pixels@, assign@, old(cents)@),
    {
        let k = cents.len();
        let n = pixels.len();
        let mut sr = zeroed_u128(k);
        let mut sg = zeroed_u128(k);
        let mut sb = zeroed_u128(k);
        let mut counts = zeroed_usize(k);
        let mut i: usize = 0;
        while i < n
            invariant
                0 <= i <= n,
                n == pixels.len(),
                n == assign.len(),
                k == cents.len(),
                forall|j: int| 0 <= j < n ==> #[trigger] assign@[j] < k,
                sr.len() == k && sg.len() == k && sb.len() == k && counts.len() == k,
                forall|c: int|
                    0 <= c < k ==> #[trigger] sr@[c] == cluster_sum(pixels@, assign@, c, i as int, 0),
                forall|c: int|
                    0 <= c < k ==> #[trigger] sg@[c] == cluster_sum(pixels@, assign@, c, i as int, 1),
                forall|c: int|
                    0 <= c < k ==> #[trigger] sb@[c] == cluster_sum(pixels@, assign@, c, i as int, 2),
                forall|c: int|
                    0 <= c < k ==> #[trigger] counts@[c] == cluster_count(assign@, c, i as int),
            decreases n - i,
        {
            let c = assign[i];
            let p = pixels[i];
            proof {
                lemma_cluster_bounds(pixels@, assign@, c as int, i as int, 0);
                lemma_cluster_bounds(pixels@, assign@, c as int, i as int, 1);
                lemma_cluster_bounds(pixels@, assign@, c as int, i as int, 2);
                assert(i * 65535 <= 0xffff_ffff_ffff_ffff * 65535) by (nonlinear_arith)
                    requires
                        i <= 0xffff_ffff_ffff_ffff,
                ;
                assert(cluster_count(assign@, c as int, i as int) * 65535 <= i * 65535)
                    by (nonlinear_arith)
                    requires
                        cluster_count(assign@, c as int, i as int) <= i,
                ;
            }
            sr.set(c, sr[c] + p.r as u128);
            sg.set(c, sg[c] + p.g as u128);
            sb.set(c, sb[c] + p.b as u128);
            counts.set(c, counts[c] + 1);
            i = i + 1;
        }
        let ghost before = cents@;
        let mut c: usize = 0;
        while c < k
            invariant
                0 <= c <= k,
                k == cents.len(),
                before.len() == k,
                n == pixels.len(),
                n == assign.len(),
                sr.len() == k && sg.len() == k && sb.len() == k && counts.len() == k,
                forall|c: int|
                    0 <= c < k ==> #[trigger] sr@[c] == cluster_sum(pixels@, assign@, c, n as int, 0),
                forall|c: int|
                    0 <= c < k ==> #[trigger] sg@[c] == cluster_sum(pixels@, assign@, c, n as int, 1),
                forall|c: int|
                    0 <= c < k ==> #[trigger] sb@[c] == cluster_sum(pixels@, assign@, c, n as int, 2),
                forall|c: int|
                    0 <= c < k ==> #[trigger] counts@[c] == cluster_count(assign@, c, n as int),
                forall|j: int|
                    0 <= j < c ==> #[trigger] cents@[j] == cluster_mean(
                        pixels@,
                        assign@,
                        j,
                        before[j],
                    ),
                forall|j: int| c <= j < k ==> #[trigger] cents@[j] == before[j],
            decreases k - c,
        {
            if counts[c] > 0 {
                let m = counts[c] as u128;
                proof {
                    lemma_cluster_bounds(pixels@, assign@, c as int, n as int, 0);
                    lemma_cluster_bounds(pixels@, assign@, c as int, n as int, 1);
                    lemma_cluster_bounds(pixels@, assign@, c as int, n as int, 2);
                    lemma_div_le(sr@[c as int] as int, 65535, m as int);
                    lemma_div_le(sg@[c as int] as int, 65535, m as int);
                    lemma_div_le(sb@[c as int] as int, 65535, m as int);
                }
                let mean = Rgb {
                    r: (sr[c] / m) as u16,
                    g: (sg[c] / m) as u16,
                    b: (sb[c] / m) as u16,
                };
                cents.set(c, mean);
            }
            c = c + 1;
        }
        assert(cents@ =~= update_centroids(pixels@, assign@, before));
    }

    /// Lloyd refinement from the given starting centroids: at most
    /// `max_iterations` rounds of assignment and update, stopping early
    /// once no sample changes cluster.
    pub fn refine(&self, pixels: &Vec<Rgb>, init: Vec<Rgb>) -> (r: Vec<Rgb>)
        requires
            init.len() >= 1,
        ensures
            r@ == lloyd(pixels@, init@, all_zero(pixels.len() as nat), self.max_iterations as nat),
    {
        let ghost target = lloyd(
            pixels@,
            init@,
            all_zero(pixels.len() as nat),
            self.max_iterations as nat,
        );
        let k = init.len();
        let mut cents = init;
        let mut assign = zeroed_usize(pixels.len());
        assert(assign@ =~= all_zero(pixels.len() as nat));
        let mut done = false;
        let mut it: usize = 0;
        while it < self.max_iterations && !done
            invariant
                0 <= it <= self.max_iterations,
                cents.len() == k,
                k >= 1,
                assign.len() == pixels.len(),
                !done ==> lloyd(pixels@, cents@, assign@, (self.max_iterations - it) as nat)
                    == target,
                done ==> cents@ == target,
            decreases self.max_iterations - it,
        {
            let changed = Self::assign_step(pixels, &cents, &mut assign);
            if !changed {
                done = true;
            } else {
                Self::update_step(pixels, &assign, &mut cents);
            }
            it = it + 1;
        }
        cents
    }

    /// k-means++ seeding: the first centroid is a uniformly drawn sample;
    /// each further one is drawn with probability proportional to its
    /// squared distance from the nearest centroid chosen so far.
    ///
    /// Whatever the draws, the result is `seeds_by` for some first index and
    /// some thresholds below the total weight of their step; so a seed drawn
    /// while the total weight is positive differs from all earlier seeds.
    #[verifier::rlimit(60)]
    pub fn kmeans_plus_plus_init(&self, pixels: &Vec<Rgb>, k: usize) -> (r: Vec<Rgb>)
        requires
            pixels.len() >= 1,
            k >= 1,
        ensures
            r.len() == k,
            forall|j: int| 0 <= j < k ==> pixels@.contains(#[trigger] r@[j]),
            exists|first: int, ths: Seq<int>|
                {
                    &&& 0 <= first < pixels.len()
                    &&& ths.len() == k - 1
                    &&& thresholds_valid(pixels@, first, ths, k as int)
                    &&& r@ == seeds_by(pixels@, first, ths, k as nat)
                },
            forall|j: int|
                1 <= j < k && seed_total(pixels@, r@.subrange(0, j)) > 0 ==> forall|m: int|
                    0 <= m < j ==> (#[trigger] r@[j]).distance_squared_spec(#[trigger] r@[m]) > 0,
    {
        let n = pixels.len();
        let first = random_below(n as u128) as usize;
        let mut cents: Vec<Rgb> = Vec::new();
        cents.push(pixels[first]);
        let ghost mut ths: Seq<int> = Seq::empty();
        assert(cents@ =~= seeds_by(pixels@, first as int, ths, 1));
        let mut min_d: Vec<u64> = Vec::new();
        let mut i: usize = 0;
        while i < n
            invariant
                0 <= i <= n,
                n == pixels.len(),
                first < n,
                cents@ == seq![pixels@[first as int]],
                min_d.len() == i,
                forall|j: int|
                    0 <= j < i ==> #[trigger] min_d@[j] == min_dist(pixels@[j], cents@) as u64,
            decreases n - i,
        {
            min_d.push(pixels[i].distance_squared(&pixels[first]));
            i = i + 1;
        }
        assert(min_d@ =~= seed_weights(pixels@, cents@));
        let mut m: usize = 1;
        while m < k
            invariant
                1 <= m <= k,
                n == pixels.len(),
                first < n,
                cents.len() == m,
                ths.len() == m - 1,
                cents@ == seeds_by(pixels@, first as int, ths, m as nat),
                thresholds_valid(pixels@, first as int, ths, m as int),
                min_d@ == seed_weights(pixels@, cents@),
                forall|j: int| 0 <= j < m ==> pixels@.contains(#[trigger] cents@[j]),
            decreases k - m,
        {
            let mut total: u128 = 0;
            let mut i: usize = 0;
            while i < n
                invariant
                    0 <= i <= n,
                    min_d.len() == n,
                    total == prefix_sum(min_d@, i as int),
                decreases n - i,
            {
                proof {
                    lemma_prefix_bound(min_d@, i + 1);
                    assert((i + 1) * 0xffff_ffff_ffff_ffffu128 <= 0xffff_ffff_ffff_ffff_ffff_ffff_ffff_ffff)
                        by (nonlinear_arith)
                        requires
                            i < 0xffff_ffff_ffff_ffff,
                    ;
                }
                total = total + min_d[i] as u128;
                i = i + 1;
            }
            let threshold: u128 = if total > 0 {
                random_below(total)
            } else {
                0
            };
            let sel = select_weighted(&min_d, threshold);
            proof {
                lemma_pick_bounds(min_d@, threshold as int, 0);
            }
            let chosen = pixels[sel];
            let ghost old_ths = ths;
            let ghost old_cents = cents@;
            proof {
                ths = ths.push(threshold as int);
                lemma_seeds_prefix(pixels@, first as int, old_ths, threshold as int, m as nat);
                assert forall|j: int| 1 <= j < m + 1 implies {
                    let t = #[trigger] seed_total(pixels@, seeds_by(pixels@, first as int, ths, j as nat));
                    (t == 0 && ths[j - 1] == 0) || (0 <= ths[j - 1] < t)
                } by {
                    lemma_seeds_prefix(pixels@, first as int, old_ths, threshold as int, j as nat);
                    if j < m {
                        assert(ths[j - 1] == old_ths[j - 1]);
                    }
                }
            }
            cents.push(chosen);
            proof {
                assert(pixels@.contains(chosen));
                assert(cents@ == seeds_by(pixels@, first as int, ths, (m + 1) as nat));
                assert(cents@.drop_last() =~= old_cents);
            }
            let mut i: usize = 0;
            while i < n
                invariant
                    0 <= i <= n,
                    n == pixels.len(),
                    min_d.len() == n,
                    cents@ == old_cents.push(chosen),
                    old_cents.len() >= 1,
                    cents@.drop_last() == old_cents,
                    forall|j: int|
                        0 <= j < i ==> #[trigger] min_d@[j] == min_dist(pixels@[j], cents@) as u64,
                    forall|j: int|
                        i <= j < n ==> #[trigger] min_d@[j] == min_dist(pixels@[j], old_cents) as u64,
                decreases n - i,
            {
                proof {
                    lemma_min_dist(pixels@[i as int], old_cents);
                }
                let d = pixels[i].distance_squared(&chosen);
                if d < min_d[i] {
                    min_d.set(i, d);
                }
                i = i + 1;
            }
            assert(min_d@ =~= seed_weights(pixels@, cents@));
            m = m + 1;
        }
        proof {
            assert forall|j: int|
                1 <= j < k && seed_total(pixels@, cents@.subrange(0, j)) > 0 implies forall|mm: int|
                0 <= mm < j ==> (#[trigger] cents@[j]).distance_squared_spec(#[trigger] cents@[mm]) > 0 by {
                lemma_seeds_take(pixels@, first as int, ths, j as nat, k as nat);
                lemma_seed_is_new(pixels@, first as int, ths, k as nat, j);
            }
        }
        cents
    }

    /// k-means clustering into `k` centroids. With at most `k` samples the
    /// samples themselves are the centroids (also for `k == 0` and no
    /// samples); otherwise k-means++ seeding is followed by Lloyd refinement.
    pub fn kmeans(&self, pixels: &Vec<Rgb>, k: usize) -> (r: Vec<Rgb>)
        requires
            k >= 1 || pixels.len() == 0,
        ensures
            pixels.len() <= k ==> r@ == pixels@,
            pixels.len() > k ==> r.len() == k,
            kmeans_outcome(pixels@, k as int, self.max_iterations as nat, r@),
    {
        if pixels.len() <= k {
            return pixels.clone();
        }
        let init = self.kmeans_plus_plus_init(pixels, k);
        let ghost seeds = init@;
        let r = self.refine(pixels, init);
        proof {
            lemma_lloyd_len(pixels@, seeds, all_zero(pixels.len() as nat), self.max_iterations as nat);
            let (first, ths) = choose|first: int, ths: Seq<int>|
                {
                    &&& 0 <= first < pixels.len()
                    &&& ths.len() == k - 1
                    &&& thresholds_valid(pixels@, first, ths, k as int)
                    &&& seeds == seeds_by(pixels@, first, ths, k as nat)
                };
            assert(r@ == lloyd(
                pixels@,
                seeds_by(pixels@, first, ths, k as nat),
                all_zero(pixels.len() as nat),
                self.max_iterations as nat,
            ));
        }
        r
    }
}

fn default_accent_at(j: usize) -> (c: Rgb)
    requires
        j < 6,
    ensures
        c == default_accent(j as int),
{
    if j == 0 {
        Rgb { r: 52428, g: 13107, b: 13107 }
    } else if j == 1 {
        Rgb { r: 13107, g: 52428, b: 13107 }
    } else if j == 2 {
        Rgb { r: 52428, g: 52428, b: 13107 }
    } else if j == 3 {
        Rgb { r: 13107, g: 26214, b: 52428 }
    } else if j == 4 {
        Rgb { r: 52428, g: 13107, b: 52428 }
    } else {
        Rgb { r: 13107, g: 52428, b: 52428 }
    }
}

/// The two accent corrections of palette synthesis, for a contrast level
/// `t` given in thousandths.
pub fn adjust_accent_color(c: Rgb, is_dark: bool, t: u32) -> (r: Rgb)
    requires
        t <= 1000,
    ensures
        r == adjust_accent(c, is_dark, t as int),
{
    let c1 = if c.saturation_is_below(4) {
        c.saturated(1500)
    } else {
        c
    };
    let lum: u64 = c1.luminance() as u64 * 1000;
    let dark_at: u64 = (150 + 3 * t / 10) as u64;
    let light_at: u64 = (850 - 3 * t / 10) as u64;
    if is_dark && lum < dark_at * 65535 {
        c1.lightened(100 + t / 4)
    } else if !is_dark && lum > light_at * 65535 {
        c1.darkened(200 + 3 * t / 10)
    } else {
        c1
    }
}

proof fn lemma_mul_le(a: int, b: int, s: int)
    requires
        a <= b,
        s >= 0,
    ensures
        a * s <= b * s,
{
    assert(a * s <= b * s) by (nonlinear_arith)
        requires
            a <= b,
            s >= 0,
    ;
}

impl ColorExtractor {
    /// The `count` accent colors for the terminal palette: saturated
    /// centroids (all of them if too few are saturated) sorted by hue, every
    /// `n / count`-th one taken and corrected, then padded with fallback accents.
    #[verifier::rlimit(40)]
    pub fn select_terminal_colors(
        &self,
        colors: &Vec<Rgb>,
        count: usize,
        is_dark: bool,
        contrast_ratio: u32,
    ) -> (r: Vec<Rgb>)
        requires
            count >= 1,
            1500 <= contrast_ratio <= 4500,
        ensures
            r@ == terminal_colors(colors@, count as int, is_dark, contrast_ratio as int),
            r.len() == count,
    {
        let mut saturated: Vec<Rgb> = Vec::new();
        let mut i: usize = 0;
        while i < colors.len()
            invariant
                0 <= i <= colors.len(),
                saturated@ == saturated_only(colors@.subrange(0, i as int)),
            decreases colors.len() - i,
        {
            proof {
                let s = colors@.subrange(0, i + 1);
                assert(s.drop_last() =~= colors@.subrange(0, i as int));
            }
            if colors[i].saturation_is_above(2) {
                saturated.push(colors[i]);
            }
            i = i + 1;
        }
        assert(colors@.subrange(0, colors.len() as int) =~= colors@);
        let candidates = if saturated.len() < count {
            colors.clone()
        } else {
            saturated
        };
        assert(candidates@ == accent_candidates(colors@, count as int));
        let sorted = sort_by_hue(&candidates);
        let ghost ssorted = sorted@;
        assert(ssorted == by_hue(accent_candidates(colors@, count as int)));
        let n = sorted.len();
        let t: u32 = (contrast_ratio - 1500) / 3;
        assert(t == contrast_level(contrast_ratio as int));
        let step: usize = if n / count >= 1 {
            n / count
        } else {
            1
        };
        proof {
            if n / count >= 1 {
                assert(count * (n / count) <= n) by (nonlinear_arith)
                    requires
                        count >= 1,
                ;
            }
        }
        let limit: usize = if n / count >= 1 {
            count * step
        } else {
            n
        };
        proof {
            if n / count < 1 {
                assert(n < count * 1) by (nonlinear_arith)
                    requires
                        n / count < 1,
                        count >= 1,
                        n >= 0,
                ;
            }
            assert(limit == pick_limit(n as int, count as int));
            assert(limit <= count * step);
        }
        let mut selected: Vec<Rgb> = Vec::new();
        let mut pos: usize = 0;
        assert(0 * step == 0) by (nonlinear_arith);
        while pos < limit
            invariant
                step == pick_step(n as int, count as int),
                step >= 1,
                limit == pick_limit(n as int, count as int),
                limit <= n,
                n == sorted.len(),
                sorted@ == ssorted,
                limit <= count * step,
                count * step <= n || step == 1,
                t <= 1000,
                pos == selected.len() * step,
                selected.len() <= count,
                forall|j: int|
                    0 <= j < selected.len() ==> (#[trigger] selected@[j]) == adjust_accent(
                        sorted@[j * step],
                        is_dark,
                        t as int,
                    ),
                selected.len() > 0 ==> (selected.len() - 1) * step < limit,
            decreases limit - pos,
        {
            let c = adjust_accent_color(sorted[pos], is_dark, t);
            proof {
                assert((selected.len() as int) < count) by (nonlinear_arith)
                    requires
                        selected.len() * step < limit,
                        limit <= count * step,
                        step >= 1,
                ;
            }
            let ghost len0 = selected.len() as int;
            selected.push(c);
            proof {
                assert((len0 + 1) * step == len0 * step + step) by (nonlinear_arith);
                if step != 1 {
                    lemma_mul_le(len0 + 1, count as int, step as int);
                }
            }
            pos = pos + step;
        }
        let ghost m = selected.len() as int;
        let ghost tc = terminal_colors(colors@, count as int, is_dark, contrast_ratio as int);
        assert forall|j: int| m <= j implies #[trigger] (j * step) >= limit by {
            lemma_mul_le(m, j, step as int);
        }
        assert forall|j: int| 0 <= j < m implies #[trigger] selected@[j] == tc[j] by {
            lemma_mul_le(j, m - 1, step as int);
            assert(selected@[j] == adjust_accent(sorted@[j * step], is_dark, t as int));
        }
        assert(selected@ =~= tc.subrange(0, m));
        while selected.len() < count
            invariant
                m <= selected.len() <= count,
                tc.len() == count,
                selected@ =~= tc.subrange(0, selected.len() as int),
                forall|j: int| m <= j ==> #[trigger] (j * step) >= limit,
                tc == terminal_colors(colors@, count as int, is_dark, contrast_ratio as int),
                step == pick_step(n as int, count as int),
                limit == pick_limit(n as int, count as int),
                n == ssorted.len(),
                ssorted == by_hue(accent_candidates(colors@, count as int)),
            decreases count - selected.len(),
        {
            let d = default_accent_at(selected.len() % 6);
            let ghost len0 = selected.len() as int;
            assert(len0 * step >= limit);
            assert(tc[len0] == default_accent(len0 % 6));
            selected.push(d);
        }
        assert(selected@ =~= tc);
        selected
    }

    /// Synthesizes the color scheme from centroids sorted by ascending luminance.
    #[verifier::rlimit(40)]
    pub fn generate_scheme(
        &self,
        wallpaper: String,
        dominant_colors: Vec<Rgb>,
        options: &ExtractionOptions,
    ) -> (s: ColorScheme)
        requires
            1500 <= options.contrast_ratio <= 4500,
        ensures
            synthesized(s, wallpaper, dominant_colors@, *options),
            s.colors.len() == 16,
    {
        let n = dominant_colors.len();
        let is_dark = match options.prefers_dark {
            Some(d) => d,
            None => {
                let mut total: u128 = 0;
                let mut i: usize = 0;
                while i < n
                    invariant
                        0 <= i <= n,
                        n == dominant_colors.len(),
                        total == luminance_total(dominant_colors@, i as int),
                        total <= i * 65535,
                    decreases n - i,
                {
                    proof {
                        assert((i + 1) * 65535 <= 0xffff_ffff_ffff_ffff * 65536) by (nonlinear_arith)
                            requires
                                i < 0xffff_ffff_ffff_ffff,
                        ;
                    }
                    total = total + dominant_colors[i].luminance() as u128;
                    i = i + 1;
                }
                total * 2 < n as u128 * 65535
            },
        };
        let background = if is_dark {
            if n > 0 {
                dominant_colors[0].darkened(options.background_intensity)
            } else {
                Rgb { r: 6554, g: 6554, b: 6554 }
            }
        } else {
            if n > 0 {
                dominant_colors[n - 1].lightened(options.background_intensity)
            } else {
                Rgb { r: 62258, g: 62258, b: 62258 }
            }
        };
        let foreground = if is_dark {
            Rgb { r: 58982, g: 58982, b: 58982 }
        } else {
            Rgb { r: 6554, g: 6554, b: 6554 }
        };
        let selected = self.select_terminal_colors(&dominant_colors, 6, is_dark, options.contrast_ratio);
        let mut colors: Vec<Rgb> = Vec::new();
        colors.push(background);
        let mut i: usize = 0;
        while i < 6
            invariant
                0 <= i <= 6,
                selected.len() == 6,
                colors@ =~= seq![background] + selected@.subrange(0, i as int),
            decreases 6 - i,
        {
            colors.push(selected[i]);
            i = i + 1;
        }
        colors.push(foreground);
        colors.push(background.lightened(150));
        let ghost head = colors@;
        let mut i: usize = 0;
        while i < 6
            invariant
                0 <= i <= 6,
                selected.len() == 6,
                colors@ =~= head + selected@.subrange(0, i as int).map_values(
                    |c: Rgb| brightened(c, is_dark),
                ),
            decreases 6 - i,
        {
            let c = selected[i];
            let b = if is_dark {
                c.saturated(1200).lightened(150)
            } else {
                c.saturated(1100)
            };
            colors.push(b);
            i = i + 1;
        }
        colors.push(foreground);
        assert(selected@.subrange(0, 6) =~= selected@);
        let mut cursor = foreground;
        let mut j: usize = 0;
        let mut found = false;
        while j < n && !found
            invariant
                0 <= j <= n,
                n == dominant_colors.len(),
                !found ==> first_saturated_from(dominant_colors@, 0) == first_saturated_from(
                    dominant_colors@,
                    j as int,
                ) && cursor == foreground,
                found ==> first_saturated_from(dominant_colors@, 0) == Some(cursor),
            decreases n - j,
        {
            if dominant_colors[j].saturation_is_above(3) {
                cursor = dominant_colors[j];
                found = true;
            }
            j = j + 1;
        }
        assert(colors@ =~= palette16(background, foreground, selected@, is_dark));
        ColorScheme::new(wallpaper, is_dark, background, foreground, cursor, colors)
    }
}

impl ColorExtractor {
    /// Scales the image down so that its longer edge is about
    /// `max_dimension`, keeping the aspect ratio and at least one pixel per
    /// edge; an image that already fits is kept as is.
    pub fn resize_image(&self, image: &Bitmap) -> (r: Bitmap)
        requires
            image.wf(),
        ensures
            r.wf(),
            (r.width, r.height) == scaled_size(image.width, image.height, self.max_dimension),
            r.rgba@ == scaled_pixels(*image, self.max_dimension),
            (image.width > self.max_dimension || image.height > self.max_dimension)
                && image.width > 0 && image.height > 0 && self.max_dimension >= 1 ==> if image.width
                >= image.height {
                r.width == self.max_dimension && 1 <= r.height <= image.height
            } else {
                r.height == self.max_dimension && 1 <= r.width <= image.width
            },
    {
        let w = image.width;
        let h = image.height;
        let md = self.max_dimension;
        if w <= md && h <= md {
            return Bitmap { width: w, height: h, rgba: image.rgba.clone() };
        }
        if w == 0 || h == 0 {
            let empty: Vec<u8> = Vec::new();
            assert(empty.len() == 4 * (0u32 as int) * (0u32 as int));
            return Bitmap { width: 0, height: 0, rgba: empty };
        }
        let (nw, nh) = if w >= h {
            let (l, s) = fit_edges_exec(w, h, md);
            (l, s)
        } else {
            let (l, s) = fit_edges_exec(h, w, md);
            (s, l)
        };
        proof {
            if w >= h {
                lemma_fit_edges(w as int, h as int, md as int);
            } else {
                lemma_fit_edges(h as int, w as int, md as int);
            }
        }
        let rgba = resize_triangle(&image.rgba, w, h, nw, nh);
        Bitmap { width: nw, height: nh, rgba }
    }

    /// Colors sampled on the stride grid: the opaque, mid-brightness ones, or
    /// every grid pixel when fewer than 100 of those are found.
    pub fn sample_pixels(&self, image: &Bitmap) -> (r: Vec<Rgb>)
        requires
            image.wf(),
            self.sample_step >= 1,
        ensures
            r@ == samples(
                image.width as int,
                image.height as int,
                image.rgba@,
                self.sample_step as int,
            ),
    {
        let grid = grid_pixels(image, self.sample_step);
        let pixels = filter_usable(&grid);
        if pixels.len() < 100 {
            all_colors(&grid)
        } else {
            pixels
        }
    }

    /// The color scheme of a decoded image: scale down, sample, cluster into
    /// `color_count` colors, sort them by luminance and synthesize the scheme.
    /// Fails only when sampling yields no color at all.
    #[verifier::rlimit(40)]
    pub fn extract_from_image(
        &self,
        image: &Bitmap,
        wallpaper_path: String,
        options: &ExtractionOptions,
    ) -> (r: Result<ColorScheme, ExtractError>)
        requires
            image.wf(),
            options.valid(),
            self.sample_step >= 1,
        ensures
            r is Err <==> image_samples(*image, self.max_dimension, self.sample_step).len() == 0,
            r is Err <==> (image.width == 0 || image.height == 0),
            r is Err ==> r == Err::<ColorScheme, ExtractError>(ExtractError::NoValidPixels),
            r matches Ok(s) ==> s.colors.len() == 16 && exists|cents: Seq<Rgb>|
                {
                    &&& kmeans_outcome(
                        image_samples(*image, self.max_dimension, self.sample_step),
                        options.color_count as int,
                        self.max_iterations as nat,
                        cents,
                    )
                    &&& synthesized(s, wallpaper_path, by_luminance(cents), *options)
                },
    {
        let resized = self.resize_image(image);
        let pixels = self.sample_pixels(&resized);
        proof {
            lemma_samples_nonempty(
                resized.width as int,
                resized.height as int,
                resized.rgba@,
                self.sample_step as int,
            );
            if image.width > self.max_dimension || image.height > self.max_dimension {
                if image.width >= image.height && image.height > 0 {
                    lemma_fit_edges(image.width as int, image.height as int, self.max_dimension as int);
                } else if image.width > 0 && image.height > 0 {
                    lemma_fit_edges(image.height as int, image.width as int, self.max_dimension as int);
                }
            }
        }
        if pixels.len() == 0 {
            return Err(ExtractError::NoValidPixels);
        }
        let centroids = self.kmeans(&pixels, options.color_count);
        let sorted = sort_by_luminance(&centroids);
        let scheme = self.generate_scheme(wallpaper_path, sorted, options);
        proof {
            let ghost px = image_samples(*image, self.max_dimension, self.sample_step);
            assert(pixels@ == px);
            assert(kmeans_outcome(px, options.color_count as int, self.max_iterations as nat, centroids@));
            assert(synthesized(scheme, wallpaper_path, by_luminance(centroids@), *options));
        }
        Ok(scheme)
    }
}

} // verus!
