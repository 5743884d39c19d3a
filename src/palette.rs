//! What palette synthesis computes: from luminance-sorted centroids to the
//! sixteen terminal colors, stated as spec functions.

use vstd::prelude::*;
use crate::color::{cmax, Rgb};
use crate::sort::by_hue;

verus! {

/// The colors whose saturation is above 0.2, in order.
pub open spec fn saturated_only(s: Seq<Rgb>) -> Seq<Rgb>
    decreases s.len(),
{
    if s.len() == 0 {
        Seq::empty()
    } else {
        let r = saturated_only(s.drop_last());
        if s.last().saturation_above(2) {
            r.push(s.last())
        } else {
            r
        }
    }
}

/// Accent candidates: the saturated colors, or all of them when fewer than
/// `count` are saturated.
pub open spec fn accent_candidates(colors: Seq<Rgb>, count: int) -> Seq<Rgb> {
    if saturated_only(colors).len() < count {
        colors
    } else {
        saturated_only(colors)
    }
}

/// Stride between picked accents: `n / count`, at least one.
pub open spec fn pick_step(n: int, count: int) -> int {
    if n / count >= 1 {
        n / count
    } else {
        1
    }
}

/// Picks stop before this index.
pub open spec fn pick_limit(n: int, count: int) -> int {
    if n < count * pick_step(n, count) {
        n
    } else {
        count * pick_step(n, count)
    }
}

/// How far along `1.5..=4.5` a contrast ratio (in thousandths) lies, in thousandths.
pub open spec fn contrast_level(contrast: int) -> int {
    (contrast - 1500) / 3
}

/// Luminance, in thousandths, under which dark-mode accents are lightened.
pub open spec fn dark_threshold(t: int) -> int {
    150 + 3 * t / 10
}

/// Amount, in thousandths, by which dark-mode accents are lightened.
pub open spec fn dark_adjustment(t: int) -> int {
    100 + t / 4
}

/// Luminance, in thousandths, over which light-mode accents are darkened.
pub open spec fn light_threshold(t: int) -> int {
    850 - 3 * t / 10
}

/// Amount, in thousandths, by which light-mode accents are darkened.
pub open spec fn light_adjustment(t: int) -> int {
    200 + 3 * t / 10
}

/// An accent after its two corrections: a weak saturation (below 0.4) is
/// boosted by 1.5, then a luminance too close to the background is moved away.
pub open spec fn adjust_accent(c: Rgb, is_dark: bool, t: int) -> Rgb {
    let c1 = if c.saturation_below(4) {
        c.saturated_spec(1500)
    } else {
        c
    };
    if is_dark && c1.luminance_spec() * 1000 < dark_threshold(t) * cmax() {
        c1.lightened_spec(dark_adjustment(t))
    } else if !is_dark && c1.luminance_spec() * 1000 > light_threshold(t) * cmax() {
        c1.darkened_spec(light_adjustment(t))
    } else {
        c1
    }
}

/// The fallback accents: red, green, yellow, blue, magenta, cyan.
pub open spec fn default_accent(j: int) -> Rgb {
    let lo: u16 = 13107;
    let hi: u16 = 52428;
    if j == 0 {
        Rgb { r: hi, g: lo, b: lo }
    } else if j == 1 {
        Rgb { r: lo, g: hi, b: lo }
    } else if j == 2 {
        Rgb { r: hi, g: hi, b: lo }
    } else if j == 3 {
        Rgb { r: lo, g: 26214, b: hi }
    } else if j == 4 {
        Rgb { r: hi, g: lo, b: hi }
    } else {
        Rgb { r: lo, g: hi, b: hi }
    }
}

/// The `count` accent colors: candidates sorted by hue, every `step`-th one
/// corrected, then the fallback accents cycled to fill the remaining slots.
pub open spec fn terminal_colors(colors: Seq<Rgb>, count: int, is_dark: bool, contrast: int) -> Seq<
    Rgb,
> {
    let sorted = by_hue(accent_candidates(colors, count));
    let n = sorted.len() as int;
    let step = pick_step(n, count);
    let limit = pick_limit(n, count);
    Seq::new(
        count as nat,
        |j: int|
            if j * step < limit {
                adjust_accent(sorted[j * step], is_dark, contrast_level(contrast))
            } else {
                default_accent(j % 6)
            },
    )
}

/// Sum of the luminances of the first `n` colors.
pub open spec fn luminance_total(s: Seq<Rgb>, n: int) -> int
    decreases n,
{
    if n <= 0 {
        0
    } else {
        luminance_total(s, n - 1) + s[n - 1].luminance_spec()
    }
}

/// Dark when forced so, otherwise when the mean luminance is below one half.
pub open spec fn decide_dark(colors: Seq<Rgb>, prefers_dark: Option<bool>) -> bool {
    match prefers_dark {
        Some(d) => d,
        None => luminance_total(colors, colors.len() as int) * 2 < colors.len() * cmax(),
    }
}

pub open spec fn gray(v: u16) -> Rgb {
    Rgb { r: v, g: v, b: v }
}

/// Dark mode: the darkest color darkened; light mode: the lightest lightened.
pub open spec fn scheme_background(colors: Seq<Rgb>, is_dark: bool, intensity: int) -> Rgb {
    if is_dark {
        if colors.len() > 0 {
            colors[0].darkened_spec(intensity)
        } else {
            gray(6554)
        }
    } else {
        if colors.len() > 0 {
            colors.last().lightened_spec(intensity)
        } else {
            gray(62258)
        }
    }
}

/// Near-white text on dark schemes, near-black on light ones.
pub open spec fn scheme_foreground(is_dark: bool) -> Rgb {
    if is_dark {
        gray(58982)
    } else {
        gray(6554)
    }
}

/// The bright variant of an accent (slots 9 to 14).
pub open spec fn brightened(c: Rgb, is_dark: bool) -> Rgb {
    if is_dark {
        c.saturated_spec(1200).lightened_spec(150)
    } else {
        c.saturated_spec(1100)
    }
}

/// The sixteen slots: background, accents, foreground, lightened
/// background, bright accents, foreground.
pub open spec fn palette16(bg: Rgb, fg: Rgb, accents: Seq<Rgb>, is_dark: bool) -> Seq<Rgb> {
    seq![bg] + accents + seq![fg, bg.lightened_spec(150)] + accents.map_values(
        |c: Rgb| brightened(c, is_dark),
    ) + seq![fg]
}

/// The first color from index `i` on whose saturation is above 0.3.
pub open spec fn first_saturated_from(s: Seq<Rgb>, i: int) -> Option<Rgb>
    decreases s.len() - i,
{
    if i < 0 || i >= s.len() {
        None
    } else if s[i].saturation_above(3) {
        Some(s[i])
    } else {
        first_saturated_from(s, i + 1)
    }
}

pub open spec fn scheme_cursor(colors: Seq<Rgb>, fg: Rgb) -> Rgb {
    match first_saturated_from(colors, 0) {
        Some(c) => c,
        None => fg,
    }
}

} // verus!
