//! System accent colors and appearance modes, and the choice of an accent
//! color from a dominant wallpaper color.

use vstd::prelude::*;
use crate::text::{lower_of, lowercase, str_eq};

verus! {

/// The accent colors a desktop offers.
#[derive(Clone, Copy, Debug, PartialEq, Eq, Structural)]
pub enum AccentColor {
    Multicolor,
    Red,
    Orange,
    Yellow,
    Green,
    Blue,
    Purple,
    Pink,
}

/// Light, dark, or following the system.
#[derive(Clone, Copy, Debug, PartialEq, Eq, Structural)]
pub enum AppearanceMode {
    Light,
    Dark,
    Auto,
}

/// The accent color a lowercase name stands for.
pub open spec fn accent_named(l: Seq<char>) -> Option<AccentColor> {
    if l == "multicolor"@ || l == "graphite"@ || l == "auto"@ {
        Some(AccentColor::Multicolor)
    } else if l == "red"@ {
        Some(AccentColor::Red)
    } else if l == "orange"@ {
        Some(AccentColor::Orange)
    } else if l == "yellow"@ {
        Some(AccentColor::Yellow)
    } else if l == "green"@ {
        Some(AccentColor::Green)
    } else if l == "blue"@ {
        Some(AccentColor::Blue)
    } else if l == "purple"@ || l == "violet"@ {
        Some(AccentColor::Purple)
    } else if l == "pink"@ || l == "magenta"@ {
        Some(AccentColor::Pink)
    } else {
        None
    }
}

/// Hue in whole degrees (rounded down) of a color whose channel spread
/// `max - min` is positive.
pub open spec fn hue_degrees(r: int, g: int, b: int) -> int {
    let mx = if r >= g && r >= b {
        r
    } else if g >= b {
        g
    } else {
        b
    };
    let mn = if r <= g && r <= b {
        r
    } else if g <= b {
        g
    } else {
        b
    };
    let d = mx - mn;
    if mx == r {
        if g >= b {
            60 * (g - b) / d
        } else {
            (360 * d - 60 * (b - g)) / d
        }
    } else if mx == g {
        (120 * d + 60 * b - 60 * r) / d
    } else {
        (240 * d + 60 * r - 60 * g) / d
    }
}

/// The accent color for a hue in whole degrees.
pub open spec fn accent_for_hue(h: int) -> AccentColor {
    if h <= 15 || 346 <= h {
        AccentColor::Red
    } else if h <= 45 {
        AccentColor::Orange
    } else if h <= 70 {
        AccentColor::Yellow
    } else if h <= 165 {
        AccentColor::Green
    } else if h <= 260 {
        AccentColor::Blue
    } else if h <= 290 {
        AccentColor::Purple
    } else {
        AccentColor::Pink
    }
}

pub open spec fn dominant_accent(r: int, g: int, b: int) -> AccentColor {
    let mx = if r >= g && r >= b {
        r
    } else if g >= b {
        g
    } else {
        b
    };
    let mn = if r <= g && r <= b {
        r
    } else if g <= b {
        g
    } else {
        b
    };
    if mx - mn < 30 {
        AccentColor::Multicolor
    } else {
        accent_for_hue(hue_degrees(r, g, b))
    }
}

impl AccentColor {
    /// The accent color for an already lowercased name.
    pub fn from_lowercase(l: &str) -> (r: Option<AccentColor>)
        ensures
            r == accent_named(l@),
    {
        if str_eq(l, "multicolor") || str_eq(l, "graphite") || str_eq(l, "auto") {
            Some(AccentColor::Multicolor)
        } else if str_eq(l, "red") {
            Some(AccentColor::Red)
        } else if str_eq(l, "orange") {
            Some(AccentColor::Orange)
        } else if str_eq(l, "yellow") {
            Some(AccentColor::Yellow)
        } else if str_eq(l, "green") {
            Some(AccentColor::Green)
        } else if str_eq(l, "blue") {
            Some(AccentColor::Blue)
        } else if str_eq(l, "purple") || str_eq(l, "violet") {
            Some(AccentColor::Purple)
        } else if str_eq(l, "pink") || str_eq(l, "magenta") {
            Some(AccentColor::Pink)
        } else {
            None
        }
    }

    /// The accent color a name stands for, ignoring case.
    pub fn from_str(s: &str) -> (r: Option<AccentColor>)
        ensures
            r == accent_named(lower_of(s@)),
    {
        let l = lowercase(s);
        Self::from_lowercase(l.as_str())
    }

    pub open spec fn name_spec(&self) -> Seq<char> {
        match self {
            AccentColor::Multicolor => "multicolor"@,
            AccentColor::Red => "red"@,
            AccentColor::Orange => "orange"@,
            AccentColor::Yellow => "yellow"@,
            AccentColor::Green => "green"@,
            AccentColor::Blue => "blue"@,
            AccentColor::Purple => "purple"@,
            AccentColor::Pink => "pink"@,
        }
    }

    /// The lowercase name of the accent color.
    pub fn name(&self) -> (r: &'static str)
        ensures
            r@ == self.name_spec(),
    {
        match self {
            AccentColor::Multicolor => "multicolor",
            AccentColor::Red => "red",
            AccentColor::Orange => "orange",
            AccentColor::Yellow => "yellow",
            AccentColor::Green => "green",
            AccentColor::Blue => "blue",
            AccentColor::Purple => "purple",
            AccentColor::Pink => "pink",
        }
    }

    /// The accent color closest in hue to a dominant color; grays (channel
    /// spread under 30) give `Multicolor`.
    pub fn from_dominant_color(r: u8, g: u8, b: u8) -> (c: AccentColor)
        ensures
            c == dominant_accent(r as int, g as int, b as int),
    {
        let mx: u32 = if r >= g && r >= b {
            r as u32
        } else if g >= b {
            g as u32
        } else {
            b as u32
        };
        let mn: u32 = if r <= g && r <= b {
            r as u32
        } else if g <= b {
            g as u32
        } else {
            b as u32
        };
        if mx - mn < 30 {
            return AccentColor::Multicolor;
        }
        let d: u32 = mx - mn;
        let (ri, gi, bi) = (r as u32, g as u32, b as u32);
        let h: u32 = if mx == ri {
            if gi >= bi {
                60 * (gi - bi) / d
            } else {
                (360 * d - 60 * (bi - gi)) / d
            }
        } else if mx == gi {
            (120 * d + 60 * bi - 60 * ri) / d
        } else {
            (240 * d + 60 * ri - 60 * gi) / d
        };
        if h <= 15 || 346 <= h {
            AccentColor::Red
        } else if h <= 45 {
            AccentColor::Orange
        } else if h <= 70 {
            AccentColor::Yellow
        } else if h <= 165 {
            AccentColor::Green
        } else if h <= 260 {
            AccentColor::Blue
        } else if h <= 290 {
            AccentColor::Purple
        } else {
            AccentColor::Pink
        }
    }
}

/// The appearance mode a lowercase name stands for.
pub open spec fn mode_named(l: Seq<char>) -> Option<AppearanceMode> {
    if l == "light"@ {
        Some(AppearanceMode::Light)
    } else if l == "dark"@ {
        Some(AppearanceMode::Dark)
    } else if l == "auto"@ || l == "system"@ {
        Some(AppearanceMode::Auto)
    } else {
        None
    }
}

impl AppearanceMode {
    /// The appearance mode for an already lowercased name.
    pub fn from_lowercase(l: &str) -> (r: Option<AppearanceMode>)
        ensures
            r == mode_named(l@),
    {
        if str_eq(l, "light") {
            Some(AppearanceMode::Light)
        } else if str_eq(l, "dark") {
            Some(AppearanceMode::Dark)
        } else if str_eq(l, "auto") || str_eq(l, "system") {
            Some(AppearanceMode::Auto)
        } else {
            None
        }
    }

    /// The appearance mode a name stands for, ignoring case.
    pub fn from_str(s: &str) -> (r: Option<AppearanceMode>)
        ensures
            r == mode_named(lower_of(s@)),
    {
        let l = lowercase(s);
        Self::from_lowercase(l.as_str())
    }
}

} // verus!
