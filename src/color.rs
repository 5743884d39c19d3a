//! The color value model: an RGB color with 16-bit channels, its derived
//! photometric properties, its transforms and its text encodings.
//!
//! A channel value `v` stands for the intensity `v / 65535`. Fractional
//! amounts and factors passed to the transforms are given in thousandths
//! (`150` is 0.15, `1200` is 1.2).

use vstd::prelude::*;
use crate::text::{
    decimal, decimal_padded, hex_byte_lower, hex_byte_upper, push_char, push_decimal,
    push_decimal_padded, push_hex_lower, push_hex_upper,
};

verus! {

/// Largest channel value: full intensity.
pub const CHANNEL_MAX: u16 = 65535;

/// Channel value scale as a mathematical integer.
pub open spec fn cmax() -> int {
    65535
}

/// An RGB color; every channel lies in `0..=65535` by construction.
#[derive(Clone, Copy, Debug, PartialEq, Eq, Structural)]
pub struct Rgb {
    pub r: u16,
    pub g: u16,
    pub b: u16,
}

pub open spec fn max3(a: int, b: int, c: int) -> int {
    if a >= b && a >= c {
        a
    } else if b >= c {
        b
    } else {
        c
    }
}

pub open spec fn min3(a: int, b: int, c: int) -> int {
    if a <= b && a <= c {
        a
    } else if b <= c {
        b
    } else {
        c
    }
}

pub open spec fn clamp_channel(v: int) -> int {
    if v < 0 {
        0
    } else if v > cmax() {
        cmax()
    } else {
        v
    }
}

/// One channel moved toward full intensity by `amount` thousandths of the
/// remaining distance, rounded up, and capped at full intensity.
pub open spec fn lighten_channel(x: int, amount: int) -> int {
    let v = x + ((cmax() - x) * amount + 999) / 1000;
    if v > cmax() {
        cmax()
    } else {
        v
    }
}

/// One channel scaled by `1 - amount/1000`, rounded down, floored at zero.
pub open spec fn darken_channel(x: int, amount: int) -> int {
    if amount >= 1000 {
        0
    } else {
        x * (1000 - amount) / 1000
    }
}

/// One channel pushed away from `gray` by `factor` thousandths, clamped.
pub open spec fn saturate_channel(x: int, gray: int, factor: int) -> int {
    if x >= gray {
        clamp_channel(gray + (x - gray) * factor / 1000)
    } else {
        clamp_channel(gray - (gray - x) * factor / 1000)
    }
}

/// The 8-bit value of a channel: `v * 255 / 65535`, rounded down.
pub open spec fn channel_byte(v: int) -> nat {
    (v / 257) as nat
}

impl Rgb {
    pub open spec fn max_channel(self) -> int {
        max3(self.r as int, self.g as int, self.b as int)
    }

    pub open spec fn min_channel(self) -> int {
        min3(self.r as int, self.g as int, self.b as int)
    }

    /// Perceived luminance (ITU-R BT.601 weights) on the channel scale.
    pub open spec fn luminance_spec(self) -> int {
        (299 * self.r + 587 * self.g + 114 * self.b) / 1000
    }

    /// HSV saturation on the channel scale.
    pub open spec fn saturation_spec(self) -> int {
        if self.max_channel() == 0 {
            0
        } else {
            (self.max_channel() - self.min_channel()) * cmax() / self.max_channel()
        }
    }

    /// The exact HSV saturation is strictly above `tenths / 10`.
    pub open spec fn saturation_above(self, tenths: int) -> bool {
        self.max_channel() > 0 && (self.max_channel() - self.min_channel()) * 10 > tenths
            * self.max_channel()
    }

    /// The exact HSV saturation is strictly below `tenths / 10`.
    pub open spec fn saturation_below(self, tenths: int) -> bool {
        self.max_channel() == 0 || (self.max_channel() - self.min_channel()) * 10 < tenths
            * self.max_channel()
    }

    /// Hue in hundredths of a degree, `0..36000`; zero for grays.
    pub open spec fn hue_spec(self) -> int {
        let mx = self.max_channel();
        let d = mx - self.min_channel();
        let (r, g, b) = (self.r as int, self.g as int, self.b as int);
        if d <= 0 {
            0
        } else if mx == r {
            if g >= b {
                6000 * (g - b) / d
            } else {
                (36000 * d - 6000 * (b - g)) / d
            }
        } else if mx == g {
            (12000 * d + 6000 * b - 6000 * r) / d
        } else {
            (24000 * d + 6000 * r - 6000 * g) / d
        }
    }

    pub open spec fn lightened_spec(self, amount: int) -> Rgb {
        Rgb {
            r: lighten_channel(self.r as int, amount) as u16,
            g: lighten_channel(self.g as int, amount) as u16,
            b: lighten_channel(self.b as int, amount) as u16,
        }
    }

    pub open spec fn darkened_spec(self, amount: int) -> Rgb {
        Rgb {
            r: darken_channel(self.r as int, amount) as u16,
            g: darken_channel(self.g as int, amount) as u16,
            b: darken_channel(self.b as int, amount) as u16,
        }
    }

    pub open spec fn saturated_spec(self, factor: int) -> Rgb {
        let gray = self.luminance_spec();
        Rgb {
            r: saturate_channel(self.r as int, gray, factor) as u16,
            g: saturate_channel(self.g as int, gray, factor) as u16,
            b: saturate_channel(self.b as int, gray, factor) as u16,
        }
    }

    pub open spec fn distance_squared_spec(self, o: Rgb) -> int {
        (self.r - o.r) * (self.r - o.r) + (self.g - o.g) * (self.g - o.g) + (self.b - o.b) * (
        self.b - o.b)
    }

    /// `RRGGBB` in uppercase hexadecimal.
    pub open spec fn hex_digits(self) -> Seq<char> {
        hex_byte_upper(channel_byte(self.r as int)) + hex_byte_upper(channel_byte(self.g as int))
            + hex_byte_upper(channel_byte(self.b as int))
    }

    pub open spec fn rgb_text(self) -> Seq<char> {
        decimal(channel_byte(self.r as int)) + seq![',', ' '] + decimal(
            channel_byte(self.g as int),
        ) + seq![',', ' '] + decimal(channel_byte(self.b as int))
    }

    pub open spec fn xrgba_text(self) -> Seq<char> {
        hex_byte_lower(channel_byte(self.r as int)) + seq!['/'] + hex_byte_lower(
            channel_byte(self.g as int),
        ) + seq!['/'] + hex_byte_lower(channel_byte(self.b as int)) + seq!['/', 'f', 'f']
    }
}

/// Millionths of full intensity, rounded to nearest.
pub open spec fn channel_millionths(v: int) -> nat {
    ((v * 1000000 + 32767) / 65535) as nat
}

/// A fraction given in millionths, written with six decimals.
pub open spec fn six_decimals(m: nat) -> Seq<char> {
    decimal(m / 1000000) + seq!['.'] + decimal_padded(m % 1000000, 6)
}

/// A fraction given in hundredths, written with two decimals.
pub open spec fn two_decimals(h: nat) -> Seq<char> {
    decimal(h / 100) + seq!['.'] + decimal_padded(h % 100, 2)
}

pub proof fn lemma_div_le(x: int, k: int, d: int)
    requires
        0 <= x <= k * d,
        d > 0,
    ensures
        x / d <= k,
{
    assert(x / d <= k) by (nonlinear_arith)
        requires
            0 <= x <= k * d,
            d > 0,
    ;
}

proof fn lemma_div_lt(x: int, k: int, d: int)
    requires
        0 <= x < k * d,
        d > 0,
    ensures
        x / d < k,
{
    assert(x / d < k) by (nonlinear_arith)
        requires
            0 <= x < k * d,
            d > 0,
    ;
}

fn max3_u16(a: u16, b: u16, c: u16) -> (m: u16)
    ensures
        m == max3(a as int, b as int, c as int),
{
    if a >= b && a >= c {
        a
    } else if b >= c {
        b
    } else {
        c
    }
}

fn min3_u16(a: u16, b: u16, c: u16) -> (m: u16)
    ensures
        m == min3(a as int, b as int, c as int),
{
    if a <= b && a <= c {
        a
    } else if b <= c {
        b
    } else {
        c
    }
}

fn lighten_u16(x: u16, amount: u32) -> (v: u16)
    ensures
        v == lighten_channel(x as int, amount as int),
{
    let rest: u64 = (CHANNEL_MAX - x) as u64;
    assert(rest * (amount as u64) <= 65535 * 4294967295) by (nonlinear_arith)
        requires
            rest <= 65535,
    ;
    let v: u64 = x as u64 + (rest * amount as u64 + 999) / 1000;
    if v > CHANNEL_MAX as u64 {
        CHANNEL_MAX
    } else {
        v as u16
    }
}

fn darken_u16(x: u16, amount: u32) -> (v: u16)
    ensures
        v == darken_channel(x as int, amount as int),
{
    if amount >= 1000 {
        0
    } else {
        let keep: u64 = (1000 - amount) as u64;
        proof {
            assert(0 <= x * keep <= x * 1000) by (nonlinear_arith)
                requires
                    keep <= 1000,
                    x >= 0,
            ;
            lemma_div_le(x * keep, x as int, 1000);
        }
        ((x as u64 * keep) / 1000) as u16
    }
}

fn saturate_u16(x: u16, gray: u16, factor: u32) -> (v: u16)
    ensures
        v == saturate_channel(x as int, gray as int, factor as int),
{
    if x >= gray {
        let d: u64 = (x - gray) as u64;
        assert(d * (factor as u64) <= 65535 * 4294967295) by (nonlinear_arith)
            requires
                d <= 65535,
        ;
        let v: u64 = gray as u64 + d * factor as u64 / 1000;
        if v > CHANNEL_MAX as u64 {
            CHANNEL_MAX
        } else {
            v as u16
        }
    } else {
        let d: u64 = (gray - x) as u64;
        assert(d * (factor as u64) <= 65535 * 4294967295) by (nonlinear_arith)
            requires
                d <= 65535,
        ;
        let down: u64 = d * factor as u64 / 1000;
        if down > gray as u64 {
            0
        } else {
            (gray as u64 - down) as u16
        }
    }
}

impl Rgb {
    /// A color from its three channels.
    pub fn new(r: u16, g: u16, b: u16) -> (c: Rgb)
        ensures
            c == (Rgb { r, g, b }),
    {
        Rgb { r, g, b }
    }

    /// A color from 8-bit channels; `255` becomes full intensity exactly.
    pub fn from_u8(r: u8, g: u8, b: u8) -> (c: Rgb)
        ensures
            c.r == r as int * 257,
            c.g == g as int * 257,
            c.b == b as int * 257,
    {
        Rgb { r: r as u16 * 257, g: g as u16 * 257, b: b as u16 * 257 }
    }

    /// Perceived luminance `0.299 r + 0.587 g + 0.114 b`, on the channel scale.
    pub fn luminance(&self) -> (l: u16)
        ensures
            l == self.luminance_spec(),
    {
        let v: u32 = (299 * self.r as u32 + 587 * self.g as u32 + 114 * self.b as u32) / 1000;
        v as u16
    }

    /// HSV saturation `(max - min) / max` on the channel scale; zero for black.
    pub fn saturation(&self) -> (s: u16)
        ensures
            s == self.saturation_spec(),
    {
        let mx: u16 = max3_u16(self.r, self.g, self.b);
        let mn: u16 = min3_u16(self.r, self.g, self.b);
        if mx == 0 {
            0
        } else {
            let num: u64 = (mx - mn) as u64 * 65535;
            proof {
                assert((mx - mn) * 65535 <= 65535 * mx) by (nonlinear_arith)
                    requires
                        mn >= 0,
                        mx >= mn,
                ;
                lemma_div_le(num as int, 65535, mx as int);
            }
            (num / mx as u64) as u16
        }
    }

    /// Whether the exact saturation is strictly above `tenths / 10`.
    pub fn saturation_is_above(&self, tenths: u16) -> (res: bool)
        ensures
            res == self.saturation_above(tenths as int),
    {
        let mx: u16 = max3_u16(self.r, self.g, self.b);
        let mn: u16 = min3_u16(self.r, self.g, self.b);
        assert(tenths as u64 * mx as u64 <= 65535 * 65535) by (nonlinear_arith)
            requires
                tenths <= 65535,
                mx <= 65535,
        ;
        mx > 0 && (mx - mn) as u64 * 10 > tenths as u64 * mx as u64
    }

    /// Whether the exact saturation is strictly below `tenths / 10`.
    pub fn saturation_is_below(&self, tenths: u16) -> (res: bool)
        ensures
            res == self.saturation_below(tenths as int),
    {
        let mx: u16 = max3_u16(self.r, self.g, self.b);
        let mn: u16 = min3_u16(self.r, self.g, self.b);
        assert(tenths as u64 * mx as u64 <= 65535 * 65535) by (nonlinear_arith)
            requires
                tenths <= 65535,
                mx <= 65535,
        ;
        mx == 0 || ((mx - mn) as u64 * 10) < tenths as u64 * mx as u64
    }

    /// Hue in hundredths of a degree, in `0..36000`; zero when all channels are equal.
    pub fn hue(&self) -> (h: u16)
        ensures
            h == self.hue_spec(),
            h < 36000,
    {
        let mx: u16 = max3_u16(self.r, self.g, self.b);
        let mn: u16 = min3_u16(self.r, self.g, self.b);
        let r: u64 = self.r as u64;
        let g: u64 = self.g as u64;
        let b: u64 = self.b as u64;
        if mx == mn {
            return 0;
        }
        let d: u64 = (mx - mn) as u64;
        if mx == self.r {
            if g >= b {
                proof {
                    lemma_div_le(6000 * (g - b), 6000, d as int);
                }
                (6000 * (g - b) / d) as u16
            } else {
                proof {
                    lemma_div_lt(36000 * d - 6000 * (b - g), 36000, d as int);
                }
                ((36000 * d - 6000 * (b - g)) / d) as u16
            }
        } else if mx == self.g {
            proof {
                lemma_div_le(12000 * d + 6000 * b - 6000 * r, 18000, d as int);
            }
            ((12000 * d + 6000 * b - 6000 * r) / d) as u16
        } else {
            proof {
                lemma_div_le(24000 * d + 6000 * r - 6000 * g, 30000, d as int);
            }
            ((24000 * d + 6000 * r - 6000 * g) / d) as u16
        }
    }

    /// Moves every channel toward full intensity by `amount` thousandths of
    /// the remaining distance (rounded up, capped at full intensity).
    pub fn lightened(&self, amount: u32) -> (c: Rgb)
        ensures
            c == self.lightened_spec(amount as int),
    {
        Rgb {
            r: lighten_u16(self.r, amount),
            g: lighten_u16(self.g, amount),
            b: lighten_u16(self.b, amount),
        }
    }

    /// Scales every channel by `1 - amount/1000` (rounded down, floored at zero).
    pub fn darkened(&self, amount: u32) -> (c: Rgb)
        ensures
            c == self.darkened_spec(amount as int),
    {
        Rgb {
            r: darken_u16(self.r, amount),
            g: darken_u16(self.g, amount),
            b: darken_u16(self.b, amount),
        }
    }

    /// Pushes every channel away from the luminance by `factor` thousandths, clamped.
    pub fn saturated(&self, factor: u32) -> (c: Rgb)
        ensures
            c == self.saturated_spec(factor as int),
    {
        let gray: u16 = self.luminance();
        Rgb {
            r: saturate_u16(self.r, gray, factor),
            g: saturate_u16(self.g, gray, factor),
            b: saturate_u16(self.b, gray, factor),
        }
    }

    /// Squared Euclidean distance between the channel vectors.
    pub fn distance_squared(&self, other: &Rgb) -> (d: u64)
        ensures
            d == self.distance_squared_spec(*other),
            d <= 3 * 65535 * 65535,
    {
        let dr: i64 = self.r as i64 - other.r as i64;
        let dg: i64 = self.g as i64 - other.g as i64;
        let db: i64 = self.b as i64 - other.b as i64;
        proof {
            assert(dr * dr <= 65535 * 65535) by (nonlinear_arith)
                requires
                    -65535 <= dr <= 65535,
            ;
            assert(dg * dg <= 65535 * 65535) by (nonlinear_arith)
                requires
                    -65535 <= dg <= 65535,
            ;
            assert(db * db <= 65535 * 65535) by (nonlinear_arith)
                requires
                    -65535 <= db <= 65535,
            ;
            assert(dr * dr >= 0 && dg * dg >= 0 && db * db >= 0) by (nonlinear_arith);
        }
        (dr * dr + dg * dg + db * db) as u64
    }

    /// The 8-bit value of each channel, in order.
    fn bytes(&self) -> (res: (u8, u8, u8))
        ensures
            res.0 == channel_byte(self.r as int),
            res.1 == channel_byte(self.g as int),
            res.2 == channel_byte(self.b as int),
    {
        ((self.r / 257) as u8, (self.g / 257) as u8, (self.b / 257) as u8)
    }

    /// `#RRGGBB`, uppercase.
    pub fn hex(&self) -> (s: String)
        ensures
            s@ == seq!['#'] + self.hex_digits(),
    {
        let (r, g, b) = self.bytes();
        let mut s = String::new();
        push_char(&mut s, '#');
        push_hex_upper(&mut s, r);
        push_hex_upper(&mut s, g);
        push_hex_upper(&mut s, b);
        assert(s@ =~= seq!['#'] + self.hex_digits());
        s
    }

    /// `RRGGBB`, uppercase, without the leading `#`.
    pub fn hex_strip(&self) -> (s: String)
        ensures
            s@ == self.hex_digits(),
    {
        let (r, g, b) = self.bytes();
        let mut s = String::new();
        push_hex_upper(&mut s, r);
        push_hex_upper(&mut s, g);
        push_hex_upper(&mut s, b);
        assert(s@ =~= self.hex_digits());
        s
    }

    /// `r, g, b` with the 8-bit values in decimal.
    pub fn rgb_string(&self) -> (s: String)
        ensures
            s@ == self.rgb_text(),
    {
        let (r, g, b) = self.bytes();
        let mut s = String::new();
        push_decimal(&mut s, r as u64);
        push_char(&mut s, ',');
        push_char(&mut s, ' ');
        push_decimal(&mut s, g as u64);
        push_char(&mut s, ',');
        push_char(&mut s, ' ');
        push_decimal(&mut s, b as u64);
        assert(s@ =~= self.rgb_text());
        s
    }

    /// `rr/gg/bb/ff`, lowercase hexadecimal.
    pub fn xrgba_string(&self) -> (s: String)
        ensures
            s@ == self.xrgba_text(),
    {
        let (r, g, b) = self.bytes();
        let mut s = String::new();
        push_hex_lower(&mut s, r);
        push_char(&mut s, '/');
        push_hex_lower(&mut s, g);
        push_char(&mut s, '/');
        push_hex_lower(&mut s, b);
        push_char(&mut s, '/');
        push_char(&mut s, 'f');
        push_char(&mut s, 'f');
        assert(s@ =~= self.xrgba_text());
        s
    }

    /// `r g b a`: each channel as a fraction with six decimals (rounded to
    /// nearest), then the alpha, given in hundredths, with two decimals.
    pub fn rgba_string(&self, alpha_hundredths: u32) -> (s: String)
        ensures
            s@ == six_decimals(channel_millionths(self.r as int)) + seq![' '] + six_decimals(
                channel_millionths(self.g as int),
            ) + seq![' '] + six_decimals(channel_millionths(self.b as int)) + seq![' ']
                + two_decimals(alpha_hundredths as nat),
    {
        let mut s = String::new();
        push_fraction(&mut s, self.r);
        push_char(&mut s, ' ');
        push_fraction(&mut s, self.g);
        push_char(&mut s, ' ');
        push_fraction(&mut s, self.b);
        push_char(&mut s, ' ');
        push_decimal(&mut s, (alpha_hundredths / 100) as u64);
        push_char(&mut s, '.');
        push_decimal_padded(&mut s, (alpha_hundredths % 100) as u64, 2);
        assert(s@ =~= six_decimals(channel_millionths(self.r as int)) + seq![' '] + six_decimals(
            channel_millionths(self.g as int),
        ) + seq![' '] + six_decimals(channel_millionths(self.b as int)) + seq![' ']
            + two_decimals(alpha_hundredths as nat));
        s
    }
}

fn push_fraction(s: &mut String, v: u16)
    ensures
        final(s)@ == old(s)@ + six_decimals(channel_millionths(v as int)),
{
    let m: u64 = (v as u64 * 1000000 + 32767) / 65535;
    push_decimal(s, m / 1000000);
    push_char(s, '.');
    push_decimal_padded(s, m % 1000000, 6);
    assert(final(s)@ =~= old(s)@ + six_decimals(channel_millionths(v as int)));
}

impl Default for Rgb {
    /// Black.
    fn default() -> (c: Rgb)
        ensures
            c == (Rgb { r: 0, g: 0, b: 0 }),
    {
        Rgb { r: 0, g: 0, b: 0 }
    }
}

/// White has full luminance and black has none.
pub proof fn lemma_luminance_bounds()
    ensures
        (Rgb { r: 65535, g: 65535, b: 65535 }).luminance_spec() == cmax(),
        (Rgb { r: 0, g: 0, b: 0 }).luminance_spec() == 0,
{
}

/// Lightening by a positive amount never lowers a channel, and leaves it
/// unchanged only when it is already at full intensity.
pub proof fn lemma_lighten_monotonic(c: Rgb, amount: int)
    requires
        0 < amount <= 1000,
    ensures
        c.lightened_spec(amount).r >= c.r,
        c.lightened_spec(amount).g >= c.g,
        c.lightened_spec(amount).b >= c.b,
        c.lightened_spec(amount).r == c.r <==> c.r == cmax(),
        c.lightened_spec(amount).g == c.g <==> c.g == cmax(),
        c.lightened_spec(amount).b == c.b <==> c.b == cmax(),
{
    lemma_lighten_channel(c.r as int, amount);
    lemma_lighten_channel(c.g as int, amount);
    lemma_lighten_channel(c.b as int, amount);
}

proof fn lemma_lighten_channel(x: int, amount: int)
    requires
        0 <= x <= cmax(),
        0 < amount <= 1000,
    ensures
        x <= lighten_channel(x, amount) <= cmax(),
        lighten_channel(x, amount) == x <==> x == cmax(),
{
    let rest = cmax() - x;
    assert(rest * amount >= 0) by (nonlinear_arith)
        requires
            rest >= 0,
            amount > 0,
    ;
    if rest > 0 {
        assert(rest * amount >= 1) by (nonlinear_arith)
            requires
                rest >= 1,
                amount >= 1,
        ;
    }
}

} // verus!
