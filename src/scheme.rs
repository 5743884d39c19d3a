//! The color scheme value object and its text exports.

use vstd::prelude::*;
use crate::color::Rgb;
use crate::text::{decimal, push_decimal, push_str};

verus! {

/// A complete terminal color scheme.
pub struct ColorScheme {
    /// Path of the source wallpaper, carried through unchanged.
    pub wallpaper: String,
    /// Whether this is a dark scheme.
    pub is_dark: bool,
    /// Opacity in percent.
    pub alpha: u8,
    pub background: Rgb,
    pub foreground: Rgb,
    pub cursor: Rgb,
    /// Terminal colors `color0` to `color15`.
    pub colors: Vec<Rgb>,
}

/// `#RRGGBB` of a color.
pub open spec fn hex_text(c: Rgb) -> Seq<char> {
    seq!['#'] + c.hex_digits()
}

/// The shell lines for the first `n` terminal colors, each preceded by a newline.
pub open spec fn shell_color_lines(colors: Seq<Rgb>, n: int) -> Seq<char>
    decreases n,
{
    if n <= 0 {
        Seq::empty()
    } else {
        shell_color_lines(colors, n - 1) + "\ncolor"@ + decimal((n - 1) as nat) + "='"@
            + hex_text(colors[n - 1]) + "'"@
    }
}

/// The CSS declarations for the first `n` terminal colors, each preceded by a newline.
pub open spec fn css_color_lines(colors: Seq<Rgb>, n: int) -> Seq<char>
    decreases n,
{
    if n <= 0 {
        Seq::empty()
    } else {
        css_color_lines(colors, n - 1) + "\n  --color"@ + decimal((n - 1) as nat) + ": "@
            + hex_text(colors[n - 1]) + ";"@
    }
}

impl ColorScheme {
    /// A scheme at full opacity.
    pub fn new(
        wallpaper: String,
        is_dark: bool,
        background: Rgb,
        foreground: Rgb,
        cursor: Rgb,
        colors: Vec<Rgb>,
    ) -> (s: ColorScheme)
        ensures
            s.wallpaper == wallpaper,
            s.is_dark == is_dark,
            s.alpha == 100,
            s.background == background,
            s.foreground == foreground,
            s.cursor == cursor,
            s.colors == colors,
    {
        ColorScheme { wallpaper, is_dark, alpha: 100, background, foreground, cursor, colors }
    }

    pub open spec fn shell_text(&self) -> Seq<char> {
        "wallpaper='"@ + self.wallpaper@ + "'\nbackground='"@ + hex_text(self.background)
            + "'\nforeground='"@ + hex_text(self.foreground) + "'\ncursor='"@ + hex_text(
            self.cursor,
        ) + "'"@ + shell_color_lines(self.colors@, self.colors.len() as int)
    }

    pub open spec fn css_text(&self) -> Seq<char> {
        ":root {\n  --background: "@ + hex_text(self.background) + ";\n  --foreground: "@
            + hex_text(self.foreground) + ";\n  --cursor: "@ + hex_text(self.cursor) + ";"@
            + css_color_lines(self.colors@, self.colors.len() as int) + "\n}"@
    }

    /// Shell variable assignments, one per line (pywal layout).
    pub fn to_shell_format(&self) -> (s: String)
        ensures
            s@ == self.shell_text(),
    {
        let mut s = String::new();
        push_str(&mut s, "wallpaper='");
        push_str(&mut s, self.wallpaper.as_str());
        push_str(&mut s, "'\nbackground='");
        push_str(&mut s, self.background.hex().as_str());
        push_str(&mut s, "'\nforeground='");
        push_str(&mut s, self.foreground.hex().as_str());
        push_str(&mut s, "'\ncursor='");
        push_str(&mut s, self.cursor.hex().as_str());
        push_str(&mut s, "'");
        let ghost head = s@;
        let mut i: usize = 0;
        while i < self.colors.len()
            invariant
                0 <= i <= self.colors.len(),
                s@ == head + shell_color_lines(self.colors@, i as int),
            decreases self.colors.len() - i,
        {
            push_str(&mut s, "\ncolor");
            push_decimal(&mut s, i as u64);
            push_str(&mut s, "='");
            push_str(&mut s, self.colors[i].hex().as_str());
            push_str(&mut s, "'");
            assert(s@ =~= head + shell_color_lines(self.colors@, i + 1));
            i = i + 1;
        }
        assert(s@ =~= self.shell_text());
        s
    }

    /// CSS custom properties inside a `:root` block.
    pub fn to_css_format(&self) -> (s: String)
        ensures
            s@ == self.css_text(),
    {
        let mut s = String::new();
        push_str(&mut s, ":root {\n  --background: ");
        push_str(&mut s, self.background.hex().as_str());
        push_str(&mut s, ";\n  --foreground: ");
        push_str(&mut s, self.foreground.hex().as_str());
        push_str(&mut s, ";\n  --cursor: ");
        push_str(&mut s, self.cursor.hex().as_str());
        push_str(&mut s, ";");
        let ghost head = s@;
        let mut i: usize = 0;
        while i < self.colors.len()
            invariant
                0 <= i <= self.colors.len(),
                s@ == head + css_color_lines(self.colors@, i as int),
            decreases self.colors.len() - i,
        {
            push_str(&mut s, "\n  --color");
            push_decimal(&mut s, i as u64);
            push_str(&mut s, ": ");
            push_str(&mut s, self.colors[i].hex().as_str());
            push_str(&mut s, ";");
            assert(s@ =~= head + css_color_lines(self.colors@, i + 1));
            i = i + 1;
        }
        push_str(&mut s, "\n}");
        assert(s@ =~= self.css_text());
        s
    }
}

} // verus!
