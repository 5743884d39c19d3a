//! Records of the wallpaper browser and the file size shown for each entry.

use vstd::prelude::*;
use vstd::string::*;
use crate::text::{decimal, push_char, push_decimal, push_str};

verus! {

/// A wallpaper file listed in the browser.
pub struct WallpaperItem {
    pub path: String,
    /// File name for display.
    pub name: String,
    /// Size in bytes, when known.
    pub size: Option<u64>,
    /// Width and height in pixels, when known.
    pub dimensions: Option<(u32, u32)>,
    /// File extension.
    pub format: Option<String>,
    /// Whether this is the current desktop background.
    pub is_current: bool,
}

/// What the browser shows.
#[derive(Clone, Copy, Debug, PartialEq, Eq, Structural)]
pub enum ViewMode {
    Browse,
    Preview,
    Help,
}

pub open spec fn pow1024(k: nat) -> int
    decreases k,
{
    if k == 0 {
        1
    } else {
        1024 * pow1024((k - 1) as nat)
    }
}

/// The unit index: the largest `k <= 3` with `1024^k <= size`.
pub open spec fn size_unit(size: int) -> nat {
    if size >= pow1024(3) {
        3
    } else if size >= pow1024(2) {
        2
    } else if size >= pow1024(1) {
        1
    } else {
        0
    }
}

pub open spec fn unit_name(k: nat) -> Seq<char> {
    if k == 0 {
        "B"@
    } else if k == 1 {
        "KB"@
    } else if k == 2 {
        "MB"@
    } else {
        "GB"@
    }
}

/// `size / d` in tenths, rounded to nearest with ties to even.
pub open spec fn tenths_rounded(size: int, d: int) -> int {
    let q = size * 10 / d;
    let rem = size * 10 % d;
    if rem * 2 > d || (rem * 2 == d && q % 2 == 1) {
        q + 1
    } else {
        q
    }
}

/// `0 B`, `512 B`, or the size in the largest fitting unit with one decimal (`1.5 KB`).
pub open spec fn file_size_text(size: int) -> Seq<char> {
    let k = size_unit(size);
    if size == 0 {
        "0 B"@
    } else if k == 0 {
        decimal(size as nat) + " B"@
    } else {
        let t = tenths_rounded(size, pow1024(k));
        decimal((t / 10) as nat) + seq!['.'] + decimal((t % 10) as nat) + seq![' '] + unit_name(k)
    }
}

/// A byte count for display.
pub fn format_file_size(size: u64) -> (r: String)
    ensures
        r@ == file_size_text(size as int),
{
    if size == 0 {
        return String::from_str("0 B");
    }
    let (k, d, unit): (u32, u128, &str) = if size as u128 >= 1024 * 1024 * 1024 {
        (3, 1024 * 1024 * 1024, "GB")
    } else if size >= 1024 * 1024 {
        (2, 1024 * 1024, "MB")
    } else if size >= 1024 {
        (1, 1024, "KB")
    } else {
        (0, 1, "B")
    };
    proof {
        assert(pow1024(0) == 1);
        assert(pow1024(1) == 1024);
        assert(pow1024(2) == 1024 * 1024);
        assert(pow1024(3) == 1024 * 1024 * 1024);
    }
    let mut s = String::new();
    if k == 0 {
        push_decimal(&mut s, size);
        push_str(&mut s, " B");
        assert(s@ =~= file_size_text(size as int));
        return s;
    }
    let q: u128 = size as u128 * 10 / d;
    let rem: u128 = size as u128 * 10 % d;
    let t: u128 = if rem * 2 > d || (rem * 2 == d && q % 2 == 1) {
        q + 1
    } else {
        q
    };
    proof {
        let sz = size as int * 10;
        assert(sz / (d as int) <= sz) by (nonlinear_arith)
            requires
                sz >= 0,
                d >= 1,
        ;
    }
    push_decimal(&mut s, (t / 10) as u64);
    push_char(&mut s, '.');
    push_decimal(&mut s, (t % 10) as u64);
    push_char(&mut s, ' ');
    push_str(&mut s, unit);
    assert(s@ =~= file_size_text(size as int));
    s
}

} // verus!
