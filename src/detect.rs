//! Reading the display resolution out of what display tools print
//! (`swaymsg -t get_outputs`, `kscreen-doctor -j`, `wlr-randr`, `xrandr`).

use vstd::prelude::*;
use vstd::string::*;
use crate::display::Resolution;
use crate::text::{
    contains_str, find, find_str, is_white_space, occurs_in, parse_unsigned, parsed_unsigned,
    slice_text, trim, trimmed,
};

verus! {

/// The tool whose output is read.
#[derive(Clone, Copy, Debug, PartialEq, Eq, Structural)]
pub enum ResolutionSource {
    /// `xrandr --current`.
    Xrandr,
    /// `swaymsg -t get_outputs`.
    Sway,
    /// `wlr-randr`.
    WlrRandr,
    /// `kscreen-doctor -j`.
    Kscreen,
}

/// The number after `key` in `l`, up to the next `end` (or the end of the
/// line), optionally with surrounding white space removed.
pub open spec fn field_number(l: Seq<char>, key: Seq<char>, end: Seq<char>, trim_it: bool) -> Option<
    int,
> {
    let f = find(l, key);
    if f < 0 {
        None
    } else {
        let st = f + key.len();
        let e = find(l.subrange(st, l.len() as int), end);
        let en = if e >= 0 {
            st + e
        } else {
            l.len() as int
        };
        let t = l.subrange(st, en);
        parsed_unsigned(
            if trim_it {
                trimmed(t)
            } else {
                t
            },
            0xffff_ffff,
        )
    }
}

pub open spec fn both(w: Option<int>, h: Option<int>) -> Option<Resolution> {
    match (w, h) {
        (Some(w), Some(h)) => Some(Resolution { width: w as u32, height: h as u32 }),
        _ => None,
    }
}

/// A token of `xrandr` output that names a mode: it holds an `x` and starts
/// with a digit; the mode is the part before the first `+`.
pub open spec fn xrandr_token(t: Seq<char>) -> Option<Resolution> {
    if occurs_in(t, "x"@) && t.len() > 0 && 48 <= (t[0] as u32) <= 57 {
        let p = find(t, "+"@);
        let m = if p >= 0 {
            t.subrange(0, p)
        } else {
            t
        };
        match Resolution::parse_spec(m) {
            Ok(r) => Some(r),
            Err(_) => None,
        }
    } else {
        None
    }
}

/// The first mode among the white-space separated tokens of `l`, scanning
/// from `i` with the current token starting at `start`.
pub open spec fn xrandr_scan(l: Seq<char>, start: int, i: int) -> Option<Resolution>
    decreases l.len() - i,
{
    if i < 0 || i >= l.len() {
        if 0 <= start < i <= l.len() {
            xrandr_token(l.subrange(start, i))
        } else {
            None
        }
    } else if is_white_space(l[i]) {
        let here = if 0 <= start < i {
            xrandr_token(l.subrange(start, i))
        } else {
            None
        };
        match here {
            Some(r) => Some(r),
            None => xrandr_scan(l, i + 1, i + 1),
        }
    } else {
        xrandr_scan(l, start, i + 1)
    }
}

/// The resolution that one line of a tool's output gives, if any.
pub open spec fn line_resolution(src: ResolutionSource, l: Seq<char>) -> Option<Resolution> {
    match src {
        ResolutionSource::Xrandr => if occurs_in(l, " connected"@) && (occurs_in(l, "primary"@)
            || !occurs_in(l, "disconnected"@)) {
            xrandr_scan(l, 0, 0)
        } else {
            None
        },
        ResolutionSource::Sway => if occurs_in(l, "current_mode"@) && occurs_in(l, "width"@) {
            both(
                field_number(l, "\"width\":"@, ","@, false),
                field_number(l, "\"height\":"@, ","@, false),
            )
        } else {
            None
        },
        ResolutionSource::Kscreen => if occurs_in(l, "\"size\""@) && occurs_in(l, "width"@)
            && occurs_in(l, "height"@) {
            both(
                field_number(l, "\"width\": "@, ","@, true),
                field_number(l, "\"height\": "@, "}"@, true),
            )
        } else {
            None
        },
        ResolutionSource::WlrRandr => if occurs_in(l, "(current)"@) {
            let t = trimmed(l);
            let p = find(t, " "@);
            if p >= 0 {
                match Resolution::parse_spec(t.subrange(0, p)) {
                    Ok(r) => Some(r),
                    Err(_) => None,
                }
            } else {
                None
            }
        } else {
            None
        },
    }
}

/// The first line from `i` on that gives a resolution.
pub open spec fn first_resolution(src: ResolutionSource, lines: Seq<String>, i: int) -> Option<
    Resolution,
>
    decreases lines.len() - i,
{
    if i < 0 || i >= lines.len() {
        None
    } else {
        match line_resolution(src, lines[i]@) {
            Some(r) => Some(r),
            None => first_resolution(src, lines, i + 1),
        }
    }
}

/// Some line says that an output is enabled (kscreen-doctor).
pub open spec fn any_enabled(lines: Seq<String>) -> bool {
    exists|i: int| 0 <= i < lines.len() && occurs_in((#[trigger] lines[i])@, "\"enabled\": true"@)
}

/// The resolution a tool's output gives: the first line that gives one;
/// kscreen-doctor output must also report an enabled output.
pub open spec fn output_resolution(src: ResolutionSource, lines: Seq<String>) -> Option<Resolution> {
    if src == ResolutionSource::Kscreen && !any_enabled(lines) {
        None
    } else {
        first_resolution(src, lines, 0)
    }
}

fn field_value(l: &str, key: &str, end: &str, trim_it: bool) -> (r: Option<u32>)
    ensures
        widen(r) == field_number(l@, key@, end@, trim_it),
{
    proof {
        crate::text::lemma_find_at_bounds(l@, key@, 0);
    }
    let f = match find_str(l, key) {
        Some(f) => f,
        None => {
            return None;
        },
    };
    let n = l.unicode_len();
    let st = f + key.unicode_len();
    let rest = slice_text(l, st, n);
    proof {
        crate::text::lemma_find_at_bounds(rest@, end@, 0);
    }
    let en = match find_str(rest.as_str(), end) {
        Some(e) => st + e,
        None => n,
    };
    let t = slice_text(l, st, en);
    let v = if trim_it {
        parse_unsigned(trim(t.as_str()).as_str(), 0xffff_ffff)
    } else {
        parse_unsigned(t.as_str(), 0xffff_ffff)
    };
    match v {
        Some(v) => Some(v as u32),
        None => None,
    }
}

pub open spec fn widen(v: Option<u32>) -> Option<int> {
    match v {
        Some(x) => Some(x as int),
        None => None,
    }
}

fn both_exec(w: Option<u32>, h: Option<u32>) -> (r: Option<Resolution>)
    ensures
        r == both(widen(w), widen(h)),
{
    match (w, h) {
        (Some(w), Some(h)) => Some(Resolution { width: w, height: h }),
        _ => None,
    }
}

fn xrandr_token_exec(t: &str) -> (r: Option<Resolution>)
    ensures
        r == xrandr_token(t@),
{
    let n = t.unicode_len();
    if !(contains_str(t, "x") && n > 0) {
        return None;
    }
    let c = t.get_char(0) as u32;
    if !(48 <= c && c <= 57) {
        return None;
    }
    proof {
        crate::text::lemma_find_at_bounds(t@, "+"@, 0);
    }
    let m = match find_str(t, "+") {
        Some(p) => slice_text(t, 0, p),
        None => slice_text(t, 0, n),
    };
    assert(t@.subrange(0, n as int) =~= t@);
    match Resolution::from_string(m.as_str()) {
        Ok(r) => Some(r),
        Err(_) => None,
    }
}

fn xrandr_tokens_exec(l: &str) -> (r: Option<Resolution>)
    ensures
        r == xrandr_scan(l@, 0, 0),
{
    let cs = crate::text::chars_of(l);
    let n = cs.len();
    let mut start: usize = 0;
    let mut i: usize = 0;
    while i < n
        invariant
            0 <= start <= i <= n,
            n == cs.len(),
            cs@ == l@,
            xrandr_scan(l@, 0, 0) == xrandr_scan(l@, start as int, i as int),
        decreases n - i,
    {
        if crate::text::white_space_char(cs[i]) {
            if start < i {
                let tok = slice_text(l, start, i);
                if let Some(r) = xrandr_token_exec(tok.as_str()) {
                    return Some(r);
                }
            }
            start = i + 1;
        }
        i = i + 1;
    }
    if start < i {
        let tok = slice_text(l, start, i);
        return xrandr_token_exec(tok.as_str());
    }
    None
}

/// The resolution one line of a tool's output gives, if any.
pub fn line_resolution_of(src: ResolutionSource, l: &str) -> (r: Option<Resolution>)
    ensures
        r == line_resolution(src, l@),
{
    match src {
        ResolutionSource::Xrandr => {
            if contains_str(l, " connected") && (contains_str(l, "primary") || !contains_str(
                l,
                "disconnected",
            )) {
                xrandr_tokens_exec(l)
            } else {
                None
            }
        },
        ResolutionSource::Sway => {
            if contains_str(l, "current_mode") && contains_str(l, "width") {
                both_exec(field_value(l, "\"width\":", ",", false), field_value(l, "\"height\":", ",", false))
            } else {
                None
            }
        },
        ResolutionSource::Kscreen => {
            if contains_str(l, "\"size\"") && contains_str(l, "width") && contains_str(l, "height") {
                both_exec(field_value(l, "\"width\": ", ",", true), field_value(l, "\"height\": ", "}", true))
            } else {
                None
            }
        },
        ResolutionSource::WlrRandr => {
            if contains_str(l, "(current)") {
                let t = trim(l);
                proof {
                    crate::text::lemma_find_at_bounds(t@, " "@, 0);
                }
                match find_str(t.as_str(), " ") {
                    Some(p) => {
                        let m = slice_text(t.as_str(), 0, p);
                        match Resolution::from_string(m.as_str()) {
                            Ok(r) => Some(r),
                            Err(_) => None,
                        }
                    },
                    None => None,
                }
            } else {
                None
            }
        },
    }
}

/// The resolution a display tool's output gives, read line by line.
pub fn resolution_from_output(src: ResolutionSource, lines: &Vec<String>) -> (r: Option<Resolution>)
    ensures
        r == output_resolution(src, lines@),
{
    if let ResolutionSource::Kscreen = src {
        let mut i: usize = 0;
        let mut enabled = false;
        while i < lines.len() && !enabled
            invariant
                0 <= i <= lines.len(),
                enabled ==> any_enabled(lines@),
                !enabled ==> forall|j: int| 0 <= j < i ==> !occurs_in((#[trigger] lines@[j])@, "\"enabled\": true"@),
            decreases lines.len() - i,
        {
            if contains_str(lines[i].as_str(), "\"enabled\": true") {
                enabled = true;
            }
            i = i + 1;
        }
        if !enabled {
            return None;
        }
    }
    let mut i: usize = 0;
    while i < lines.len()
        invariant
            0 <= i <= lines.len(),
            first_resolution(src, lines@, 0) == first_resolution(src, lines@, i as int),
            src == ResolutionSource::Kscreen ==> any_enabled(lines@),
        decreases lines.len() - i,
    {
        if let Some(r) = line_resolution_of(src, lines[i].as_str()) {
            return Some(r);
        }
        i = i + 1;
    }
    None
}

} // verus!
