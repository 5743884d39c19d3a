//! Durations written as a number and a unit (`30s`, `5m`, `2h`, `1d`).

use vstd::prelude::*;
use vstd::string::*;
use crate::text::{
    chars_of, decimal, parse_unsigned, parsed_unsigned, push_decimal, push_str, str_eq, string_of,
    trim, trimmed,
};

verus! {

/// What `char::is_alphabetic` says of a character.
pub uninterp spec fn alphabetic(c: char) -> bool;

/// Relies on `char::is_alphabetic`: whether the character has the Unicode
/// `Alphabetic` property; it depends on the character alone. ASCII letters
/// have it and ASCII digits do not.
#[verifier::external_body]
fn is_alphabetic(c: char) -> (r: bool)
    ensures
        r == alphabetic(c),
        ('a' <= c <= 'z' || 'A' <= c <= 'Z') ==> r,
        ('0' <= c <= '9') ==> !r,
{
    c.is_alphabetic()
}

/// Why a duration could not be read.
#[derive(Clone, Copy, Debug, PartialEq, Eq, Structural)]
pub enum DurationError {
    /// A bare number that is not a valid unsigned integer.
    InvalidFormat,
    /// The part before the unit is not a valid unsigned integer.
    InvalidNumber,
    /// The unit is none of the known ones.
    UnknownUnit,
    /// The number of seconds does not fit in 64 bits.
    Overflow,
}

/// Index of the first letter in `s`, or its length.
pub open spec fn first_letter(s: Seq<char>) -> int
    decreases s.len(),
{
    if s.len() == 0 {
        0
    } else if alphabetic(s[0]) {
        0
    } else {
        1 + first_letter(s.drop_first())
    }
}

/// Seconds per unit, for the known unit names.
pub open spec fn unit_seconds(u: Seq<char>) -> Option<int> {
    if u == "s"@ || u == "sec"@ || u == "second"@ || u == "seconds"@ {
        Some(1)
    } else if u == "m"@ || u == "min"@ || u == "minute"@ || u == "minutes"@ {
        Some(60)
    } else if u == "h"@ || u == "hr"@ || u == "hour"@ || u == "hours"@ {
        Some(3600)
    } else if u == "d"@ || u == "day"@ || u == "days"@ {
        Some(86400)
    } else {
        None
    }
}

/// The number of seconds that an already trimmed duration text stands for.
pub open spec fn duration_spec(t: Seq<char>) -> Result<u64, DurationError> {
    let p = first_letter(t);
    if t == "0"@ || t.len() == 0 {
        Ok(0)
    } else if p >= t.len() {
        match parsed_unsigned(t, 0xffff_ffff_ffff_ffff) {
            Some(v) => Ok(v as u64),
            None => Err(DurationError::InvalidFormat),
        }
    } else {
        match parsed_unsigned(t.subrange(0, p), 0xffff_ffff_ffff_ffff) {
            None => Err(DurationError::InvalidNumber),
            Some(n) => match unit_seconds(t.subrange(p, t.len() as int)) {
                None => Err(DurationError::UnknownUnit),
                Some(m) => if n * m <= 0xffff_ffff_ffff_ffff {
                    Ok((n * m) as u64)
                } else {
                    Err(DurationError::Overflow)
                },
            },
        }
    }
}

proof fn lemma_first_letter(s: Seq<char>, p: int)
    requires
        0 <= p <= s.len(),
        forall|j: int| 0 <= j < p ==> !alphabetic(#[trigger] s[j]),
        p < s.len() ==> alphabetic(s[p]),
    ensures
        first_letter(s) == p,
    decreases p,
{
    if p > 0 {
        let t = s.drop_first();
        assert forall|j: int| 0 <= j < p - 1 implies !alphabetic(#[trigger] t[j]) by {
            assert(t[j] == s[j + 1]);
        }
        if p < s.len() {
            assert(t[p - 1] == s[p]);
        }
        lemma_first_letter(t, p - 1);
    } else if s.len() > 0 {
        assert(alphabetic(s[0]));
    }
}

fn unit_multiplier(u: &str) -> (r: Option<u64>)
    ensures
        r matches Some(m) ==> unit_seconds(u@) == Some(m as int),
        r is None ==> unit_seconds(u@) is None,
{
    if str_eq(u, "s") || str_eq(u, "sec") || str_eq(u, "second") || str_eq(u, "seconds") {
        Some(1)
    } else if str_eq(u, "m") || str_eq(u, "min") || str_eq(u, "minute") || str_eq(u, "minutes") {
        Some(60)
    } else if str_eq(u, "h") || str_eq(u, "hr") || str_eq(u, "hour") || str_eq(u, "hours") {
        Some(3600)
    } else if str_eq(u, "d") || str_eq(u, "day") || str_eq(u, "days") {
        Some(86400)
    } else {
        None
    }
}

/// Reads a duration that has already been trimmed: `0` or nothing is zero,
/// a bare number is seconds, otherwise a number directly followed by a unit
/// (`s`, `m`, `h`, `d` and their longer names).
pub fn parse_trimmed_duration(t: &str) -> (r: Result<u64, DurationError>)
    ensures
        r == duration_spec(t@),
{
    if str_eq(t, "0") || t.unicode_len() == 0 {
        return Ok(0);
    }
    let cs = chars_of(t);
    let mut p: usize = 0;
    while p < cs.len() && !is_alphabetic(cs[p])
        invariant
            0 <= p <= cs.len(),
            cs@ == t@,
            forall|j: int| 0 <= j < p ==> !alphabetic(#[trigger] cs@[j]),
        decreases cs.len() - p,
    {
        p = p + 1;
    }
    proof {
        lemma_first_letter(t@, p as int);
    }
    if p >= cs.len() {
        return match parse_unsigned(t, 0xffff_ffff_ffff_ffff) {
            Some(v) => Ok(v),
            None => Err(DurationError::InvalidFormat),
        };
    }
    let mut num: Vec<char> = Vec::new();
    let mut unit: Vec<char> = Vec::new();
    let mut i: usize = 0;
    while i < cs.len()
        invariant
            0 <= i <= cs.len(),
            p < cs.len(),
            i <= p ==> num@ =~= cs@.subrange(0, i as int) && unit@.len() == 0,
            i > p ==> num@ =~= cs@.subrange(0, p as int) && unit@ =~= cs@.subrange(p as int, i as int),
        decreases cs.len() - i,
    {
        if i < p {
            num.push(cs[i]);
        } else {
            unit.push(cs[i]);
        }
        i = i + 1;
    }
    let ns = string_of(&num);
    let us = string_of(&unit);
    match parse_unsigned(ns.as_str(), 0xffff_ffff_ffff_ffff) {
        None => Err(DurationError::InvalidNumber),
        Some(n) => match unit_multiplier(us.as_str()) {
            None => Err(DurationError::UnknownUnit),
            Some(m) => {
                let total: u128 = n as u128 * m as u128;
                if total <= 0xffff_ffff_ffff_ffff {
                    Ok(total as u64)
                } else {
                    Err(DurationError::Overflow)
                }
            },
        },
    }
}

/// Reads a duration such as `30s`, `5m`, `2h` or `1d`, ignoring
/// surrounding whitespace.
pub fn parse_duration(s: &str) -> (r: Result<u64, DurationError>)
    ensures
        r == duration_spec(trimmed(s@)),
{
    parse_trimmed_duration(trim(s).as_str())
}

/// `Hh Mm Ss`, dropping leading zero parts (`1h 0m 5s`, `2m 3s`, `7s`).
pub open spec fn duration_text(secs: nat) -> Seq<char> {
    let h = secs / 3600;
    let m = (secs % 3600) / 60;
    let s = secs % 60;
    if h > 0 {
        decimal(h) + "h "@ + decimal(m) + "m "@ + decimal(s) + "s"@
    } else if m > 0 {
        decimal(m) + "m "@ + decimal(s) + "s"@
    } else {
        decimal(s) + "s"@
    }
}

/// A number of seconds as hours, minutes and seconds.
pub fn format_duration(secs: u64) -> (r: String)
    ensures
        r@ == duration_text(secs as nat),
{
    let h = secs / 3600;
    let m = (secs % 3600) / 60;
    let s = secs % 60;
    let mut out = String::new();
    if h > 0 {
        push_decimal(&mut out, h);
        push_str(&mut out, "h ");
        push_decimal(&mut out, m);
        push_str(&mut out, "m ");
    } else if m > 0 {
        push_decimal(&mut out, m);
        push_str(&mut out, "m ");
    }
    push_decimal(&mut out, s);
    push_str(&mut out, "s");
    assert(out@ =~= duration_text(secs as nat));
    out
}

} // verus!
