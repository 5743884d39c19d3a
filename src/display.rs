//! Display resolutions and their `WIDTHxHEIGHT` text form.

use vstd::prelude::*;
use crate::text::{chars_of, decimal, parse_unsigned, parsed_unsigned, push_char, push_decimal, string_of};

verus! {

/// A display resolution in pixels.
#[derive(Clone, Copy, Debug, PartialEq, Eq, Structural)]
pub struct Resolution {
    pub width: u32,
    pub height: u32,
}

/// Why a resolution text could not be read.
#[derive(Clone, Copy, Debug, PartialEq, Eq, Structural)]
pub enum ResolutionError {
    /// The text does not hold exactly one `x`.
    Format,
    /// The part before the `x` is not a 32-bit unsigned number.
    Width,
    /// The part after the `x` is not a 32-bit unsigned number.
    Height,
}

/// Number of `x` characters in `s`.
pub open spec fn count_x(s: Seq<char>) -> int
    decreases s.len(),
{
    if s.len() == 0 {
        0
    } else {
        count_x(s.drop_last()) + if s.last() == 'x' {
            1int
        } else {
            0
        }
    }
}

/// Index of the first `x` in `s`, or its length.
pub open spec fn first_x(s: Seq<char>) -> int
    decreases s.len(),
{
    if s.len() == 0 {
        0
    } else if s[0] == 'x' {
        0
    } else {
        1 + first_x(s.drop_first())
    }
}

impl Resolution {
    /// What reading `s` as `WIDTHxHEIGHT` gives.
    pub open spec fn parse_spec(s: Seq<char>) -> Result<Resolution, ResolutionError> {
        let p = first_x(s);
        if count_x(s) != 1 {
            Err(ResolutionError::Format)
        } else {
            match parsed_unsigned(s.subrange(0, p), 0xffff_ffff) {
                None => Err(ResolutionError::Width),
                Some(w) => match parsed_unsigned(s.subrange(p + 1, s.len() as int), 0xffff_ffff) {
                    None => Err(ResolutionError::Height),
                    Some(h) => Ok(Resolution { width: w as u32, height: h as u32 }),
                },
            }
        }
    }

    pub fn new(width: u32, height: u32) -> (r: Resolution)
        ensures
            r == (Resolution { width, height }),
    {
        Resolution { width, height }
    }

    /// `WIDTHxHEIGHT` in decimal.
    pub fn as_string(&self) -> (s: String)
        ensures
            s@ == decimal(self.width as nat) + seq!['x'] + decimal(self.height as nat),
    {
        let mut s = String::new();
        push_decimal(&mut s, self.width as u64);
        push_char(&mut s, 'x');
        push_decimal(&mut s, self.height as u64);
        assert(s@ =~= decimal(self.width as nat) + seq!['x'] + decimal(self.height as nat));
        s
    }

    /// Reads `WIDTHxHEIGHT` (e.g. `1920x1080`).
    pub fn from_string(s: &str) -> (r: Result<Resolution, ResolutionError>)
        ensures
            r == Self::parse_spec(s@),
    {
        let cs = chars_of(s);
        let mut count: usize = 0;
        let mut first: usize = cs.len();
        let mut i: usize = 0;
        while i < cs.len()
            invariant
                0 <= i <= cs.len(),
                cs@ == s@,
                count == count_x(cs@.subrange(0, i as int)),
                count <= i,
                first <= cs.len(),
                first == cs.len() ==> forall|j: int| 0 <= j < i ==> cs@[j] != 'x',
                first < cs.len() ==> first < i && cs@[first as int] == 'x' && forall|j: int|
                    0 <= j < first ==> cs@[j] != 'x',
            decreases cs.len() - i,
        {
            proof {
                assert(cs@.subrange(0, i + 1).drop_last() =~= cs@.subrange(0, i as int));
            }
            if cs[i] == 'x' {
                count = count + 1;
                if first == cs.len() {
                    first = i;
                }
            }
            i = i + 1;
        }
        assert(cs@.subrange(0, cs.len() as int) =~= s@);
        if count != 1 {
            return Err(ResolutionError::Format);
        }
        proof {
            lemma_first_x(s@, first as int);
        }
        let left: Vec<char> = slice_chars(&cs, 0, first);
        let right: Vec<char> = slice_chars(&cs, first + 1, cs.len());
        let ls = string_of(&left);
        let rs = string_of(&right);
        match parse_unsigned(ls.as_str(), 0xffff_ffff) {
            None => Err(ResolutionError::Width),
            Some(w) => match parse_unsigned(rs.as_str(), 0xffff_ffff) {
                None => Err(ResolutionError::Height),
                Some(h) => Ok(Resolution { width: w as u32, height: h as u32 }),
            },
        }
    }
}

proof fn lemma_first_x(s: Seq<char>, p: int)
    requires
        count_x(s) == 1,
        0 <= p <= s.len(),
        p < s.len() ==> s[p] == 'x',
        forall|j: int| 0 <= j < p ==> s[j] != 'x',
        p == s.len() ==> forall|j: int| 0 <= j < s.len() ==> s[j] != 'x',
    ensures
        first_x(s) == p,
        p < s.len(),
    decreases s.len(),
{
    if p == s.len() {
        lemma_no_x(s);
    } else if p > 0 {
        let t = s.drop_first();
        assert forall|j: int| 0 <= j < p - 1 implies t[j] != 'x' by {
            assert(t[j] == s[j + 1]);
        }
        assert(t[p - 1] == s[p]);
        lemma_first_x_any(t, p - 1);
    }
}

proof fn lemma_first_x_any(s: Seq<char>, p: int)
    requires
        0 <= p < s.len(),
        s[p] == 'x',
        forall|j: int| 0 <= j < p ==> s[j] != 'x',
    ensures
        first_x(s) == p,
    decreases p,
{
    if p > 0 {
        let t = s.drop_first();
        assert forall|j: int| 0 <= j < p - 1 implies t[j] != 'x' by {
            assert(t[j] == s[j + 1]);
        }
        assert(t[p - 1] == s[p]);
        lemma_first_x_any(t, p - 1);
    }
}

proof fn lemma_no_x(s: Seq<char>)
    requires
        forall|j: int| 0 <= j < s.len() ==> s[j] != 'x',
    ensures
        count_x(s) == 0,
    decreases s.len(),
{
    if s.len() > 0 {
        lemma_no_x(s.drop_last());
    }
}

fn slice_chars(cs: &Vec<char>, from: usize, to: usize) -> (r: Vec<char>)
    requires
        from <= to <= cs.len(),
    ensures
        r@ == cs@.subrange(from as int, to as int),
{
    let mut out: Vec<char> = Vec::new();
    let mut i: usize = from;
    while i < to
        invariant
            from <= i <= to,
            to <= cs.len(),
            out@ =~= cs@.subrange(from as int, i as int),
        decreases to - i,
    {
        out.push(cs[i]);
        i = i + 1;
    }
    out
}

impl Default for Resolution {
    /// The fallback resolution when detection fails: 2560x1440.
    fn default() -> (r: Resolution)
        ensures
            r == (Resolution { width: 2560, height: 1440 }),
    {
        Resolution { width: 2560, height: 1440 }
    }
}

} // verus!
