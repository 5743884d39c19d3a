//! Stable ordering of colors by an integer key (luminance or hue).

use vstd::prelude::*;
use crate::color::Rgb;

verus! {

/// Position at which an item with key `k` goes into `s`: before the first
/// entry whose key is greater, so that equal keys keep their arrival order.
pub open spec fn insert_pos(s: Seq<(u16, Rgb)>, k: u16) -> int
    decreases s.len(),
{
    if s.len() == 0 {
        0
    } else if s[0].0 > k {
        0
    } else {
        1 + insert_pos(s.drop_first(), k)
    }
}

/// Stable insertion sort of keyed colors, ascending by key.
pub open spec fn sort_keyed(s: Seq<(u16, Rgb)>) -> Seq<(u16, Rgb)>
    decreases s.len(),
{
    if s.len() == 0 {
        Seq::empty()
    } else {
        let rest = sort_keyed(s.drop_last());
        rest.insert(insert_pos(rest, s.last().0), s.last())
    }
}

pub open spec fn luminance_keyed(s: Seq<Rgb>) -> Seq<(u16, Rgb)> {
    s.map_values(|c: Rgb| (c.luminance_spec() as u16, c))
}

pub open spec fn hue_keyed(s: Seq<Rgb>) -> Seq<(u16, Rgb)> {
    s.map_values(|c: Rgb| (c.hue_spec() as u16, c))
}

pub open spec fn strip_keys(s: Seq<(u16, Rgb)>) -> Seq<Rgb> {
    s.map_values(|p: (u16, Rgb)| p.1)
}

/// The colors ordered by ascending luminance, ties in input order.
pub open spec fn by_luminance(s: Seq<Rgb>) -> Seq<Rgb> {
    strip_keys(sort_keyed(luminance_keyed(s)))
}

/// The colors ordered by ascending hue, ties in input order.
pub open spec fn by_hue(s: Seq<Rgb>) -> Seq<Rgb> {
    strip_keys(sort_keyed(hue_keyed(s)))
}

pub open spec fn keys_sorted(s: Seq<(u16, Rgb)>) -> bool {
    forall|i: int, j: int| 0 <= i <= j < s.len() ==> s[i].0 <= s[j].0
}

proof fn lemma_insert_pos_is(s: Seq<(u16, Rgb)>, k: u16, p: int)
    requires
        0 <= p <= s.len(),
        forall|j: int| 0 <= j < p ==> s[j].0 <= k,
        p == s.len() || s[p].0 > k,
    ensures
        insert_pos(s, k) == p,
    decreases p,
{
    if p > 0 {
        let t = s.drop_first();
        assert forall|j: int| 0 <= j < p - 1 implies t[j].0 <= k by {
            assert(t[j] == s[j + 1]);
        }
        if p < s.len() {
            assert(t[p - 1] == s[p]);
        }
        lemma_insert_pos_is(t, k, p - 1);
    }
}

proof fn lemma_insert_pos_bounds(s: Seq<(u16, Rgb)>, k: u16)
    ensures
        0 <= insert_pos(s, k) <= s.len(),
    decreases s.len(),
{
    if s.len() > 0 && s[0].0 <= k {
        lemma_insert_pos_bounds(s.drop_first(), k);
    }
}

proof fn lemma_insert_keeps_sorted(s: Seq<(u16, Rgb)>, x: (u16, Rgb))
    requires
        keys_sorted(s),
    ensures
        keys_sorted(s.insert(insert_pos(s, x.0), x)),
    decreases s.len(),
{
    lemma_insert_pos_bounds(s, x.0);
    let p = insert_pos(s, x.0);
    if s.len() > 0 && s[0].0 <= x.0 {
        let t = s.drop_first();
        assert(keys_sorted(t)) by {
            assert forall|i: int, j: int| 0 <= i <= j < t.len() implies t[i].0 <= t[j].0 by {
                assert(t[i] == s[i + 1] && t[j] == s[j + 1]);
            }
        }
        lemma_insert_pos_bounds(t, x.0);
        lemma_insert_keeps_sorted(t, x);
        let ti = t.insert(p - 1, x);
        assert(s.insert(p, x) =~= seq![s[0]] + ti);
        assert forall|j: int| 0 <= j < ti.len() implies s[0].0 <= ti[j].0 by {
            if j < p - 1 {
                assert(ti[j] == s[j + 1]);
            } else if j > p - 1 {
                assert(ti[j] == s[j]);
            }
        }
    } else {
        assert(p == 0);
        assert(s.insert(p, x) =~= seq![x] + s);
    }
}

/// The stable insertion order is sorted by key and holds the same items.
pub proof fn lemma_sort_keyed(s: Seq<(u16, Rgb)>)
    ensures
        keys_sorted(sort_keyed(s)),
        sort_keyed(s).to_multiset() == s.to_multiset(),
        sort_keyed(s).len() == s.len(),
    decreases s.len(),
{
    if s.len() > 0 {
        let rest = sort_keyed(s.drop_last());
        lemma_sort_keyed(s.drop_last());
        lemma_insert_keeps_sorted(rest, s.last());
        lemma_insert_pos_bounds(rest, s.last().0);
        assert(s.drop_last().push(s.last()) =~= s);
        vstd::seq_lib::to_multiset_insert(rest, insert_pos(rest, s.last().0), s.last());
        vstd::seq_lib::to_multiset_build(s.drop_last(), s.last());
        assert(sort_keyed(s).to_multiset() == s.drop_last().push(s.last()).to_multiset());
    } else {
        assert(s =~= sort_keyed(s));
    }
}

/// Sorts keyed colors ascending by key; equal keys keep their input order.
pub fn sort_keyed_colors(items: &Vec<(u16, Rgb)>) -> (r: Vec<(u16, Rgb)>)
    ensures
        r@ == sort_keyed(items@),
{
    let mut out: Vec<(u16, Rgb)> = Vec::new();
    let mut i: usize = 0;
    while i < items.len()
        invariant
            0 <= i <= items.len(),
            out@ == sort_keyed(items@.subrange(0, i as int)),
        decreases items.len() - i,
    {
        let x = items[i];
        let mut p: usize = 0;
        while p < out.len() && out[p].0 <= x.0
            invariant
                0 <= p <= out.len(),
                forall|j: int| 0 <= j < p ==> out@[j].0 <= x.0,
            decreases out.len() - p,
        {
            p = p + 1;
        }
        proof {
            lemma_insert_pos_is(out@, x.0, p as int);
            let s = items@.subrange(0, i + 1);
            assert(s.drop_last() =~= items@.subrange(0, i as int));
            assert(s.last() == x);
        }
        out.insert(p, x);
        i = i + 1;
    }
    assert(items@.subrange(0, items.len() as int) =~= items@);
    out
}

fn strip(items: &Vec<(u16, Rgb)>) -> (r: Vec<Rgb>)
    ensures
        r@ == strip_keys(items@),
{
    let mut out: Vec<Rgb> = Vec::new();
    let mut i: usize = 0;
    while i < items.len()
        invariant
            0 <= i <= items.len(),
            out@ =~= strip_keys(items@.subrange(0, i as int)),
        decreases items.len() - i,
    {
        out.push(items[i].1);
        i = i + 1;
    }
    assert(items@.subrange(0, items.len() as int) =~= items@);
    out
}

/// The colors ordered by ascending luminance (darkest first), ties in input order.
pub fn sort_by_luminance(colors: &Vec<Rgb>) -> (r: Vec<Rgb>)
    ensures
        r@ == by_luminance(colors@),
{
    let mut keyed: Vec<(u16, Rgb)> = Vec::new();
    let mut i: usize = 0;
    while i < colors.len()
        invariant
            0 <= i <= colors.len(),
            keyed@ =~= luminance_keyed(colors@.subrange(0, i as int)),
        decreases colors.len() - i,
    {
        let c = colors[i];
        keyed.push((c.luminance(), c));
        i = i + 1;
    }
    assert(colors@.subrange(0, colors.len() as int) =~= colors@);
    strip(&sort_keyed_colors(&keyed))
}

/// The colors ordered by ascending hue, ties in input order.
pub fn sort_by_hue(colors: &Vec<Rgb>) -> (r: Vec<Rgb>)
    ensures
        r@ == by_hue(colors@),
{
    let mut keyed: Vec<(u16, Rgb)> = Vec::new();
    let mut i: usize = 0;
    while i < colors.len()
        invariant
            0 <= i <= colors.len(),
            keyed@ =~= hue_keyed(colors@.subrange(0, i as int)),
        decreases colors.len() - i,
    {
        let c = colors[i];
        keyed.push((c.hue(), c));
        i = i + 1;
    }
    assert(colors@.subrange(0, colors.len() as int) =~= colors@);
    strip(&sort_keyed_colors(&keyed))
}

} // verus!
