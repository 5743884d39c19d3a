//! Wallpaper sources: their names and the request-building rules of the
//! Reddit and Wallhaven sources.

use vstd::prelude::*;
use vstd::string::*;
use crate::text::{
    chars_of, has_prefix, has_suffix, lower_of, lowercase, push_str, replace_all, replace_str,
};

verus! {

/// NASA Astronomy Picture of the Day.
pub struct ApodDownloader;

/// Bing photo of the day.
pub struct BingDownloader;

/// Google Earth View.
pub struct EarthViewDownloader;

/// Random photos from Picsum.
pub struct PicsumDownloader;

/// Images from Reddit posts.
pub struct RedditDownloader;

/// Unsplash photos.
pub struct UnsplashDownloader;

/// Wallhaven search.
pub struct WallhavenDownloader;

/// The sources that can be asked for by name, sorted.
pub fn list_sources() -> (r: Vec<String>)
    ensures
        r.len() == 3,
        r[0]@ == "apod"@,
        r[1]@ == "picsum"@,
        r[2]@ == "wallhaven"@,
{
    let mut v: Vec<String> = Vec::new();
    v.push(String::from_str("apod"));
    v.push(String::from_str("picsum"));
    v.push(String::from_str("wallhaven"));
    v
}

pub open spec fn ends_with(s: Seq<char>, p: Seq<char>) -> bool {
    p.len() <= s.len() && s.subrange(s.len() - p.len(), s.len() as int) == p
}

pub open spec fn starts_with(s: Seq<char>, p: Seq<char>) -> bool {
    p.len() <= s.len() && s.subrange(0, p.len() as int) == p
}

/// The lowercase text ends in a supported image extension.
pub open spec fn image_suffix(l: Seq<char>) -> bool {
    ends_with(l, ".jpg"@) || ends_with(l, ".jpeg"@) || ends_with(l, ".png"@) || ends_with(
        l,
        ".webp"@,
    )
}

/// The direct-image form of an imgur page URL; other URLs unchanged.
pub open spec fn imgur_normalized(url: Seq<char>) -> Seq<char> {
    if starts_with(url, "http://imgur.com/"@) || starts_with(url, "https://imgur.com/"@) {
        let n = replace_all(url, "://imgur.com/"@, "://i.imgur.com/"@);
        if image_suffix(lower_of(n)) {
            n
        } else {
            n + ".jpg"@
        }
    } else {
        url
    }
}

/// A character with ASCII uppercase letters folded to lowercase.
pub open spec fn ascii_fold(c: char) -> u32 {
    if 65 <= (c as u32) <= 90 {
        (c as u32 + 32) as u32
    } else {
        c as u32
    }
}

/// Equal up to ASCII case.
pub open spec fn ascii_eq(a: Seq<char>, b: Seq<char>) -> bool {
    a.len() == b.len() && forall|i: int| 0 <= i < a.len() ==> ascii_fold(#[trigger] a[i]) == ascii_fold(b[i])
}

/// Some entry of `list` equals `name` up to ASCII case.
pub open spec fn listed(list: Seq<String>, name: Seq<char>) -> bool {
    exists|i: int| 0 <= i < list.len() && ascii_eq((#[trigger] list[i])@, name)
}

pub open spec fn bit(b: bool) -> char {
    if b {
        '1'
    } else {
        '0'
    }
}

/// Three flags as a `0`/`1` mask, or `100` when none is set.
pub open spec fn mask3(a: bool, b: bool, c: bool) -> Seq<char> {
    if !a && !b && !c {
        "100"@
    } else {
        seq![bit(a), bit(b), bit(c)]
    }
}

/// The search terms: the explicit query if any, then the first `n`
/// categories that are not one of the API's own categories.
pub open spec fn search_terms(q: Seq<char>, cats: Seq<String>, n: int) -> Seq<Seq<char>>
    decreases n,
{
    if n <= 0 {
        if q.len() > 0 {
            seq![q]
        } else {
            Seq::empty()
        }
    } else {
        let c = cats[n - 1]@;
        let rest = search_terms(q, cats, n - 1);
        if ascii_eq(c, "general"@) || ascii_eq(c, "anime"@) || ascii_eq(c, "people"@) {
            rest
        } else {
            rest.push(c)
        }
    }
}

/// Terms joined by single spaces.
pub open spec fn joined_terms(t: Seq<Seq<char>>) -> Seq<char>
    decreases t.len(),
{
    if t.len() == 0 {
        Seq::empty()
    } else if t.len() == 1 {
        t[0]
    } else {
        joined_terms(t.drop_last()) + seq![' '] + t.last()
    }
}

/// Whether two texts are equal up to ASCII case.
pub fn eq_ignore_ascii_case(a: &str, b: &str) -> (r: bool)
    ensures
        r == ascii_eq(a@, b@),
{
    let ca = chars_of(a);
    let cb = chars_of(b);
    if ca.len() != cb.len() {
        return false;
    }
    let mut i: usize = 0;
    while i < ca.len()
        invariant
            0 <= i <= ca.len(),
            ca.len() == cb.len(),
            ca@ == a@,
            cb@ == b@,
            forall|j: int| 0 <= j < i ==> ascii_fold(#[trigger] ca@[j]) == ascii_fold(cb@[j]),
        decreases ca.len() - i,
    {
        let x: u32 = ca[i] as u32;
        let y: u32 = cb[i] as u32;
        let fx: u32 = if 65 <= x && x <= 90 {
            x + 32
        } else {
            x
        };
        let fy: u32 = if 65 <= y && y <= 90 {
            y + 32
        } else {
            y
        };
        if fx != fy {
            assert(ascii_fold(a@[i as int]) != ascii_fold(b@[i as int]));
            return false;
        }
        i = i + 1;
    }
    true
}

fn is_listed(list: &Vec<String>, name: &str) -> (r: bool)
    ensures
        r == listed(list@, name@),
{
    let mut i: usize = 0;
    while i < list.len()
        invariant
            0 <= i <= list.len(),
            forall|j: int| 0 <= j < i ==> !ascii_eq((#[trigger] list@[j])@, name@),
        decreases list.len() - i,
    {
        if eq_ignore_ascii_case(list[i].as_str(), name) {
            assert(ascii_eq(list@[i as int]@, name@));
            return true;
        }
        i = i + 1;
    }
    false
}

fn mask_text(a: bool, b: bool, c: bool) -> (r: String)
    ensures
        r@ == mask3(a, b, c),
{
    if !a && !b && !c {
        return String::from_str("100");
    }
    let mut s = String::new();
    crate::text::push_char(&mut s, if a { '1' } else { '0' });
    crate::text::push_char(&mut s, if b { '1' } else { '0' });
    crate::text::push_char(&mut s, if c { '1' } else { '0' });
    assert(s@ =~= mask3(a, b, c));
    s
}

impl RedditDownloader {
    /// Whether the URL names a supported image file, ignoring case.
    pub fn is_image_url(url: &str) -> (r: bool)
        ensures
            r == image_suffix(lower_of(url@)),
    {
        let lower = lowercase(url);
        let l = lower.as_str();
        has_suffix(l, ".jpg") || has_suffix(l, ".jpeg") || has_suffix(l, ".png") || has_suffix(
            l,
            ".webp",
        )
    }

    /// Turns an imgur page URL (`imgur.com/abc`) into a direct image URL
    /// (`i.imgur.com/abc.jpg`); other URLs are kept.
    pub fn normalize_imgur_url(url: &str) -> (r: String)
        ensures
            r@ == imgur_normalized(url@),
    {
        if has_prefix(url, "http://imgur.com/") || has_prefix(url, "https://imgur.com/") {
            let mut normalized = replace_str(url, "://imgur.com/", "://i.imgur.com/");
            if !Self::is_image_url(normalized.as_str()) {
                push_str(&mut normalized, ".jpg");
            }
            return normalized;
        }
        String::from_str(url)
    }
}

impl WallhavenDownloader {
    /// The purity mask `sfw sketchy nsfw` (e.g. `110`); `100` when none is named.
    pub fn purity_to_bitmask(purity: &Vec<String>) -> (r: String)
        ensures
            r@ == mask3(
                listed(purity@, "sfw"@),
                listed(purity@, "sketchy"@),
                listed(purity@, "nsfw"@),
            ),
    {
        let sfw = is_listed(purity, "sfw");
        let sketchy = is_listed(purity, "sketchy");
        let nsfw = is_listed(purity, "nsfw");
        mask_text(sfw, sketchy, nsfw)
    }

    /// The category mask `general anime people`; `100` when none is named.
    pub fn categories_to_bitmask(categories: &Vec<String>) -> (r: String)
        ensures
            r@ == mask3(
                listed(categories@, "general"@),
                listed(categories@, "anime"@),
                listed(categories@, "people"@),
            ),
    {
        let general = is_listed(categories, "general");
        let anime = is_listed(categories, "anime");
        let people = is_listed(categories, "people");
        mask_text(general, anime, people)
    }

    /// The search query: the configured query, then every category that is
    /// not an API category, separated by spaces.
    pub fn build_search_query(config_q: &str, categories: &Vec<String>) -> (r: String)
        ensures
            r@ == joined_terms(search_terms(config_q@, categories@, categories.len() as int)),
    {
        let mut out = String::new();
        let mut any = false;
        if config_q.unicode_len() > 0 {
            push_str(&mut out, config_q);
            any = true;
        }
        assert(out@ =~= joined_terms(search_terms(config_q@, categories@, 0)));
        let mut i: usize = 0;
        while i < categories.len()
            invariant
                0 <= i <= categories.len(),
                any == (search_terms(config_q@, categories@, i as int).len() > 0),
                out@ == joined_terms(search_terms(config_q@, categories@, i as int)),
            decreases categories.len() - i,
        {
            let c = categories[i].as_str();
            if !(eq_ignore_ascii_case(c, "general") || eq_ignore_ascii_case(c, "anime")
                || eq_ignore_ascii_case(c, "people")) {
                let ghost terms = search_terms(config_q@, categories@, i as int);
                if any {
                    crate::text::push_char(&mut out, ' ');
                }
                push_str(&mut out, c);
                proof {
                    let nt = terms.push(c@);
                    assert(nt.drop_last() =~= terms);
                    if terms.len() == 0 {
                        assert(out@ =~= joined_terms(nt));
                    } else {
                        assert(out@ =~= joined_terms(nt));
                    }
                }
                any = true;
            }
            i = i + 1;
        }
        out
    }
}

} // verus!
