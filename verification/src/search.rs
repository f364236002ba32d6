//! Case-insensitive substring matching.
//!
//! The restaurant search compares names the way the store's `ILIKE
//! '%query%'` pattern does, modelled here as ASCII case folding followed by
//! substring containment.

use vstd::prelude::*;

verus! {

/// ASCII lowercase of one character; other characters are untouched.
pub open spec fn lower_char(c: char) -> char {
    if 65 <= c as u32 <= 90 {
        ((c as u32 + 32) as u8) as char
    } else {
        c
    }
}

/// ASCII lowercase of a whole string.
pub open spec fn lower(s: Seq<char>) -> Seq<char> {
    s.map_values(|c: char| lower_char(c))
}

/// `needle` occurs contiguously inside `hay`.
pub open spec fn contains_seq(hay: Seq<char>, needle: Seq<char>) -> bool {
    exists|k: int|
        0 <= k && k + needle.len() <= hay.len() && #[trigger] hay.subrange(
            k,
            k + needle.len() as int,
        ) == needle
}

/// The search relation: `query` occurs in `name` up to ASCII case.
pub open spec fn name_matches(name: Seq<char>, query: Seq<char>) -> bool {
    contains_seq(lower(name), lower(query))
}

/// ASCII lowercase of one character.
pub fn lower_char_exec(c: char) -> (r: char)
    ensures
        r == lower_char(c),
{
    let u = c as u32;
    if 65 <= u && u <= 90 {
        ((u + 32) as u8) as char
    } else {
        c
    }
}

/// ASCII lowercase of a whole string, as characters.
pub fn to_lower_chars(s: &str) -> (r: Vec<char>)
    ensures
        r@ == lower(s@),
{
    let n = s.unicode_len();
    let mut r: Vec<char> = Vec::new();
    let mut i: usize = 0;
    while i < n
        invariant
            n == s@.len(),
            0 <= i <= n,
            r@.len() == i,
            forall|j: int| 0 <= j < i ==> r@[j] == lower_char(s@[j]),
        decreases n - i,
    {
        r.push(lower_char_exec(s.get_char(i)));
        i = i + 1;
    }
    proof {
        assert(r@ =~= lower(s@));
    }
    r
}

/// Whether `needle` stands at offset `k` of `hay`.
fn matches_at(hay: &Vec<char>, needle: &Vec<char>, k: usize) -> (r: bool)
    requires
        k + needle@.len() <= hay@.len(),
    ensures
        r == (hay@.subrange(k as int, k + needle@.len()) == needle@),
{
    let m = needle.len();
    let hlen = hay.len();
    let mut j: usize = 0;
    while j < m
        invariant
            m == needle@.len(),
            hlen == hay@.len(),
            k + m <= hlen,
            0 <= j <= m,
            forall|l: int| 0 <= l < j ==> hay@[k + l] == needle@[l],
        decreases m - j,
    {
        if hay[k + j] != needle[j] {
            proof {
                assert(hay@.subrange(k as int, k + needle@.len())[j as int] == hay@[k + j]);
            }
            return false;
        }
        j = j + 1;
    }
    proof {
        assert(hay@.subrange(k as int, k + needle@.len()) =~= needle@);
    }
    true
}

/// Whether `query` occurs in `name`, ignoring ASCII case — the semantics of
/// the store's `ILIKE '%query%'` match.
pub fn contains_ci(name: &str, query: &str) -> (r: bool)
    ensures
        r == name_matches(name@, query@),
{
    let hay = to_lower_chars(name);
    let needle = to_lower_chars(query);
    let h = hay.len();
    let m = needle.len();
    if m > h {
        return false;
    }
    if m == 0 {
        proof {
            assert(lower(name@).subrange(0, 0 + lower(query@).len() as int) =~= lower(query@));
        }
        return true;
    }
    let mut k: usize = 0;
    while k <= h - m
        invariant
            hay@ == lower(name@),
            needle@ == lower(query@),
            h == hay@.len(),
            m == needle@.len(),
            1 <= m <= h,
            0 <= k <= h - m + 1,
            forall|l: int|
                0 <= l < k ==> #[trigger] hay@.subrange(l, l + needle@.len()) != needle@,
        decreases h - m + 1 - k,
    {
        if matches_at(&hay, &needle, k) {
            proof {
                assert(hay@.subrange(k as int, k + needle@.len()) == needle@);
            }
            return true;
        }
        k = k + 1;
    }
    false
}

} // verus!
