//! Byte-string utilities: equality, ASCII case folding, and case-insensitive
//! substring matching. Identifiers and human-readable names are byte strings,
//! and the verifier's name checks are case-insensitive, so these are the
//! primitive comparisons everything else builds on.

use vstd::prelude::*;

verus! {

/// ASCII lower-casing of one byte: upper-case letters map to their lower-case
/// counterparts, every other byte is unchanged.
pub open spec fn lower_byte(b: u8) -> u8 {
    if 65 <= b && b <= 90 {
        (b + 32) as u8
    } else {
        b
    }
}

/// ASCII lower-casing of a whole byte string.
pub open spec fn lower_seq(s: Seq<u8>) -> Seq<u8> {
    s.map_values(|b: u8| lower_byte(b))
}

/// `needle` occurs contiguously inside `hay`. The empty needle occurs in
/// every haystack.
pub open spec fn is_substring(needle: Seq<u8>, hay: Seq<u8>) -> bool {
    exists|i: int| matches_at(needle, hay, i)
}

/// Case-insensitive containment: `needle` occurs in `hay` once both are
/// ASCII-lower-cased.
pub open spec fn contains_ci(hay: Seq<u8>, needle: Seq<u8>) -> bool {
    is_substring(lower_seq(needle), lower_seq(hay))
}

/// Byte-string equality.
pub fn bytes_eq(a: &Vec<u8>, b: &Vec<u8>) -> (r: bool)
    ensures
        r == (a@ == b@),
{
    if a.len() != b.len() {
        assert(a@ != b@) by {
            assert(a@.len() != b@.len());
        }
        return false;
    }
    let n = a.len();
    let mut i: usize = 0;
    while i < n
        invariant
            n == a@.len() && n == b@.len(),
            i <= n,
            forall|k: int| 0 <= k < i ==> a@[k] == b@[k],
        decreases n - i,
    {
        if a[i] != b[i] {
            return false;
        }
        i += 1;
    }
    proof {
        assert(a@ =~= b@);
    }
    true
}

/// Copy of a byte string.
pub fn bytes_dup(a: &Vec<u8>) -> (r: Vec<u8>)
    ensures
        r@ == a@,
{
    let mut out: Vec<u8> = Vec::new();
    let n = a.len();
    let mut i: usize = 0;
    while i < n
        invariant
            n == a@.len(),
            i <= n,
            out@ == a@.subrange(0, i as int),
        decreases n - i,
    {
        out.push(a[i]);
        proof {
            assert(out@ =~= a@.subrange(0, i + 1));
        }
        i += 1;
    }
    proof {
        assert(out@ =~= a@);
    }
    out
}

/// Copy of an optional byte string.
pub fn opt_bytes_dup(a: &Option<Vec<u8>>) -> (r: Option<Vec<u8>>)
    ensures
        match a {
            Some(v) => r is Some && r->0@ == v@,
            None => r is None,
        },
{
    match a {
        Some(v) => Some(bytes_dup(v)),
        None => None,
    }
}

/// ASCII-lower-cased copy of a byte string.
pub fn to_lower(a: &Vec<u8>) -> (r: Vec<u8>)
    ensures
        r@ == lower_seq(a@),
{
    let mut out: Vec<u8> = Vec::new();
    let n = a.len();
    let mut i: usize = 0;
    while i < n
        invariant
            n == a@.len(),
            i <= n,
            out@ == lower_seq(a@).subrange(0, i as int),
        decreases n - i,
    {
        let b = a[i];
        let l: u8 = if 65 <= b && b <= 90 {
            b + 32
        } else {
            b
        };
        assert(l == lower_byte(a@[i as int]));
        out.push(l);
        proof {
            assert(out@ =~= lower_seq(a@).subrange(0, i + 1));
        }
        i += 1;
    }
    proof {
        assert(out@ =~= lower_seq(a@));
    }
    out
}

/// `needle` occurs in `hay` starting at position `i`.
pub open spec fn matches_at(needle: Seq<u8>, hay: Seq<u8>, i: int) -> bool {
    0 <= i && i + needle.len() <= hay.len() && hay.subrange(i, i + needle.len() as int) == needle
}

fn check_match_at(needle: &Vec<u8>, hay: &Vec<u8>, i: usize) -> (r: bool)
    requires
        i + needle@.len() <= hay@.len(),
    ensures
        r == matches_at(needle@, hay@, i as int),
{
    let m = needle.len();
    let n = hay.len();
    let mut j: usize = 0;
    while j < m
        invariant
            m == needle@.len(),
            n == hay@.len(),
            i + m <= n,
            j <= m,
            forall|k: int| 0 <= k < j ==> hay@[i + k] == needle@[k],
        decreases m - j,
    {
        if hay[i + j] != needle[j] {
            proof {
                let sub = hay@.subrange(i as int, i + m);
                assert(sub[j as int] == hay@[i + j]);
                assert(sub != needle@);
            }
            return false;
        }
        j += 1;
    }
    proof {
        assert(hay@.subrange(i as int, i + m) =~= needle@);
    }
    true
}

/// Exact (case-sensitive) substring search.
pub fn contains_bytes(hay: &Vec<u8>, needle: &Vec<u8>) -> (r: bool)
    ensures
        r == is_substring(needle@, hay@),
{
    let m = needle.len();
    let n = hay.len();
    if m > n {
        assert(!is_substring(needle@, hay@));
        return false;
    }
    if m == 0 {
        proof {
            assert(hay@.subrange(0, 0) =~= needle@);
            assert(matches_at(needle@, hay@, 0));
        }
        return true;
    }
    let last = n - m;
    let mut i: usize = 0;
    while i <= last
        invariant
            m == needle@.len(),
            n == hay@.len(),
            0 < m <= n,
            last == n - m,
            i <= last + 1,
            forall|k: int| 0 <= k < i ==> !matches_at(needle@, hay@, k),
        decreases last + 1 - i,
    {
        if check_match_at(needle, hay, i) {
            assert(is_substring(needle@, hay@));
            return true;
        }
        i += 1;
    }
    proof {
        assert(forall|k: int| matches_at(needle@, hay@, k) ==> 0 <= k < i);
        assert(!is_substring(needle@, hay@));
    }
    false
}

/// Case-insensitive substring search: does `hay` contain `needle` up to ASCII
/// case?
pub fn contains_bytes_ci(hay: &Vec<u8>, needle: &Vec<u8>) -> (r: bool)
    ensures
        r == contains_ci(hay@, needle@),
{
    let low_hay = to_lower(hay);
    let low_needle = to_lower(needle);
    contains_bytes(&low_hay, &low_needle)
}

} // verus!
