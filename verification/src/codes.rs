//! Classification of division codes by their trailing-zero pattern.
//!
//! A code is province-level when its last four characters are `0`,
//! prefecture-level when its last two characters are `0` but not its last
//! four, and county-level otherwise.

use vstd::prelude::*;

verus! {

/// The last four characters of `c` are `'0'`.
pub open spec fn is_province_code(c: Seq<char>) -> bool {
    &&& c.len() >= 4
    &&& c[c.len() - 4] == '0'
    &&& c[c.len() - 3] == '0'
    &&& c[c.len() - 2] == '0'
    &&& c[c.len() - 1] == '0'
}

/// The last two characters of `c` are `'0'`, but not the last four.
pub open spec fn is_prefecture_code(c: Seq<char>) -> bool {
    &&& c.len() >= 2
    &&& c[c.len() - 2] == '0'
    &&& c[c.len() - 1] == '0'
    &&& !is_province_code(c)
}

/// Neither province-level nor prefecture-level.
pub open spec fn is_county_code(c: Seq<char>) -> bool {
    &&& !is_province_code(c)
    &&& !is_prefecture_code(c)
}

/// `p` is a prefix of `c`.
pub open spec fn starts_with(c: Seq<char>, p: Seq<char>) -> bool {
    &&& p.len() <= c.len()
    &&& c.subrange(0, p.len() as int) == p
}

/// The province-level code derived from `c`: its first segment, then zeros.
pub open spec fn province_code_of(c: Seq<char>) -> Seq<char>
    recommends
        c.len() >= 2,
{
    c.subrange(0, 2) + seq!['0', '0', '0', '0']
}

/// The prefecture-level code derived from `c`: its first two segments, then
/// zeros.
pub open spec fn prefecture_code_of(c: Seq<char>) -> Seq<char>
    recommends
        c.len() >= 4,
{
    c.subrange(0, 4) + seq!['0', '0']
}

/// A six-character province-level code derives itself as its province code:
/// navigating a province to its province yields the same code.
pub proof fn lemma_province_code_of_province(c: Seq<char>)
    requires
        c.len() == 6,
        is_province_code(c),
    ensures
        province_code_of(c) == c,
{
    assert(province_code_of(c) =~= c);
}

/// A six-character prefecture-level code derives itself as its prefecture
/// code: navigating a prefecture to its prefecture yields the same code.
pub proof fn lemma_prefecture_code_of_prefecture(c: Seq<char>)
    requires
        c.len() == 6,
        is_prefecture_code(c),
    ensures
        prefecture_code_of(c) == c,
{
    assert(prefecture_code_of(c) =~= c);
}

/// Every code falls under exactly one of the three levels.
pub proof fn lemma_levels_exclusive_exhaustive(c: Seq<char>)
    ensures
        is_province_code(c) || is_prefecture_code(c) || is_county_code(c),
        is_province_code(c) ==> !is_prefecture_code(c) && !is_county_code(c),
        is_prefecture_code(c) ==> !is_province_code(c) && !is_county_code(c),
        is_county_code(c) ==> !is_province_code(c) && !is_prefecture_code(c),
{
}

/// True iff `code` ends with four zero characters.
pub fn is_province(code: &str) -> (r: bool)
    ensures
        r == is_province_code(code@),
{
    let n: usize = code.unicode_len();
    if n < 4 {
        false
    } else {
        code.get_char(n - 4) == '0' && code.get_char(n - 3) == '0' && code.get_char(n - 2) == '0'
            && code.get_char(n - 1) == '0'
    }
}

/// True iff `code` ends with two zero characters but not with four.
pub fn is_prefecture(code: &str) -> (r: bool)
    ensures
        r == is_prefecture_code(code@),
{
    let n: usize = code.unicode_len();
    if n < 2 {
        false
    } else {
        code.get_char(n - 2) == '0' && code.get_char(n - 1) == '0' && !is_province(code)
    }
}

/// True iff `code` is neither province-level nor prefecture-level.
pub fn is_county(code: &str) -> (r: bool)
    ensures
        r == is_county_code(code@),
{
    !is_province(code) && !is_prefecture(code)
}

/// Character-wise string equality.
pub fn str_eq(a: &str, b: &str) -> (r: bool)
    ensures
        r == (a@ == b@),
{
    let n: usize = a.unicode_len();
    let m: usize = b.unicode_len();
    if n != m {
        return false;
    }
    let mut i: usize = 0;
    while i < n
        invariant
            n == a@.len(),
            n == b@.len(),
            i <= n,
            forall|j: int| 0 <= j < i ==> a@[j] == b@[j],
        decreases n - i,
    {
        if a.get_char(i) != b.get_char(i) {
            return false;
        }
        i += 1;
    }
    proof {
        assert(a@ =~= b@);
    }
    true
}

/// Character-wise prefix test.
pub fn str_starts_with(s: &str, p: &str) -> (r: bool)
    ensures
        r == starts_with(s@, p@),
{
    let n: usize = s.unicode_len();
    let m: usize = p.unicode_len();
    if n < m {
        return false;
    }
    let mut i: usize = 0;
    while i < m
        invariant
            n == s@.len(),
            m == p@.len(),
            m <= n,
            i <= m,
            forall|j: int| 0 <= j < i ==> s@[j] == p@[j],
        decreases m - i,
    {
        if s.get_char(i) != p.get_char(i) {
            proof {
                assert(s@.subrange(0, m as int)[i as int] == s@[i as int]);
            }
            return false;
        }
        i += 1;
    }
    proof {
        assert(s@.subrange(0, m as int) =~= p@);
    }
    true
}

} // verus!
