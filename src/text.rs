//! Prefix tests on text.

use vstd::prelude::*;

verus! {

/// Whether `s` begins with `p`.
pub open spec fn starts_with(s: Seq<char>, p: Seq<char>) -> bool {
    p.len() <= s.len() && s.subrange(0, p.len() as int) == p
}

/// Whether `c` is `lower`, or the ASCII capital letter of which `lower` is
/// the small one.
pub open spec fn same_letter_ignoring_case(c: char, lower: char) -> bool {
    c == lower || ('A' <= c && c <= 'Z' && c as u32 + 32 == lower as u32)
}

/// Whether `s` begins with `p` when ASCII capitals in `s` are read as small
/// letters; `p` is written in small letters.
pub open spec fn starts_with_ignoring_case(s: Seq<char>, p: Seq<char>) -> bool {
    &&& p.len() <= s.len()
    &&& forall|i: int| 0 <= i < p.len() ==> same_letter_ignoring_case(s[i], p[i])
}

/// Whether `s` begins with `p`, compared character by character.
pub fn has_prefix(s: &str, p: &str) -> (r: bool)
    ensures
        r == starts_with(s@, p@),
{
    let n = p.unicode_len();
    if s.unicode_len() < n {
        return false;
    }
    let mut i: usize = 0;
    while i < n
        invariant
            n == p@.len(),
            n <= s@.len(),
            i <= n,
            forall|j: int| 0 <= j < i ==> s@[j] == p@[j],
        decreases n - i,
    {
        if s.get_char(i) != p.get_char(i) {
            assert(s@.subrange(0, n as int)[i as int] != p@[i as int]);
            return false;
        }
        i = i + 1;
    }
    assert(s@.subrange(0, n as int) =~= p@);
    true
}

/// Whether `s` begins with `p`, ASCII capitals in `s` read as small letters.
pub fn has_prefix_ignoring_case(s: &str, p: &str) -> (r: bool)
    ensures
        r == starts_with_ignoring_case(s@, p@),
{
    let n = p.unicode_len();
    if s.unicode_len() < n {
        return false;
    }
    let mut i: usize = 0;
    while i < n
        invariant
            n == p@.len(),
            n <= s@.len(),
            i <= n,
            forall|j: int| 0 <= j < i ==> same_letter_ignoring_case(s@[j], p@[j]),
        decreases n - i,
    {
        let c = s.get_char(i);
        let l = p.get_char(i);
        let same = c == l || ('A' <= c && c <= 'Z' && c as u32 + 32 == l as u32);
        if !same {
            return false;
        }
        i = i + 1;
    }
    true
}

} // verus!
