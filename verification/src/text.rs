//! Case-insensitive text matching for the free-text search facet, and
//! verified string comparison helpers.
//!
//! Case-insensitivity folds the ASCII uppercase letters onto the lowercase
//! ones; characters outside that range compare verbatim.

use vstd::prelude::*;

verus! {

/// The case-folded code point of a character: ASCII uppercase letters map to
/// their lowercase counterparts, everything else to itself.
pub open spec fn lower_code(c: char) -> u32 {
    if 65 <= c as u32 && c as u32 <= 90 {
        (c as u32 + 32) as u32
    } else {
        c as u32
    }
}

/// The needle matches the haystack at offset `i` when the case-folded
/// characters agree position by position.
pub open spec fn ci_match_at(hay: Seq<char>, needle: Seq<char>, i: int) -> bool {
    forall|j: int| 0 <= j < needle.len() ==> lower_code(hay[i + j]) == lower_code(needle[j])
}

/// Case-insensitive substring containment: the needle matches at some offset.
pub open spec fn ci_contains(hay: Seq<char>, needle: Seq<char>) -> bool {
    exists|i: int| 0 <= i <= hay.len() - needle.len() && ci_match_at(hay, needle, i)
}

/// The characters of a string as a vector, in order.
pub fn chars_of(s: &str) -> (v: Vec<char>)
    ensures
        v@ == s@,
{
    let n = s.unicode_len();
    let mut v: Vec<char> = Vec::new();
    let mut i: usize = 0;
    while i < n
        invariant
            n == s@.len(),
            i <= n,
            v@ == s@.take(i as int),
        decreases n - i,
    {
        v.push(s.get_char(i));
        proof {
            assert(v@ =~= s@.take(i as int + 1));
        }
        i = i + 1;
    }
    proof {
        assert(v@ =~= s@);
    }
    v
}

/// The case-folded code point, computed.
pub fn lower_code_of(c: char) -> (r: u32)
    ensures
        r == lower_code(c),
{
    let u = c as u32;
    if 65 <= u && u <= 90 {
        u + 32
    } else {
        u
    }
}

/// Whether two strings have the same character sequence.
pub fn str_eq(a: &str, b: &str) -> (r: bool)
    ensures
        r == (a@ == b@),
{
    let na = a.unicode_len();
    let nb = b.unicode_len();
    if na != nb {
        return false;
    }
    let mut i: usize = 0;
    while i < na
        invariant
            na == a@.len(),
            na == b@.len(),
            i <= na,
            forall|j: int| 0 <= j < i ==> a@[j] == b@[j],
        decreases na - i,
    {
        if a.get_char(i) != b.get_char(i) {
            return false;
        }
        i = i + 1;
    }
    proof {
        assert(a@ =~= b@);
    }
    true
}

/// Whether the needle occurs in the haystack, ignoring ASCII case.
pub fn ci_contains_str(hay: &str, needle: &str) -> (r: bool)
    ensures
        r == ci_contains(hay@, needle@),
{
    let hay_c = chars_of(hay);
    let needle_c = chars_of(needle);
    let hn = hay_c.len();
    let nn = needle_c.len();
    if nn > hn {
        return false;
    }
    let mut i: usize = 0;
    while i <= hn - nn
        invariant
            hay_c@ == hay@,
            needle_c@ == needle@,
            hn == hay@.len(),
            nn == needle@.len(),
            nn <= hn,
            i <= hn - nn + 1,
            forall|k: int| 0 <= k < i ==> !ci_match_at(hay@, needle@, k),
        decreases hn - nn - i + 1,
    {
        let mut j: usize = 0;
        let mut ok = true;
        while j < nn
            invariant
                hay_c@ == hay@,
                needle_c@ == needle@,
                hn == hay@.len(),
                nn == needle@.len(),
                nn <= hn,
                i <= hn - nn,
                j <= nn,
                ok ==> forall|l: int| 0 <= l < j ==> lower_code(hay@[i + l]) == lower_code(
                    needle@[l],
                ),
                !ok ==> !ci_match_at(hay@, needle@, i as int),
            decreases nn - j,
        {
            if lower_code_of(hay_c[i + j]) != lower_code_of(needle_c[j]) {
                ok = false;
                j = nn;
            } else {
                j = j + 1;
            }
        }
        if ok {
            proof {
                assert(ci_match_at(hay@, needle@, i as int));
            }
            return true;
        }
        i = i + 1;
    }
    false
}

} // verus!
