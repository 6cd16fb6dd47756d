//! Case-insensitive substring matching over character sequences.
//!
//! Searching folds ASCII uppercase letters to lowercase and leaves every
//! other character untouched; two characters match when their folded code
//! points coincide.

use vstd::prelude::*;

verus! {

/// Code point of `c`, with ASCII uppercase letters folded to lowercase.
pub open spec fn lower_code(c: char) -> int {
    if 'A' <= c && c <= 'Z' {
        c as int + 32
    } else {
        c as int
    }
}

/// `a` and `b` are equal up to ASCII case.
pub open spec fn ci_eq(a: char, b: char) -> bool {
    lower_code(a) == lower_code(b)
}

/// `needle` occurs in `hay` starting at position `i`, up to ASCII case.
pub open spec fn ci_matches_at(hay: Seq<char>, needle: Seq<char>, i: int) -> bool {
    &&& 0 <= i
    &&& i + needle.len() <= hay.len()
    &&& forall|j: int| 0 <= j < needle.len() ==> ci_eq(hay[i + j], #[trigger] needle[j])
}

/// `needle` occurs somewhere in `hay`, up to ASCII case.
pub open spec fn ci_contains(hay: Seq<char>, needle: Seq<char>) -> bool {
    exists|i: int| ci_matches_at(hay, needle, i)
}

/// Code point of `c` with an ASCII uppercase letter folded to lowercase.
pub fn fold_char(c: char) -> (r: u32)
    ensures
        r as int == lower_code(c),
{
    let code = c as u32;
    if 65 <= code && code <= 90 {
        code + 32
    } else {
        code
    }
}

/// Whether `a` and `b` are the same character up to ASCII case.
pub fn chars_ci_eq(a: char, b: char) -> (r: bool)
    ensures
        r == ci_eq(a, b),
{
    fold_char(a) == fold_char(b)
}

/// Whether `needle` occurs in `hay` at position `i`, up to ASCII case.
fn matches_at(hay: &str, needle: &Vec<char>, i: usize) -> (r: bool)
    requires
        i + needle@.len() <= hay@.len(),
        hay@.len() <= usize::MAX,
    ensures
        r == ci_matches_at(hay@, needle@, i as int),
{
    let n = needle.len();
    let mut j: usize = 0;
    while j < n
        invariant
            n == needle@.len(),
            i + n <= hay@.len(),
            hay@.len() <= usize::MAX,
            0 <= j <= n,
            forall|k: int| 0 <= k < j ==> ci_eq(hay@[i + k], #[trigger] needle@[k]),
        decreases n - j,
    {
        if !chars_ci_eq(hay.get_char(i + j), needle[j]) {
            return false;
        }
        j += 1;
    }
    true
}

/// Whether `needle` occurs somewhere in `hay`, up to ASCII case.
pub fn contains_ci(hay: &str, needle: &Vec<char>) -> (r: bool)
    ensures
        r == ci_contains(hay@, needle@),
{
    let hay_len = hay.unicode_len();
    let n = needle.len();
    if n > hay_len {
        return false;
    }
    let mut i: usize = 0;
    while i <= hay_len - n
        invariant
            hay_len == hay@.len(),
            n == needle@.len(),
            n <= hay_len,
            0 <= i <= hay_len - n + 1,
            forall|k: int| 0 <= k < i ==> !ci_matches_at(hay@, needle@, k),
        decreases hay_len - i,
    {
        if matches_at(hay, needle, i) {
            return true;
        }
        i += 1;
    }
    false
}

/// Whether the two strings hold the same characters.
pub fn str_eq(a: &str, b: &str) -> (r: bool)
    ensures
        r == (a@ == b@),
{
    let a_len = a.unicode_len();
    let b_len = b.unicode_len();
    if a_len != b_len {
        return false;
    }
    let mut i: usize = 0;
    while i < a_len
        invariant
            a_len == a@.len(),
            a_len == b@.len(),
            0 <= i <= a_len,
            forall|k: int| 0 <= k < i ==> a@[k] == b@[k],
        decreases a_len - i,
    {
        if a.get_char(i) != b.get_char(i) {
            return false;
        }
        i += 1;
    }
    proof {
        assert(a@ =~= b@);
    }
    true
}

} // verus!
