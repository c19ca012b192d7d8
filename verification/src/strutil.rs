//! Small executable helpers over strings and character sequences.

use vstd::prelude::*;

verus! {

/// Character-for-character string equality; `==` on `&str` has no
/// specification here, so comparisons go through this helper.
pub fn str_eq(a: &str, b: &str) -> (r: bool)
    ensures
        r == (a@ == b@),
{
    let alen = a.unicode_len();
    let blen = b.unicode_len();
    if alen != blen {
        return false;
    }
    let mut i: usize = 0;
    while i < alen
        invariant
            alen == a@.len(),
            blen == b@.len(),
            alen == blen,
            i <= alen,
            forall|j: int| 0 <= j < i ==> a@[j] == b@[j],
        decreases alen - i,
    {
        if a.get_char(i) != b.get_char(i) {
            return false;
        }
        i = i + 1;
    }
    proof {
        assert(a@ =~= b@);
    }
    true
}

/// Equality between a built character sequence and a string.
pub fn chars_eq_str(a: &Vec<char>, b: &str) -> (r: bool)
    ensures
        r == (a@ == b@),
{
    let blen = b.unicode_len();
    if a.len() != blen {
        return false;
    }
    let mut i: usize = 0;
    while i < blen
        invariant
            blen == b@.len(),
            a@.len() == blen,
            i <= blen,
            forall|j: int| 0 <= j < i ==> a@[j] == b@[j],
        decreases blen - i,
    {
        if a[i] != b.get_char(i) {
            return false;
        }
        i = i + 1;
    }
    proof {
        assert(a@ =~= b@);
    }
    true
}

/// Relies on `String::push` of std: it appends exactly the one
/// character to the string.
pub assume_specification[ String::push ](s: &mut String, c: char)
    ensures
        final(s)@ == old(s)@.push(c),
;

/// Collects a character sequence into a `String`.
pub fn chars_to_string(v: &Vec<char>) -> (r: String)
    ensures
        r@ == v@,
{
    let mut s = String::new();
    let mut i: usize = 0;
    while i < v.len()
        invariant
            i <= v@.len(),
            s@ == v@.subrange(0, i as int),
        decreases v@.len() - i,
    {
        s.push(v[i]);
        proof {
            assert(s@ =~= v@.subrange(0, i as int + 1));
        }
        i = i + 1;
    }
    proof {
        assert(v@.subrange(0, v@.len() as int) =~= v@);
    }
    s
}

/// The suffix of a character sequence from `start` on (empty when
/// `start` is past the end).
pub fn vec_suffix(v: &Vec<char>, start: usize) -> (r: Vec<char>)
    ensures
        start <= v@.len() ==> r@ == v@.skip(start as int),
        start > v@.len() ==> r@.len() == 0,
{
    let mut out: Vec<char> = Vec::new();
    let mut j: usize = start;
    while j < v.len()
        invariant
            start <= j,
            j <= v@.len() || j == start,
            j <= v@.len() || out@.len() == 0,
            start <= v@.len() ==> (j <= v@.len() && out@ == v@.subrange(start as int, j as int)),
        decreases v@.len() - j,
    {
        out.push(v[j]);
        proof {
            if start <= v@.len() {
                assert(v@.subrange(start as int, j as int + 1) =~= v@.subrange(
                    start as int,
                    j as int,
                ).push(v@[j as int]));
            }
        }
        j = j + 1;
    }
    proof {
        if start <= v@.len() {
            assert(out@ =~= v@.skip(start as int));
        }
    }
    out
}

} // verus!
