//! Small verified helpers over strings: turning a `&str` into its sequence of
//! characters, appending single characters, and substring search.

use vstd::prelude::*;
use vstd::string::StrSliceExecFns;

verus! {

/// Relies on std's `String::push`: appends one character at the end.
#[verifier::external_body]
pub fn push_char(s: &mut String, c: char)
    ensures
        final(s)@ == old(s)@.push(c),
{
    s.push(c);
}

/// The characters of a string slice, in order, as a vector.
pub fn str_chars(s: &str) -> (r: Vec<char>)
    ensures
        r@ == s@,
{
    let n = s.unicode_len();
    let mut r: Vec<char> = Vec::new();
    for i in 0..n
        invariant
            n == s@.len(),
            r@ =~= s@.take(i as int),
    {
        r.push(s.get_char(i));
        assert(r@ =~= s@.take(i + 1));
    }
    assert(s@.take(n as int) =~= s@);
    r
}

/// Whether `needle` occurs as a contiguous run inside `hay`.
pub open spec fn contains_sub(hay: Seq<char>, needle: Seq<char>) -> bool {
    exists|i: int|
        0 <= i <= hay.len() - needle.len() && #[trigger] hay.subrange(i, i + needle.len())
            =~= needle
}

/// Whether the run of `hay` starting at `at` equals `needle`.
fn matches_at(hay: &Vec<char>, needle: &Vec<char>, at: usize) -> (r: bool)
    requires
        at + needle@.len() <= hay@.len(),
    ensures
        r == (hay@.subrange(at as int, at as int + needle@.len()) =~= needle@),
{
    let n = hay.len();
    let m = needle.len();
    for j in 0..m
        invariant
            n == hay@.len(),
            at + m <= n,
            m == needle@.len(),
            forall|q: int| 0 <= q < j ==> hay@[at + q] == needle@[q],
    {
        if hay[at + j] != needle[j] {
            assert(hay@.subrange(at as int, at as int + needle@.len())[j as int]
                != needle@[j as int]);
            return false;
        }
    }
    assert(hay@.subrange(at as int, at as int + needle@.len()) =~= needle@);
    true
}

/// Naive substring search.
pub fn contains_chars(hay: &Vec<char>, needle: &Vec<char>) -> (r: bool)
    ensures
        r == contains_sub(hay@, needle@),
{
    let n = hay.len();
    let m = needle.len();
    if m > n {
        assert(!contains_sub(hay@, needle@));
        return false;
    }
    let last = n - m;
    let mut i: usize = 0;
    while i <= last
        invariant
            m <= n,
            n == hay@.len(),
            m == needle@.len(),
            last == n - m,
            i <= last + 1,
            forall|q: int|
                0 <= q < i ==> !(#[trigger] hay@.subrange(q, q + needle@.len()) =~= needle@),
        decreases last + 1 - i,
    {
        if matches_at(hay, needle, i) {
            assert(contains_sub(hay@, needle@));
            return true;
        }
        i = i + 1;
    }
    assert(!contains_sub(hay@, needle@));
    false
}

} // verus!
