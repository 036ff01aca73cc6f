//! Conversion of layer text into the character vectors that the lexers
//! consume.

use vstd::prelude::*;

verus! {

/// Relies on `str::chars` (and `Iterator::collect`): the characters of
/// `s`, in order.
#[verifier::external_body]
pub fn chars_of(s: &str) -> (r: Vec<char>)
    ensures
        r@ == s@,
{
    s.chars().collect()
}


/// Position of the first `c` at or after `i`, or the end of the text.
pub open spec fn char_end(s: Seq<char>, i: int, c: char) -> int
    decreases s.len() - i,
{
    if i < 0 || i >= s.len() {
        s.len() as int
    } else if s[i] == c {
        i
    } else {
        char_end(s, i + 1, c)
    }
}

/// The found position lies between the scan start and the end of the
/// text, and holds the character when it is not the end.
pub proof fn lemma_char_end_bounds(s: Seq<char>, i: int, c: char)
    requires
        0 <= i <= s.len(),
    ensures
        i <= char_end(s, i, c) <= s.len(),
        char_end(s, i, c) < s.len() ==> s[char_end(s, i, c)] == c,
    decreases s.len() - i,
{
    if i < s.len() && s[i] != c {
        lemma_char_end_bounds(s, i + 1, c);
    }
}

/// Finds the first occurrence of `c` at or after `i`, or the end of the
/// text.
pub fn find_char(s: &Vec<char>, i: usize, c: char) -> (r: usize)
    requires
        i <= s@.len(),
    ensures
        r as int == char_end(s@, i as int, c),
        i <= r <= s@.len(),
{
    proof {
        lemma_char_end_bounds(s@, i as int, c);
    }
    let mut j = i;
    while j < s.len() && s[j] != c
        invariant
            i <= j <= s@.len(),
            char_end(s@, i as int, c) == char_end(s@, j as int, c),
        decreases s@.len() - j,
    {
        j = j + 1;
    }
    j
}

/// Whether `p` occurs character for character in `s` at position `at`.
pub open spec fn has_prefix_at(s: Seq<char>, at: int, p: Seq<char>) -> bool {
    &&& 0 <= at
    &&& at + p.len() <= s.len()
    &&& s.subrange(at, at + p.len()) == p
}

/// Checks whether `p` occurs character for character in `s` at position
/// `at`.
pub fn is_char_prefix(s: &Vec<char>, at: usize, p: &Vec<char>) -> (r: bool)
    requires
        at <= s@.len(),
    ensures
        r == has_prefix_at(s@, at as int, p@),
{
    if p.len() > s.len() - at {
        proof {
            assert(at + p@.len() > s@.len());
        }
        return false;
    }
    let mut k: usize = 0;
    #[verifier::loop_isolation(false)]
    while k < p.len()
        invariant
            k <= p@.len(),
            forall|x: int| 0 <= x < k ==> s@[at + x] == p@[x],
        decreases p@.len() - k,
    {
        if s[at + k] != p[k] {
            proof {
                assert(s@.subrange(at as int, at + p@.len())[k as int] != p@[k as int]);
            }
            return false;
        }
        k = k + 1;
    }
    proof {
        assert(s@.subrange(at as int, at + p@.len()) =~= p@);
    }
    true
}

} // verus!

