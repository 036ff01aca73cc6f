//! Splitting a layer into its `;`-delimited mixture components, and the
//! optional `<digits>*` repetition prefix that a component may carry.

use vstd::prelude::*;

use crate::digits::{digits_end, is_ascii_digit, is_digit, lex_number, spec_lex_number};

verus! {

/// Position of the first `;` at or after `i`, or the end of the text.
pub open spec fn semi_end(s: Seq<char>, i: int) -> int
    decreases s.len() - i,
{
    if i < 0 || i >= s.len() {
        s.len() as int
    } else if s[i] == ';' {
        i
    } else {
        semi_end(s, i + 1)
    }
}

/// The component separator lies between the scan start and the end of the
/// text, and everything before it is not a `;`.
pub proof fn lemma_semi_end_bounds(s: Seq<char>, i: int)
    requires
        0 <= i <= s.len(),
    ensures
        i <= semi_end(s, i) <= s.len(),
        semi_end(s, i) < s.len() ==> s[semi_end(s, i)] == ';',
    decreases s.len() - i,
{
    if i < s.len() && s[i] != ';' {
        lemma_semi_end_bounds(s, i + 1);
    }
}

/// Finds the first `;` at or after `i`, or the end of the text.
pub fn find_semi(s: &Vec<char>, i: usize) -> (r: usize)
    requires
        i <= s@.len(),
    ensures
        r as int == semi_end(s@, i as int),
        i <= r <= s@.len(),
{
    proof {
        lemma_semi_end_bounds(s@, i as int);
    }
    let mut j = i;
    while j < s.len() && s[j] != ';'
        invariant
            i <= j <= s@.len(),
            semi_end(s@, i as int) == semi_end(s@, j as int),
        decreases s@.len() - j,
    {
        j = j + 1;
    }
    j
}

/// The repetition count of the component that starts at `i`, and the
/// position of the component body: a digit run followed by `*` names the
/// count, anything else leaves the whole text as the body with a count of
/// one.
pub open spec fn spec_repetition(s: Seq<char>, i: int) -> (u16, int) {
    if 0 <= i < s.len() && is_digit(s[i]) {
        match spec_lex_number(s, i) {
            Ok((v, j)) => if j < s.len() && s[j] == '*' {
                (v, j + 1)
            } else {
                (1u16, i)
            },
            Err(_) => (1u16, i),
        }
    } else {
        (1u16, i)
    }
}

/// A repetition count is positive and its body start lies inside the text.
pub proof fn lemma_repetition_bounds(s: Seq<char>, i: int)
    requires
        0 <= i <= s.len(),
    ensures
        i <= spec_repetition(s, i).1 <= s.len(),
        spec_repetition(s, i).0 >= 1,
{
    if 0 <= i < s.len() && is_digit(s[i]) {
        crate::digits::lemma_digits_end_bounds(s, i);
        crate::digits::lemma_digits_end_run(s, i);
        if spec_lex_number(s, i) matches Ok((v, j)) {
            crate::digits::lemma_digits_value_pos(s, i, digits_end(s, i));
        }
    }
}

/// A repetition prefix never reaches past the component separator: the
/// digit run stops at the `;`, so the body start lies within the segment.
pub proof fn lemma_repetition_in_segment(s: Seq<char>, i: int)
    requires
        0 <= i <= s.len(),
    ensures
        spec_repetition(s, i).1 <= semi_end(s, i),
{
    lemma_semi_end_bounds(s, i);
    if 0 <= i < s.len() && is_digit(s[i]) {
        crate::digits::lemma_digits_end_bounds(s, i);
        crate::digits::lemma_digits_end_run(s, i);
        let e = semi_end(s, i);
        let j = digits_end(s, i);
        if spec_lex_number(s, i) matches Ok((v, jj)) {
            if j < s.len() && s[j] == '*' {
                assert(j != e);
                if e < j {
                    assert(is_digit(s[e]));
                    assert(s[e] == ';');
                    assert(false) by {
                        vstd::utf8::char_u32_cast(s[e], s[e] as u32);
                        vstd::utf8::char_u32_cast(';', ';' as u32);
                    }
                }
            }
        }
    }
}

/// Reads the optional `<digits>*` repetition prefix of the component that
/// starts at `i`: the count (1 if there is none) and the start of the
/// component body.
pub fn lex_repetition(s: &Vec<char>, i: usize) -> (r: (u16, usize))
    requires
        i <= s@.len(),
    ensures
        (r.0, r.1 as int) == spec_repetition(s@, i as int),
        i <= r.1 <= s@.len(),
        r.0 >= 1,
{
    proof {
        lemma_repetition_bounds(s@, i as int);
    }
    if i < s.len() && is_ascii_digit(s[i]) {
        match lex_number(s, i) {
            Ok((v, j)) => {
                if j < s.len() && s[j] == '*' {
                    (v, j + 1)
                } else {
                    (1, i)
                }
            },
            Err(_) => (1, i),
        }
    } else {
        (1, i)
    }
}

/// Start position of the `q`-th `;`-separated segment at or after `i`:
/// segment 0 starts at `i`, and each later one after the previous
/// segment's separator.
pub open spec fn spec_segment_start(s: Seq<char>, i: int, q: int) -> int
    decreases q,
{
    if q <= 0 {
        i
    } else {
        spec_segment_start(s, semi_end(s, i) + 1, q - 1)
    }
}

/// Number of subformulas the first `q` segments at or after `i` consume:
/// the sum of their repetition counts.
pub open spec fn spec_counts_consumed(s: Seq<char>, i: int, q: int) -> int
    decreases q,
{
    if q <= 0 {
        0
    } else {
        spec_repetition(s, i).0 + spec_counts_consumed(s, semi_end(s, i) + 1, q - 1)
    }
}

/// Copies the characters `s[i .. j)` into a vector of their own.
pub fn sub_chars(s: &Vec<char>, i: usize, j: usize) -> (r: Vec<char>)
    requires
        i <= j <= s@.len(),
    ensures
        r@ == s@.subrange(i as int, j as int),
{
    let mut r: Vec<char> = Vec::new();
    let mut k = i;
    while k < j
        invariant
            i <= k <= j <= s@.len(),
            r@ == s@.subrange(i as int, k as int),
        decreases j - k,
    {
        r.push(s[k]);
        k = k + 1;
        proof {
            assert(r@ =~= s@.subrange(i as int, k as int));
        }
    }
    r
}

} // verus!
