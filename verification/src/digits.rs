//! The shared numeric index lexer: folding an ASCII digit run into a
//! bounded unsigned integer.
//!
//! InChI layer text indexes atoms with 1-based decimal numbers.  A run is
//! read most significant digit first; one that starts with `0` or whose
//! value exceeds the 16-bit index width is rejected, and no character after
//! the run is ever consumed.

use vstd::prelude::*;

use crate::errors::NumericError;

verus! {

/// The greatest value an atom index may take.
pub const MAX_ATOM_INDEX: u16 = 65535;

/// Whether `c` is an ASCII decimal digit.
pub open spec fn is_digit(c: char) -> bool {
    48 <= c as u32 <= 57
}

/// Numeric value of an ASCII digit.
pub open spec fn digit_value(c: char) -> int {
    c as u32 - 48
}

/// First position at or after `i` that does not hold a digit.
pub open spec fn digits_end(s: Seq<char>, i: int) -> int
    decreases s.len() - i,
{
    if i < 0 || i >= s.len() || !is_digit(s[i]) {
        i
    } else {
        digits_end(s, i + 1)
    }
}

/// Value of the digit run `s[i .. j)`, most significant digit first.
pub open spec fn digits_value(s: Seq<char>, i: int, j: int) -> int
    decreases j - i,
{
    if j <= i {
        0
    } else {
        digits_value(s, i, j - 1) * 10 + digit_value(s[j - 1])
    }
}

/// The end of a digit run lies between its start and the end of the text,
/// and strictly after the start when the start holds a digit.
pub proof fn lemma_digits_end_bounds(s: Seq<char>, i: int)
    requires
        0 <= i <= s.len(),
    ensures
        i <= digits_end(s, i) <= s.len(),
        i < s.len() && is_digit(s[i]) ==> i < digits_end(s, i),
    decreases s.len() - i,
{
    if i < s.len() && is_digit(s[i]) {
        lemma_digits_end_bounds(s, i + 1);
    }
}

/// Every character of the run `[i, digits_end(s, i))` is a digit.
pub proof fn lemma_digits_end_run(s: Seq<char>, i: int)
    requires
        0 <= i <= s.len(),
    ensures
        forall|k: int| i <= k < digits_end(s, i) ==> is_digit(#[trigger] s[k]),
    decreases s.len() - i,
{
    if i < s.len() && is_digit(s[i]) {
        lemma_digits_end_run(s, i + 1);
    }
}

/// A digit run that does not start with `0` has a positive value.
pub proof fn lemma_digits_value_pos(s: Seq<char>, i: int, j: int)
    requires
        0 <= i < j <= s.len(),
        is_digit(s[i]),
        s[i] != '0',
        forall|k: int| i <= k < j ==> is_digit(#[trigger] s[k]),
    ensures
        digits_value(s, i, j) >= 1,
    decreases j - i,
{
    if j > i + 1 {
        lemma_digits_value_pos(s, i, j - 1);
    } else {
        assert(digits_value(s, i, i) == 0);
        assert(s[i] as u32 != 48) by {
            vstd::utf8::char_u32_cast(s[i], s[i] as u32);
            vstd::utf8::char_u32_cast('0', '0' as u32);
        }
    }
}

/// What lexing the digit run at `i` yields: the parsed index and the
/// position after the run, or the error.
pub open spec fn spec_lex_number(s: Seq<char>, i: int) -> Result<(u16, int), NumericError>
    recommends
        0 <= i < s.len(),
        is_digit(s[i]),
{
    let j = digits_end(s, i);
    if s[i] == '0' {
        Err(NumericError::LeadingZero)
    } else if digits_value(s, i, j) > MAX_ATOM_INDEX {
        Err(NumericError::PositiveOverflow)
    } else {
        Ok((digits_value(s, i, j) as u16, j))
    }
}

/// Whether `c` is an ASCII decimal digit.
pub fn is_ascii_digit(c: char) -> (b: bool)
    ensures
        b == is_digit(c),
{
    let u = c as u32;
    u >= 48 && u <= 57
}

/// Lexes the digit run that starts at `i` into an atom index.
///
/// Consumes consecutive ASCII digits only; fails on a leading zero (indices
/// are 1-based) and on overflow of the index width.
pub fn lex_number(s: &Vec<char>, i: usize) -> (r: Result<(u16, usize), NumericError>)
    requires
        i < s@.len(),
        is_digit(s@[i as int]),
    ensures
        match spec_lex_number(s@, i as int) {
            Ok((v, j)) => r matches Ok(p) && p.0 == v && p.1 as int == j,
            Err(e) => r == Err::<(u16, usize), NumericError>(e),
        },
        r matches Ok(p) ==> i < p.1 <= s@.len(),
{
    proof {
        lemma_digits_end_bounds(s@, i as int);
    }
    if s[i] == '0' {
        return Err(NumericError::LeadingZero);
    }
    let mut j: usize = i;
    let mut acc: u32 = 0;
    while j < s.len() && is_ascii_digit(s[j])
        invariant
            i <= j <= s@.len(),
            digits_end(s@, i as int) == digits_end(s@, j as int),
            acc <= 655359,
            acc <= MAX_ATOM_INDEX ==> acc == digits_value(s@, i as int, j as int),
            acc > MAX_ATOM_INDEX ==> digits_value(s@, i as int, j as int) > MAX_ATOM_INDEX,
        decreases s@.len() - j,
    {
        let d = (s[j] as u32) - 48;
        if acc <= 65535 {
            acc = acc * 10 + d;
        }
        j = j + 1;
    }
    if acc > 65535 {
        Err(NumericError::PositiveOverflow)
    } else {
        Ok((acc as u16, j))
    }
}

} // verus!
