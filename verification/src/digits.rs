//! Digit sequences: the shape of a number of the game, and how the text of a
//! guess is read as one.

use vstd::prelude::*;
use vstd::string::StrSliceExecFns;

verus! {

/// Four entries, each of them a decimal digit.
pub open spec fn is_code(c: Seq<u8>) -> bool {
    c.len() == 4 && forall|i: int| 0 <= i < 4 ==> c[i] <= 9
}

/// No digit stands at two positions.
pub open spec fn distinct(c: Seq<u8>) -> bool {
    forall|i: int, j: int| 0 <= i < j < 4 ==> c[i] != c[j]
}

/// What a hidden number has to be: four digits, pairwise different.
pub open spec fn is_secret_code(c: Seq<u8>) -> bool {
    is_code(c) && distinct(c)
}

/// The character is one of the numerals `0` to `9`.
pub open spec fn is_numeral(c: char) -> bool {
    '0' <= c <= '9'
}

/// The digit that a numeral stands for.
pub open spec fn digit_value(c: char) -> int {
    c as u32 as int - '0' as u32 as int
}

/// The text of a guess that can be read: exactly four characters, each a numeral.
pub open spec fn well_formed(s: Seq<char>) -> bool {
    s.len() == 4 && forall|i: int| 0 <= i < 4 ==> is_numeral(#[trigger] s[i])
}

/// The digits that a well-formed text denotes, position by position.
pub open spec fn parsed(s: Seq<char>) -> Seq<u8> {
    Seq::new(4, |i: int| digit_value(s[i]) as u8)
}

/// A well-formed text denotes four decimal digits.
pub proof fn lemma_parsed_is_code(s: Seq<char>)
    requires
        well_formed(s),
    ensures
        is_code(parsed(s)),
{
    assert forall|i: int| 0 <= i < 4 implies parsed(s)[i] <= 9 by {
        assert(is_numeral(s[i]));
    }
}

/// Tells whether a text is exactly four numerals. Every other operation on a
/// text asks this of its argument.
pub fn is_well_formed_guess(s: &str) -> (ok: bool)
    ensures
        ok == well_formed(s@),
{
    if s.unicode_len() != 4 {
        return false;
    }
    for i in 0..4usize
        invariant
            s@.len() == 4,
            forall|k: int| 0 <= k < i ==> is_numeral(#[trigger] s@[k]),
    {
        let c: char = s.get_char(i);
        if !('0' <= c && c <= '9') {
            assert(!is_numeral(s@[i as int]));
            return false;
        }
    }
    true
}

/// Tells whether the four digits are pairwise different.
pub fn has_unique_digits(code: &[u8; 4]) -> (unique: bool)
    ensures
        unique == distinct(code@),
{
    for i in 0..4usize
        invariant
            forall|a: int, b: int| 0 <= a < i && a < b < 4 ==> code[a] != code[b],
    {
        for j in (i + 1)..4usize
            invariant
                i < 4,
                forall|a: int, b: int| 0 <= a < i && a < b < 4 ==> code[a] != code[b],
                forall|b: int| i < b < j ==> code[i as int] != code[b],
        {
            if code[i] == code[j] {
                return false;
            }
        }
    }
    true
}

} // verus!
