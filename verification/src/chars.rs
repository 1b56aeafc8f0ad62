//! Decimal digit characters and the value of digit texts.
use vstd::prelude::*;
use crate::digits::{is_digit_seq, seq_val};

verus! {

/// The decimal digit denoted by a character, or 10 when the character is not
/// a decimal digit.
pub open spec fn char_digit(c: char) -> nat {
    if c == '0' {
        0
    } else if c == '1' {
        1
    } else if c == '2' {
        2
    } else if c == '3' {
        3
    } else if c == '4' {
        4
    } else if c == '5' {
        5
    } else if c == '6' {
        6
    } else if c == '7' {
        7
    } else if c == '8' {
        8
    } else if c == '9' {
        9
    } else {
        10
    }
}

pub open spec fn is_dec_digit(c: char) -> bool {
    char_digit(c) < 10
}

/// The character that denotes a decimal digit.
pub open spec fn digit_char(d: u8) -> char {
    if d == 0 {
        '0'
    } else if d == 1 {
        '1'
    } else if d == 2 {
        '2'
    } else if d == 3 {
        '3'
    } else if d == 4 {
        '4'
    } else if d == 5 {
        '5'
    } else if d == 6 {
        '6'
    } else if d == 7 {
        '7'
    } else if d == 8 {
        '8'
    } else {
        '9'
    }
}

pub open spec fn all_dec_digits(s: Seq<char>) -> bool {
    forall|i: int| 0 <= i < s.len() ==> is_dec_digit(s[i])
}

/// Numeric value of a digit text, most significant digit first; the empty
/// text denotes zero.
pub open spec fn chars_val(s: Seq<char>) -> nat
    decreases s.len(),
{
    if s.len() == 0 {
        0
    } else {
        chars_val(s.drop_last()) * 10 + char_digit(s.last())
    }
}

/// The digit text of a digit sequence.
pub open spec fn chars_of_digits(s: Seq<u8>) -> Seq<char> {
    s.map_values(|d: u8| digit_char(d))
}

pub proof fn lemma_char_digit_of_digit_char(d: u8)
    requires
        d < 10,
    ensures
        char_digit(digit_char(d)) == d,
{
}

/// Rendering digits as text preserves the value.
pub proof fn lemma_chars_of_digits_val(s: Seq<u8>)
    requires
        is_digit_seq(s),
    ensures
        all_dec_digits(chars_of_digits(s)),
        chars_val(chars_of_digits(s)) == seq_val(s),
    decreases s.len(),
{
    if s.len() > 0 {
        lemma_chars_of_digits_val(s.drop_last());
        assert(chars_of_digits(s).drop_last() =~= chars_of_digits(s.drop_last()));
        assert(chars_of_digits(s).last() == digit_char(s.last()));
        lemma_char_digit_of_digit_char(s.last());
    }
}

/// Concatenation of digit texts: the left part is shifted by the length of
/// the right part.
pub proof fn lemma_chars_val_concat(a: Seq<char>, b: Seq<char>)
    ensures
        chars_val(a + b) == chars_val(a) * crate::digits::pow10(b.len()) + chars_val(b),
    decreases b.len(),
{
    if b.len() == 0 {
        assert(a + b =~= a);
        assert(chars_val(a) * crate::digits::pow10(0) == chars_val(a)) by (nonlinear_arith)
            requires crate::digits::pow10(0) == 1;
    } else {
        lemma_chars_val_concat(a, b.drop_last());
        assert((a + b).drop_last() =~= a + b.drop_last());
        assert((a + b).last() == b.last());
        let x = chars_val(a);
        let y = chars_val(b.drop_last());
        let p = crate::digits::pow10((b.len() - 1) as nat);
        let e = char_digit(b.last());
        assert(chars_val(a + b) == (x * p + y) * 10 + e);
        assert(chars_val(b) == y * 10 + e);
        assert(crate::digits::pow10(b.len()) == 10 * p);
        assert((x * p + y) * 10 == x * (10 * p) + y * 10) by (nonlinear_arith);
        assert(x * crate::digits::pow10(b.len()) == x * (10 * p)) by (nonlinear_arith)
            requires crate::digits::pow10(b.len()) == 10 * p;
    }
}

/// The digit sequence denoted by a digit text.
pub open spec fn digits_of_chars(cs: Seq<char>) -> Seq<u8> {
    cs.map_values(|c: char| char_digit(c) as u8)
}

/// Reading a digit text as digits preserves the value.
pub proof fn lemma_digits_of_chars_val(cs: Seq<char>)
    requires
        all_dec_digits(cs),
    ensures
        is_digit_seq(digits_of_chars(cs)),
        seq_val(digits_of_chars(cs)) == chars_val(cs),
    decreases cs.len(),
{
    if cs.len() > 0 {
        lemma_digits_of_chars_val(cs.drop_last());
        assert(digits_of_chars(cs).drop_last() =~= digits_of_chars(cs.drop_last()));
        assert(digits_of_chars(cs).last() == char_digit(cs.last()) as u8);
    }
}

/// The decimal digit denoted by a character, with 10 for any other character.
pub fn digit_of_char(c: char) -> (d: u8)
    ensures
        d as nat == char_digit(c),
{
    match c {
        '0' => 0,
        '1' => 1,
        '2' => 2,
        '3' => 3,
        '4' => 4,
        '5' => 5,
        '6' => 6,
        '7' => 7,
        '8' => 8,
        '9' => 9,
        _ => 10,
    }
}

/// The character that denotes a decimal digit.
pub fn char_of_digit(d: u8) -> (c: char)
    requires
        d < 10,
    ensures
        c == digit_char(d),
{
    match d {
        0 => '0',
        1 => '1',
        2 => '2',
        3 => '3',
        4 => '4',
        5 => '5',
        6 => '6',
        7 => '7',
        8 => '8',
        _ => '9',
    }
}

/// Relies on String::push: appends the character to the end of the string.
#[verifier::external_body]
pub fn push_char(s: &mut String, c: char)
    ensures
        final(s)@ == old(s)@.push(c),
{
    s.push(c);
}

} // verus!
