//! Character classes and string operations that the lexer builds on.
//!
//! The Unicode-aware classifications and the upper-casing are taken from the
//! standard library. Their results are given names here; nothing else is
//! assumed about them.
use vstd::prelude::*;
use vstd::utf8::{encode_utf8, encode_utf8_decode_utf8};

verus! {

/// The answer of `char::is_whitespace` for `c`.
pub uninterp spec fn is_whitespace_char(c: char) -> bool;

/// The answer of `char::is_alphabetic` for `c`.
pub uninterp spec fn is_alphabetic_char(c: char) -> bool;

/// The answer of `char::is_alphanumeric` for `c`.
pub uninterp spec fn is_alphanumeric_char(c: char) -> bool;

/// The text that `str::to_uppercase` returns for `s`.
pub uninterp spec fn uppercase_text(s: Seq<char>) -> Seq<char>;

/// Trusted: `char::is_whitespace` is a function of the character alone; its
/// answer is what `is_whitespace_char` names.
pub assume_specification[ char::is_whitespace ](c: char) -> (b: bool)
    ensures
        b == is_whitespace_char(c),
;

/// Trusted: `char::is_alphabetic` is a function of the character alone; its
/// answer is what `is_alphabetic_char` names.
pub assume_specification[ char::is_alphabetic ](c: char) -> (b: bool)
    ensures
        b == is_alphabetic_char(c),
;

/// Trusted: `char::is_alphanumeric` is a function of the character alone; its
/// answer is what `is_alphanumeric_char` names.
pub assume_specification[ char::is_alphanumeric ](c: char) -> (b: bool)
    ensures
        b == is_alphanumeric_char(c),
;

/// Trusted: `str::to_uppercase` is a function of the characters of the slice
/// alone; the string it returns holds what `uppercase_text` names.
pub assume_specification[ str::to_uppercase ](s: &str) -> (upper: std::string::String)
    ensures
        upper@ == uppercase_text(s@),
;

/// Trusted: `String::push` appends the character to the end of the string and
/// changes nothing else.
pub assume_specification[ std::string::String::push ](s: &mut std::string::String, ch: char)
    ensures
        final(s)@ == old(s)@.push(ch),
;

/// A decimal digit, `0` to `9`.
pub open spec fn is_digit_char(c: char) -> bool {
    '0' <= c && c <= '9'
}

/// A character that may continue a word: alphanumeric, or an underscore.
pub open spec fn is_word_char(c: char) -> bool {
    is_alphanumeric_char(c) || c == '_'
}

/// The number that a decimal digit stands for.
pub open spec fn digit_value(c: char) -> nat
    recommends
        is_digit_char(c),
{
    (c as int - '0' as int) as nat
}

/// The number that a sequence of decimal digits denotes; the empty sequence
/// denotes zero.
pub open spec fn decimal_value(digits: Seq<char>) -> nat
    decreases digits.len(),
{
    if digits.len() == 0 {
        0
    } else {
        decimal_value(digits.drop_last()) * 10 + digit_value(digits.last())
    }
}

/// Appending a digit multiplies the value by ten and adds the digit.
pub proof fn lemma_decimal_value_push(digits: Seq<char>, c: char)
    ensures
        decimal_value(digits.push(c)) == decimal_value(digits) * 10 + digit_value(c),
{
    assert(digits.push(c).drop_last() =~= digits);
}

/// Whether a character is a decimal digit.
pub fn is_decimal_digit(c: char) -> (b: bool)
    ensures
        b == is_digit_char(c),
{
    '0' <= c && c <= '9'
}

/// Whether a character may continue a word.
pub fn is_word_character(c: char) -> (b: bool)
    ensures
        b == is_word_char(c),
{
    c.is_alphanumeric() || c == '_'
}

/// The number that a decimal digit stands for.
pub fn decimal_digit_value(c: char) -> (d: u64)
    requires
        is_digit_char(c),
    ensures
        d == digit_value(c),
        d <= 9,
{
    (c as u32 - '0' as u32) as u64
}

/// Whether two string slices hold the same characters.
pub fn text_equals(a: &str, b: &str) -> (same: bool)
    ensures
        same == (a@ == b@),
{
    let x = a.as_bytes();
    let y = b.as_bytes();
    if x.len() != y.len() {
        return false;
    }
    let mut i: usize = 0;
    while i < x.len()
        invariant
            i <= x.len(),
            x.len() == y.len(),
            x@ == encode_utf8(a@),
            y@ == encode_utf8(b@),
            forall|j: int| 0 <= j < i ==> x@[j] == y@[j],
        decreases x.len() - i,
    {
        if x[i] != y[i] {
            return false;
        }
        i += 1;
    }
    proof {
        assert(x@ =~= y@);
        encode_utf8_decode_utf8(a@);
        encode_utf8_decode_utf8(b@);
    }
    true
}

} // verus!
