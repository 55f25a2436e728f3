//! The syntax of decimal floating-point numbers in text.
//!
//! A number is an optional sign followed by `inf`, `infinity` or `nan` in any
//! case, or by decimal digits with at most one point, at least one digit, and
//! an optional exponent: `e` or `E`, an optional sign, and at least one digit.

use vstd::prelude::*;
use crate::ip::is_decimal_digit;
use crate::text::{chars_between, chars_of, fields, split_fields, texts_of};

verus! {

/// Whether `c` is a sign.
pub open spec fn is_sign(c: char) -> bool {
    c == '+' || c == '-'
}

/// `s` without the sign it starts with, if it starts with one.
pub open spec fn unsigned(s: Seq<char>) -> Seq<char> {
    if s.len() > 0 && is_sign(s[0]) {
        s.drop_first()
    } else {
        s
    }
}

/// Whether `s` holds decimal digits only.
pub open spec fn all_digits(s: Seq<char>) -> bool {
    forall|i: int| 0 <= i < s.len() ==> is_decimal_digit(#[trigger] s[i])
}

/// Whether `s` spells `word`, which is in lower case, in any case.
pub open spec fn spells(s: Seq<char>, word: Seq<char>) -> bool {
    &&& s.len() == word.len()
    &&& forall|i: int| 0 <= i < s.len() ==> lower_case(#[trigger] s[i]) == word[i]
}

/// The lower-case letter of an upper-case letter of the alphabet, and every
/// other character as it is.
pub open spec fn lower_case(c: char) -> char {
    if 'A' <= c <= 'Z' {
        ((c as u8) + 32) as char
    } else {
        c
    }
}

/// `s` with its letters in lower case.
pub open spec fn lowered(s: Seq<char>) -> Seq<char> {
    Seq::new(s.len(), |i: int| lower_case(s[i]))
}

/// Whether `s` is the digits of a number before its exponent: digits with at
/// most one point among them, and at least one digit.
pub open spec fn is_mantissa(s: Seq<char>) -> bool {
    let parts = fields(s, '.');
    ||| parts.len() == 1 && all_digits(parts[0]) && parts[0].len() > 0
    ||| parts.len() == 2 && all_digits(parts[0]) && all_digits(parts[1]) && parts[0].len()
        + parts[1].len() > 0
}

/// Whether `s` is what follows the `e` of an exponent: an optional sign and at
/// least one digit.
pub open spec fn is_exponent(s: Seq<char>) -> bool {
    all_digits(unsigned(s)) && unsigned(s).len() > 0
}

/// Whether `s` is a number in digits, without a sign in front.
pub open spec fn is_digits_number(s: Seq<char>) -> bool {
    let parts = fields(lowered(s), 'e');
    ||| parts.len() == 1 && is_mantissa(parts[0])
    ||| parts.len() == 2 && is_mantissa(parts[0]) && is_exponent(parts[1])
}

/// Whether `s` is a decimal floating-point number.
pub open spec fn number_syntax(s: Seq<char>) -> bool {
    let body = unsigned(s);
    ||| spells(body, "inf"@)
    ||| spells(body, "infinity"@)
    ||| spells(body, "nan"@)
    ||| is_digits_number(body)
}

fn to_lower_case(c: char) -> (out: char)
    ensures
        out == lower_case(c),
{
    if 'A' <= c && c <= 'Z' {
        ((c as u8) + 32) as char
    } else {
        c
    }
}

fn to_lowered(chars: &Vec<char>) -> (out: Vec<char>)
    ensures
        out@ == lowered(chars@),
{
    let mut out: Vec<char> = Vec::new();
    let mut i: usize = 0;
    while i < chars.len()
        invariant
            i <= chars.len(),
            out.len() == i,
            forall|k: int| 0 <= k < i ==> out[k] == lower_case(chars[k]),
        decreases chars.len() - i,
    {
        out.push(to_lower_case(chars[i]));
        i = i + 1;
    }
    out
}

fn without_sign(chars: &Vec<char>) -> (out: Vec<char>)
    ensures
        out@ == unsigned(chars@),
{
    if chars.len() > 0 && (chars[0] == '+' || chars[0] == '-') {
        let out = chars_between(chars, 1, chars.len());
        out
    } else {
        let out = chars_between(chars, 0, chars.len());
        out
    }
}

fn only_digits(chars: &Vec<char>) -> (ok: bool)
    ensures
        ok == all_digits(chars@),
{
    let mut i: usize = 0;
    while i < chars.len()
        invariant
            i <= chars.len(),
            forall|k: int| 0 <= k < i ==> is_decimal_digit(#[trigger] chars@[k]),
        decreases chars.len() - i,
    {
        let c = chars[i];
        if !('0' <= c && c <= '9') {
            return false;
        }
        i = i + 1;
    }
    true
}

fn spells_word(chars: &Vec<char>, word: &Vec<char>) -> (ok: bool)
    ensures
        ok == spells(chars@, word@),
{
    if chars.len() != word.len() {
        return false;
    }
    let mut i: usize = 0;
    while i < chars.len()
        invariant
            i <= chars.len(),
            chars.len() == word.len(),
            forall|k: int| 0 <= k < i ==> lower_case(#[trigger] chars@[k]) == word@[k],
        decreases chars.len() - i,
    {
        if to_lower_case(chars[i]) != word[i] {
            return false;
        }
        i = i + 1;
    }
    true
}

fn mantissa(chars: &Vec<char>) -> (ok: bool)
    ensures
        ok == is_mantissa(chars@),
{
    let parts = split_fields(chars, '.');
    if parts.len() == 1 {
        only_digits(&parts[0]) && parts[0].len() > 0
    } else if parts.len() == 2 {
        only_digits(&parts[0]) && only_digits(&parts[1]) && (parts[0].len() > 0
            || parts[1].len() > 0)
    } else {
        false
    }
}

fn exponent(chars: &Vec<char>) -> (ok: bool)
    ensures
        ok == is_exponent(chars@),
{
    let digits = without_sign(chars);
    only_digits(&digits) && digits.len() > 0
}

fn digits_number(chars: &Vec<char>) -> (ok: bool)
    ensures
        ok == is_digits_number(chars@),
{
    let low = to_lowered(chars);
    let parts = split_fields(&low, 'e');
    if parts.len() == 1 {
        mantissa(&parts[0])
    } else if parts.len() == 2 {
        mantissa(&parts[0]) && exponent(&parts[1])
    } else {
        false
    }
}

/// Whether `text` is a decimal floating-point number.
pub fn is_number(text: &str) -> (ok: bool)
    ensures
        ok == number_syntax(text@),
{
    let chars = chars_of(text);
    let body = without_sign(&chars);
    spells_word(&body, &chars_of("inf")) || spells_word(&body, &chars_of("infinity"))
        || spells_word(&body, &chars_of("nan")) || digits_number(&body)
}

} // verus!
