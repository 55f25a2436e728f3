//! The syntax of IP addresses in text.
//!
//! An IPv4 address is four decimal numbers from 0 to 255, without leading
//! zeros, joined by dots. An IPv6 address is eight groups of one to four
//! hexadecimal digits joined by colons, of which the last two may be written as
//! an IPv4 address; one run of groups that are zero may be left out and
//! written `::`.

use vstd::prelude::*;
use crate::text::{chars_between, chars_of, fields, lemma_fields_len, split_fields, texts_of};

verus! {

/// Whether `c` is one of the digits `0` to `9`.
pub open spec fn is_decimal_digit(c: char) -> bool {
    '0' <= c <= '9'
}

/// Whether `c` is a hexadecimal digit, in either case.
pub open spec fn is_hex_digit(c: char) -> bool {
    is_decimal_digit(c) || 'a' <= c <= 'f' || 'A' <= c <= 'F'
}

/// The number that the decimal digits `s` write.
pub open spec fn decimal_value(s: Seq<char>) -> nat
    decreases s.len(),
{
    if s.len() == 0 {
        0
    } else {
        (10 * decimal_value(s.drop_last()) + (s.last() as nat - '0' as nat)) as nat
    }
}

/// Whether `s` writes one number of an IPv4 address: one to three decimal
/// digits, no zero in front of another digit, at most 255.
pub open spec fn is_octet(s: Seq<char>) -> bool {
    &&& 1 <= s.len() <= 3
    &&& forall|i: int| 0 <= i < s.len() ==> is_decimal_digit(#[trigger] s[i])
    &&& s.len() > 1 ==> s[0] != '0'
    &&& decimal_value(s) <= 255
}

/// Whether `s` writes one group of an IPv6 address: one to four hexadecimal
/// digits.
pub open spec fn is_hex_group(s: Seq<char>) -> bool {
    &&& 1 <= s.len() <= 4
    &&& forall|i: int| 0 <= i < s.len() ==> is_hex_digit(#[trigger] s[i])
}

/// Whether `s` is an IPv4 address: four numbers joined by dots.
pub open spec fn ipv4_syntax(s: Seq<char>) -> bool {
    let numbers = fields(s, '.');
    &&& numbers.len() == 4
    &&& forall|i: int| 0 <= i < 4 ==> is_octet(#[trigger] numbers[i])
}

/// How many 16-bit groups the colon-joined list `s` writes, or `None` where
/// `s` is no such list. The empty text writes no group. Every field is a
/// hexadecimal group, but where `dotted_tail` holds the last field may be an
/// IPv4 address instead, which counts for two.
pub open spec fn group_count(s: Seq<char>, dotted_tail: bool) -> Option<nat> {
    let groups = fields(s, ':');
    if s.len() == 0 {
        Some(0)
    } else if forall|i: int| 0 <= i < groups.len() ==> is_hex_group(#[trigger] groups[i]) {
        Some(groups.len())
    } else if dotted_tail && ipv4_syntax(groups.last()) && forall|i: int|
        0 <= i < groups.len() - 1 ==> is_hex_group(#[trigger] groups[i]) {
        Some(groups.len() + 1)
    } else {
        None
    }
}

/// Whether two colons stand at `k` and `k + 1` in `s`.
pub open spec fn has_double_colon_at(s: Seq<char>, k: int) -> bool {
    0 <= k && k + 1 < s.len() && s[k] == ':' && s[k + 1] == ':'
}

/// Where the first `::` of `s` stands, where it has one.
pub open spec fn first_double_colon(s: Seq<char>) -> int {
    choose|k: int|
        has_double_colon_at(s, k) && forall|j: int| has_double_colon_at(s, j) ==> k <= j
}

/// Whether `s` is an IPv6 address. Without `::` it writes eight groups. With
/// `::`, what stands before the first one and what stands after it write at
/// most seven groups together, and only the part after it may end in an IPv4
/// address.
pub open spec fn ipv6_syntax(s: Seq<char>) -> bool {
    if exists|k: int| has_double_colon_at(s, k) {
        let k = first_double_colon(s);
        match (group_count(s.take(k), false), group_count(s.skip(k + 2), true)) {
            (Some(head), Some(tail)) => head + tail <= 7,
            _ => false,
        }
    } else {
        group_count(s, true) == Some(8nat)
    }
}

/// Whether `s` is an IP address of either kind.
pub open spec fn address_syntax(s: Seq<char>) -> bool {
    ipv4_syntax(s) || ipv6_syntax(s)
}

fn decimal_digit(c: char) -> (ok: bool)
    ensures
        ok == is_decimal_digit(c),
{
    '0' <= c && c <= '9'
}

fn hex_digit(c: char) -> (ok: bool)
    ensures
        ok == is_hex_digit(c),
{
    ('0' <= c && c <= '9') || ('a' <= c && c <= 'f') || ('A' <= c && c <= 'F')
}

fn octet(field: &Vec<char>) -> (ok: bool)
    ensures
        ok == is_octet(field@),
{
    let n = field.len();
    if n < 1 || n > 3 {
        return false;
    }
    let mut value: u32 = 0;
    let mut i: usize = 0;
    while i < n
        invariant
            i <= n <= 3,
            n == field.len(),
            forall|k: int| 0 <= k < i ==> is_decimal_digit(#[trigger] field@[k]),
            value == decimal_value(field@.take(i as int)),
            value <= 999,
            i <= 2 ==> value <= 99,
            i <= 1 ==> value <= 9,
            i == 0 ==> value == 0,
        decreases n - i,
    {
        let c = field[i];
        if !decimal_digit(c) {
            return false;
        }
        proof {
            assert(field@.take(i + 1).drop_last() =~= field@.take(i as int));
        }
        value = value * 10 + (c as u32 - '0' as u32);
        i = i + 1;
    }
    proof {
        assert(field@.take(n as int) =~= field@);
    }
    if n > 1 && field[0] == '0' {
        return false;
    }
    value <= 255
}

fn hex_group(field: &Vec<char>) -> (ok: bool)
    ensures
        ok == is_hex_group(field@),
{
    let n = field.len();
    if n < 1 || n > 4 {
        return false;
    }
    let mut i: usize = 0;
    while i < n
        invariant
            i <= n,
            n == field.len(),
            forall|k: int| 0 <= k < i ==> is_hex_digit(#[trigger] field@[k]),
        decreases n - i,
    {
        if !hex_digit(field[i]) {
            return false;
        }
        i = i + 1;
    }
    true
}

fn ipv4(chars: &Vec<char>) -> (ok: bool)
    ensures
        ok == ipv4_syntax(chars@),
{
    let numbers = split_fields(chars, '.');
    if numbers.len() != 4 {
        return false;
    }
    let mut i: usize = 0;
    while i < 4
        invariant
            i <= 4,
            numbers.len() == 4,
            texts_of(numbers@) == fields(chars@, '.'),
            forall|k: int| 0 <= k < i ==> is_octet(#[trigger] fields(chars@, '.')[k]),
        decreases 4 - i,
    {
        assert(texts_of(numbers@)[i as int] == numbers[i as int]@);
        if !octet(&numbers[i]) {
            return false;
        }
        i = i + 1;
    }
    true
}

/// The number of groups that `chars` writes, where it writes at most eight.
fn count_groups(chars: &Vec<char>, dotted_tail: bool) -> (count: Option<usize>)
    ensures
        match count {
            Some(n) => n <= 8 && group_count(chars@, dotted_tail) == Some(n as nat),
            None => group_count(chars@, dotted_tail) matches Some(n) ==> n > 8,
        },
{
    if chars.len() == 0 {
        return Some(0);
    }
    let groups = split_fields(chars, ':');
    let n = groups.len();
    proof {
        lemma_fields_len(chars@, ':');
    }
    if n > 8 {
        return None;
    }
    let ghost texts = fields(chars@, ':');
    let mut i: usize = 0;
    while i + 1 < n
        invariant
            i + 1 <= n <= 8,
            n == groups.len(),
            texts == fields(chars@, ':'),
            texts_of(groups@) == texts,
            forall|k: int| 0 <= k < i ==> is_hex_group(#[trigger] texts[k]),
        decreases n - i,
    {
        assert(texts[i as int] == groups[i as int]@);
        if !hex_group(&groups[i]) {
            assert(texts.len() == n);
            return None;
        }
        i = i + 1;
    }
    assert(texts.last() == groups[n - 1]@);
    if hex_group(&groups[n - 1]) {
        Some(n)
    } else if dotted_tail && n < 8 && ipv4(&groups[n - 1]) {
        Some(n + 1)
    } else {
        None
    }
}

fn ipv6(chars: &Vec<char>) -> (ok: bool)
    ensures
        ok == ipv6_syntax(chars@),
{
    let n = chars.len();
    let mut k: usize = 0;
    while n - k > 1 && !(chars[k] == ':' && chars[k + 1] == ':')
        invariant
            k <= n,
            n == chars.len(),
            forall|j: int| 0 <= j < k ==> !has_double_colon_at(chars@, j),
        decreases n - k,
    {
        k = k + 1;
    }
    if n - k > 1 {
        proof {
            assert(has_double_colon_at(chars@, k as int));
        }
        let head = chars_between(chars, 0, k);
        let tail = chars_between(chars, k + 2, n);
        match (count_groups(&head, false), count_groups(&tail, true)) {
            (Some(h), Some(t)) => h + t <= 7,
            _ => false,
        }
    } else {
        match count_groups(chars, true) {
            Some(count) => count == 8,
            None => false,
        }
    }
}

/// Whether `text` is an IPv4 address.
pub fn is_ipv4(text: &str) -> (ok: bool)
    ensures
        ok == ipv4_syntax(text@),
{
    let chars = chars_of(text);
    ipv4(&chars)
}

/// Whether `text` is an IPv6 address.
pub fn is_ipv6(text: &str) -> (ok: bool)
    ensures
        ok == ipv6_syntax(text@),
{
    let chars = chars_of(text);
    ipv6(&chars)
}

/// Whether `text` is an IP address of either kind.
pub fn is_address(text: &str) -> (ok: bool)
    ensures
        ok == address_syntax(text@),
{
    let chars = chars_of(text);
    ipv4(&chars) || ipv6(&chars)
}

} // verus!
