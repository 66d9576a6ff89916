//! Which pages are handed to `html2text`: those on which it is known to return.
//!
//! Elsewhere it may panic or never end. A span of rows that reaches below its table makes
//! it look for a column that is not there; huge spans of columns, spans of none and the
//! first numbers of lists may overflow its counters. Where the width of a character
//! depends on its neighbours, it measures words and lines differently, and subtracts the
//! one from the other. In preformatted text it may fill a line of no width with spaces
//! forever. Templates, whose parts of tables stand in no table, are left out as well. The
//! test is on the safe side: it goes by the source of the page, with letters in any case.

use vstd::prelude::*;

use crate::text::{
    byte_len, chars_of, contains, find_from, is_white_space, lemma_contains, len_in_bytes,
    matches_at, occurs_at,
};

verus! {

/// The greatest number of bytes of a page that is rendered; text nodes count theirs in
/// 32 bits.
pub const MAX_PAGE_BYTES: usize = 268_435_456;

/// The greatest number that is read; it is above the code of any character.
pub const MAX_NUMBER: u64 = 999_999_999;

/// The greatest number of columns that a cell of a page that is rendered spans.
pub const MAX_COLSPAN: u64 = 99;

/// `c`, an ASCII letter made small.
pub open spec fn lower_char(c: char) -> char {
    if 'A' <= c <= 'Z' {
        (c as u8 + 32) as char
    } else {
        c
    }
}

/// `s` with its ASCII letters made small.
pub open spec fn lowered(s: Seq<char>) -> Seq<char> {
    Seq::new(s.len(), |i: int| lower_char(s[i]))
}

/// The character with that code may change the width of a character next to it: the
/// joiners of emoji and scripts, the letters that merge with one before or behind them,
/// the selectors of a presentation, and the modifiers of emoji.
pub open spec fn is_joining(code: int) -> bool {
    ||| code == 0x644
    ||| 0x6b5 <= code <= 0x6b8
    ||| code == 0x76a
    ||| code == 0x8a6
    ||| code == 0x8c7
    ||| code == 0x17d2
    ||| code == 0x200d
    ||| code == 0x2d7f
    ||| 0xa4f8 <= code <= 0xa4fb
    ||| code == 0xfe01
    ||| 0xfe0e <= code <= 0xfe0f
    ||| 0x16d63 <= code <= 0x16d69
    ||| 0x1f3fb <= code <= 0x1f3ff
}

/// Some character of `s` is a joining one.
pub open spec fn has_joining(s: Seq<char>) -> bool {
    exists|i: int| 0 <= i < s.len() && is_joining(#[trigger] s[i] as int)
}

/// The value of a small digit in that base.
pub open spec fn digit_value(c: char, base: int) -> Option<int> {
    if '0' <= c <= '9' {
        Some(c as int - '0' as int)
    } else if base == 16 && 'a' <= c <= 'f' {
        Some(c as int - 'a' as int + 10)
    } else {
        None
    }
}

/// The number whose digits go on at index `i`, behind digits of value `before`; digits
/// behind a number that is too great already do not count.
pub open spec fn number_at(s: Seq<char>, i: int, base: int, before: int) -> int
    decreases s.len() - i,
{
    if i < 0 || i >= s.len() || before > MAX_NUMBER {
        before
    } else {
        match digit_value(s[i], base) {
            Some(d) => number_at(s, i + 1, base, before * base + d),
            None => before,
        }
    }
}

/// The code of a numeric character reference whose number starts at index `i`.
pub open spec fn reference_code(s: Seq<char>, i: int) -> int {
    if 0 <= i < s.len() && s[i] == 'x' {
        number_at(s, i + 1, 16, 0)
    } else {
        number_at(s, i, 10, 0)
    }
}

/// A numeric character reference of `s` stands for a joining character.
pub open spec fn refers_to_joining(s: Seq<char>) -> bool {
    exists|i: int| #[trigger] occurs_at(s, "&#"@, i) && is_joining(reference_code(s, i + 2))
}

/// Where the equals sign stands that `s` has at index `i`, or behind white space there.
pub open spec fn equals_sign(s: Seq<char>, i: int) -> Option<int>
    decreases s.len() - i,
{
    if i < 0 || i >= s.len() {
        None
    } else if s[i] == '=' {
        Some(i)
    } else if is_white_space(s[i]) {
        equals_sign(s, i + 1)
    } else {
        None
    }
}

/// Where the white space and the quotes at index `i` end.
pub open spec fn value_start(s: Seq<char>, i: int) -> int
    decreases s.len() - i,
{
    if 0 <= i < s.len() && (is_white_space(s[i]) || s[i] == '"' || s[i] == '\'') {
        value_start(s, i + 1)
    } else {
        i
    }
}

/// Where the digits at index `i` end.
pub open spec fn digits_end(s: Seq<char>, i: int) -> int
    decreases s.len() - i,
{
    if 0 <= i < s.len() && '0' <= s[i] <= '9' {
        digits_end(s, i + 1)
    } else {
        i
    }
}

/// The value behind the equals sign before index `i` is no number, or one from `least` to
/// `greatest`, as far as its source shows: what a character reference adds to it is not
/// known, and no sign leads it.
pub open spec fn harmless_value(s: Seq<char>, i: int, least: int, greatest: int) -> bool {
    let start = value_start(s, i);
    if start >= s.len() {
        true
    } else if '0' <= s[start] <= '9' {
        let end = digits_end(s, start);
        &&& least <= number_at(s, start, 10, 0) <= greatest
        &&& !(end < s.len() && s[end] == '&')
    } else {
        s[start] != '+' && s[start] != '-' && s[start] != '&'
    }
}

/// At index `i` of `s` an attribute gets a value that is not harmless.
pub open spec fn gives_harm(s: Seq<char>, i: int, least: int, greatest: int) -> bool {
    match equals_sign(s, i) {
        Some(at) => !harmless_value(s, at + 1, least, greatest),
        None => false,
    }
}

/// `s` gives an attribute whose name ends in `name` a value that may be a number which is
/// not from `least` to `greatest`.
pub open spec fn has_harmful(s: Seq<char>, name: Seq<char>, least: int, greatest: int) -> bool {
    exists|i: int| #[trigger]
        occurs_at(s, name, i) && gives_harm(s, i + name.len(), least, greatest)
}

/// The page is one of those on which `html2text` returns.
pub open spec fn renderable(html: Seq<char>) -> bool {
    let page = lowered(html);
    &&& byte_len(html) <= MAX_PAGE_BYTES
    &&& !has_harmful(page, "rowspan"@, 0, 1)
    &&& !has_harmful(page, "colspan"@, 1, MAX_COLSPAN as int)
    &&& !has_harmful(page, "start"@, 0, MAX_NUMBER as int)
    &&& !contains(page, "<pre"@)
    &&& !contains(page, "<template"@)
    &&& !has_joining(page)
    &&& !contains(page, "&zwj;"@)
    &&& !refers_to_joining(page)
}

/// The characters of `s`, with its ASCII letters made small.
fn lower_chars(s: &str) -> (r: Vec<char>)
    ensures
        r@ == lowered(s@),
{
    let cs: Vec<char> = chars_of(s);
    let mut r: Vec<char> = Vec::new();
    let mut i: usize = 0;
    while i < cs.len()
        invariant
            i <= cs.len(),
            cs@ == s@,
            r@ == lowered(s@).take(i as int),
        decreases cs.len() - i,
    {
        let c: char = cs[i];
        let small: char = if 'A' <= c && c <= 'Z' {
            (c as u8 + 32) as char
        } else {
            c
        };
        proof {
            assert(lowered(s@).take(i + 1) =~= lowered(s@).take(i as int).push(small));
        }
        r.push(small);
        i = i + 1;
    }
    proof {
        assert(lowered(s@).take(i as int) =~= lowered(s@));
    }
    r
}

/// Whether the character with that code is a joining one.
fn joins(code: u64) -> (r: bool)
    ensures
        r == is_joining(code as int),
{
    code == 0x644 || (0x6b5 <= code && code <= 0x6b8) || code == 0x76a || code == 0x8a6 || code
        == 0x8c7 || code == 0x17d2 || code == 0x200d || code == 0x2d7f || (0xa4f8 <= code && code
        <= 0xa4fb) || code == 0xfe01 || (0xfe0e <= code && code <= 0xfe0f) || (0x16d63 <= code
        && code <= 0x16d69) || (0x1f3fb <= code && code <= 0x1f3ff)
}

/// The code of a character.
fn code_of(c: char) -> (r: u64)
    ensures
        r == c as int,
{
    c as u64
}

/// Whether some character of `s` is a joining one.
fn any_joins(s: &Vec<char>) -> (r: bool)
    ensures
        r == has_joining(s@),
{
    let mut i: usize = 0;
    while i < s.len()
        invariant
            i <= s.len(),
            forall|k: int| 0 <= k < i ==> !is_joining(#[trigger] s@[k] as int),
        decreases s.len() - i,
    {
        if joins(code_of(s[i])) {
            return true;
        }
        i = i + 1;
    }
    false
}

/// The value of a small digit in that base.
fn value_of_digit(c: char, base: u64) -> (r: Option<u64>)
    ensures
        match r {
            Some(d) => digit_value(c, base as int) == Some(d as int) && d < 16,
            None => digit_value(c, base as int) is None,
        },
{
    if '0' <= c && c <= '9' {
        Some(c as u64 - '0' as u64)
    } else if base == 16 && 'a' <= c && c <= 'f' {
        Some(c as u64 - 'a' as u64 + 10)
    } else {
        None
    }
}

/// The number whose digits start at index `from`.
fn number_from(s: &Vec<char>, from: usize, base: u64) -> (r: u64)
    requires
        base == 10 || base == 16,
    ensures
        r == number_at(s@, from as int, base as int, 0),
{
    let mut i: usize = from;
    let mut number: u64 = 0;
    while i < s.len() && number <= MAX_NUMBER
        invariant
            from <= i,
            base == 10 || base == 16,
            number <= 16 * MAX_NUMBER + 16,
            number_at(s@, from as int, base as int, 0) == number_at(
                s@,
                i as int,
                base as int,
                number as int,
            ),
        decreases s.len() - i,
    {
        match value_of_digit(s[i], base) {
            Some(d) => {
                number = if base == 16 {
                    number * 16 + d
                } else {
                    number * 10 + d
                };
            },
            None => {
                return number;
            },
        }
        i = i + 1;
    }
    number
}

/// Whether a numeric character reference of `s` stands for a joining character.
fn any_reference_joins(s: &Vec<char>) -> (r: bool)
    ensures
        r == refers_to_joining(s@),
{
    let mark: Vec<char> = chars_of("&#");
    proof {
        reveal_strlit("&#");
    }
    let mut i: usize = 0;
    while i < s.len() && mark.len() <= s.len() - i
        invariant
            i <= s.len(),
            mark@ == "&#"@,
            mark@.len() == 2,
            forall|k: int|
                0 <= k < i && #[trigger] occurs_at(s@, "&#"@, k) ==> !is_joining(
                    reference_code(s@, k + 2),
                ),
        decreases s.len() - i,
    {
        if matches_at(s, &mark, i) {
            let at: usize = i + 2;
            let code: u64 = if at < s.len() && s[at] == 'x' {
                number_from(s, at + 1, 16)
            } else {
                number_from(s, at, 10)
            };
            if joins(code) {
                proof {
                    assert(occurs_at(s@, "&#"@, i as int));
                }
                return true;
            }
        }
        i = i + 1;
    }
    false
}

/// Whether the value behind the equals sign before index `from` is harmless.
fn is_harmless(s: &Vec<char>, from: usize, least: u64, greatest: u64) -> (r: bool)
    ensures
        r == harmless_value(s@, from as int, least as int, greatest as int),
{
    let mut start: usize = from;
    while start < s.len() && (s[start].is_whitespace() || s[start] == '"' || s[start] == '\'')
        invariant
            from <= start,
            value_start(s@, from as int) == value_start(s@, start as int),
        decreases s.len() - start,
    {
        start = start + 1;
    }
    if start >= s.len() {
        return true;
    }
    let first: char = s[start];
    if '0' <= first && first <= '9' {
        let mut end: usize = start;
        while end < s.len() && '0' <= s[end] && s[end] <= '9'
            invariant
                start <= end,
                digits_end(s@, start as int) == digits_end(s@, end as int),
            decreases s.len() - end,
        {
            end = end + 1;
        }
        let number: u64 = number_from(s, start, 10);
        return least <= number && number <= greatest && !(end < s.len() && s[end] == '&');
    }
    first != '+' && first != '-' && first != '&'
}

/// Whether at index `from` of `s` an attribute gets a value that is not harmless.
fn harms(s: &Vec<char>, from: usize, least: u64, greatest: u64) -> (r: bool)
    ensures
        r == gives_harm(s@, from as int, least as int, greatest as int),
{
    let mut i: usize = from;
    while i < s.len() && s[i].is_whitespace()
        invariant
            from <= i,
            equals_sign(s@, from as int) == equals_sign(s@, i as int),
        decreases s.len() - i,
    {
        i = i + 1;
    }
    i < s.len() && s[i] == '=' && !is_harmless(s, i + 1, least, greatest)
}

/// Whether `s` gives an attribute whose name ends in `name` a value that is not harmless.
fn any_harmful(s: &Vec<char>, name: &str, least: u64, greatest: u64) -> (r: bool)
    ensures
        r == has_harmful(s@, name@, least as int, greatest as int),
{
    let n: Vec<char> = chars_of(name);
    let mut i: usize = 0;
    while i < s.len() && n.len() <= s.len() - i
        invariant
            i <= s.len(),
            n@ == name@,
            forall|k: int|
                0 <= k < i && #[trigger] occurs_at(s@, name@, k) ==> !gives_harm(
                    s@,
                    k + name@.len(),
                    least as int,
                    greatest as int,
                ),
        decreases s.len() - i,
    {
        if matches_at(s, &n, i) && harms(s, i + n.len(), least, greatest) {
            proof {
                assert(occurs_at(s@, name@, i as int));
            }
            return true;
        }
        i = i + 1;
    }
    false
}

/// Whether `pattern` stands in `s`.
fn holds(s: &Vec<char>, pattern: &str) -> (r: bool)
    ensures
        r == contains(s@, pattern@),
{
    proof {
        lemma_contains(s@, pattern@);
    }
    find_from(s, &chars_of(pattern), 0).is_some()
}

/// Whether the page is one of those on which `html2text` returns.
pub fn is_renderable(html: &str) -> (r: bool)
    ensures
        r == renderable(html@),
{
    let page: Vec<char> = lower_chars(html);
    len_in_bytes(html) <= MAX_PAGE_BYTES && !any_harmful(&page, "rowspan", 0, 1) && !any_harmful(
        &page,
        "colspan",
        1,
        MAX_COLSPAN,
    ) && !any_harmful(&page, "start", 0, MAX_NUMBER) && !holds(&page, "<pre") && !holds(
        &page,
        "<template",
    ) && !any_joins(&page) && !holds(&page, "&zwj;") && !any_reference_joins(&page)
}

} // verus!
