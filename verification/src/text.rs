//! Text: searching, trimming, splitting, numbers and byte limits.

use vstd::prelude::*;

verus! {

/// `String::push` appends one character to the string.
pub assume_specification[ String::push ](s: &mut String, c: char)
    ensures
        final(s)@ == old(s)@.push(c),
;

/// The characters with the Unicode property `White_Space`.
pub open spec fn is_white_space(c: char) -> bool {
    ||| '\u{9}' <= c <= '\u{d}'
    ||| c == ' '
    ||| c == '\u{85}'
    ||| c == '\u{a0}'
    ||| c == '\u{1680}'
    ||| '\u{2000}' <= c <= '\u{200a}'
    ||| c == '\u{2028}'
    ||| c == '\u{2029}'
    ||| c == '\u{202f}'
    ||| c == '\u{205f}'
    ||| c == '\u{3000}'
}

/// `char::is_whitespace` tells whether the character has the Unicode property
/// `White_Space`, that is, whether it is one of those that `is_white_space` lists.
pub assume_specification[ char::is_whitespace ](c: char) -> (r: bool)
    ensures
        r == is_white_space(c),
;

/// The characters of `s`.
pub fn chars_of(s: &str) -> (r: Vec<char>)
    ensures
        r@ == s@,
{
    let mut r: Vec<char> = Vec::new();
    for c in it: s.chars()
        invariant
            it.seq() == s@,
            r@ == s@.take(it.index() as int),
    {
        proof {
            assert(s@.take(it.index() + 1) =~= s@.take(it.index() as int).push(c));
        }
        r.push(c);
    }
    assert(s@.take(s@.len() as int) =~= s@);
    r
}

/// Whether two texts are the same.
pub fn same_text(a: &str, b: &str) -> (r: bool)
    ensures
        r == (a@ == b@),
{
    let left: String = a.to_string();
    let right: String = b.to_string();
    left == right
}

/// `pattern` stands in `s` at index `i`.
pub open spec fn occurs_at(s: Seq<char>, pattern: Seq<char>, i: int) -> bool {
    0 <= i && i + pattern.len() <= s.len() && s.subrange(i, i + pattern.len()) == pattern
}

/// `pattern` stands somewhere in `s`.
pub open spec fn contains(s: Seq<char>, pattern: Seq<char>) -> bool {
    exists|i: int| occurs_at(s, pattern, i)
}

/// The least index, not below `from`, at which `pattern` stands in `s`.
pub open spec fn first_index(s: Seq<char>, pattern: Seq<char>, from: int) -> Option<int>
    decreases s.len() + 1 - from,
{
    if from < 0 || from + pattern.len() > s.len() {
        None
    } else if occurs_at(s, pattern, from) {
        Some(from)
    } else {
        first_index(s, pattern, from + 1)
    }
}

/// `first_index` finds an occurrence, no earlier one exists, and it finds none
/// only where there is none.
pub proof fn lemma_first_index(s: Seq<char>, pattern: Seq<char>, from: int)
    requires
        0 <= from,
    ensures
        match first_index(s, pattern, from) {
            Some(i) => from <= i && occurs_at(s, pattern, i) && forall|j: int|
                from <= j < i ==> !occurs_at(s, pattern, j),
            None => forall|j: int| from <= j ==> !occurs_at(s, pattern, j),
        },
    decreases s.len() + 1 - from,
{
    if from + pattern.len() <= s.len() && !occurs_at(s, pattern, from) {
        lemma_first_index(s, pattern, from + 1);
    }
}

/// A pattern occurs in `s` exactly where `first_index` finds it from the start.
pub proof fn lemma_contains(s: Seq<char>, pattern: Seq<char>)
    ensures
        contains(s, pattern) == (first_index(s, pattern, 0) is Some),
{
    lemma_first_index(s, pattern, 0);
}

/// Whether `needle` stands in `hay` at index `at`.
pub fn matches_at(hay: &Vec<char>, needle: &Vec<char>, at: usize) -> (r: bool)
    requires
        at + needle@.len() <= hay@.len(),
    ensures
        r == occurs_at(hay@, needle@, at as int),
{
    let mut k: usize = 0;
    while k < needle.len()
        invariant
            k <= needle@.len(),
            at + needle.len() <= hay.len(),
            forall|j: int| 0 <= j < k ==> hay@[at + j] == needle@[j],
        decreases needle@.len() - k,
    {
        if hay[at + k] != needle[k] {
            proof {
                assert(hay@.subrange(at as int, at + needle@.len())[k as int] != needle@[k as int]);
            }
            return false;
        }
        k = k + 1;
    }
    assert(hay@.subrange(at as int, at + needle@.len()) =~= needle@);
    true
}

/// The first occurrence of `needle` in `hay` at or after `from`.
pub fn find_from(hay: &Vec<char>, needle: &Vec<char>, from: usize) -> (r: Option<usize>)
    ensures
        match r {
            Some(i) => first_index(hay@, needle@, from as int) == Some(i as int),
            None => first_index(hay@, needle@, from as int) is None,
        },
{
    if needle.len() > hay.len() {
        return None;
    }
    let last: usize = hay.len() - needle.len();
    let mut i: usize = from;
    while i <= last
        invariant
            last + needle@.len() == hay@.len(),
            from <= i,
            first_index(hay@, needle@, from as int) == first_index(hay@, needle@, i as int),
        decreases last + 1 - i,
    {
        if matches_at(hay, needle, i) {
            return Some(i);
        }
        if i == last {
            assert(first_index(hay@, needle@, i + 1) is None);
            return None;
        }
        i = i + 1;
    }
    None
}

/// Whether `needle` occurs in `hay`.
pub fn contains_str(hay: &str, needle: &str) -> (r: bool)
    ensures
        r == contains(hay@, needle@),
{
    proof {
        lemma_contains(hay@, needle@);
    }
    let h: Vec<char> = chars_of(hay);
    let n: Vec<char> = chars_of(needle);
    find_from(&h, &n, 0).is_some()
}

/// Whether `s` starts with `prefix`.
pub fn starts_with_str(s: &str, prefix: &str) -> (r: bool)
    ensures
        r == prefix@.is_prefix_of(s@),
{
    let h: Vec<char> = chars_of(s);
    let n: Vec<char> = chars_of(prefix);
    if n.len() > h.len() {
        return false;
    }
    let r: bool = matches_at(&h, &n, 0);
    proof {
        if r {
            assert(prefix@ =~= s@.subrange(0, prefix@.len() as int));
        }
    }
    r
}

/// `s` without its leading white space.
pub open spec fn trim_start(s: Seq<char>) -> Seq<char>
    decreases s.len(),
{
    if s.len() > 0 && is_white_space(s[0]) {
        trim_start(s.drop_first())
    } else {
        s
    }
}

/// `s` without its trailing white space.
pub open spec fn trim_end(s: Seq<char>) -> Seq<char>
    decreases s.len(),
{
    if s.len() > 0 && is_white_space(s.last()) {
        trim_end(s.drop_last())
    } else {
        s
    }
}

/// `s` without its leading and trailing white space.
pub open spec fn trimmed(s: Seq<char>) -> Seq<char> {
    trim_end(trim_start(s))
}

/// The part of `s` between its leading and its trailing white space.
pub fn trim(s: &str) -> (r: &str)
    ensures
        r@ == trimmed(s@),
{
    let cs: Vec<char> = chars_of(s);
    let n: usize = cs.len();
    let mut i: usize = 0;
    assert(s@.subrange(0, n as int) =~= s@);
    while i < n && cs[i].is_whitespace()
        invariant
            i <= n,
            n == cs@.len(),
            cs@ == s@,
            trim_start(s@) == trim_start(s@.subrange(i as int, n as int)),
        decreases n - i,
    {
        proof {
            assert(s@.subrange(i as int, n as int).drop_first() =~= s@.subrange(i + 1, n as int));
        }
        i = i + 1;
    }
    let mut j: usize = n;
    while j > i && cs[j - 1].is_whitespace()
        invariant
            i <= j <= n,
            n == cs@.len(),
            cs@ == s@,
            trimmed(s@) == trim_end(s@.subrange(i as int, j as int)),
        decreases j,
    {
        proof {
            assert(s@.subrange(i as int, j as int).drop_last() =~= s@.subrange(i as int, j - 1));
        }
        j = j - 1;
    }
    s.substring_char(i, j)
}

/// The decimal digit with value `d`.
pub open spec fn digit(d: int) -> char {
    ('0' as u32 + d) as char
}

/// `n` in decimal.
pub open spec fn decimal(n: nat) -> Seq<char>
    decreases n,
{
    if n < 10 {
        seq![digit(n as int)]
    } else {
        decimal(n / 10).push(digit((n % 10) as int))
    }
}

/// `n` in decimal.
pub fn decimal_string(n: u64) -> (r: String)
    ensures
        r@ == decimal(n as nat),
    decreases n,
{
    let d: u8 = (n % 10) as u8;
    let c: char = (48 + d) as char;
    let mut r: String = if n < 10 {
        String::new()
    } else {
        decimal_string(n / 10)
    };
    r.push(c);
    r
}

/// The number of bytes that `s` takes in UTF-8.
pub open spec fn byte_len(s: Seq<char>) -> nat {
    vstd::utf8::encode_utf8(s).len()
}

/// The number of bytes that `c` takes in UTF-8.
pub open spec fn char_width(c: char) -> nat {
    if c <= '\u{7f}' {
        1
    } else if c <= '\u{7ff}' {
        2
    } else if c <= '\u{ffff}' {
        3
    } else {
        4
    }
}

/// How many leading characters of `s` fit into `limit` bytes.
pub open spec fn fit(s: Seq<char>, limit: int) -> nat
    decreases s.len(),
{
    if s.len() == 0 || char_width(s[0]) > limit {
        0
    } else {
        1 + fit(s.drop_first(), limit - char_width(s[0]))
    }
}

/// The longest prefix of `s` that takes at most `limit` bytes.
pub open spec fn clipped(s: Seq<char>, limit: int) -> Seq<char> {
    s.take(fit(s, limit) as int)
}

proof fn lemma_char_width(c: char)
    ensures
        vstd::utf8::encode_scalar(c as u32).len() == char_width(c),
{
    assert(c as u32 <= 0x10ffff);
    assert(c as u32 == c as int);
}

/// The length of a text is the width of its first character and the length of the rest.
pub proof fn lemma_byte_len_first(s: Seq<char>)
    requires
        s.len() > 0,
    ensures
        byte_len(s) == char_width(s[0]) + byte_len(s.drop_first()),
{
    lemma_char_width(s[0]);
}

/// Lengths in bytes add up over concatenation.
pub proof fn lemma_byte_len_concat(a: Seq<char>, b: Seq<char>)
    ensures
        byte_len(a + b) == byte_len(a) + byte_len(b),
    decreases a.len(),
{
    if a.len() == 0 {
        assert(a + b =~= b);
    } else {
        assert((a + b).drop_first() =~= a.drop_first() + b);
        lemma_byte_len_concat(a.drop_first(), b);
        lemma_byte_len_first(a + b);
        lemma_byte_len_first(a);
    }
}

/// What `clipped` keeps: a prefix within the limit, which is the whole text where
/// that fits, and to which not even the next character could be added where it does not.
pub proof fn lemma_clipped(s: Seq<char>, limit: int)
    requires
        0 <= limit,
    ensures
        fit(s, limit) <= s.len(),
        clipped(s, limit).is_prefix_of(s),
        byte_len(clipped(s, limit)) <= limit,
        byte_len(s) <= limit ==> clipped(s, limit) == s,
        fit(s, limit) < s.len() ==> byte_len(s.take(fit(s, limit) as int + 1)) > limit,
        fit(s, limit) < s.len() ==> byte_len(s) > limit,
    decreases s.len(),
{
    if s.len() == 0 {
        assert(clipped(s, limit) =~= s);
    } else {
        lemma_byte_len_first(s);
        let n = fit(s, limit) as int;
        if char_width(s[0]) > limit {
            assert(s.take(0) =~= Seq::<char>::empty());
            assert(byte_len(s.take(0)) == 0);
            let one = s.take(1);
            lemma_byte_len_first(one);
            assert(one[0] == s[0]);
        } else {
            let rest = s.drop_first();
            lemma_clipped(rest, limit - char_width(s[0]));
            let m = fit(rest, limit - char_width(s[0])) as int;
            assert(s.take(n).drop_first() =~= rest.take(m));
            lemma_byte_len_first(s.take(n));
            if m < rest.len() {
                assert(s.take(n + 1).drop_first() =~= rest.take(m + 1));
                lemma_byte_len_first(s.take(n + 1));
            } else {
                assert(s.take(n) =~= s);
            }
        }
    }
}

/// The number of bytes that `s` takes.
pub fn len_in_bytes(s: &str) -> (r: usize)
    ensures
        r == byte_len(s@),
{
    s.as_bytes().len()
}

/// The width of `c` in bytes.
fn width_of(c: char) -> (r: usize)
    ensures
        r == char_width(c),
{
    if c <= '\u{7f}' {
        1
    } else if c <= '\u{7ff}' {
        2
    } else if c <= '\u{ffff}' {
        3
    } else {
        4
    }
}

/// The longest prefix of `s` that takes at most `limit` bytes.
pub fn clip(s: &str, limit: usize) -> (r: &str)
    ensures
        r@ == clipped(s@, limit as int),
{
    let cs: Vec<char> = chars_of(s);
    let mut n: usize = 0;
    let mut left: usize = limit;
    assert(s@.skip(0) =~= s@);
    while n < cs.len() && width_of(cs[n]) <= left
        invariant
            n <= cs.len(),
            cs@ == s@,
            fit(s@, limit as int) == n + fit(s@.skip(n as int), left as int),
        decreases cs.len() - n,
    {
        proof {
            assert(s@.skip(n as int).drop_first() =~= s@.skip(n + 1));
        }
        left = left - width_of(cs[n]);
        n = n + 1;
    }
    s.substring_char(0, n)
}

/// How many leading characters of `s` are not white space.
pub open spec fn word_len(s: Seq<char>) -> nat
    decreases s.len(),
{
    if s.len() == 0 || is_white_space(s[0]) {
        0
    } else {
        1 + word_len(s.drop_first())
    }
}

/// The words of `s`: its maximal runs of characters that are not white space.
pub open spec fn words(s: Seq<char>) -> Seq<Seq<char>>
    decreases s.len(),
{
    if s.len() == 0 {
        Seq::empty()
    } else if is_white_space(s[0]) {
        words(s.drop_first())
    } else if word_len(s) <= s.len() {
        seq![s.take(word_len(s) as int)] + words(s.skip(word_len(s) as int))
    } else {
        Seq::empty()
    }
}

proof fn lemma_word_len(s: Seq<char>)
    ensures
        word_len(s) <= s.len(),
    decreases s.len(),
{
    if s.len() > 0 && !is_white_space(s[0]) {
        lemma_word_len(s.drop_first());
    }
}

/// The texts of a sequence of strings.
pub open spec fn texts(v: Seq<String>) -> Seq<Seq<char>> {
    v.map_values(|s: String| s@)
}

/// The words of `s`, in order.
pub fn split_words(s: &str) -> (r: Vec<String>)
    ensures
        texts(r@) == words(s@),
{
    let cs: Vec<char> = chars_of(s);
    let mut r: Vec<String> = Vec::new();
    let mut i: usize = 0;
    assert(s@.skip(0) =~= s@);
    assert(texts(r@) + words(s@) =~= words(s@));
    while i < cs.len()
        invariant
            i <= cs.len(),
            cs@ == s@,
            texts(r@) + words(s@.skip(i as int)) == words(s@),
        decreases cs.len() - i,
    {
        if cs[i].is_whitespace() {
            proof {
                assert(s@.skip(i as int).drop_first() =~= s@.skip(i + 1));
            }
            i = i + 1;
        } else {
            let mut j: usize = i;
            let ghost rest = s@.skip(i as int);
            proof {
                lemma_word_len(rest);
                assert(rest.skip(0) =~= rest);
            }
            while j < cs.len() && !cs[j].is_whitespace()
                invariant
                    i <= j <= cs.len(),
                    cs@ == s@,
                    rest == s@.skip(i as int),
                    word_len(rest) == (j - i) + word_len(rest.skip(j - i)),
                decreases cs.len() - j,
            {
                proof {
                    assert(rest.skip(j - i).drop_first() =~= rest.skip(j + 1 - i));
                }
                j = j + 1;
            }
            let word: String = s.substring_char(i, j).to_string();
            proof {
                assert(rest.take(j - i) =~= s@.subrange(i as int, j as int));
                assert(rest.skip(j - i) =~= s@.skip(j as int));
                assert(texts(r@.push(word)) =~= texts(r@).push(word@));
                assert(texts(r@).push(word@) + words(s@.skip(j as int)) =~= texts(r@) + (
                seq![word@] + words(s@.skip(j as int))));
            }
            r.push(word);
            i = j;
        }
    }
    assert(words(s@.skip(cs@.len() as int)) =~= Seq::<Seq<char>>::empty());
    assert(texts(r@) + words(s@.skip(cs@.len() as int)) =~= texts(r@));
    r
}

} // verus!
