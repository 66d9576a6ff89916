//! Laws of searching, trimming, splitting, numbers and byte limits.

use vstd::prelude::*;

use crate::text::{
    byte_len, char_width, clipped, contains, decimal, fit, is_white_space, lemma_byte_len_concat,
    lemma_byte_len_first, lemma_clipped, occurs_at, texts, trim_end, trim_start, trimmed, word_len,
    words,
};

verus! {

/// Each character of `s` is white space.
pub open spec fn all_white(s: Seq<char>) -> bool {
    forall|i: int| 0 <= i < s.len() ==> is_white_space(#[trigger] s[i])
}

/// No character of `s` is white space.
pub open spec fn none_white(s: Seq<char>) -> bool {
    forall|i: int| 0 <= i < s.len() ==> !is_white_space(#[trigger] s[i])
}

/// `s` is empty, or neither starts nor ends with white space.
pub open spec fn tight(s: Seq<char>) -> bool {
    s.len() > 0 ==> !is_white_space(s[0]) && !is_white_space(s[s.len() - 1])
}

/// A pattern stands where each of its characters does.
pub proof fn law_occurs_at(s: Seq<char>, pattern: Seq<char>, i: int)
    ensures
        occurs_at(s, pattern, i) == (0 <= i && i + pattern.len() <= s.len() && forall|j: int|
            0 <= j < pattern.len() ==> s[i + j] == #[trigger] pattern[j]),
{
    if 0 <= i && i + pattern.len() <= s.len() {
        let part = s.subrange(i, i + pattern.len());
        if part == pattern {
            assert forall|j: int| 0 <= j < pattern.len() implies s[i + j] == #[trigger] pattern[j] by {
                assert(part[j] == s[i + j]);
            }
        }
        if forall|j: int| 0 <= j < pattern.len() ==> s[i + j] == #[trigger] pattern[j] {
            assert(part =~= pattern);
        }
    }
}

/// A text contains each pattern that is written into it, whatever stands around it.
pub proof fn law_contains_what_is_written(before: Seq<char>, pattern: Seq<char>, after: Seq<char>)
    ensures
        contains(before + pattern + after, pattern),
{
    let s = before + pattern + after;
    assert(s.subrange(before.len() as int, (before.len() + pattern.len()) as int) =~= pattern);
    assert(occurs_at(s, pattern, before.len() as int));
}

/// A text that contains a pattern is that pattern with something before and behind it.
pub proof fn law_contains_splits(s: Seq<char>, pattern: Seq<char>)
    requires
        contains(s, pattern),
    ensures
        exists|before: Seq<char>, after: Seq<char>| s == #[trigger] ((before + pattern) + after),
{
    let i = choose|i: int| occurs_at(s, pattern, i);
    let before = s.take(i);
    let after = s.skip(i + pattern.len());
    assert(s =~= before + s.subrange(i, i + pattern.len()) + after);
    assert(s == (before + pattern) + after);
}

proof fn lemma_trim_start(white: Seq<char>, s: Seq<char>)
    requires
        all_white(white),
        s.len() > 0 ==> !is_white_space(s[0]),
    ensures
        trim_start(white + s) == s,
    decreases white.len(),
{
    if white.len() == 0 {
        assert(white + s =~= s);
    } else {
        assert(is_white_space(white[0]));
        assert((white + s).drop_first() =~= white.drop_first() + s);
        assert forall|i: int| 0 <= i < white.drop_first().len() implies is_white_space(
            #[trigger] white.drop_first()[i],
        ) by {
            assert(white.drop_first()[i] == white[i + 1]);
        }
        lemma_trim_start(white.drop_first(), s);
    }
}

proof fn lemma_trim_end(s: Seq<char>, white: Seq<char>)
    requires
        all_white(white),
        s.len() > 0 ==> !is_white_space(s[s.len() - 1]),
    ensures
        trim_end(s + white) == s,
    decreases white.len(),
{
    if white.len() == 0 {
        assert(s + white =~= s);
    } else {
        assert(is_white_space(white[white.len() - 1]));
        assert((s + white).drop_last() =~= s + white.drop_last());
        assert forall|i: int| 0 <= i < white.drop_last().len() implies is_white_space(
            #[trigger] white.drop_last()[i],
        ) by {
            assert(white.drop_last()[i] == white[i]);
        }
        lemma_trim_end(s, white.drop_last());
    }
}

/// Trimming takes white space off both ends, and nothing else off any text.
pub proof fn law_trimmed(before: Seq<char>, core: Seq<char>, after: Seq<char>)
    requires
        all_white(before),
        all_white(after),
        tight(core),
    ensures
        trimmed(before + core + after) == core,
{
    if core.len() == 0 {
        let white = before + after;
        assert(before + core + after =~= white + core);
        assert forall|i: int| 0 <= i < white.len() implies is_white_space(#[trigger] white[i]) by {
            if i < before.len() {
                assert(white[i] == before[i]);
            } else {
                assert(white[i] == after[i - before.len()]);
            }
        }
        lemma_trim_start(white, core);
    } else {
        assert(before + core + after =~= before + (core + after));
        lemma_trim_start(before, core + after);
        lemma_trim_end(core, after);
    }
}

/// Every text is white space, a part that is tight, and white space.
pub proof fn law_text_splits(s: Seq<char>)
    ensures
        exists|i: int, j: int|
            {
                &&& 0 <= i <= j <= s.len()
                &&& all_white(s.take(i))
                &&& all_white(s.skip(j))
                &&& tight(#[trigger] s.subrange(i, j))
                &&& trimmed(s) == s.subrange(i, j)
            },
{
    let i = lemma_white_front(s);
    let rest = s.skip(i);
    let j = i + lemma_white_back(rest);
    let core = s.subrange(i, j);
    assert(rest.take(j - i) =~= core);
    assert(rest.skip(j - i) =~= s.skip(j));
    if core.len() > 0 {
        assert(core[0] == s[i]);
        assert(core[core.len() - 1] == rest[j - i - 1]);
    }
    law_trimmed(s.take(i), core, s.skip(j));
    assert(s.take(i) + core + s.skip(j) =~= s);
}

proof fn lemma_white_front(s: Seq<char>) -> (n: int)
    ensures
        0 <= n <= s.len(),
        all_white(s.take(n)),
        n < s.len() ==> !is_white_space(s[n]),
    decreases s.len(),
{
    if s.len() > 0 && is_white_space(s[0]) {
        let m = lemma_white_front(s.drop_first());
        assert forall|i: int| 0 <= i < m + 1 implies is_white_space(#[trigger] s.take(m + 1)[i]) by {
            if i > 0 {
                assert(s.drop_first().take(m)[i - 1] == s[i]);
            }
        }
        m + 1
    } else {
        0
    }
}

proof fn lemma_white_back(s: Seq<char>) -> (n: int)
    ensures
        0 <= n <= s.len(),
        all_white(s.skip(n)),
        n > 0 ==> !is_white_space(s[n - 1]),
    decreases s.len(),
{
    if s.len() > 0 && is_white_space(s.last()) {
        let m = lemma_white_back(s.drop_last());
        assert forall|i: int| 0 <= i < s.skip(m).len() implies is_white_space(
            #[trigger] s.skip(m)[i],
        ) by {
            if i + m < s.len() - 1 {
                assert(s.drop_last().skip(m)[i] == s[m + i]);
            }
        }
        m
    } else {
        s.len() as int
    }
}

/// A number is written with its digits from the left: one digit below ten, and each
/// further digit behind those of the number without it.
pub proof fn law_decimal(n: nat, d: nat)
    requires
        d < 10,
    ensures
        decimal(d) == seq![(48 + d) as char],
        n > 0 ==> decimal(10 * n + d) == decimal(n).push((48 + d) as char),
{
    if n > 0 {
        assert((10 * n + d) / 10 == n);
        assert((10 * n + d) % 10 == d);
    }
}

/// The length of a text in bytes is that of its UTF-8 form: one byte for each character
/// up to U+007F, two up to U+07FF, three up to U+FFFF, four above.
pub proof fn law_byte_len(s: Seq<char>, c: char)
    ensures
        byte_len(s) == vstd::utf8::encode_utf8(s).len(),
        byte_len(Seq::<char>::empty()) == 0,
        byte_len(s.push(c)) == byte_len(s) + (if c as int <= 0x7f {
            1int
        } else if c as int <= 0x7ff {
            2
        } else if c as int <= 0xffff {
            3
        } else {
            4
        }),
{
    let one = seq![c];
    assert(s.push(c) =~= s + one);
    lemma_byte_len_concat(s, one);
    lemma_byte_len_first(one);
    assert(one.drop_first() =~= Seq::<char>::empty());
    assert(one[0] == c);
}

proof fn lemma_prefix_bytes(s: Seq<char>, n: int, m: int)
    requires
        0 <= n <= m <= s.len(),
    ensures
        byte_len(s.take(n)) <= byte_len(s.take(m)),
{
    assert(s.take(m) =~= s.take(n) + s.subrange(n, m));
    lemma_byte_len_concat(s.take(n), s.subrange(n, m));
}

/// Of a text that is cut to a number of bytes the longest prefix is left that does not
/// take more.
pub proof fn law_clipped(s: Seq<char>, limit: int, n: int)
    requires
        0 <= limit,
        0 <= n <= s.len(),
    ensures
        clipped(s, limit).len() <= s.len(),
        clipped(s, limit) == s.take(clipped(s, limit).len() as int),
        byte_len(clipped(s, limit)) <= limit,
        byte_len(s.take(n)) <= limit ==> n <= clipped(s, limit).len(),
{
    lemma_clipped(s, limit);
    let m = fit(s, limit) as int;
    if n > m {
        lemma_prefix_bytes(s, m + 1, n);
    }
}

proof fn lemma_word(word: Seq<char>, rest: Seq<char>)
    requires
        none_white(word),
        rest.len() > 0 ==> is_white_space(rest[0]),
    ensures
        word_len(word + rest) == word.len(),
    decreases word.len(),
{
    if word.len() == 0 {
        assert(word + rest =~= rest);
    } else {
        assert(!is_white_space(word[0]));
        assert((word + rest).drop_first() =~= word.drop_first() + rest);
        assert forall|i: int| 0 <= i < word.drop_first().len() implies !is_white_space(
            #[trigger] word.drop_first()[i],
        ) by {
            assert(word.drop_first()[i] == word[i + 1]);
        }
        lemma_word(word.drop_first(), rest);
    }
}

/// White space parts words and is no part of them: it does not count in front, and what
/// stands before it is a word of its own.
pub proof fn law_words(word: Seq<char>, space: char, rest: Seq<char>)
    requires
        none_white(word),
        word.len() > 0,
        is_white_space(space),
    ensures
        words(Seq::<char>::empty()).len() == 0,
        words(word) == seq![word],
        words(seq![space] + rest) == words(rest),
        words(word + seq![space] + rest) == seq![word] + words(rest),
{
    let none = Seq::<char>::empty();
    assert(!is_white_space(word[0]));
    lemma_word(word, none);
    assert(word + none =~= word);
    assert(word.take(word.len() as int) =~= word);
    assert(word.skip(word.len() as int) =~= none);
    assert(words(none) =~= Seq::<Seq<char>>::empty());
    assert(words(word) =~= seq![word]);
    let tail = seq![space] + rest;
    assert(tail.drop_first() =~= rest);
    assert(words(tail) == words(rest));
    let s = word + tail;
    assert(word + seq![space] + rest =~= s);
    lemma_word(word, tail);
    assert(s.take(word.len() as int) =~= word);
    assert(s.skip(word.len() as int) =~= tail);
    assert(!is_white_space(s[0]));
}

/// The texts of strings are the strings' texts, one each and in order.
pub proof fn law_texts(v: Seq<String>)
    ensures
        texts(v).len() == v.len(),
        forall|i: int| 0 <= i < v.len() ==> texts(v)[i] == (#[trigger] v[i])@,
{
}

/// The width of a character is what its text takes in bytes.
pub proof fn law_char_width(c: char)
    ensures
        char_width(c) == byte_len(seq![c]),
{
    let one = seq![c];
    lemma_byte_len_first(one);
    assert(one.drop_first() =~= Seq::<char>::empty());
    assert(byte_len(one.drop_first()) == 0);
    assert(one[0] == c);
}

/// The characters that count as white space.
pub proof fn law_white_space(c: char)
    ensures
        is_white_space(c) <==> (set![0x20int, 0x85, 0xa0, 0x1680, 0x2028, 0x2029, 0x202f, 0x205f,
            0x3000].contains(c as int) || 8 < c as int && (c as int) < 14 || 0x1fff < c as int
            && (c as int) < 0x200b),
{
}

} // verus!
