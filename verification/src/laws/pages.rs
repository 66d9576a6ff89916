//! Laws of the pages that are handed to `html2text`.

use vstd::prelude::*;

use crate::laws::text::all_white;
use crate::renderable::{
    digit_value, digits_end, equals_sign, gives_harm, has_harmful, has_joining, is_joining,
    lower_char, lowered, number_at, reference_code, refers_to_joining, renderable, value_start,
};
use crate::text::{byte_len, contains, is_white_space, occurs_at};

verus! {

/// Capital ASCII letters are made small, and nothing else is changed.
pub proof fn law_small_letters(s: Seq<char>, i: int)
    requires
        0 <= i < s.len(),
    ensures
        lowered(s).len() == s.len(),
        0x41 <= s[i] as int <= 0x5a ==> lowered(s)[i] as int == s[i] as int + 0x20,
        !(0x41 <= s[i] as int <= 0x5a) ==> lowered(s)[i] == s[i],
{
    let c = s[i];
    assert(lowered(s)[i] == lower_char(c));
    if 0x41 <= c as int <= 0x5a {
        assert(c as u8 as int == c as int);
    }
}

/// The characters that change the width of a neighbour.
pub proof fn law_joining(code: int)
    ensures
        is_joining(code) <==> (set![0x644int, 0x76a, 0x8a6, 0x8c7, 0x17d2, 0x200d, 0x2d7f, 0xfe01,
            0xfe0e, 0xfe0f].contains(code) || 0x6b4 < code < 0x6b9 || 0xa4f7 < code < 0xa4fc
            || 0x16d62 < code < 0x16d6a || 0x1f3fa < code < 0x1f400),
{
}

/// The value of a digit, `0` to `9` or `a` to `f`.
pub open spec fn worth(c: char) -> int {
    if '0' <= c <= '9' {
        c as int - 48
    } else {
        c as int - 87
    }
}

/// `c` is a digit in that base.
pub open spec fn is_digit(c: char, base: int) -> bool {
    '0' <= c <= '9' || (base == 16 && 'a' <= c <= 'f')
}

/// Each of `ds` is a digit in that base.
pub open spec fn all_digits(ds: Seq<char>, base: int) -> bool {
    forall|i: int| 0 <= i < ds.len() ==> is_digit(#[trigger] ds[i], base)
}

/// The number that the digits write in that base, behind digits of value `before`.
pub open spec fn written(ds: Seq<char>, base: int, before: int) -> int
    decreases ds.len(),
{
    if ds.len() == 0 {
        before
    } else {
        written(ds.drop_first(), base, before * base + worth(ds[0]))
    }
}

proof fn lemma_written_grows(ds: Seq<char>, base: int, before: int)
    requires
        base == 10 || base == 16,
        0 <= before,
        all_digits(ds, base),
    ensures
        written(ds, base, before) >= before,
    decreases ds.len(),
{
    if ds.len() > 0 {
        assert(is_digit(ds[0], base));
        let rest = ds.drop_first();
        assert forall|i: int| 0 <= i < rest.len() implies is_digit(#[trigger] rest[i], base) by {
            assert(rest[i] == ds[i + 1]);
        }
        assert(before * base >= before) by (nonlinear_arith)
            requires
                base >= 10,
                0 <= before,
        ;
        lemma_written_grows(rest, base, before * base + worth(ds[0]));
    }
}

proof fn lemma_number(front: Seq<char>, ds: Seq<char>, after: Seq<char>, base: int, before: int)
    requires
        base == 10 || base == 16,
        0 <= before,
        all_digits(ds, base),
        after.len() > 0 ==> !is_digit(after[0], base),
    ensures
        ({
            let read = number_at(front + ds + after, front.len() as int, base, before);
            let value = written(ds, base, before);
            if value <= 999_999_999 {
                read == value
            } else {
                read > 999_999_999
            }
        }),
    decreases ds.len(),
{
    let s = front + ds + after;
    let i = front.len() as int;
    lemma_written_grows(ds, base, before);
    if before <= 999_999_999 {
        if ds.len() == 0 {
            if after.len() > 0 {
                assert(s[i] == after[0]);
                assert(digit_value(s[i], base) is None);
            }
        } else {
            assert(s[i] == ds[0]);
            assert(is_digit(ds[0], base));
            let rest = ds.drop_first();
            assert forall|k: int| 0 <= k < rest.len() implies is_digit(#[trigger] rest[k], base) by {
                assert(rest[k] == ds[k + 1]);
            }
            let next = before * base + worth(ds[0]);
            assert(before * base >= 0) by (nonlinear_arith)
                requires
                    base >= 10,
                    0 <= before,
            ;
            assert(digit_value(s[i], base) == Some(worth(ds[0])));
            assert(front.push(ds[0]) + rest + after =~= s);
            lemma_number(front.push(ds[0]), rest, after, base, next);
        }
    }
}

/// A numeric character reference stands for the character with the number that its
/// digits write: hexadecimal ones behind an `x`, else decimal ones. No character has a
/// number above 999999999.
pub proof fn law_reference(front: Seq<char>, ds: Seq<char>, after: Seq<char>)
    ensures
        all_digits(ds, 10) && ds.len() > 0 && (after.len() > 0 ==> !is_digit(after[0], 10)) ==> {
            let code = reference_code(front + ds + after, front.len() as int);
            if written(ds, 10, 0) <= 999_999_999 {
                code == written(ds, 10, 0)
            } else {
                code > 999_999_999
            }
        },
        all_digits(ds, 16) && (after.len() > 0 ==> !is_digit(after[0], 16)) ==> {
            let code = reference_code(front + seq!['x'] + ds + after, front.len() as int);
            if written(ds, 16, 0) <= 999_999_999 {
                code == written(ds, 16, 0)
            } else {
                code > 999_999_999
            }
        },
{
    if all_digits(ds, 10) && ds.len() > 0 && (after.len() > 0 ==> !is_digit(after[0], 10)) {
        assert((front + ds + after)[front.len() as int] == ds[0]);
        assert(is_digit(ds[0], 10));
        lemma_number(front, ds, after, 10, 0);
    }
    if all_digits(ds, 16) && (after.len() > 0 ==> !is_digit(after[0], 16)) {
        assert((front + seq!['x'] + ds + after)[front.len() as int] == 'x');
        lemma_number(front.push('x'), ds, after, 16, 0);
        assert(front.push('x') + ds + after =~= front + seq!['x'] + ds + after);
    }
}

proof fn lemma_equals_sign(front: Seq<char>, gap: Seq<char>, rest: Seq<char>)
    requires
        all_white(gap),
        rest.len() > 0 ==> !is_white_space(rest[0]) || rest[0] == '=',
    ensures
        equals_sign(front + gap + rest, front.len() as int) == (if rest.len() > 0 && rest[0] == '='
            {
            Some((front.len() + gap.len()) as int)
        } else {
            None
        }),
    decreases gap.len(),
{
    let s = front + gap + rest;
    let i = front.len() as int;
    if gap.len() > 0 {
        assert(s[i] == gap[0]);
        assert(is_white_space(gap[0]));
        assert(gap[0] != '=');
        let less = gap.drop_first();
        assert forall|k: int| 0 <= k < less.len() implies is_white_space(#[trigger] less[k]) by {
            assert(less[k] == gap[k + 1]);
        }
        assert(front.push(gap[0]) + less + rest =~= s);
        lemma_equals_sign(front.push(gap[0]), less, rest);
    } else if rest.len() > 0 {
        assert(s[i] == rest[0]);
    }
}

/// `c` may stand between an equals sign and a value: white space or a quote.
pub open spec fn leads_value(c: char) -> bool {
    is_white_space(c) || c == '"' || c == '\''
}

proof fn lemma_value_start(front: Seq<char>, lead: Seq<char>, rest: Seq<char>)
    requires
        forall|i: int| 0 <= i < lead.len() ==> leads_value(#[trigger] lead[i]),
        rest.len() > 0 ==> !leads_value(rest[0]),
    ensures
        value_start(front + lead + rest, front.len() as int) == front.len() + lead.len(),
    decreases lead.len(),
{
    let s = front + lead + rest;
    let i = front.len() as int;
    if lead.len() > 0 {
        assert(s[i] == lead[0]);
        assert(leads_value(lead[0]));
        let less = lead.drop_first();
        assert forall|k: int| 0 <= k < less.len() implies leads_value(#[trigger] less[k]) by {
            assert(less[k] == lead[k + 1]);
        }
        assert(front.push(lead[0]) + less + rest =~= s);
        lemma_value_start(front.push(lead[0]), less, rest);
    } else if rest.len() > 0 {
        assert(s[i] == rest[0]);
    }
}

proof fn lemma_digits_end(front: Seq<char>, ds: Seq<char>, after: Seq<char>)
    requires
        all_digits(ds, 10),
        after.len() > 0 ==> !is_digit(after[0], 10),
    ensures
        digits_end(front + ds + after, front.len() as int) == front.len() + ds.len(),
    decreases ds.len(),
{
    let s = front + ds + after;
    let i = front.len() as int;
    if ds.len() > 0 {
        assert(s[i] == ds[0]);
        assert(is_digit(ds[0], 10));
        let rest = ds.drop_first();
        assert forall|k: int| 0 <= k < rest.len() implies is_digit(#[trigger] rest[k], 10) by {
            assert(rest[k] == ds[k + 1]);
        }
        assert(front.push(ds[0]) + rest + after =~= s);
        lemma_digits_end(front.push(ds[0]), rest, after);
    } else if after.len() > 0 {
        assert(s[i] == after[0]);
    }
}

/// A number as value does harm where it is out of bounds or goes on with a character
/// reference; white space and quotes before it do not matter.
pub proof fn law_number_as_value(
    front: Seq<char>,
    gap: Seq<char>,
    lead: Seq<char>,
    ds: Seq<char>,
    after: Seq<char>,
    least: int,
    greatest: int,
)
    requires
        all_white(gap),
        forall|i: int| 0 <= i < lead.len() ==> leads_value(#[trigger] lead[i]),
        all_digits(ds, 10),
        ds.len() > 0,
        after.len() > 0 ==> !is_digit(after[0], 10),
        greatest <= 999_999_999,
    ensures
        gives_harm(
            front + gap + seq!['='] + lead + ds + after,
            front.len() as int,
            least,
            greatest,
        ) <==> !(least <= written(ds, 10, 0) <= greatest) || (after.len() > 0 && after[0] == '&'),
{
    let s = front + gap + seq!['='] + lead + ds + after;
    let rest = seq!['='] + lead + ds + after;
    assert(front + gap + rest =~= s);
    assert(rest[0] == '=');
    lemma_equals_sign(front, gap, rest);
    let head = front + gap + seq!['='];
    assert(head + lead + (ds + after) =~= s);
    assert(is_digit(ds[0], 10));
    assert((ds + after)[0] == ds[0]);
    assert(!is_white_space(ds[0]));
    lemma_value_start(head, lead, ds + after);
    let start = head.len() + lead.len();
    assert(s[start as int] == ds[0]);
    assert((head + lead) + ds + after =~= s);
    lemma_digits_end(head + lead, ds, after);
    lemma_number(head + lead, ds, after, 10, 0);
    if after.len() > 0 {
        assert(s[(start + ds.len()) as int] == after[0]);
    }
}

/// A value that is no number does harm where it starts with a sign or a character
/// reference, and no other does; nor does a missing one.
pub proof fn law_other_value(
    front: Seq<char>,
    gap: Seq<char>,
    lead: Seq<char>,
    rest: Seq<char>,
    least: int,
    greatest: int,
)
    requires
        all_white(gap),
        forall|i: int| 0 <= i < lead.len() ==> leads_value(#[trigger] lead[i]),
        rest.len() > 0 ==> !leads_value(rest[0]) && !is_digit(rest[0], 10),
    ensures
        gives_harm(front + gap + seq!['='] + lead + rest, front.len() as int, least, greatest) <==> (
        rest.len() > 0 && (rest[0] == '+' || rest[0] == '-' || rest[0] == '&')),
{
    let s = front + gap + seq!['='] + lead + rest;
    let tail = seq!['='] + lead + rest;
    assert(front + gap + tail =~= s);
    assert(tail[0] == '=');
    lemma_equals_sign(front, gap, tail);
    let head = front + gap + seq!['='];
    lemma_value_start(head, lead, rest);
    if rest.len() > 0 {
        assert(s[(head.len() + lead.len()) as int] == rest[0]);
    }
}

/// A name without an equals sign behind it does no harm.
pub proof fn law_name_without_value(
    front: Seq<char>,
    gap: Seq<char>,
    rest: Seq<char>,
    least: int,
    greatest: int,
)
    requires
        all_white(gap),
        rest.len() > 0 ==> !is_white_space(rest[0]) && rest[0] != '=',
    ensures
        !gives_harm(front + gap + rest, front.len() as int, least, greatest),
{
    lemma_equals_sign(front, gap, rest);
}

/// A page is handed over exactly where it is within its limits: no more than 256 MiB; no
/// row span but of none or one row, no span but of 1 to 99 columns, no list that starts
/// elsewhere than at 0 to 999999999; no preformatted text and no template; and no
/// joining character, be it written as it is, by name or by number.
pub proof fn law_page_limits(html: Seq<char>)
    ensures
        renderable(html) <==> {
            let page = lowered(html);
            &&& byte_len(html) <= 268_435_456
            &&& forall|i: int| #[trigger]
                occurs_at(page, "rowspan"@, i) ==> !gives_harm(page, i + "rowspan"@.len(), 0, 1)
            &&& forall|i: int| #[trigger]
                occurs_at(page, "colspan"@, i) ==> !gives_harm(page, i + "colspan"@.len(), 1, 99)
            &&& forall|i: int| #[trigger]
                occurs_at(page, "start"@, i) ==> !gives_harm(
                    page,
                    i + "start"@.len(),
                    0,
                    999_999_999,
                )
            &&& forall|i: int| #[trigger]
                occurs_at(page, "&#"@, i) ==> !is_joining(reference_code(page, i + 2))
            &&& forall|i: int| 0 <= i < page.len() ==> !is_joining(#[trigger] page[i] as int)
            &&& !contains(page, "<pre"@)
            &&& !contains(page, "<template"@)
            &&& !contains(page, "&zwj;"@)
        },
{
    let page = lowered(html);
    assert(has_harmful(page, "rowspan"@, 0, 1) == exists|i: int| #[trigger]
        occurs_at(page, "rowspan"@, i) && gives_harm(page, i + "rowspan"@.len(), 0, 1));
    assert(has_harmful(page, "colspan"@, 1, 99) == exists|i: int| #[trigger]
        occurs_at(page, "colspan"@, i) && gives_harm(page, i + "colspan"@.len(), 1, 99));
    assert(has_harmful(page, "start"@, 0, 999_999_999) == exists|i: int| #[trigger]
        occurs_at(page, "start"@, i) && gives_harm(page, i + "start"@.len(), 0, 999_999_999));
    assert(refers_to_joining(page) == exists|i: int| #[trigger]
        occurs_at(page, "&#"@, i) && is_joining(reference_code(page, i + 2)));
    assert(has_joining(page) == exists|i: int|
        0 <= i < page.len() && is_joining(#[trigger] page[i] as int));
}

} // verus!
