//! Laws of JSON values: their members and their text.

use vstd::prelude::*;

use crate::json::{
    escaped, escaped_all, hex_digit, items_text, json_text, json_view, lookup, member, members_text, quoted, text_of, Json, JsonView,
};

verus! {

proof fn lemma_member(members: Seq<(Seq<char>, JsonView)>, key: Seq<char>)
    ensures
        match member(members, key) {
            Some(value) => exists|i: int|
                {
                    &&& 0 <= i < members.len()
                    &&& #[trigger] members[i] == (key, value)
                    &&& forall|j: int| 0 <= j < i ==> (#[trigger] members[j]).0 != key
                },
            None => forall|j: int| 0 <= j < members.len() ==> (#[trigger] members[j]).0 != key,
        },
    decreases members.len(),
{
    if members.len() > 0 {
        if members[0].0 == key {
            assert(members[0] == (key, members[0].1));
        } else {
            let rest = members.drop_first();
            lemma_member(rest, key);
            match member(rest, key) {
                Some(value) => {
                    let i = choose|i: int|
                        {
                            &&& 0 <= i < rest.len()
                            &&& #[trigger] rest[i] == (key, value)
                            &&& forall|j: int| 0 <= j < i ==> (#[trigger] rest[j]).0 != key
                        };
                    assert(members[i + 1] == (key, value));
                    assert forall|j: int| 0 <= j < i + 1 implies (#[trigger] members[j]).0
                        != key by {
                        if j > 0 {
                            assert(rest[j - 1] == members[j]);
                        }
                    }
                },
                None => {
                    assert forall|j: int| 0 <= j < members.len() implies (#[trigger] members[j]).0
                        != key by {
                        if j > 0 {
                            assert(rest[j - 1] == members[j]);
                        }
                    }
                },
            }
        }
    }
}

/// A name leads to the first member that has it, whatever its value is; only objects have
/// members.
pub proof fn law_lookup(j: JsonView, key: Seq<char>)
    ensures
        j !is Object ==> lookup(j, key) is None,
        j is Object ==> match lookup(j, key) {
            Some(value) => exists|i: int|
                {
                    &&& 0 <= i < j->Object_0.len()
                    &&& #[trigger] j->Object_0[i] == (key, value)
                    &&& forall|k: int| 0 <= k < i ==> (#[trigger] j->Object_0[k]).0 != key
                },
            None => forall|k: int|
                0 <= k < j->Object_0.len() ==> (#[trigger] j->Object_0[k]).0 != key,
        },
{
    if j is Object {
        lemma_member(j->Object_0, key);
    }
}

/// The text of a value that is no collection.
pub proof fn law_text_of_scalars(b: bool, literal: Seq<char>, text: Seq<char>)
    ensures
        json_text(JsonView::Null) == "null"@,
        json_text(JsonView::Bool(b)) == (if b {
            "true"@
        } else {
            "false"@
        }),
        json_text(JsonView::Number(literal)) == literal,
        json_text(JsonView::Text(text)) == quoted(text),
        text_of(JsonView::Text(text)) == Some(text),
        text_of(JsonView::Number(literal)) is None,
{
    reveal_strlit("null");
    reveal_strlit("true");
    reveal_strlit("false");
    assert("null"@ =~= json_text(JsonView::Null));
    assert("true"@ =~= json_text(JsonView::Bool(true)));
    assert("false"@ =~= json_text(JsonView::Bool(false)));
}

/// The text of an array holds the texts of its items, in order, with commas between them.
pub proof fn law_text_of_array(items: Seq<JsonView>, last: JsonView)
    ensures
        json_text(JsonView::Array(items)) == seq!['['] + items_text(items) + seq![']'],
        items_text(Seq::<JsonView>::empty()).len() == 0,
        items_text(seq![last]) == json_text(last),
        items.len() > 0 ==> items_text(items.push(last)) == items_text(items) + seq![',']
            + json_text(last),
{
    let longer = items.push(last);
    assert(longer.subrange(0, longer.len() - 1) =~= items);
    assert(longer[longer.len() - 1] == last);
}

/// The text of an object holds its members, in order, with commas between them: each is
/// its name as a string, a colon and the text of its value.
pub proof fn law_text_of_object(
    members: Seq<(Seq<char>, JsonView)>,
    key: Seq<char>,
    value: JsonView,
)
    ensures
        json_text(JsonView::Object(members)) == seq!['{'] + members_text(members) + seq!['}'],
        members_text(Seq::<(Seq<char>, JsonView)>::empty()).len() == 0,
        members_text(seq![(key, value)]) == quoted(key) + seq![':'] + json_text(value),
        members.len() > 0 ==> members_text(members.push((key, value))) == members_text(members)
            + seq![','] + quoted(key) + seq![':'] + json_text(value),
{
    let longer = members.push((key, value));
    assert(longer.subrange(0, longer.len() - 1) =~= members);
    assert(longer[longer.len() - 1] == (key, value));
}

/// A value is seen as it is: each item and each member, in order.
pub proof fn law_json_view(b: bool, s: String, items: Vec<Json>, members: Vec<(String, Json)>)
    ensures
        json_view(Json::Null) == JsonView::Null,
        json_view(Json::Bool(b)) == JsonView::Bool(b),
        json_view(Json::Number(s)) == JsonView::Number(s@),
        json_view(Json::Text(s)) == JsonView::Text(s@),
        json_view(Json::Array(items)) is Array,
        json_view(Json::Array(items))->Array_0.len() == items@.len(),
        forall|i: int|
            0 <= i < items@.len() ==> json_view(Json::Array(items))->Array_0[i] == json_view(
                #[trigger] items@[i],
            ),
        json_view(Json::Object(members)) is Object,
        json_view(Json::Object(members))->Object_0.len() == members@.len(),
        forall|i: int|
            0 <= i < members@.len() ==> json_view(Json::Object(members))->Object_0[i] == (
                (#[trigger] members@[i]).0@,
                json_view(members@[i].1),
            ),
{
}

/// A string stands between quotes; each character is written in order, behind those before
/// it. A quote and a backslash are written behind a backslash, so are the line breaks and
/// tabs by a letter, and any other code below the space by two hexadecimal digits; every
/// other character stands for itself.
pub proof fn law_quoted(s: Seq<char>, c: char)
    ensures
        quoted(Seq::<char>::empty()) == seq!['"', '"'],
        quoted(s.push(c)) == quoted(s).drop_last() + (if c == '"' {
            seq!['\\', '"']
        } else if c == '\\' {
            seq!['\\', '\\']
        } else if c as int == 8 {
            seq!['\\', 'b']
        } else if c as int == 9 {
            seq!['\\', 't']
        } else if c as int == 10 {
            seq!['\\', 'n']
        } else if c as int == 12 {
            seq!['\\', 'f']
        } else if c as int == 13 {
            seq!['\\', 'r']
        } else if (c as int) < 16 {
            seq!['\\', 'u', '0', '0', '0', "0123456789abcdef"@[c as int]]
        } else if (c as int) < 32 {
            seq!['\\', 'u', '0', '0', '1', "0123456789abcdef"@[c as int - 16]]
        } else {
            seq![c]
        }) + seq!['"'],
{
    reveal_strlit("0123456789abcdef");
    assert(quoted(Seq::<char>::empty()) =~= seq!['"', '"']);
    assert(s.push(c).drop_last() =~= s);
    assert(quoted(s).drop_last() =~= seq!['"'] + escaped_all(s));
    if (c as int) < 32 {
        lemma_hex_digit(c as int % 16);
        lemma_hex_digit(c as int / 16);
    }
    assert(quoted(s.push(c)) =~= quoted(s).drop_last() + escaped(c) + seq!['"']);
}

proof fn lemma_hex_digit(d: int)
    requires
        0 <= d < 16,
    ensures
        hex_digit(d) == "0123456789abcdef"@[d],
{
    reveal_strlit("0123456789abcdef");
}

} // verus!
