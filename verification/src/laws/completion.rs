//! Laws of the completion of parameters: the type, the name and the directory of a file
//! that a call gives no path.

use vstd::prelude::*;

use crate::json::{lookup, Json, JsonView};
use crate::parameter_completion::{
    added_path, candidate, completed_parameters, context_directory, detected, first_parent,
    law_unique_filename, mockup_directory, name_chars, optional_text, pathless_content, purpose,
    result_text, result_view, sanitized, strip_dots_end, strip_dots_start, suggested_path,
    svg_name, target_directory, title_element, tries, unique_filename,
};
use crate::paths::{joined, last_slash, lemma_last_slash, parent};
use crate::text::{
    contains, decimal, first_index, lemma_contains, lemma_first_index, occurs_at, trimmed, words,
};

verus! {

/// Each character of `s` is a dot.
pub open spec fn all_dots(s: Seq<char>) -> bool {
    forall|i: int| 0 <= i < s.len() ==> (#[trigger] s[i]) == '.'
}

/// What `c` becomes in the name of a file: an underscore for a space, for a control code
/// and for what separates or matches paths; any other character stays.
pub open spec fn in_a_name(c: char) -> char {
    if c == '/' || c == '\\' || c == ':' || c == '*' || c == '?' || c == '"' || c == '<' || c == '>'
        || c == '|' || c == ' ' || c as int <= 0x1f || 0x7f <= c as int <= 0x9f {
        '_'
    } else {
        c
    }
}

proof fn lemma_strip_start(dots: Seq<char>, s: Seq<char>)
    requires
        all_dots(dots),
        s.len() > 0 ==> s[0] != '.',
    ensures
        strip_dots_start(dots + s) == s,
    decreases dots.len(),
{
    if dots.len() == 0 {
        assert(dots + s =~= s);
    } else {
        let rest = dots.drop_first();
        assert(dots[0] == '.');
        assert((dots + s).drop_first() =~= rest + s);
        assert forall|i: int| 0 <= i < rest.len() implies (#[trigger] rest[i]) == '.' by {
            assert(rest[i] == dots[i + 1]);
        }
        lemma_strip_start(rest, s);
    }
}

proof fn lemma_strip_end(s: Seq<char>, dots: Seq<char>)
    requires
        all_dots(dots),
        s.len() > 0 ==> s.last() != '.',
    ensures
        strip_dots_end(s + dots) == s,
    decreases dots.len(),
{
    if dots.len() == 0 {
        assert(s + dots =~= s);
    } else {
        let rest = dots.drop_last();
        assert(dots[dots.len() - 1] == '.');
        assert((s + dots).drop_last() =~= s + rest);
        assert forall|i: int| 0 <= i < rest.len() implies (#[trigger] rest[i]) == '.' by {
            assert(rest[i] == dots[i]);
        }
        lemma_strip_end(s, rest);
    }
}

/// A name loses the dots at its ends and nothing else; each character between them stands
/// for itself or is made an underscore.
pub proof fn law_sanitized_name(front: Seq<char>, core: Seq<char>, back: Seq<char>)
    requires
        all_dots(front),
        all_dots(back),
        core.len() > 0 ==> core[0] != '.' && core.last() != '.',
    ensures
        sanitized(front + core + back).len() == core.len(),
        forall|i: int|
            0 <= i < core.len() ==> (#[trigger] sanitized(front + core + back)[i]) == in_a_name(
                core[i],
            ),
{
    let name = front + core + back;
    let mapped = Seq::new(core.len(), |i: int| in_a_name(core[i]));
    assert(name_chars(name) =~= front + mapped + back) by {
        assert forall|i: int| 0 <= i < name.len() implies name_chars(name)[i] == (front + mapped
            + back)[i] by {
            if i < front.len() {
                assert(front[i] == '.');
            } else if i >= front.len() + core.len() {
                assert(back[i - front.len() - core.len()] == '.');
            }
        }
    }
    if core.len() == 0 {
        let dots = front + back;
        assert(front + mapped + back =~= dots + mapped);
        assert forall|i: int| 0 <= i < dots.len() implies (#[trigger] dots[i]) == '.' by {
            if i < front.len() {
                assert(dots[i] == front[i]);
            } else {
                assert(dots[i] == back[i - front.len()]);
            }
        }
        lemma_strip_start(dots, mapped);
    } else {
        assert(mapped[0] != '.');
        assert(mapped.last() != '.');
        assert(front + mapped + back =~= front + (mapped + back));
        lemma_strip_start(front, mapped + back);
        lemma_strip_end(mapped, back);
    }
}

/// What content without a title is named after: the first of these purposes that it
/// mentions, in either language.
pub open spec fn mentioned_purpose(content: Seq<char>) -> Option<Seq<char>> {
    if contains(content, "dashboard"@) || contains(content, "仪表板"@) {
        Some("dashboard"@)
    } else if contains(content, "login"@) || contains(content, "登录"@) {
        Some("login"@)
    } else if contains(content, "chart"@) || contains(content, "图表"@) {
        Some("chart"@)
    } else if contains(content, "mockup"@) || contains(content, "视觉稿"@) {
        Some("mockup"@)
    } else {
        None
    }
}

/// An SVG document is named by what stands between its first `<title>` and the next
/// `</title>`, without the white space around it; where that is nothing, by its purpose.
pub proof fn law_title(before: Seq<char>, title: Seq<char>, after: Seq<char>)
    requires
        ({
            let content = before + "<title>"@ + title + "</title>"@ + after;
            &&& forall|j: int| 0 <= j < before.len() ==> !occurs_at(content, "<title>"@, j)
            &&& forall|j: int|
                before.len() + "<title>"@.len() <= j < before.len() + "<title>"@.len()
                    + title.len() ==> !occurs_at(content, "</title>"@, j)
        }),
    ensures
        ({
            let content = before + "<title>"@ + title + "</title>"@ + after;
            svg_name(content) == (if trimmed(title).len() > 0 {
                Some(sanitized(trimmed(title)))
            } else {
                mentioned_purpose(content)
            })
        }),
{
    let open = "<title>"@;
    let close = "</title>"@;
    let content = before + open + title + close + after;
    let tag = before.len() as int;
    let start = tag + open.len();
    let end = start + title.len();
    lemma_first_index(content, open, 0);
    assert(content.subrange(tag, start) =~= open);
    assert(occurs_at(content, open, tag));
    assert(first_index(content, open, 0) == Some(tag));
    lemma_first_index(content, close, start);
    assert(content.subrange(end, end + close.len()) =~= close);
    assert(occurs_at(content, close, end));
    assert(first_index(content, close, start) == Some(end));
    assert(content.subrange(start, end) =~= title);
}

/// Without a `<title>`, or without a `</title>` behind the first one, a document is named
/// by its purpose.
pub proof fn law_no_title(content: Seq<char>, tag: int)
    requires
        !contains(content, "<title>"@) || ({
            &&& occurs_at(content, "<title>"@, tag)
            &&& forall|j: int| 0 <= j < tag ==> !occurs_at(content, "<title>"@, j)
            &&& forall|j: int| tag + "<title>"@.len() <= j ==> !occurs_at(content, "</title>"@, j)
        }),
    ensures
        svg_name(content) == mentioned_purpose(content),
{
    lemma_contains(content, "<title>"@);
    lemma_first_index(content, "<title>"@, 0);
    if contains(content, "<title>"@) {
        assert(first_index(content, "<title>"@, 0) == Some(tag));
        lemma_first_index(content, "</title>"@, tag + "<title>"@.len());
    }
}

/// Marks of SVG: its tag in front, or an XML declaration in front and its tag anywhere.
pub open spec fn marks_svg(t: Seq<char>) -> bool {
    "<svg"@.is_prefix_of(t) || ("<?xml"@.is_prefix_of(t) && contains(t, "<svg"@))
}

/// Marks of HTML.
pub open spec fn marks_html(t: Seq<char>) -> bool {
    "<!DOCTYPE html"@.is_prefix_of(t) || "<html"@.is_prefix_of(t)
}

/// Marks of JSON: an object or an array from end to end.
pub open spec fn marks_json(t: Seq<char>) -> bool {
    t.len() > 0 && ((t[0] == '{' && t[t.len() - 1] == '}') || (t[0] == '[' && t[t.len() - 1]
        == ']'))
}

/// Marks of CSS: braces and one of some properties.
pub open spec fn marks_css(t: Seq<char>) -> bool {
    (exists|i: int| 0 <= i < t.len() && #[trigger] t[i] == '{') && (exists|i: int|
        0 <= i < t.len() && #[trigger] t[i] == '}') && (contains(t, "color:"@) || contains(
        t,
        "font-"@,
    ) || contains(t, "margin:"@))
}

/// Marks of JavaScript.
pub open spec fn marks_javascript(t: Seq<char>) -> bool {
    contains(t, "function"@) || contains(t, "const "@) || contains(t, "let "@) || contains(
        t,
        "var "@,
    )
}

/// Marks of Python.
pub open spec fn marks_python(t: Seq<char>) -> bool {
    contains(t, "def "@) || contains(t, "import "@) || contains(t, "from "@)
        || "#!/usr/bin/env python"@.is_prefix_of(t)
}

/// Marks of Markdown.
pub open spec fn marks_markdown(t: Seq<char>) -> bool {
    contains(t, "# "@) || contains(t, "## "@) || contains(t, "```"@)
}

/// Marks of SVG count before all others.
pub proof fn law_detects_svg(content: Seq<char>)
    requires
        marks_svg(trimmed(content)),
    ensures
        detected(content).0 == "svg"@,
        detected(content).1 == (match svg_name(content) {
            Some(name) => name,
            None => "diagram"@,
        }),
{
}

/// Marks of HTML count unless there are marks of SVG.
pub proof fn law_detects_html(content: Seq<char>)
    requires
        !marks_svg(trimmed(content)),
        marks_html(trimmed(content)),
    ensures
        detected(content) == ("html"@, "page"@),
{
}

/// Marks of JSON count unless there are marks of SVG or HTML.
pub proof fn law_detects_json(content: Seq<char>)
    requires
        !marks_svg(trimmed(content)),
        !marks_html(trimmed(content)),
        marks_json(trimmed(content)),
    ensures
        detected(content) == ("json"@, "data"@),
{
}

/// Marks of CSS count unless there are marks of SVG, HTML or JSON.
pub proof fn law_detects_css(content: Seq<char>)
    requires
        !marks_svg(trimmed(content)),
        !marks_html(trimmed(content)),
        !marks_json(trimmed(content)),
        marks_css(trimmed(content)),
    ensures
        detected(content) == ("css"@, "styles"@),
{
}

/// Marks of JavaScript count unless there are marks of SVG, HTML, JSON or CSS; marks of
/// Python or Markdown do not matter to them.
pub proof fn law_detects_javascript(content: Seq<char>)
    requires
        !marks_svg(trimmed(content)),
        !marks_html(trimmed(content)),
        !marks_json(trimmed(content)),
        !marks_css(trimmed(content)),
        marks_javascript(trimmed(content)),
    ensures
        detected(content) == ("js"@, "script"@),
{
}

/// Marks of Python count unless there are marks of SVG, HTML, JSON, CSS or JavaScript.
pub proof fn law_detects_python(content: Seq<char>)
    requires
        !marks_svg(trimmed(content)),
        !marks_html(trimmed(content)),
        !marks_json(trimmed(content)),
        !marks_css(trimmed(content)),
        !marks_javascript(trimmed(content)),
        marks_python(trimmed(content)),
    ensures
        detected(content) == ("py"@, "script"@),
{
}

/// Marks of Markdown count where there are none of another type; content without any mark
/// is text.
pub proof fn law_detects_the_rest(content: Seq<char>)
    requires
        !marks_svg(trimmed(content)),
        !marks_html(trimmed(content)),
        !marks_json(trimmed(content)),
        !marks_css(trimmed(content)),
        !marks_javascript(trimmed(content)),
        !marks_python(trimmed(content)),
    ensures
        marks_markdown(trimmed(content)) ==> detected(content) == ("md"@, "document"@),
        !marks_markdown(trimmed(content)) ==> detected(content) == ("txt"@, "file"@),
{
}

proof fn lemma_no_space(s: Seq<char>, from: int, end: int)
    requires
        0 <= from <= end <= s.len(),
        forall|j: int| from <= j < end ==> (#[trigger] s[j]) != ' ',
        end < s.len() ==> s[end] == ' ',
    ensures
        first_index(s, " "@, from) == (if end < s.len() {
            Some(end)
        } else {
            None
        }),
{
    reveal_strlit(" ");
    lemma_first_index(s, " "@, from);
    assert forall|j: int| from <= j < end implies !occurs_at(s, " "@, j) by {
        assert(s.subrange(j, j + 1)[0] == s[j]);
        assert(" "@[0] == ' ');
    }
    if end < s.len() {
        assert(s.subrange(end, end + 1) =~= " "@);
        assert(occurs_at(s, " "@, end));
    }
}

/// A task that mentions a mockup behind a slash names a directory: from the last slash
/// before the first mention up to the next space, or to the end.
pub proof fn law_mockup_directory(
    before: Seq<char>,
    middle: Seq<char>,
    tail: Seq<char>,
    after: Seq<char>,
)
    requires
        forall|i: int| 0 <= i < middle.len() ==> (#[trigger] middle[i]) != '/',
        forall|i: int| 0 <= i < tail.len() ==> (#[trigger] tail[i]) != ' ',
        after.len() > 0 ==> after[0] == ' ',
        forall|j: int|
            0 <= j < before.len() + 1 + middle.len() ==> !occurs_at(
                before + seq!['/'] + middle + "mockup"@ + tail + after,
                "mockup"@,
                j,
            ),
    ensures
        context_directory(before + seq!['/'] + middle + "mockup"@ + tail + after) == Some(
            seq!['/'] + middle + "mockup"@ + tail,
        ),
{
    reveal_strlit("mockup");
    let word = "mockup"@;
    let context = before + seq!['/'] + middle + word + tail + after;
    let slash = before.len() as int;
    let start = slash + 1 + middle.len();
    let end = start + word.len() + tail.len();
    lemma_first_index(context, word, 0);
    assert(context.subrange(start, start + word.len()) =~= word);
    assert(occurs_at(context, word, start));
    assert(first_index(context, word, 0) == Some(start));
    lemma_last_slash(context, start);
    assert(context[slash] == '/');
    assert forall|j: int| slash < j < start implies context[j] != '/' by {
        assert(context[j] == middle[j - slash - 1]);
    }
    assert(last_slash(context, start) == Some(slash));
    assert forall|j: int| start <= j < end implies (#[trigger] context[j]) != ' ' by {
        if j < start + word.len() {
            assert(context[j] == word[j - start]);
        } else {
            assert(context[j] == tail[j - start - word.len()]);
        }
    }
    if end < context.len() {
        assert(context[end] == after[0]);
    }
    lemma_no_space(context, start, end);
    assert(context.subrange(slash, end) =~= seq!['/'] + middle + word + tail);
}

proof fn lemma_first_parent(ws: Seq<Seq<char>>)
    ensures
        match first_parent(ws) {
            Some(directory) => exists|k: int|
                {
                    &&& 0 <= k < ws.len()
                    &&& "/"@.is_prefix_of(#[trigger] ws[k])
                    &&& parent(ws[k]) == Some(directory)
                    &&& forall|j: int|
                        0 <= j < k ==> !("/"@.is_prefix_of(#[trigger] ws[j]) && parent(ws[j]) is Some)
                },
            None => forall|j: int|
                0 <= j < ws.len() ==> !("/"@.is_prefix_of(#[trigger] ws[j]) && parent(ws[j]) is Some),
        },
    decreases ws.len(),
{
    if ws.len() > 0 && !("/"@.is_prefix_of(ws[0]) && parent(ws[0]) is Some) {
        let rest = ws.drop_first();
        lemma_first_parent(rest);
        match first_parent(rest) {
            Some(directory) => {
                let k = choose|k: int|
                    {
                        &&& 0 <= k < rest.len()
                        &&& "/"@.is_prefix_of(#[trigger] rest[k])
                        &&& parent(rest[k]) == Some(directory)
                        &&& forall|j: int|
                            0 <= j < k ==> !("/"@.is_prefix_of(#[trigger] rest[j]) && parent(
                                rest[j],
                            ) is Some)
                    };
                assert(ws[k + 1] == rest[k]);
                assert forall|j: int| 0 <= j < k + 1 implies !("/"@.is_prefix_of(#[trigger] ws[j])
                    && parent(ws[j]) is Some) by {
                    if j > 0 {
                        assert(rest[j - 1] == ws[j]);
                    }
                }
            },
            None => {
                assert forall|j: int| 0 <= j < ws.len() implies !("/"@.is_prefix_of(
                    #[trigger] ws[j],
                ) && parent(ws[j]) is Some) by {
                    if j > 0 {
                        assert(rest[j - 1] == ws[j]);
                    }
                }
            },
        }
    }
}

/// A task that mentions no mockup behind a slash names the parent of its first word that
/// is an absolute path with a parent, and no directory where it has no such word.
pub proof fn law_directory_of_words(context: Seq<char>, start: int)
    requires
        !contains(context, "mockup"@) || ({
            &&& occurs_at(context, "mockup"@, start)
            &&& forall|j: int| 0 <= j < start ==> !occurs_at(context, "mockup"@, j)
            &&& forall|j: int| 0 <= j < start ==> (#[trigger] context[j]) != '/'
        }),
    ensures
        ({
            let ws = words(context);
            match context_directory(context) {
                Some(directory) => exists|k: int|
                    {
                        &&& 0 <= k < ws.len()
                        &&& "/"@.is_prefix_of(#[trigger] ws[k])
                        &&& parent(ws[k]) == Some(directory)
                        &&& forall|j: int|
                            0 <= j < k ==> !("/"@.is_prefix_of(#[trigger] ws[j]) && parent(
                                ws[j],
                            ) is Some)
                    },
                None => forall|j: int|
                    0 <= j < ws.len() ==> !("/"@.is_prefix_of(#[trigger] ws[j]) && parent(
                        ws[j],
                    ) is Some),
            }
        }),
{
    lemma_contains(context, "mockup"@);
    lemma_first_index(context, "mockup"@, 0);
    if contains(context, "mockup"@) {
        assert(first_index(context, "mockup"@, 0) == Some(start));
        lemma_last_slash(context, start);
    }
    assert(mockup_directory(context) is None);
    lemma_first_parent(words(context));
}

/// The name of the `k`th try: plain at first, then with the number of the try.
pub open spec fn numbered(base: Seq<char>, extension: Seq<char>, k: nat) -> Seq<char> {
    if k == 0 {
        base + "."@ + extension
    } else {
        base + "_"@ + decimal(k) + "."@ + extension
    }
}

/// The name of a new file is the plain one, or the one with the least number from 1 to
/// 999, whose path is not taken; there is none only where all thousand are taken.
pub proof fn law_name_of_new_file(
    directory: Seq<char>,
    base_name: Seq<char>,
    extension: Seq<char>,
    taken: Seq<Seq<char>>,
)
    ensures
        ({
            let base = sanitized(base_name);
            match unique_filename(directory, base_name, extension, taken) {
                Ok(name) => !taken.contains(joined(directory, name)) && exists|k: nat|
                    {
                        &&& k < 1000
                        &&& name == #[trigger] numbered(base, extension, k)
                        &&& forall|j: nat|
                            j < k ==> taken.contains(
                                joined(directory, #[trigger] numbered(base, extension, j)),
                            )
                    },
                Err(e) => e == "Unable to generate unique filename"@ && forall|j: nat|
                    j < 1000 ==> taken.contains(
                        joined(directory, #[trigger] numbered(base, extension, j)),
                    ),
            }
        }),
{
    let base = sanitized(base_name);
    law_unique_filename(directory, base_name, extension, taken);
    assert forall|j: nat| candidate(base, extension, j) == #[trigger] numbered(
        base,
        extension,
        j,
    ) by {}
    match unique_filename(directory, base_name, extension, taken) {
        Ok(name) => {
            let k = choose|k: nat|
                {
                    &&& k < 1000
                    &&& name == #[trigger] candidate(base, extension, k)
                    &&& forall|j: nat|
                        j < k ==> taken.contains(
                            joined(directory, #[trigger] candidate(base, extension, j)),
                        )
                };
            assert(name == numbered(base, extension, k));
            assert forall|j: nat| j < k implies taken.contains(
                joined(directory, #[trigger] numbered(base, extension, j)),
            ) by {
                assert(candidate(base, extension, j) == numbered(base, extension, j));
            }
        },
        Err(_) => {
            assert forall|j: nat| j < 1000 implies taken.contains(
                joined(directory, #[trigger] numbered(base, extension, j)),
            ) by {
                assert(candidate(base, extension, j) == numbered(base, extension, j));
            }
        },
    }
}

/// A new file goes into the directory that the task names, and else into the working
/// directory; its name and its extension are those that its content suggests.
pub proof fn law_path_of_new_file(
    content: Seq<char>,
    cwd: Seq<char>,
    task: Option<Seq<char>>,
    taken: Seq<Seq<char>>,
)
    ensures
        ({
            let directory = if task is Some && context_directory(task->0) is Some {
                context_directory(task->0)->0
            } else {
                cwd
            };
            &&& target_directory(cwd, task) == directory
            &&& match unique_filename(directory, detected(content).1, detected(content).0, taken) {
                Ok(name) => suggested_path(content, cwd, task, taken) == Ok::<Seq<char>, Seq<char>>(
                    joined(directory, name),
                ),
                Err(e) => suggested_path(content, cwd, task, taken) == Err::<Seq<char>, Seq<char>>(
                    e,
                ),
            }
        }),
{
}

/// Only a `write_file` call is completed. Its parameters have to be an object; where that
/// has a string as content and no path, a path for that content is put behind its members,
/// or completion fails as the search for a path does. Else they stay as they are.
pub proof fn law_completed(
    tool_name: Seq<char>,
    params: JsonView,
    cwd: Seq<char>,
    task: Option<Seq<char>>,
    taken: Seq<Seq<char>>,
)
    ensures
        ({
            let completed = completed_parameters(tool_name, params, cwd, task, taken);
            let content = lookup(params, "content"@);
            let lacks_path = lookup(params, "path"@) is None && content is Some && content->0 is Text;
            let suggested = suggested_path(content->0->Text_0, cwd, task, taken);
            &&& tool_name != "write_file"@ ==> completed == Ok::<JsonView, Seq<char>>(params)
            &&& tool_name == "write_file"@ && params !is Object ==> completed == Err::<
                JsonView,
                Seq<char>,
            >("Parameters must be an object"@)
            &&& tool_name == "write_file"@ && params is Object && !lacks_path ==> completed == Ok::<
                JsonView,
                Seq<char>,
            >(params)
            &&& tool_name == "write_file"@ && params is Object && lacks_path && suggested is Ok
                ==> completed == Ok::<JsonView, Seq<char>>(
                JsonView::Object(
                    params->Object_0.push(("path"@, JsonView::Text(suggested->Ok_0))),
                ),
            )
            &&& tool_name == "write_file"@ && params is Object && lacks_path && suggested is Err
                ==> completed == Err::<JsonView, Seq<char>>(suggested->Err_0)
            &&& pathless_content(tool_name, params) is Some == (tool_name == "write_file"@
                && params is Object && lacks_path)
            &&& pathless_content(tool_name, params) is Some ==> pathless_content(
                tool_name,
                params,
            )->0 == content->0->Text_0
        }),
{
}

/// The path that was added is the string that stands under that name now and did not
/// before.
pub proof fn law_added_path(before: JsonView, after: JsonView)
    ensures
        lookup(before, "path"@) is Some ==> added_path(before, after) is None,
        lookup(before, "path"@) is None ==> (added_path(before, after) matches Some(path)
            ==> lookup(after, "path"@) == Some(JsonView::Text(path))),
        lookup(before, "path"@) is None && (lookup(after, "path"@) matches Some(value) && value is Text)
            ==> added_path(before, after) is Some,
{
}

/// The paths that are tried for a file with that content, in order.
pub proof fn law_tries(directory: Seq<char>, content: Seq<char>, m: nat, j: int)
    requires
        0 <= j < m,
    ensures
        tries(directory, content, m).len() == m,
        tries(directory, content, m)[j] == joined(
            directory,
            numbered(sanitized(detected(content).1), detected(content).0, j as nat),
        ),
{
}

/// The purpose of content, and the title of an SVG document, as the laws above use them.
pub proof fn law_purpose(content: Seq<char>)
    ensures
        purpose(content) == mentioned_purpose(content),
        title_element(content) is None ==> svg_name(content) == mentioned_purpose(content),
        title_element(content) matches Some(title) ==> title.len() > 0 && svg_name(content) == Some(
            sanitized(title),
        ),
{
}

/// Optional texts and results are seen as they are.
pub proof fn law_outcomes(text: String, value: Json)
    ensures
        optional_text(Some(text)) == Some(text@),
        optional_text(None) is None,
        result_text(Ok(text)) == Ok::<Seq<char>, Seq<char>>(text@),
        result_text(Err(text)) == Err::<Seq<char>, Seq<char>>(text@),
        result_view(Ok(value)) == Ok::<JsonView, Seq<char>>(value@),
        result_view(Err(text)) == Err::<JsonView, Seq<char>>(text@),
{
}

} // verus!
