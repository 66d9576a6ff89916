//! Completion of the parameters of tool calls that lack a required one.
//!
//! A `write_file` call with content but no path gets a path: the file type and a base
//! name are read from the content, the directory from the task context. Whether a file
//! is already there only the host can tell, so the functions take the paths that are
//! known to be taken; the host probes the path it gets and asks again with that path
//! added to them where it exists.

use vstd::prelude::*;

use crate::json::{lookup, member, Json, JsonView};
use crate::paths::{find_last_slash, join, joined, last_slash, lemma_last_slash, parent, parent_of};
use crate::text::{
    chars_of, contains, contains_str, decimal, decimal_string, find_from, first_index,
    lemma_first_index, same_text, split_words, starts_with_str, texts, trim, trimmed, words,
};

verus! {

/// The number of file names that are tried before completion gives up.
pub const MAX_NAMES: u64 = 1000;

/// What completion knows about the call's surroundings.
#[derive(Debug, PartialEq, Eq)]
pub struct ParameterCompletionContext {
    /// The working directory.
    pub cwd: String,
    /// What the user asked for, if known.
    pub task_context: Option<String>,
}

/// The text in an optional string.
pub open spec fn optional_text(s: Option<String>) -> Option<Seq<char>> {
    match s {
        Some(t) => Some(t@),
        None => None,
    }
}

impl ParameterCompletionContext {
    /// A context with a working directory and no task context.
    pub fn new(cwd: String) -> (r: Self)
        ensures
            r.cwd == cwd,
            r.task_context is None,
    {
        Self { cwd, task_context: None }
    }

    /// The same context with that task context.
    pub fn with_task_context(self, context: String) -> (r: Self)
        ensures
            r.cwd == self.cwd,
            r.task_context == Some(context),
    {
        Self { cwd: self.cwd, task_context: Some(context) }
    }
}

/// The characters of the Unicode category `Cc`.
pub open spec fn is_control_char(c: char) -> bool {
    c <= '\u{1f}' || '\u{7f}' <= c <= '\u{9f}'
}

/// `char::is_control` tells whether the character is a control code, that is, whether
/// it is of the Unicode category `Cc`.
pub assume_specification[ char::is_control ](c: char) -> (r: bool)
    ensures
        r == is_control_char(c),
;

/// Whether `c` is kept out of file names; a space is, too.
pub open spec fn is_invalid_in_name(c: char) -> bool {
    ||| c == '/'
    ||| c == '\\'
    ||| c == ':'
    ||| c == '*'
    ||| c == '?'
    ||| c == '"'
    ||| c == '<'
    ||| c == '>'
    ||| c == '|'
    ||| c == ' '
    ||| is_control_char(c)
}

/// What stands for `c` in a file name.
pub open spec fn name_char(c: char) -> char {
    if is_invalid_in_name(c) {
        '_'
    } else {
        c
    }
}

/// `s` without its leading dots.
pub open spec fn strip_dots_start(s: Seq<char>) -> Seq<char>
    decreases s.len(),
{
    if s.len() > 0 && s[0] == '.' {
        strip_dots_start(s.drop_first())
    } else {
        s
    }
}

/// `s` without its trailing dots.
pub open spec fn strip_dots_end(s: Seq<char>) -> Seq<char>
    decreases s.len(),
{
    if s.len() > 0 && s.last() == '.' {
        strip_dots_end(s.drop_last())
    } else {
        s
    }
}

/// `name` with each invalid character made an underscore.
pub open spec fn name_chars(name: Seq<char>) -> Seq<char> {
    Seq::new(name.len(), |i: int| name_char(name[i]))
}

/// `name` as a file name: invalid characters become underscores, and the dots at both
/// ends go.
pub open spec fn sanitized(name: Seq<char>) -> Seq<char> {
    strip_dots_end(strip_dots_start(name_chars(name)))
}

/// Sanitize filename by replacing invalid characters.
pub fn sanitize_filename(name: &str) -> (r: String)
    ensures
        r@ == sanitized(name@),
{
    let cs: Vec<char> = chars_of(name);
    let mut mapped: String = String::new();
    let mut k: usize = 0;
    while k < cs.len()
        invariant
            k <= cs.len(),
            cs@ == name@,
            mapped@ == name_chars(name@).take(k as int),
        decreases cs.len() - k,
    {
        let c: char = cs[k];
        let invalid: bool = c == '/' || c == '\\' || c == ':' || c == '*' || c == '?' || c == '"'
            || c == '<' || c == '>' || c == '|' || c == ' ' || c.is_control();
        let mapped_char: char = if invalid {
            '_'
        } else {
            c
        };
        proof {
            assert(name_chars(name@).take(k + 1) =~= name_chars(name@).take(k as int).push(
                mapped_char,
            ));
        }
        mapped.push(mapped_char);
        k = k + 1;
    }
    let ghost s = name_chars(name@);
    proof {
        assert(s.take(k as int) =~= s);
    }
    let ms: Vec<char> = chars_of(mapped.as_str());
    let n: usize = ms.len();
    let mut i: usize = 0;
    proof {
        assert(s.subrange(0, n as int) =~= s);
    }
    while i < n && ms[i] == '.'
        invariant
            i <= n,
            n == ms@.len(),
            ms@ == s,
            strip_dots_start(s) == strip_dots_start(s.subrange(i as int, n as int)),
        decreases n - i,
    {
        proof {
            assert(s.subrange(i as int, n as int).drop_first() =~= s.subrange(i + 1, n as int));
        }
        i = i + 1;
    }
    let mut j: usize = n;
    while j > i && ms[j - 1] == '.'
        invariant
            i <= j <= n,
            n == ms@.len(),
            ms@ == s,
            strip_dots_end(strip_dots_start(s)) == strip_dots_end(s.subrange(i as int, j as int)),
        decreases j,
    {
        proof {
            assert(s.subrange(i as int, j as int).drop_last() =~= s.subrange(i as int, j - 1));
        }
        j = j - 1;
    }
    mapped.as_str().substring_char(i, j).to_string()
}

/// What the first `<title>` element of `content` holds, without the white space
/// around it; none where there is no such element or it holds nothing else.
pub open spec fn title_element(content: Seq<char>) -> Option<Seq<char>> {
    match first_index(content, "<title>"@, 0) {
        None => None,
        Some(tag) => {
            let start = tag + "<title>"@.len();
            match first_index(content, "</title>"@, start) {
                None => None,
                Some(end) => {
                    let title = trimmed(content.subrange(start, end));
                    if title.len() == 0 {
                        None
                    } else {
                        Some(title)
                    }
                },
            }
        },
    }
}

/// The name for the first purpose that `content` mentions.
pub open spec fn purpose(content: Seq<char>) -> Option<Seq<char>> {
    if contains(content, "dashboard"@) || contains(content, "仪表板"@) {
        Some("dashboard"@)
    } else if contains(content, "login"@) || contains(content, "登录"@) {
        Some("login"@)
    } else if contains(content, "chart"@) || contains(content, "图表"@) {
        Some("chart"@)
    } else if contains(content, "mockup"@) || contains(content, "视觉稿"@) {
        Some("mockup"@)
    } else {
        None
    }
}

/// The name that an SVG document suggests: its title, else its purpose.
pub open spec fn svg_name(content: Seq<char>) -> Option<Seq<char>> {
    match title_element(content) {
        Some(title) => Some(sanitized(title)),
        None => purpose(content),
    }
}

/// Extract title or meaningful name from SVG content.
pub fn extract_svg_title(content: &str) -> (r: Option<String>)
    ensures
        optional_text(r) == svg_name(content@),
{
    let cs: Vec<char> = chars_of(content);
    let open_tag: Vec<char> = chars_of("<title>");
    let close_tag: Vec<char> = chars_of("</title>");
    proof {
        lemma_first_index(content@, "<title>"@, 0);
        assert(cs.len() == content@.len());
    }
    if let Some(tag) = find_from(&cs, &open_tag, 0) {
        let start: usize = tag + open_tag.len();
        proof {
            lemma_first_index(content@, "</title>"@, start as int);
        }
        if let Some(end) = find_from(&cs, &close_tag, start) {
            let title: &str = trim(content.substring_char(start, end));
            if !title.is_empty() {
                return Some(sanitize_filename(title));
            }
        }
    }
    if contains_str(content, "dashboard") || contains_str(content, "仪表板") {
        return Some("dashboard".to_string());
    }
    if contains_str(content, "login") || contains_str(content, "登录") {
        return Some("login".to_string());
    }
    if contains_str(content, "chart") || contains_str(content, "图表") {
        return Some("chart".to_string());
    }
    if contains_str(content, "mockup") || contains_str(content, "视觉稿") {
        return Some("mockup".to_string());
    }
    None
}

/// `text`, already trimmed, looks like SVG.
pub open spec fn looks_like_svg(text: Seq<char>) -> bool {
    ||| "<?xml"@.is_prefix_of(text) && contains(text, "<svg"@)
    ||| "<svg"@.is_prefix_of(text)
}

/// `text`, already trimmed, looks like HTML.
pub open spec fn looks_like_html(text: Seq<char>) -> bool {
    "<!DOCTYPE html"@.is_prefix_of(text) || "<html"@.is_prefix_of(text)
}

/// `text`, already trimmed, looks like JSON: braces or brackets at both ends.
pub open spec fn looks_like_json(text: Seq<char>) -> bool {
    &&& text.len() > 0
    &&& (text[0] == '{' && text.last() == '}') || (text[0] == '[' && text.last() == ']')
}

/// `text`, already trimmed, looks like CSS.
pub open spec fn looks_like_css(text: Seq<char>) -> bool {
    &&& text.contains('{')
    &&& text.contains('}')
    &&& contains(text, "color:"@) || contains(text, "font-"@) || contains(text, "margin:"@)
}

/// `text`, already trimmed, looks like JavaScript.
pub open spec fn looks_like_javascript(text: Seq<char>) -> bool {
    ||| contains(text, "function"@)
    ||| contains(text, "const "@)
    ||| contains(text, "let "@)
    ||| contains(text, "var "@)
}

/// `text`, already trimmed, looks like Python.
pub open spec fn looks_like_python(text: Seq<char>) -> bool {
    ||| contains(text, "def "@)
    ||| contains(text, "import "@)
    ||| contains(text, "from "@)
    ||| "#!/usr/bin/env python"@.is_prefix_of(text)
}

/// `text`, already trimmed, looks like Markdown.
pub open spec fn looks_like_markdown(text: Seq<char>) -> bool {
    contains(text, "# "@) || contains(text, "## "@) || contains(text, "```"@)
}

/// The extension and the base name that `content` suggests; the first type that it
/// looks like counts.
pub open spec fn detected(content: Seq<char>) -> (Seq<char>, Seq<char>) {
    let text = trimmed(content);
    if looks_like_svg(text) {
        (
            "svg"@,
            match svg_name(content) {
                Some(name) => name,
                None => "diagram"@,
            },
        )
    } else if looks_like_html(text) {
        ("html"@, "page"@)
    } else if looks_like_json(text) {
        ("json"@, "data"@)
    } else if looks_like_css(text) {
        ("css"@, "styles"@)
    } else if looks_like_javascript(text) {
        ("js"@, "script"@)
    } else if looks_like_python(text) {
        ("py"@, "script"@)
    } else if looks_like_markdown(text) {
        ("md"@, "document"@)
    } else {
        ("txt"@, "file"@)
    }
}

/// Whether `c` stands in `s`.
fn has_char(s: &Vec<char>, c: char) -> (r: bool)
    ensures
        r == s@.contains(c),
{
    let mut i: usize = 0;
    while i < s.len()
        invariant
            i <= s.len(),
            forall|k: int| 0 <= k < i ==> s@[k] != c,
        decreases s.len() - i,
    {
        if s[i] == c {
            return true;
        }
        i = i + 1;
    }
    false
}

/// Detect file type and suggest base name from content.
pub fn detect_file_type_and_name(content: &str) -> (r: (String, String))
    ensures
        (r.0@, r.1@) == detected(content@),
{
    let text: &str = trim(content);

    // SVG detection
    if starts_with_str(text, "<?xml") && contains_str(text, "<svg") || starts_with_str(
        text,
        "<svg",
    ) {
        let name: String = match extract_svg_title(content) {
            Some(name) => name,
            None => "diagram".to_string(),
        };
        return ("svg".to_string(), name);
    }

    // HTML detection
    if starts_with_str(text, "<!DOCTYPE html") || starts_with_str(text, "<html") {
        return ("html".to_string(), "page".to_string());
    }

    // JSON detection
    let cs: Vec<char> = chars_of(text);
    let n: usize = cs.len();
    if n > 0 && ((cs[0] == '{' && cs[n - 1] == '}') || (cs[0] == '[' && cs[n - 1] == ']')) {
        return ("json".to_string(), "data".to_string());
    }

    // CSS detection
    if has_char(&cs, '{') && has_char(&cs, '}') && (contains_str(text, "color:") || contains_str(
        text,
        "font-",
    ) || contains_str(text, "margin:")) {
        return ("css".to_string(), "styles".to_string());
    }

    // JavaScript detection
    if contains_str(text, "function") || contains_str(text, "const ") || contains_str(text, "let ")
        || contains_str(text, "var ") {
        return ("js".to_string(), "script".to_string());
    }

    // Python detection
    if contains_str(text, "def ") || contains_str(text, "import ") || contains_str(text, "from ")
        || starts_with_str(text, "#!/usr/bin/env python") {
        return ("py".to_string(), "script".to_string());
    }

    // Markdown detection
    if contains_str(text, "# ") || contains_str(text, "## ") || contains_str(text, "```") {
        return ("md".to_string(), "document".to_string());
    }

    // Default to text
    ("txt".to_string(), "file".to_string())
}

/// Where the first word-breaking space at or after `from` stands, or the end.
pub open spec fn space_or_end(s: Seq<char>, from: int) -> int {
    match first_index(s, " "@, from) {
        Some(i) => i,
        None => s.len() as int,
    }
}

/// The directory that the first mention of a mockup in `context` names: from the last
/// slash before it up to the next space.
pub open spec fn mockup_directory(context: Seq<char>) -> Option<Seq<char>> {
    match first_index(context, "mockup"@, 0) {
        None => None,
        Some(start) => match last_slash(context, start) {
            None => None,
            Some(slash) => Some(context.subrange(slash, space_or_end(context, start))),
        },
    }
}

/// The parent of the first absolute path among `ws` that has one.
pub open spec fn first_parent(ws: Seq<Seq<char>>) -> Option<Seq<char>>
    decreases ws.len(),
{
    if ws.len() == 0 {
        None
    } else if "/"@.is_prefix_of(ws[0]) && parent(ws[0]) is Some {
        parent(ws[0])
    } else {
        first_parent(ws.drop_first())
    }
}

/// The directory that a task context names.
pub open spec fn context_directory(context: Seq<char>) -> Option<Seq<char>> {
    match mockup_directory(context) {
        Some(directory) => Some(directory),
        None => first_parent(words(context)),
    }
}

/// Extract directory path from task context.
pub fn extract_directory_from_context(context: &str) -> (r: Option<String>)
    ensures
        optional_text(r) == context_directory(context@),
{
    let cs: Vec<char> = chars_of(context);
    let mockup: Vec<char> = chars_of("mockup");
    let space: Vec<char> = chars_of(" ");
    proof {
        lemma_first_index(context@, "mockup"@, 0);
    }
    if let Some(start) = find_from(&cs, &mockup, 0) {
        proof {
            lemma_last_slash(context@, start as int);
            lemma_first_index(context@, " "@, start as int);
        }
        if let Some(slash) = find_last_slash(&cs, start) {
            let end: usize = match find_from(&cs, &space, start) {
                Some(end) => end,
                None => cs.len(),
            };
            return Some(context.substring_char(slash, end).to_string());
        }
    }
    let ws: Vec<String> = split_words(context);
    let mut i: usize = 0;
    let ghost all = words(context@);
    proof {
        assert(all.skip(0) =~= all);
    }
    while i < ws.len()
        invariant
            i <= ws.len(),
            texts(ws@) == all,
            first_parent(all) == first_parent(all.skip(i as int)),
            all == words(context@),
            mockup_directory(context@) is None,
        decreases ws.len() - i,
    {
        let word: &str = ws[i].as_str();
        proof {
            assert(all[i as int] == word@);
            assert(all.skip(i as int).drop_first() =~= all.skip(i + 1));
        }
        if starts_with_str(word, "/") {
            if let Some(path) = parent_of(word) {
                return Some(path);
            }
        }
        i = i + 1;
    }
    None
}

/// The file name of the `k`th try: the plain one first, then with a counter.
pub open spec fn candidate(base: Seq<char>, extension: Seq<char>, k: nat) -> Seq<char> {
    if k == 0 {
        base + "."@ + extension
    } else {
        base + "_"@ + decimal(k) + "."@ + extension
    }
}

/// The first try, from the `k`th on, whose path under `directory` is not taken.
pub open spec fn free_try(
    directory: Seq<char>,
    base: Seq<char>,
    extension: Seq<char>,
    taken: Seq<Seq<char>>,
    k: nat,
) -> Option<nat>
    decreases MAX_NAMES - k,
{
    if k >= MAX_NAMES {
        None
    } else if !taken.contains(joined(directory, candidate(base, extension, k))) {
        Some(k)
    } else {
        free_try(directory, base, extension, taken, k + 1)
    }
}

/// The file name that completion settles on.
pub open spec fn unique_filename(
    directory: Seq<char>,
    base_name: Seq<char>,
    extension: Seq<char>,
    taken: Seq<Seq<char>>,
) -> Result<Seq<char>, Seq<char>> {
    let base = sanitized(base_name);
    match free_try(directory, base, extension, taken, 0) {
        Some(k) => Ok(candidate(base, extension, k)),
        None => Err("Unable to generate unique filename"@),
    }
}

/// The texts in a result.
pub open spec fn result_text(r: Result<String, String>) -> Result<Seq<char>, Seq<char>> {
    match r {
        Ok(s) => Ok(s@),
        Err(e) => Err(e@),
    }
}

/// Whether `path` is one of `taken`.
fn is_taken(taken: &Vec<String>, path: &str) -> (r: bool)
    ensures
        r == texts(taken@).contains(path@),
{
    let mut i: usize = 0;
    while i < taken.len()
        invariant
            i <= taken.len(),
            forall|k: int| 0 <= k < i ==> (#[trigger] taken@[k])@ != path@,
        decreases taken.len() - i,
    {
        if same_text(taken[i].as_str(), path) {
            proof {
                assert(texts(taken@)[i as int] == path@);
            }
            return true;
        }
        i = i + 1;
    }
    proof {
        assert forall|k: int| 0 <= k < texts(taken@).len() implies texts(taken@)[k] != path@ by {
            assert(texts(taken@)[k] == taken@[k]@);
        }
    }
    false
}

/// Generate a unique filename to avoid conflicts: the first of the candidates whose
/// path under `directory` is not taken.
pub fn generate_unique_filename(
    directory: &str,
    base_name: &str,
    extension: &str,
    taken: &Vec<String>,
) -> (r: Result<String, String>)
    ensures
        result_text(r) == unique_filename(directory@, base_name@, extension@, texts(taken@)),
{
    let base: String = sanitize_filename(base_name);
    let mut k: u64 = 0;
    while k < MAX_NAMES
        invariant
            k <= MAX_NAMES,
            base@ == sanitized(base_name@),
            free_try(directory@, base@, extension@, texts(taken@), 0) == free_try(
                directory@,
                base@,
                extension@,
                texts(taken@),
                k as nat,
            ),
        decreases MAX_NAMES - k,
    {
        let mut filename: String = base.clone();
        if k > 0 {
            filename.append("_");
            let number: String = decimal_string(k);
            filename.append(number.as_str());
        }
        filename.append(".");
        filename.append(extension);
        proof {
            assert(filename@ =~= candidate(base@, extension@, k as nat));
        }
        let path: String = join(directory, filename.as_str());
        if !is_taken(taken, path.as_str()) {
            return Ok(filename);
        }
        k = k + 1;
    }
    Err("Unable to generate unique filename".to_string())
}

/// The directory for a new file: the one that the task context names, else the working
/// directory.
pub open spec fn target_directory(cwd: Seq<char>, task: Option<Seq<char>>) -> Seq<char> {
    match task {
        Some(context) => match context_directory(context) {
            Some(directory) => directory,
            None => cwd,
        },
        None => cwd,
    }
}

/// The path for a new file with that content.
pub open spec fn suggested_path(
    content: Seq<char>,
    cwd: Seq<char>,
    task: Option<Seq<char>>,
    taken: Seq<Seq<char>>,
) -> Result<Seq<char>, Seq<char>> {
    let directory = target_directory(cwd, task);
    match unique_filename(directory, detected(content).1, detected(content).0, taken) {
        Ok(name) => Ok(joined(directory, name)),
        Err(e) => Err(e),
    }
}

/// Generate a suitable file path based on content and context.
pub fn suggest_file_path(
    content: &str,
    context: &ParameterCompletionContext,
    taken: &Vec<String>,
) -> (r: Result<String, String>)
    ensures
        result_text(r) == suggested_path(
            content@,
            context.cwd@,
            optional_text(context.task_context),
            texts(taken@),
        ),
{
    let (extension, base_name): (String, String) = detect_file_type_and_name(content);
    let directory: String = match &context.task_context {
        Some(task) => match extract_directory_from_context(task.as_str()) {
            Some(directory) => directory,
            None => context.cwd.clone(),
        },
        None => context.cwd.clone(),
    };
    match generate_unique_filename(
        directory.as_str(),
        base_name.as_str(),
        extension.as_str(),
        taken,
    ) {
        Ok(filename) => Ok(join(directory.as_str(), filename.as_str())),
        Err(e) => Err(e),
    }
}

/// Parameters of `write_file` after completion.
pub open spec fn completed_write_file(
    params: JsonView,
    cwd: Seq<char>,
    task: Option<Seq<char>>,
    taken: Seq<Seq<char>>,
) -> Result<JsonView, Seq<char>> {
    match params {
        JsonView::Object(members) => {
            if member(members, "path"@) is Some {
                Ok(params)
            } else {
                match member(members, "content"@) {
                    Some(JsonView::Text(content)) => match suggested_path(content, cwd, task, taken) {
                        Ok(path) => Ok(
                            JsonView::Object(members.push(("path"@, JsonView::Text(path)))),
                        ),
                        Err(e) => Err(e),
                    },
                    _ => Ok(params),
                }
            }
        },
        _ => Err("Parameters must be an object"@),
    }
}

/// What a completed call holds.
pub open spec fn result_view(r: Result<Json, String>) -> Result<JsonView, Seq<char>> {
    match r {
        Ok(j) => Ok(j@),
        Err(e) => Err(e@),
    }
}

/// Auto-complete parameters for write_file tool calls. On success `params` holds what
/// is returned; on failure it is unchanged.
pub fn complete_write_file_params(
    params: &mut Json,
    context: &ParameterCompletionContext,
    taken: &Vec<String>,
) -> (r: Result<Json, String>)
    ensures
        result_view(r) == completed_write_file(
            old(params)@,
            context.cwd@,
            optional_text(context.task_context),
            texts(taken@),
        ),
        match r {
            Ok(j) => final(params)@ == j@,
            Err(_) => final(params)@ == old(params)@,
        },
{
    let is_object: bool = match &*params {
        Json::Object(_) => true,
        _ => false,
    };
    if !is_object {
        return Err("Parameters must be an object".to_string());
    }
    let mut path: Option<String> = None;
    if params.get("path").is_none() {
        if let Some(value) = params.get("content") {
            if let Some(content) = value.as_text() {
                match suggest_file_path(content.as_str(), context, taken) {
                    Ok(suggested) => {
                        path = Some(suggested);
                    },
                    Err(e) => {
                        return Err(e);
                    },
                }
            }
        }
    }
    if let Some(suggested) = path {
        params.push_member("path", Json::Text(suggested));
    }
    Ok(params.copy())
}

/// Parameters of a call of `tool_name` after completion.
pub open spec fn completed_parameters(
    tool_name: Seq<char>,
    params: JsonView,
    cwd: Seq<char>,
    task: Option<Seq<char>>,
    taken: Seq<Seq<char>>,
) -> Result<JsonView, Seq<char>> {
    if tool_name == "write_file"@ {
        completed_write_file(params, cwd, task, taken)
    } else {
        Ok(params)
    }
}

/// Attempts to auto-complete missing parameters for tool calls based on context.
pub fn auto_complete_parameters(
    tool_name: &str,
    params: Json,
    context: &ParameterCompletionContext,
    taken: &Vec<String>,
) -> (r: Result<Json, String>)
    ensures
        result_view(r) == completed_parameters(
            tool_name@,
            params@,
            context.cwd@,
            optional_text(context.task_context),
            texts(taken@),
        ),
{
    if same_text(tool_name, "write_file") {
        let mut params: Json = params;
        complete_write_file_params(&mut params, context, taken)
    } else {
        Ok(params)
    }
}

/// The path that completion added.
pub open spec fn added_path(before: JsonView, after: JsonView) -> Option<Seq<char>> {
    if lookup(before, "path"@) is None {
        match lookup(after, "path"@) {
            Some(JsonView::Text(path)) => Some(path),
            _ => None,
        }
    } else {
        None
    }
}

/// The path that completion added, if it added one.
pub fn path_added(before: &Json, after: &Json) -> (r: Option<String>)
    ensures
        optional_text(r) == added_path(before@, after@),
{
    if before.get("path").is_some() {
        return None;
    }
    match after.get("path") {
        Some(value) => match value.as_text() {
            Some(path) => Some(path.clone()),
            None => None,
        },
        None => None,
    }
}

proof fn lemma_member_push(
    members: Seq<(Seq<char>, JsonView)>,
    key: Seq<char>,
    value: JsonView,
    wanted: Seq<char>,
)
    ensures
        member(members.push((key, value)), wanted) == (match member(members, wanted) {
            Some(v) => Some(v),
            None => if wanted == key {
                Some(value)
            } else {
                None
            },
        }),
    decreases members.len(),
{
    let longer = members.push((key, value));
    if members.len() == 0 {
        assert(longer.drop_first() =~= Seq::empty());
        assert(member(longer.drop_first(), wanted) is None);
    } else if members[0].0 != wanted {
        assert(longer.drop_first() =~= members.drop_first().push((key, value)));
        lemma_member_push(members.drop_first(), key, value, wanted);
    }
}

/// Completion changes no parameter that was given, and adds none but a path, and that
/// only to a `write_file` call that has none.
pub proof fn law_completion_keeps_parameters(
    tool_name: Seq<char>,
    params: JsonView,
    cwd: Seq<char>,
    task: Option<Seq<char>>,
    taken: Seq<Seq<char>>,
    key: Seq<char>,
)
    requires
        completed_parameters(tool_name, params, cwd, task, taken) is Ok,
    ensures
        ({
            let completed = completed_parameters(tool_name, params, cwd, task, taken)->Ok_0;
            &&& lookup(params, key) is Some ==> lookup(completed, key) == lookup(params, key)
            &&& key != "path"@ || tool_name != "write_file"@ ==> lookup(completed, key) == lookup(
                params,
                key,
            )
        }),
{
    if tool_name == "write_file"@ {
        match params {
            JsonView::Object(members) => {
                match member(members, "content"@) {
                    Some(JsonView::Text(content)) => {
                        match suggested_path(content, cwd, task, taken) {
                            Ok(path) => {
                                lemma_member_push(members, "path"@, JsonView::Text(path), key);
                            },
                            Err(_) => {},
                        }
                    },
                    _ => {},
                }
            },
            _ => {},
        }
    }
}

proof fn lemma_free_try(
    directory: Seq<char>,
    base: Seq<char>,
    extension: Seq<char>,
    taken: Seq<Seq<char>>,
    k: nat,
)
    requires
        k <= MAX_NAMES,
    ensures
        match free_try(directory, base, extension, taken, k) {
            Some(f) => k <= f < MAX_NAMES && !taken.contains(
                joined(directory, candidate(base, extension, f)),
            ) && forall|j: nat|
                k <= j < f ==> taken.contains(
                    joined(directory, #[trigger] candidate(base, extension, j)),
                ),
            None => forall|j: nat|
                k <= j < MAX_NAMES ==> taken.contains(
                    joined(directory, #[trigger] candidate(base, extension, j)),
                ),
        },
    decreases MAX_NAMES - k,
{
    if k < MAX_NAMES {
        lemma_free_try(directory, base, extension, taken, k + 1);
    }
}

/// The name that is generated is the first of its tries whose path is free, and none is
/// generated only where the paths of all tries are taken.
pub proof fn law_unique_filename(
    directory: Seq<char>,
    base_name: Seq<char>,
    extension: Seq<char>,
    taken: Seq<Seq<char>>,
)
    ensures
        match unique_filename(directory, base_name, extension, taken) {
            Ok(name) => !taken.contains(joined(directory, name)) && exists|k: nat|
                {
                    &&& k < MAX_NAMES
                    &&& name == #[trigger] candidate(sanitized(base_name), extension, k)
                    &&& forall|j: nat|
                        j < k ==> taken.contains(
                            joined(
                                directory,
                                #[trigger] candidate(sanitized(base_name), extension, j),
                            ),
                        )
                },
            Err(_) => forall|j: nat|
                j < MAX_NAMES ==> taken.contains(
                    joined(directory, #[trigger] candidate(sanitized(base_name), extension, j)),
                ),
        },
{
    lemma_free_try(directory, sanitized(base_name), extension, taken, 0);
}

/// A path that completion adds is not one of those that are taken.
pub proof fn law_added_path_is_free(
    tool_name: Seq<char>,
    params: JsonView,
    cwd: Seq<char>,
    task: Option<Seq<char>>,
    taken: Seq<Seq<char>>,
)
    requires
        completed_parameters(tool_name, params, cwd, task, taken) is Ok,
    ensures
        added_path(
            params,
            completed_parameters(tool_name, params, cwd, task, taken)->Ok_0,
        ) matches Some(path) ==> !taken.contains(path),
{
    if tool_name == "write_file"@ {
        match params {
            JsonView::Object(members) => {
                match member(members, "content"@) {
                    Some(JsonView::Text(content)) => {
                        let directory = target_directory(cwd, task);
                        law_unique_filename(
                            directory,
                            detected(content).1,
                            detected(content).0,
                            taken,
                        );
                        match suggested_path(content, cwd, task, taken) {
                            Ok(path) => {
                                lemma_member_push(members, "path"@, JsonView::Text(path), "path"@);
                            },
                            Err(_) => {},
                        }
                    },
                    _ => {},
                }
            },
            _ => {},
        }
    }
}

proof fn lemma_strip_start(s: Seq<char>)
    ensures
        ({
            let r = strip_dots_start(s);
            &&& r.len() <= s.len()
            &&& r =~= s.skip(s.len() - r.len())
            &&& r.len() > 0 ==> r[0] != '.'
        }),
    decreases s.len(),
{
    if s.len() > 0 && s[0] == '.' {
        lemma_strip_start(s.drop_first());
    }
}

proof fn lemma_strip_end(s: Seq<char>)
    ensures
        ({
            let r = strip_dots_end(s);
            &&& r.len() <= s.len()
            &&& r =~= s.take(r.len() as int)
            &&& r.len() > 0 ==> r.last() != '.'
        }),
    decreases s.len(),
{
    if s.len() > 0 && s.last() == '.' {
        lemma_strip_end(s.drop_last());
    }
}

/// A sanitized name holds no character that is invalid in a file name and neither
/// starts nor ends with a dot, and to sanitize it again changes nothing.
pub proof fn law_sanitized(name: Seq<char>)
    ensures
        forall|i: int|
            0 <= i < sanitized(name).len() ==> !is_invalid_in_name(#[trigger] sanitized(name)[i]),
        sanitized(name).len() > 0 ==> sanitized(name)[0] != '.' && sanitized(name).last() != '.',
        sanitized(sanitized(name)) == sanitized(name),
{
    let mapped = name_chars(name);
    let front = strip_dots_start(mapped);
    let r = sanitized(name);
    lemma_strip_start(mapped);
    lemma_strip_end(front);
    assert forall|i: int| 0 <= i < r.len() implies !is_invalid_in_name(#[trigger] r[i]) by {
        assert(r[i] == mapped[mapped.len() - front.len() + i]);
    }
    assert(name_chars(r) =~= r);
}

proof fn lemma_suffix(front: Seq<char>, back: Seq<char>, tail: Seq<char>)
    requires
        tail.is_suffix_of(back),
    ensures
        tail.is_suffix_of(front + back),
{
    let whole = front + back;
    let at = back.len() - tail.len();
    assert(whole.subrange(front.len() + at, whole.len() as int) =~= back.subrange(
        at,
        back.len() as int,
    ));
}

proof fn lemma_candidate_suffix(base: Seq<char>, extension: Seq<char>, k: nat)
    ensures
        ("."@ + extension).is_suffix_of(candidate(base, extension, k)),
{
    let tail = "."@ + extension;
    let stem = if k == 0 {
        base
    } else {
        base + "_"@ + decimal(k)
    };
    assert(candidate(base, extension, k) =~= stem + tail);
    assert(tail.subrange(0, tail.len() as int) =~= tail);
    lemma_suffix(stem, tail, tail);
}

proof fn lemma_joined_suffix(directory: Seq<char>, name: Seq<char>, tail: Seq<char>)
    requires
        tail.is_suffix_of(name),
    ensures
        tail.is_suffix_of(joined(directory, name)),
{
    lemma_suffix(directory, name, tail);
    lemma_suffix(directory.push('/'), name, tail);
}

proof fn lemma_unique_suffix(
    directory: Seq<char>,
    base_name: Seq<char>,
    extension: Seq<char>,
    taken: Seq<Seq<char>>,
)
    ensures
        unique_filename(directory, base_name, extension, taken) matches Ok(name) ==> ("."@
            + extension).is_suffix_of(joined(directory, name)),
{
    let base = sanitized(base_name);
    match free_try(directory, base, extension, taken, 0) {
        Some(k) => {
            lemma_candidate_suffix(base, extension, k);
            lemma_joined_suffix(directory, candidate(base, extension, k), "."@ + extension);
        },
        None => {},
    }
}

/// The path of a new file ends in the extension that its content suggests.
pub proof fn law_suggested_extension(
    content: Seq<char>,
    cwd: Seq<char>,
    task: Option<Seq<char>>,
    taken: Seq<Seq<char>>,
)
    ensures
        suggested_path(content, cwd, task, taken) matches Ok(path) ==> ("."@ + detected(
            content,
        ).0).is_suffix_of(path),
{
    lemma_unique_suffix(
        target_directory(cwd, task),
        detected(content).1,
        detected(content).0,
        taken,
    );
}

proof fn lemma_decimal_injective(a: nat, b: nat)
    ensures
        decimal(a).len() >= 1,
        decimal(a) == decimal(b) ==> a == b,
    decreases a,
{
    let x = decimal(a);
    let y = decimal(b);
    if a >= 10 {
        lemma_decimal_injective(a / 10, b / 10);
        assert(x.drop_last() =~= decimal(a / 10));
    }
    if b >= 10 {
        assert(y.drop_last() =~= decimal(b / 10));
        lemma_decimal_nonempty(b / 10);
    }
    if x == y {
        assert(x.last() == y.last());
    }
}

proof fn lemma_decimal_nonempty(n: nat)
    ensures
        decimal(n).len() >= 1,
{
}

/// No two tries for a file name propose the same path.
pub proof fn law_tries_are_distinct(
    directory: Seq<char>,
    base_name: Seq<char>,
    extension: Seq<char>,
    a: nat,
    b: nat,
)
    requires
        a != b,
    ensures
        joined(directory, candidate(sanitized(base_name), extension, a)) != joined(
            directory,
            candidate(sanitized(base_name), extension, b),
        ),
{
    let base = sanitized(base_name);
    let x = candidate(base, extension, a);
    let y = candidate(base, extension, b);
    law_sanitized(base_name);
    reveal_strlit(".");
    reveal_strlit("_");
    lemma_decimal_nonempty(a);
    lemma_decimal_nonempty(b);
    assert(x[0] != '/' && y[0] != '/') by {
        if base.len() > 0 {
            assert(!is_invalid_in_name(base[0]));
        }
    }
    if joined(directory, x) == joined(directory, y) {
        let p = joined(directory, x);
        assert(p.skip(p.len() - x.len()) =~= x);
        assert(p.skip(p.len() - y.len()) =~= y);
        assert(x == y);
        if a != 0 && b != 0 {
            let n = base.len() as int + 1;
            assert(x.subrange(n, n + decimal(a).len()) =~= decimal(a));
            assert(y.subrange(n, n + decimal(b).len()) =~= decimal(b));
            lemma_decimal_injective(a, b);
        }
    }
}

/// The paths of the first `m` tries for a file with that content in `directory`.
pub open spec fn tries(directory: Seq<char>, content: Seq<char>, m: nat) -> Seq<Seq<char>> {
    Seq::new(
        m,
        |j: int|
            joined(
                directory,
                candidate(sanitized(detected(content).1), detected(content).0, j as nat),
            ),
    )
}

/// The content of a call that completion would give a path.
pub open spec fn pathless_content(tool_name: Seq<char>, params: JsonView) -> Option<Seq<char>> {
    if tool_name == "write_file"@ && lookup(params, "path"@) is None {
        match lookup(params, "content"@) {
            Some(JsonView::Text(content)) => Some(content),
            _ => None,
        }
    } else {
        None
    }
}

/// A host that is asked to probe path after path, and finds each taken, is asked for
/// the tries in their order; after the last of them completion gives up.
pub proof fn law_tries_in_order(
    tool_name: Seq<char>,
    params: JsonView,
    cwd: Seq<char>,
    task: Option<Seq<char>>,
    m: nat,
)
    requires
        m <= MAX_NAMES,
        pathless_content(tool_name, params) is Some,
    ensures
        ({
            let content = pathless_content(tool_name, params)->0;
            let directory = target_directory(cwd, task);
            let taken = tries(directory, content, m);
            let completed = completed_parameters(tool_name, params, cwd, task, taken);
            &&& m < MAX_NAMES ==> completed is Ok && added_path(params, completed->Ok_0) == Some(
                tries(directory, content, m + 1)[m as int],
            )
            &&& m == MAX_NAMES ==> completed is Err
        }),
{
    let content = pathless_content(tool_name, params)->0;
    let directory = target_directory(cwd, task);
    let taken = tries(directory, content, m);
    let base_name = detected(content).1;
    let base = sanitized(base_name);
    let extension = detected(content).0;
    lemma_free_try(directory, base, extension, taken, 0);
    let found = free_try(directory, base, extension, taken, 0);
    assert forall|j: nat| j < m implies taken.contains(
        joined(directory, #[trigger] candidate(base, extension, j)),
    ) by {
        assert(taken[j as int] == joined(directory, candidate(base, extension, j)));
    }
    if m < MAX_NAMES {
        let next = joined(directory, candidate(base, extension, m));
        assert(!taken.contains(next)) by {
            if taken.contains(next) {
                let j = choose|j: int| 0 <= j < taken.len() && taken[j] == next;
                law_tries_are_distinct(directory, base_name, extension, j as nat, m);
            }
        }
        assert(found == Some(m));
        let members = params->Object_0;
        lemma_member_push(members, "path"@, JsonView::Text(next), "path"@);
    }
}

/// Completion adds a path to nothing but a `write_file` call with content and no path.
pub proof fn law_added_only_to_pathless(
    tool_name: Seq<char>,
    params: JsonView,
    cwd: Seq<char>,
    task: Option<Seq<char>>,
    taken: Seq<Seq<char>>,
)
    requires
        completed_parameters(tool_name, params, cwd, task, taken) is Ok,
    ensures
        pathless_content(tool_name, params) is None ==> completed_parameters(
            tool_name,
            params,
            cwd,
            task,
            taken,
        )->Ok_0 == params,
{
}

} // verus!
