//! Laws of the web fetch: what is sent, what becomes of a response, and when a page is
//! rendered in a browser.

use vstd::prelude::*;

use crate::fetch_run::{failed, goes_on_with_page, goes_on_with_response, succeeded, FetchPhase};
use crate::json::{lookup, JsonView};
use crate::laws::text::{all_white, law_trimmed, tight};
use crate::text::{
    byte_len, clipped, contains, decimal, first_index, lemma_first_index, occurs_at, trimmed,
};
use crate::types::{ContentView, Retention, ToolErrorView, ToolResultView};
use crate::web_fetch::{
    binary, failure, fetched, headers_schema, html_text, is_binary, media_type, named_headers,
    named_url, page_step, page_text, pairs, properties_schema, refused, rendered_page, schema,
    stable_after, text_members, text_or_source, truncated, typed_schema, wants_browser, BodyStep,
    RenderWatch, BROWSER_POLL_INTERVAL_MS, BROWSER_RENDER_WAIT_SECS, BROWSER_TIMEOUT_SECS,
    TIMEOUT_SECS,
};

verus! {

/// How many of the first `n` members have a string as value.
pub open spec fn text_count(members: Seq<(Seq<char>, JsonView)>, n: int) -> nat
    decreases n,
{
    if n <= 0 {
        0
    } else {
        text_count(members, n - 1) + (if members[n - 1].1 is Text {
            1nat
        } else {
            0
        })
    }
}

proof fn lemma_count_prefix(members: Seq<(Seq<char>, JsonView)>, k: int, n: int)
    requires
        n <= k <= members.len(),
    ensures
        text_count(members.take(k), n) == text_count(members, n),
    decreases n,
{
    if n > 0 {
        lemma_count_prefix(members, k, n - 1);
    }
}

/// Each member whose value is a string, whatever that string is, is sent as a header with
/// its name and its value, at the place that the strings before it leave to it; as many
/// headers are sent as there are strings, so nothing else is.
pub proof fn law_headers_are_sent(members: Seq<(Seq<char>, JsonView)>)
    ensures
        text_members(members).len() == text_count(members, members.len() as int),
        forall|i: int|
            0 <= i < members.len() && (#[trigger] members[i]).1 is Text ==> {
                let sent = text_members(members);
                let at = text_count(members, i) as int;
                &&& at < sent.len()
                &&& sent[at] == (members[i].0, members[i].1->Text_0)
                &&& sent.contains((members[i].0, members[i].1->Text_0))
            },
    decreases members.len(),
{
    if members.len() > 0 {
        let n = members.len() - 1;
        let front = members.drop_last();
        assert(front =~= members.take(n));
        law_headers_are_sent(front);
        lemma_count_prefix(members, n, n);
        let sent = text_members(members);
        let before = text_members(front);
        assert forall|i: int| 0 <= i < members.len() && (#[trigger] members[i]).1 is Text implies ({
            let at = text_count(members, i) as int;
            &&& at < sent.len()
            &&& sent[at] == (members[i].0, members[i].1->Text_0)
            &&& sent.contains((members[i].0, members[i].1->Text_0))
        }) by {
            lemma_count_prefix(members, n, i);
            if i < n {
                assert(front[i] == members[i]);
                assert(before[text_count(members, i) as int] == (
                    members[i].0,
                    members[i].1->Text_0,
                ));
            }
            assert(sent[text_count(members, i) as int] == (members[i].0, members[i].1->Text_0));
        }
    }
}

/// A member behind the others adds its header behind theirs where it is a string, and
/// none where it is not.
pub proof fn law_next_header(
    members: Seq<(Seq<char>, JsonView)>,
    name: Seq<char>,
    value: Seq<char>,
    other: JsonView,
)
    requires
        other !is Text,
    ensures
        text_members(Seq::<(Seq<char>, JsonView)>::empty()).len() == 0,
        text_members(members.push((name, JsonView::Text(value)))) == text_members(members).push(
            (name, value),
        ),
        text_members(members.push((name, other))) == text_members(members),
{
    assert(members.push((name, JsonView::Text(value))).drop_last() =~= members);
    assert(members.push((name, other)).drop_last() =~= members);
}

/// A header is sent only for a member of that name and value.
pub proof fn law_no_other_header(members: Seq<(Seq<char>, JsonView)>, k: int)
    requires
        0 <= k < text_members(members).len(),
    ensures
        exists|i: int|
            0 <= i < members.len() && #[trigger] members[i] == (
                text_members(members)[k].0,
                JsonView::Text(text_members(members)[k].1),
            ) && text_count(members, i) == k,
    decreases members.len(),
{
    let n = members.len() - 1;
    let front = members.drop_last();
    assert(front =~= members.take(n));
    law_headers_are_sent(front);
    lemma_count_prefix(members, n, n);
    if k < text_members(front).len() {
        law_no_other_header(front, k);
        let i = choose|i: int|
            0 <= i < front.len() && #[trigger] front[i] == (
                text_members(front)[k].0,
                JsonView::Text(text_members(front)[k].1),
            ) && text_count(front, i) == k;
        lemma_count_prefix(members, n, i);
        assert(members[i] == front[i]);
    } else {
        assert(members[n] == (
            text_members(members)[k].0,
            JsonView::Text(text_members(members)[k].1),
        ));
    }
}

/// The headers are the members of the object that the parameters have under that name;
/// without such an object there are none. The URL is a string under its name.
pub proof fn law_parameters(params: JsonView)
    ensures
        match lookup(params, "headers"@) {
            Some(JsonView::Object(members)) => named_headers(params) == members,
            _ => named_headers(params).len() == 0,
        },
        match lookup(params, "url"@) {
            Some(JsonView::Text(url)) => named_url(params) == Some(url),
            _ => named_url(params) is None,
        },
{
}

/// The headers of a request are its names and values, one each and in order.
pub proof fn law_pairs(v: Seq<(String, String)>)
    ensures
        pairs(v).len() == v.len(),
        forall|i: int| 0 <= i < v.len() ==> pairs(v)[i] == ((#[trigger] v[i]).0@, v[i].1@),
{
}

/// Without headers of its own, a page is rendered in a browser where its text without
/// the white space around it takes less than two hundred bytes, whatever its characters;
/// with such headers it never is.
pub proof fn law_browser(before: Seq<char>, core: Seq<char>, after: Seq<char>)
    requires
        all_white(before),
        all_white(after),
        tight(core),
    ensures
        wants_browser(before + core + after, false) == (vstd::utf8::encode_utf8(core).len() < 200),
        !wants_browser(before + core + after, true),
{
    law_trimmed(before, core, after);
}

/// The decision for the browser goes by the length of the trimmed text and by the headers
/// alone.
pub proof fn law_browser_by_length(text: Seq<char>, has_custom_headers: bool)
    ensures
        wants_browser(text, has_custom_headers) <==> !has_custom_headers && byte_len(trimmed(text))
            < 200,
{
}

/// Media types whose content is binary.
pub open spec fn names_binary(media: Seq<char>) -> bool {
    let archives = seq![
        "application/zip"@,
        "application/x-zip-compressed"@,
        "application/gzip"@,
        "application/x-tar"@,
        "application/x-rar-compressed"@,
        "application/x-7z-compressed"@,
    ];
    let documents = seq![
        "application/pdf"@,
        "application/msword"@,
        "application/vnd.ms-excel"@,
        "application/vnd.ms-powerpoint"@,
        "application/vnd.openxmlformats-officedocument.wordprocessingml.document"@,
        "application/vnd.openxmlformats-officedocument.spreadsheetml.sheet"@,
        "application/vnd.openxmlformats-officedocument.presentationml.presentation"@,
    ];
    let code = seq!["application/octet-stream"@, "application/wasm"@];
    archives.contains(media) || documents.contains(media) || code.contains(media)
        || "image/"@.is_prefix_of(media) || "audio/"@.is_prefix_of(media)
        || "video/"@.is_prefix_of(media)
}

proof fn lemma_names_binary(content_type: Seq<char>)
    ensures
        is_binary(content_type) == names_binary(media_type(content_type)),
{
    let media = media_type(content_type);
    let archives = seq![
        "application/zip"@,
        "application/x-zip-compressed"@,
        "application/gzip"@,
        "application/x-tar"@,
        "application/x-rar-compressed"@,
        "application/x-7z-compressed"@,
    ];
    let documents = seq![
        "application/pdf"@,
        "application/msword"@,
        "application/vnd.ms-excel"@,
        "application/vnd.ms-powerpoint"@,
        "application/vnd.openxmlformats-officedocument.wordprocessingml.document"@,
        "application/vnd.openxmlformats-officedocument.spreadsheetml.sheet"@,
        "application/vnd.openxmlformats-officedocument.presentationml.presentation"@,
    ];
    let code = seq!["application/octet-stream"@, "application/wasm"@];
    assert(archives[0] == "application/zip"@ && archives[1] == "application/x-zip-compressed"@
        && archives[2] == "application/gzip"@ && archives[3] == "application/x-tar"@ && archives[4]
        == "application/x-rar-compressed"@ && archives[5] == "application/x-7z-compressed"@);
    assert(documents[0] == "application/pdf"@ && documents[1] == "application/msword"@
        && documents[2] == "application/vnd.ms-excel"@ && documents[3]
        == "application/vnd.ms-powerpoint"@ && documents[4]
        == "application/vnd.openxmlformats-officedocument.wordprocessingml.document"@
        && documents[5] == "application/vnd.openxmlformats-officedocument.spreadsheetml.sheet"@
        && documents[6]
        == "application/vnd.openxmlformats-officedocument.presentationml.presentation"@);
    assert(code[0] == "application/octet-stream"@ && code[1] == "application/wasm"@);
    assert(names_binary(media) == (archives.contains(media) || documents.contains(media)
        || code.contains(media) || "image/"@.is_prefix_of(media) || "audio/"@.is_prefix_of(media)
        || "video/"@.is_prefix_of(media)));
}

/// Content is binary where its media type names archives, office documents, programs,
/// images, sound or films, white space around it left out; it does not matter what
/// parameters follow.
pub proof fn law_binary_content(
    before: Seq<char>,
    media: Seq<char>,
    after: Seq<char>,
    parameters: Seq<char>,
)
    requires
        all_white(before),
        all_white(after),
        tight(media),
        forall|i: int|
            0 <= i < before.len() + media.len() + after.len() ==> #[trigger] (before + media
                + after)[i] != ';',
    ensures
        is_binary(before + media + after) == names_binary(media),
        is_binary(before + media + after + seq![';'] + parameters) == names_binary(media),
{
    let plain = before + media + after;
    let full = plain + seq![';'] + parameters;
    reveal_strlit(";");
    law_trimmed(before, media, after);
    lemma_first_index(plain, ";"@, 0);
    assert forall|j: int| 0 <= j implies !occurs_at(plain, ";"@, j) by {
        if j < plain.len() {
            assert(plain.subrange(j, j + 1)[0] == plain[j]);
            assert(";"@[0] == ';');
        }
    }
    assert(first_index(plain, ";"@, 0) is None);
    let at = plain.len() as int;
    lemma_first_index(full, ";"@, 0);
    assert(full.subrange(at, at + 1) =~= ";"@);
    assert(occurs_at(full, ";"@, at));
    assert forall|j: int| 0 <= j < at implies !occurs_at(full, ";"@, j) by {
        assert(full.subrange(j, j + 1)[0] == full[j]);
        assert(full[j] == plain[j]);
        assert(";"@[0] == ';');
    }
    assert(first_index(full, ";"@, 0) == Some(at));
    assert(full.take(at) =~= plain);
    lemma_names_binary(plain);
    lemma_names_binary(full);
}

/// What is shown of a text: all of it up to 512 KiB; of a longer one what fits into them,
/// and a note.
pub open spec fn shown(text: Seq<char>) -> Seq<char> {
    if byte_len(text) <= 524_288 {
        text
    } else {
        clipped(text, 524_288) + "\n... (response truncated at 512KB)"@
    }
}

/// A number of bytes that a text does not exceed leaves it whole; else what fits is
/// followed by the note.
pub proof fn law_truncated(text: Seq<char>, limit: int)
    ensures
        byte_len(text) <= limit ==> truncated(text, limit) == text,
        byte_len(text) > limit ==> truncated(text, limit) == clipped(text, limit)
            + "\n... (response truncated at 512KB)"@,
        truncated(text, 524_288) == shown(text),
{
}

/// Text from a request and text from the browser give results that differ in the way
/// they were read alone.
pub proof fn law_shown_text(text: Seq<char>, status: u16)
    ensures
        fetched(text, status) == (ToolResultView {
            content: seq![ContentView::Text(shown(text))],
            details: JsonView::Object(
                seq![
                    ("status"@, JsonView::Number(decimal(status as nat))),
                    ("renderer"@, JsonView::Text("reqwest"@)),
                ],
            ),
            retention: Retention::Normal,
        }),
        rendered_page(text, status) == (ToolResultView {
            content: seq![ContentView::Text(shown(text))],
            details: JsonView::Object(
                seq![
                    ("status"@, JsonView::Number(decimal(status as nat))),
                    ("renderer"@, JsonView::Text("browser_fallback"@)),
                ],
            ),
            retention: Retention::Normal,
        }),
{
}

/// A refusal names the status and the URL, and keeps the whole body in its details.
pub proof fn law_refused(url: Seq<char>, status: u16, body: Seq<char>)
    ensures
        refused(url, status, body) == (ToolResultView {
            content: seq![
                ContentView::Text("HTTP "@ + decimal(status as nat) + " error fetching "@ + url),
            ],
            details: JsonView::Object(
                seq![
                    ("status"@, JsonView::Number(decimal(status as nat))),
                    ("error"@, JsonView::Bool(true)),
                    ("body"@, JsonView::Text(body)),
                ],
            ),
            retention: Retention::Normal,
        }),
{
}

/// Binary content is named by its type and not shown.
pub proof fn law_binary_result(content_type: Seq<char>, status: u16)
    ensures
        binary(content_type, status) == (ToolResultView {
            content: seq![
                ContentView::Text(
                    "Cannot display binary content (content-type: "@ + content_type
                        + "). Only text-based URLs are supported."@,
                ),
            ],
            details: JsonView::Object(
                seq![
                    ("status"@, JsonView::Number(decimal(status as nat))),
                    ("binary"@, JsonView::Bool(true)),
                ],
            ),
            retention: Retention::Normal,
        }),
{
}

/// What was made of a page stands for it, and its source where nothing could be made;
/// text is made of it at a hundred columns.
pub proof fn law_page_text(html: Seq<char>, text: Seq<char>)
    ensures
        text_or_source(html, Some(text)) == text,
        text_or_source(html, None) == html,
        page_text(html) == (match html_text(html, 100usize) {
            Some(made) => made,
            None => html,
        }),
{
}

/// A run is over with the one result or the one error that it holds.
pub proof fn law_run_is_over(phase: FetchPhase, result: ToolResultView, error: ToolErrorView)
    ensures
        succeeded(phase, result) <==> (phase is Done && phase->outcome is Ok && phase->outcome->Ok_0@
            == result),
        failed(phase, error) <==> (phase is Done && phase->outcome is Err && phase->outcome->Err_0@
            == error),
{
}

/// A response is refused from status 400 on, shown as binary by its type below that, and
/// else read, as HTML where its type mentions that.
pub proof fn law_response(phase: FetchPhase, status: u16, content_type: Seq<char>)
    requires
        goes_on_with_response(phase, status, content_type),
    ensures
        status >= 400 <==> phase is ReadingRefusal,
        status < 400 && is_binary(content_type) <==> phase is Done,
        status < 400 && !is_binary(content_type) <==> phase is ReadingBody,
        phase is ReadingRefusal ==> phase->ReadingRefusal_status == status,
        phase is Done ==> phase->outcome is Ok && phase->outcome->Ok_0@ == binary(
            content_type,
            status,
        ),
        phase is ReadingBody ==> phase->ReadingBody_status == status && phase->is_html == contains(
            content_type,
            "text/html"@,
        ),
{
}

/// A page whose text is long enough, or that was asked for with headers, is shown; any
/// other is rendered, and its text is kept for the case that this fails.
pub proof fn law_page(
    phase: FetchPhase,
    step: BodyStep,
    text: Seq<char>,
    status: u16,
    has_custom_headers: bool,
)
    requires
        goes_on_with_page(phase, text, status, has_custom_headers),
        page_step(text, status, has_custom_headers, step),
    ensures
        !has_custom_headers && byte_len(trimmed(text)) < 200 ==> {
            &&& phase is Rendering
            &&& phase->Rendering_status == status
            &&& phase->fetched_text@ == text
            &&& step is Render
            &&& step->fetched_text@ == text
        },
        has_custom_headers || byte_len(trimmed(text)) >= 200 ==> {
            &&& phase is Done
            &&& phase->outcome is Ok
            &&& phase->outcome->Ok_0@ == fetched(text, status)
            &&& step is Done
            &&& step->Done_0@ == fetched(text, status)
        },
{
}

/// A failure says what failed, and then why.
pub proof fn law_failure(what: Seq<char>, cause: Seq<char>)
    ensures
        failure(what, cause) == ToolErrorView::Failed(what + cause),
{
}

/// The parameters of the tool: a URL, which is required, and headers, whose values are
/// strings.
pub proof fn law_schema()
    ensures
        typed_schema("string"@, "The URL to fetch"@) == JsonView::Object(
            seq![
                ("type"@, JsonView::Text("string"@)),
                ("description"@, JsonView::Text("The URL to fetch"@)),
            ],
        ),
        headers_schema() == JsonView::Object(
            seq![
                ("type"@, JsonView::Text("object"@)),
                ("description"@, JsonView::Text("Optional HTTP headers as key-value pairs"@)),
                (
                    "additionalProperties"@,
                    JsonView::Object(seq![("type"@, JsonView::Text("string"@))]),
                ),
            ],
        ),
        properties_schema() == JsonView::Object(
            seq![
                ("url"@, typed_schema("string"@, "The URL to fetch"@)),
                ("headers"@, headers_schema()),
            ],
        ),
        schema() == JsonView::Object(
            seq![
                ("type"@, JsonView::Text("object"@)),
                ("properties"@, properties_schema()),
                ("required"@, JsonView::Array(seq![JsonView::Text("url"@)])),
            ],
        ),
{
}

/// A reading that repeats the one before it, and is not zero, raises the count, up to
/// three; any other sets it to zero.
pub proof fn law_reading(readings: Seq<usize>, len: usize)
    ensures
        stable_after(Seq::<usize>::empty()) == 0,
        readings.len() > 0 && len > 0 && len == readings[readings.len() - 1] ==> stable_after(
            readings.push(len),
        ) == (if stable_after(readings) < 3 {
            stable_after(readings) + 1
        } else {
            stable_after(readings)
        }),
        readings.len() == 0 || len == 0 || len != readings[readings.len() - 1] ==> stable_after(
            readings.push(len),
        ) == 0,
{
    assert(readings.push(len).drop_last() =~= readings);
}

/// A watch that has seen some readings knows the last of them and how often it was
/// repeated.
pub proof fn law_watch(watch: RenderWatch, readings: Seq<usize>)
    requires
        watch.has_seen(readings),
    ensures
        watch.stable_count == stable_after(readings),
        watch.stable_count <= 3,
        readings.len() == 0 ==> watch.last_len == 0,
        readings.len() > 0 ==> watch.last_len == readings[readings.len() - 1],
{
}

/// How long requests and the browser may take.
pub proof fn law_times()
    ensures
        TIMEOUT_SECS == 30,
        BROWSER_TIMEOUT_SECS == 15,
        BROWSER_RENDER_WAIT_SECS == 5,
        BROWSER_POLL_INTERVAL_MS == 300,
{
}

} // verus!
