//! Web fetch tool: the content of a URL, within time and size limits.
//!
//! HTML becomes plain text. Where a page has hardly any text, as pages do that build
//! themselves in the browser, it is rendered in one and read again. The host sends the
//! request and runs the browser; the functions here decide what comes next and what
//! the tool gives back.

use vstd::prelude::*;

use crate::json::{json_view, lookup, Json, JsonView};
use crate::renderable::renderable;
use crate::text::{
    byte_len, chars_of, clip, clipped, contains, contains_str, decimal, decimal_string, find_from,
    first_index, fit, is_white_space, lemma_byte_len_concat, lemma_clipped, lemma_first_index, len_in_bytes,
    occurs_at, same_text, starts_with_str, trim, trim_end, trim_start, trimmed,
};
use crate::types::{text_result, ToolError, ToolErrorView, ToolResult, ToolResultView};

verus! {

/// The greatest number of bytes of a response that is shown.
pub const MAX_RESPONSE_SIZE: usize = 524_288;

/// How long a request may take.
pub const TIMEOUT_SECS: u64 = 30;

/// How long a page is watched while the browser renders it.
pub const BROWSER_RENDER_WAIT_SECS: u64 = 5;

/// How long the browser is left alone between two looks at the page.
pub const BROWSER_POLL_INTERVAL_MS: u64 = 300;

/// How long the browser may take in all.
pub const BROWSER_TIMEOUT_SECS: u64 = 15;

/// The width in columns to which text from HTML is wrapped.
pub const HTML_TEXT_WIDTH: usize = 100;

/// Minimum extracted text length to consider the result of a plain request usable.
/// Below this threshold, browser fallback is attempted for HTML pages.
pub const BROWSER_FALLBACK_THRESHOLD: usize = 200;

/// Fetch content from a URL. Returns the response body as text.
#[derive(Debug, Clone, Copy, PartialEq, Eq)]
pub struct WebFetchTool;

/// `s` cut to at most `limit` bytes, with a note where it was cut.
pub open spec fn truncated(s: Seq<char>, limit: int) -> Seq<char> {
    if byte_len(s) > limit {
        clipped(s, limit) + "\n... (response truncated at 512KB)"@
    } else {
        s
    }
}

/// Truncate `text` at `limit` bytes, walking back to a valid UTF-8 char boundary.
pub fn truncate_at(text: String, limit: usize) -> (r: String)
    ensures
        r@ == truncated(text@, limit as int),
{
    if len_in_bytes(text.as_str()) > limit {
        let mut r: String = clip(text.as_str(), limit).to_string();
        r.append("\n... (response truncated at 512KB)");
        r
    } else {
        text
    }
}

/// Truncate large text responses to the tool limit, always on a valid UTF-8 boundary.
pub fn truncate_text(text: String) -> (r: String)
    ensures
        r@ == truncated(text@, MAX_RESPONSE_SIZE as int),
{
    truncate_at(text, MAX_RESPONSE_SIZE)
}

/// Truncation with a limit of the caller's choice.
pub fn truncate_text_for_test(text: String, limit: usize) -> (r: String)
    ensures
        r@ == truncated(text@, limit as int),
{
    truncate_at(text, limit)
}

/// The text is too short to be useful, and a browser could send the same request.
pub open spec fn wants_browser(extracted_text: Seq<char>, has_custom_headers: bool) -> bool {
    !has_custom_headers && byte_len(trimmed(extracted_text)) < BROWSER_FALLBACK_THRESHOLD
}

/// Determine whether to attempt browser fallback for an HTML page.
///
/// Returns `true` when extracted text is too short to be useful
/// and no custom headers were provided (browser cannot replicate custom headers).
pub fn should_try_browser_fallback(extracted_text: &str, has_custom_headers: bool) -> (r: bool)
    ensures
        r == wants_browser(extracted_text@, has_custom_headers),
{
    if has_custom_headers {
        return false;
    }
    len_in_bytes(trim(extracted_text)) < BROWSER_FALLBACK_THRESHOLD
}

/// A content type without its parameters.
pub open spec fn media_type(content_type: Seq<char>) -> Seq<char> {
    match first_index(content_type, ";"@, 0) {
        Some(i) => trimmed(content_type.take(i)),
        None => trimmed(content_type),
    }
}

/// Media types of binary content, beside those of images, sound and films.
pub open spec fn is_binary_application(media: Seq<char>) -> bool {
    ||| media == "application/pdf"@
    ||| media == "application/octet-stream"@
    ||| media == "application/zip"@
    ||| media == "application/x-zip-compressed"@
    ||| media == "application/gzip"@
    ||| media == "application/x-tar"@
    ||| media == "application/x-rar-compressed"@
    ||| media == "application/x-7z-compressed"@
    ||| media == "application/wasm"@
    ||| media == "application/vnd.ms-excel"@
    ||| media == "application/vnd.openxmlformats-officedocument.spreadsheetml.sheet"@
    ||| media == "application/vnd.ms-powerpoint"@
    ||| media == "application/vnd.openxmlformats-officedocument.presentationml.presentation"@
    ||| media == "application/msword"@
    ||| media == "application/vnd.openxmlformats-officedocument.wordprocessingml.document"@
}

/// Content of that type is binary and cannot be shown as text.
pub open spec fn is_binary(content_type: Seq<char>) -> bool {
    let media = media_type(content_type);
    ||| is_binary_application(media)
    ||| "image/"@.is_prefix_of(media)
    ||| "audio/"@.is_prefix_of(media)
    ||| "video/"@.is_prefix_of(media)
}

/// Returns true for content types that are binary and cannot be meaningfully
/// displayed as text (e.g. PDF, images, audio, video, archives).
pub fn is_binary_content_type(content_type: &str) -> (r: bool)
    ensures
        r == is_binary(content_type@),
{
    let cs: Vec<char> = chars_of(content_type);
    let semicolon: Vec<char> = chars_of(";");
    proof {
        lemma_first_index(content_type@, ";"@, 0);
    }
    let media: &str = match find_from(&cs, &semicolon, 0) {
        Some(i) => {
            proof {
                assert(content_type@.take(i as int) =~= content_type@.subrange(0, i as int));
            }
            trim(content_type.substring_char(0, i))
        },
        None => trim(content_type),
    };
    same_text(media, "application/pdf") || same_text(media, "application/octet-stream")
        || same_text(media, "application/zip") || same_text(media, "application/x-zip-compressed")
        || same_text(media, "application/gzip") || same_text(media, "application/x-tar")
        || same_text(media, "application/x-rar-compressed") || same_text(
        media,
        "application/x-7z-compressed",
    ) || same_text(media, "application/wasm") || same_text(media, "application/vnd.ms-excel")
        || same_text(media, "application/vnd.openxmlformats-officedocument.spreadsheetml.sheet")
        || same_text(media, "application/vnd.ms-powerpoint") || same_text(
        media,
        "application/vnd.openxmlformats-officedocument.presentationml.presentation",
    ) || same_text(media, "application/msword") || same_text(
        media,
        "application/vnd.openxmlformats-officedocument.wordprocessingml.document",
    ) || starts_with_str(media, "image/") || starts_with_str(media, "audio/") || starts_with_str(
        media,
        "video/",
    )
}

/// The error of `html2text`.
#[verifier::external_type_specification]
#[verifier::external_body]
pub struct ExHtmlError(html2text::Error);

/// The text that `html2text` makes of `html` at that width; none where it fails.
pub uninterp spec fn html_text(html: Seq<char>, width: usize) -> Option<Seq<char>>;

/// `html2text::from_read` on the bytes of `html`: the text of the page, wrapped to
/// `width` columns, or an error. Which of them, and which text, depends on the page and
/// the width alone; nothing more is said of it here. It is called on no other page than
/// those that `renderable` admits, on which it is taken to return: on some others it
/// panics or never ends.
#[verifier::external_body]
fn render_html(html: &str, width: usize) -> (r: Result<String, html2text::Error>)
    requires
        renderable(html@),
        width == HTML_TEXT_WIDTH,
    ensures
        match r {
            Ok(text) => html_text(html@, width) == Some(text@),
            Err(_) => html_text(html@, width) is None,
        },
{
    html2text::from_read(html.as_bytes(), width)
}

/// The text of a page: what was made of it, or its source where nothing could be made.
pub open spec fn text_or_source(html: Seq<char>, rendered: Option<Seq<char>>) -> Seq<char> {
    match rendered {
        Some(text) => text,
        None => html,
    }
}

/// The plain text of an HTML page.
pub open spec fn page_text(html: Seq<char>) -> Seq<char> {
    text_or_source(html, html_text(html, HTML_TEXT_WIDTH))
}

/// The text that was made of a page, or its source where nothing could be made.
pub fn choose_text(html: &str, rendered: Option<String>) -> (r: String)
    ensures
        r@ == text_or_source(
            html@,
            match rendered {
                Some(text) => Some(text@),
                None => None,
            },
        ),
{
    match rendered {
        Some(text) => text,
        None => html.to_string(),
    }
}

/// Convert HTML to plain text.
pub fn html_to_text(html: &str) -> (r: String)
    requires
        renderable(html@),
    ensures
        r@ == page_text(html@),
{
    let rendered: Option<String> = match render_html(html, HTML_TEXT_WIDTH) {
        Ok(text) => Some(text),
        Err(_) => None,
    };
    choose_text(html, rendered)
}

/// A request that the host sends.
#[derive(Debug, PartialEq, Eq)]
pub struct FetchRequest {
    pub url: String,
    /// The headers to send along, in order.
    pub headers: Vec<(String, String)>,
    /// Whether the call named any header at all.
    pub has_custom_headers: bool,
}

/// The members whose values are strings.
pub open spec fn text_members(members: Seq<(Seq<char>, JsonView)>) -> Seq<(Seq<char>, Seq<char>)>
    decreases members.len(),
{
    if members.len() == 0 {
        Seq::empty()
    } else {
        let before = text_members(members.drop_last());
        match members.last().1 {
            JsonView::Text(value) => before.push((members.last().0, value)),
            _ => before,
        }
    }
}

/// The headers that the parameters name.
pub open spec fn named_headers(params: JsonView) -> Seq<(Seq<char>, JsonView)> {
    match lookup(params, "headers"@) {
        Some(JsonView::Object(members)) => members,
        _ => Seq::empty(),
    }
}

/// The URL that the parameters name.
pub open spec fn named_url(params: JsonView) -> Option<Seq<char>> {
    match lookup(params, "url"@) {
        Some(JsonView::Text(url)) => Some(url),
        _ => None,
    }
}

/// Names and values, as texts.
pub open spec fn pairs(v: Seq<(String, String)>) -> Seq<(Seq<char>, Seq<char>)> {
    v.map_values(|p: (String, String)| (p.0@, p.1@))
}

/// The members of an object whose values are strings.
fn collect_text_members(members: &Vec<(String, Json)>) -> (r: Vec<(String, String)>)
    ensures
        pairs(r@) == text_members(json_view(Json::Object(*members))->Object_0),
{
    let ghost views = json_view(Json::Object(*members))->Object_0;
    let mut r: Vec<(String, String)> = Vec::new();
    let mut i: usize = 0;
    proof {
        assert(pairs(r@) =~= text_members(views.take(0)));
    }
    while i < members.len()
        invariant
            i <= members.len(),
            views == json_view(Json::Object(*members))->Object_0,
            views.len() == members.len(),
            pairs(r@) == text_members(views.take(i as int)),
        decreases members.len() - i,
    {
        proof {
            assert(views.take(i + 1).drop_last() =~= views.take(i as int));
            assert(views[i as int].0 == members[i as int].0@);
            assert(views[i as int].1 == json_view(members[i as int].1));
        }
        if let Some(value) = members[i].1.as_text() {
            let pair: (String, String) = (members[i].0.clone(), value.clone());
            proof {
                assert(pairs(r@.push(pair)) =~= pairs(r@).push((pair.0@, pair.1@)));
            }
            r.push(pair);
        }
        i = i + 1;
    }
    proof {
        assert(views.take(i as int) =~= views);
    }
    r
}

/// How a page was read, as the details of a result.
pub open spec fn renderer_details(status: u16, renderer: Seq<char>) -> JsonView {
    JsonView::Object(
        seq![
            ("status"@, JsonView::Number(decimal(status as nat))),
            ("renderer"@, JsonView::Text(renderer)),
        ],
    )
}

/// That the server refused, as the details of a result.
pub open spec fn error_details(status: u16, body: Seq<char>) -> JsonView {
    JsonView::Object(
        seq![
            ("status"@, JsonView::Number(decimal(status as nat))),
            ("error"@, JsonView::Bool(true)),
            ("body"@, JsonView::Text(body)),
        ],
    )
}

/// That the content is binary, as the details of a result.
pub open spec fn binary_details(status: u16) -> JsonView {
    JsonView::Object(
        seq![
            ("status"@, JsonView::Number(decimal(status as nat))),
            ("binary"@, JsonView::Bool(true)),
        ],
    )
}

/// A status as JSON.
fn status_number(status: u16) -> (r: Json)
    ensures
        r@ == JsonView::Number(decimal(status as nat)),
{
    Json::Number(decimal_string(status as u64))
}

/// An empty object.
fn empty_object() -> (r: Json)
    ensures
        r@ == JsonView::Object(Seq::empty()),
{
    let r: Json = Json::Object(Vec::new());
    assert(r@->Object_0 =~= Seq::empty());
    r
}

/// The details of a result that was read that way.
fn renderer_object(status: u16, renderer: &str) -> (r: Json)
    ensures
        r@ == renderer_details(status, renderer@),
{
    let mut r: Json = empty_object();
    r.push_member("status", status_number(status));
    r.push_member("renderer", Json::Text(renderer.to_string()));
    assert(r@->Object_0 =~= renderer_details(status, renderer@)->Object_0);
    r
}

/// The schema of a value of that type.
pub open spec fn typed_schema(kind: Seq<char>, description: Seq<char>) -> JsonView {
    JsonView::Object(
        seq![("type"@, JsonView::Text(kind)), ("description"@, JsonView::Text(description))],
    )
}

/// The schema of the headers: an object whose values are strings.
pub open spec fn headers_schema() -> JsonView {
    JsonView::Object(
        seq![
            ("type"@, JsonView::Text("object"@)),
            ("description"@, JsonView::Text("Optional HTTP headers as key-value pairs"@)),
            (
                "additionalProperties"@,
                JsonView::Object(seq![("type"@, JsonView::Text("string"@))]),
            ),
        ],
    )
}

/// The schemas of the parameters.
pub open spec fn properties_schema() -> JsonView {
    JsonView::Object(
        seq![
            ("url"@, typed_schema("string"@, "The URL to fetch"@)),
            ("headers"@, headers_schema()),
        ],
    )
}

/// The schema of all parameters: an object that has a URL and may have headers.
pub open spec fn schema() -> JsonView {
    JsonView::Object(
        seq![
            ("type"@, JsonView::Text("object"@)),
            ("properties"@, properties_schema()),
            ("required"@, JsonView::Array(seq![JsonView::Text("url"@)])),
        ],
    )
}

/// The schema of a value of that type.
fn typed(kind: &str, description: &str) -> (r: Json)
    ensures
        r@ == typed_schema(kind@, description@),
{
    let mut r: Json = empty_object();
    r.push_member("type", Json::Text(kind.to_string()));
    r.push_member("description", Json::Text(description.to_string()));
    assert(r@->Object_0 =~= typed_schema(kind@, description@)->Object_0);
    r
}

/// The server refused the request.
pub open spec fn refused(url: Seq<char>, status: u16, body: Seq<char>) -> ToolResultView {
    text_result(
        "HTTP "@ + decimal(status as nat) + " error fetching "@ + url,
        error_details(status, body),
    )
}

/// The content is binary.
pub open spec fn binary(content_type: Seq<char>, status: u16) -> ToolResultView {
    text_result(
        "Cannot display binary content (content-type: "@ + content_type
            + "). Only text-based URLs are supported."@,
        binary_details(status),
    )
}

/// Text that came with the response.
pub open spec fn fetched(text: Seq<char>, status: u16) -> ToolResultView {
    text_result(truncated(text, MAX_RESPONSE_SIZE as int), renderer_details(status, "reqwest"@))
}

/// Text of the page as the browser rendered it.
pub open spec fn rendered_page(text: Seq<char>, status: u16) -> ToolResultView {
    text_result(
        truncated(text, MAX_RESPONSE_SIZE as int),
        renderer_details(status, "browser_fallback"@),
    )
}

/// What follows a response.
#[derive(Debug, PartialEq, Eq)]
pub enum ResponseStep {
    /// The host reads the body of a refusal.
    ReadRefusal,
    /// The host reads the body.
    ReadBody { is_html: bool },
    /// The tool is done.
    Done(ToolResult),
}

/// What follows the body of a response.
#[derive(Debug, PartialEq, Eq)]
pub enum BodyStep {
    /// The host renders the page in a browser; `fetched_text` is what there is without.
    Render { fetched_text: String },
    /// The tool is done.
    Done(ToolResult),
}

/// What follows the text of an HTML page.
pub open spec fn page_step(
    text: Seq<char>,
    status: u16,
    has_custom_headers: bool,
    step: BodyStep,
) -> bool {
    if wants_browser(text, has_custom_headers) {
        step matches BodyStep::Render { fetched_text } && fetched_text@ == text
    } else {
        step matches BodyStep::Done(result) && result@ == fetched(text, status)
    }
}

impl WebFetchTool {
    /// The tool.
    pub fn new() -> (r: Self)
        ensures
            r == WebFetchTool,
    {
        Self
    }

    /// The name by which the tool is called.
    pub fn name(&self) -> (r: &str)
        ensures
            r@ == "web_fetch"@,
    {
        "web_fetch"
    }

    /// The name by which the tool is shown.
    pub fn label(&self) -> (r: &str)
        ensures
            r@ == "Fetch URL"@,
    {
        "Fetch URL"
    }

    /// What the tool does, for the model that calls it.
    pub fn description(&self) -> (r: &str)
        ensures
            r@ == "Fetches content from a URL. Returns the response body as text with a 512KB size limit.\n\nUse this tool to retrieve web pages, API responses, or any HTTP-accessible content.\nSupports custom HTTP headers for authenticated requests.\n\nWhen you don't know the exact URL, search first using:\nhttps://html.duckduckgo.com/html/?q=YOUR+SEARCH+TERMS\nThis returns search results with links you can then fetch directly.\n\nParameters:\n- url (required): The URL to fetch\n- headers (optional): A JSON object of HTTP headers to include in the request"@,
    {
        "Fetches content from a URL. Returns the response body as text with a 512KB size limit.\n\nUse this tool to retrieve web pages, API responses, or any HTTP-accessible content.\nSupports custom HTTP headers for authenticated requests.\n\nWhen you don't know the exact URL, search first using:\nhttps://html.duckduckgo.com/html/?q=YOUR+SEARCH+TERMS\nThis returns search results with links you can then fetch directly.\n\nParameters:\n- url (required): The URL to fetch\n- headers (optional): A JSON object of HTTP headers to include in the request"
    }

    /// The schema of the parameters.
    pub fn parameters_schema(&self) -> (r: Json)
        ensures
            r@ == schema(),
    {
        let url: Json = typed("string", "The URL to fetch");
        let mut value: Json = empty_object();
        value.push_member("type", Json::Text("string".to_string()));
        let mut headers: Json = typed("object", "Optional HTTP headers as key-value pairs");
        headers.push_member("additionalProperties", value);
        let mut properties: Json = empty_object();
        properties.push_member("url", url);
        properties.push_member("headers", headers);
        let mut names: Vec<Json> = Vec::new();
        let name: Json = Json::Text("url".to_string());
        assert(name@ == JsonView::Text("url"@));
        names.push(name);
        let required: Json = Json::Array(names);
        let mut r: Json = empty_object();
        r.push_member("type", Json::Text("object".to_string()));
        r.push_member("properties", properties);
        r.push_member("required", required);
        proof {
            assert(value@->Object_0 =~= seq![("type"@, JsonView::Text("string"@))]);
            assert(headers@->Object_0 =~= headers_schema()->Object_0);
            assert(properties@->Object_0 =~= properties_schema()->Object_0);
            assert(required@->Array_0 =~= seq![JsonView::Text("url"@)]);
            assert(r@->Object_0 =~= schema()->Object_0);
        }
        r
    }

    /// The request that the parameters ask for; without a URL there is none.
    pub fn request(&self, params: &Json) -> (r: Result<FetchRequest, ToolError>)
        ensures
            match named_url(params@) {
                Some(url) => r matches Ok(request) && request.url@ == url && pairs(
                    request.headers@,
                ) == text_members(named_headers(params@)) && request.has_custom_headers == (
                named_headers(params@).len() > 0),
                None => r matches Err(e) && e@ == ToolErrorView::InvalidArgs(
                    "missing 'url' parameter"@,
                ),
            },
    {
        let url: String = match params.get("url") {
            Some(value) => match value.as_text() {
                Some(url) => url.clone(),
                None => {
                    return Err(ToolError::InvalidArgs("missing 'url' parameter".to_string()));
                },
            },
            None => {
                return Err(ToolError::InvalidArgs("missing 'url' parameter".to_string()));
            },
        };
        let mut headers: Vec<(String, String)> = Vec::new();
        let mut has_custom_headers: bool = false;
        proof {
            assert(pairs(headers@) =~= text_members(Seq::empty()));
        }
        if let Some(value) = params.get("headers") {
            if let Json::Object(members) = value {
                has_custom_headers = members.len() > 0;
                headers = collect_text_members(members);
            }
        }
        Ok(FetchRequest { url, headers, has_custom_headers })
    }

    /// What follows a response with that status and content type.
    pub fn on_response(&self, status: u16, content_type: &str) -> (r: ResponseStep)
        ensures
            status >= 400 ==> r == ResponseStep::ReadRefusal,
            status < 400 && is_binary(content_type@) ==> (r matches ResponseStep::Done(result)
                && result@ == binary(content_type@, status)),
            status < 400 && !is_binary(content_type@) ==> r == (ResponseStep::ReadBody {
                is_html: contains(content_type@, "text/html"@),
            }),
    {
        if status >= 400 {
            return ResponseStep::ReadRefusal;
        }
        if is_binary_content_type(content_type) {
            let mut text: String = "Cannot display binary content (content-type: ".to_string();
            text.append(content_type);
            text.append("). Only text-based URLs are supported.");
            let mut details: Json = empty_object();
            details.push_member("status", status_number(status));
            details.push_member("binary", Json::Bool(true));
            proof {
                assert(details@->Object_0 =~= binary_details(status)->Object_0);
            }
            return ResponseStep::Done(ToolResult::text(text, details));
        }
        ResponseStep::ReadBody { is_html: contains_str(content_type, "text/html") }
    }

    /// The result where the server refused with that body.
    pub fn on_refusal(&self, url: &str, status: u16, body: String) -> (r: ToolResult)
        ensures
            r@ == refused(url@, status, body@),
    {
        let number: String = decimal_string(status as u64);
        let mut text: String = "HTTP ".to_string();
        text.append(number.as_str());
        text.append(" error fetching ");
        text.append(url);
        let mut details: Json = empty_object();
        details.push_member("status", status_number(status));
        details.push_member("error", Json::Bool(true));
        details.push_member("body", Json::Text(body));
        proof {
            assert(details@->Object_0 =~= error_details(status, body@)->Object_0);
        }
        ToolResult::text(text, details)
    }

    /// What follows the text of an HTML page: it is the result, or the page is rendered.
    pub fn on_page_text(&self, text: String, status: u16, has_custom_headers: bool) -> (r: BodyStep)
        ensures
            page_step(text@, status, has_custom_headers, r),
    {
        if !should_try_browser_fallback(text.as_str(), has_custom_headers) {
            let shown: String = truncate_text(text);
            return BodyStep::Done(ToolResult::text(shown, renderer_object(status, "reqwest")));
        }
        BodyStep::Render { fetched_text: text }
    }

    /// What follows the body of a response.
    pub fn on_body(&self, body: String, is_html: bool, status: u16, has_custom_headers: bool) -> (r:
        BodyStep)
        requires
            is_html ==> renderable(body@),
        ensures
            is_html ==> page_step(page_text(body@), status, has_custom_headers, r),
            !is_html ==> (r matches BodyStep::Done(result) && result@ == fetched(body@, status)),
    {
        if !is_html {
            let shown: String = truncate_text(body);
            return BodyStep::Done(ToolResult::text(shown, renderer_object(status, "reqwest")));
        }
        self.on_page_text(html_to_text(body.as_str()), status, has_custom_headers)
    }

    /// The result once the browser was tried: the text of the rendered page, or what
    /// there was without.
    pub fn on_rendered(&self, fetched_text: String, rendered: Option<String>, status: u16) -> (r:
        ToolResult)
        requires
            rendered matches Some(html) ==> renderable(html@),
        ensures
            match rendered {
                Some(html) => r@ == rendered_page(page_text(html@), status),
                None => r@ == fetched(fetched_text@, status),
            },
    {
        match rendered {
            Some(html) => self.on_rendered_text(html_to_text(html.as_str()), status),
            None => {
                let shown: String = truncate_text(fetched_text);
                ToolResult::text(shown, renderer_object(status, "reqwest"))
            },
        }
    }

    /// The result with the text of the rendered page.
    pub fn on_rendered_text(&self, text: String, status: u16) -> (r: ToolResult)
        ensures
            r@ == rendered_page(text@, status),
    {
        let shown: String = truncate_text(text);
        ToolResult::text(shown, renderer_object(status, "browser_fallback"))
    }

    /// What the host reports while the browser works.
    pub fn progress_text(&self) -> (r: String)
        ensures
            r@ == "Rendering page with browser..."@,
    {
        "Rendering page with browser...".to_string()
    }
}

impl Default for WebFetchTool {
    fn default() -> (r: Self)
        ensures
            r == WebFetchTool,
    {
        Self::new()
    }
}

/// A failure with a text that ends in its cause.
pub open spec fn failure(what: Seq<char>, cause: Seq<char>) -> ToolErrorView {
    ToolErrorView::Failed(what + cause)
}

/// A failure with a text that ends in its cause.
fn failed(what: &str, cause: &str) -> (r: ToolError)
    ensures
        r@ == failure(what@, cause@),
{
    ToolError::Failed(caused(what, cause))
}

/// The HTTP client could not be made.
pub fn client_error(cause: &str) -> (r: ToolError)
    ensures
        r@ == failure("Failed to create HTTP client: "@, cause@),
{
    failed("Failed to create HTTP client: ", cause)
}

/// The request failed.
pub fn send_error(cause: &str) -> (r: ToolError)
    ensures
        r@ == failure("Fetch failed: "@, cause@),
{
    failed("Fetch failed: ", cause)
}

/// The body could not be read.
pub fn body_error(cause: &str) -> (r: ToolError)
    ensures
        r@ == failure("Failed to read response body: "@, cause@),
{
    failed("Failed to read response body: ", cause)
}

/// A text that ends in its cause.
fn caused(what: &str, cause: &str) -> (r: String)
    ensures
        r@ == what@ + cause@,
{
    let mut text: String = what.to_string();
    text.append(cause);
    text
}

/// Why a page was not rendered: the browser did not start.
pub fn launch_error(cause: &str) -> (r: String)
    ensures
        r@ == "Browser launch failed: "@ + cause@,
{
    caused("Browser launch failed: ", cause)
}

/// Why a page was not rendered: the browser opened no tab.
pub fn tab_error(cause: &str) -> (r: String)
    ensures
        r@ == "Failed to open tab: "@ + cause@,
{
    caused("Failed to open tab: ", cause)
}

/// Why a page was not rendered: the browser did not go there.
pub fn navigation_error(cause: &str) -> (r: String)
    ensures
        r@ == "Navigation failed: "@ + cause@,
{
    caused("Navigation failed: ", cause)
}

/// Why a page was not rendered: the browser did not give its source.
pub fn content_error(cause: &str) -> (r: String)
    ensures
        r@ == "Failed to get content: "@ + cause@,
{
    caused("Failed to get content: ", cause)
}

/// How often in a row a page has to keep its length to count as rendered.
pub const STABLE_READINGS: u8 = 3;

/// Watches the length of a page's text while the browser renders it.
#[derive(Debug, Clone, Copy, PartialEq, Eq, Structural)]
pub struct RenderWatch {
    pub last_len: usize,
    pub stable_count: u8,
}

/// How often in a row the last of `readings` repeats a length above zero; a watch
/// counts up to `STABLE_READINGS`.
pub open spec fn stable_after(readings: Seq<usize>) -> int
    decreases readings.len(),
{
    if readings.len() < 2 {
        0
    } else {
        let n = readings.len();
        let before = stable_after(readings.drop_last());
        if readings[n - 1] > 0 && readings[n - 1] == readings[n - 2] {
            if before < STABLE_READINGS {
                before + 1
            } else {
                before
            }
        } else {
            0
        }
    }
}

impl RenderWatch {
    /// The watch has seen `readings`.
    pub open spec fn has_seen(&self, readings: Seq<usize>) -> bool {
        &&& self.stable_count == stable_after(readings)
        &&& self.stable_count <= STABLE_READINGS
        &&& self.last_len == (if readings.len() == 0 {
            0
        } else {
            readings.last()
        })
    }

    /// A watch that has seen nothing.
    pub fn new() -> (r: Self)
        ensures
            r.has_seen(Seq::empty()),
    {
        RenderWatch { last_len: 0, stable_count: 0 }
    }

    /// Takes a reading, and tells whether the page is rendered.
    pub fn observe(&mut self, len: usize) -> (r: bool)
        ensures
            final(self).last_len == len,
            final(self).stable_count == (if len > 0 && len == old(self).last_len {
                if old(self).stable_count < STABLE_READINGS {
                    (old(self).stable_count + 1) as u8
                } else {
                    old(self).stable_count
                }
            } else {
                0
            }),
            r == (final(self).stable_count >= STABLE_READINGS),
            forall|readings: Seq<usize>| #[trigger]
                old(self).has_seen(readings) ==> final(self).has_seen(readings.push(len)),
    {
        let ghost before = *self;
        if len > 0 && len == self.last_len {
            if self.stable_count < STABLE_READINGS {
                self.stable_count = self.stable_count + 1;
            }
        } else {
            self.stable_count = 0;
        }
        self.last_len = len;
        proof {
            assert forall|readings: Seq<usize>| #[trigger] before.has_seen(readings) implies
                self.has_seen(readings.push(len)) by {
                assert(readings.push(len).drop_last() =~= readings);
            }
        }
        self.stable_count >= STABLE_READINGS
    }

    /// Whether the host reads the page again, that long after it started to watch: until
    /// the page is rendered or the time is up.
    pub fn reads_again(&self, elapsed_ms: u64) -> (r: bool)
        ensures
            r == (self.stable_count < STABLE_READINGS && elapsed_ms < BROWSER_RENDER_WAIT_SECS
                * 1000),
    {
        self.stable_count < STABLE_READINGS && elapsed_ms < BROWSER_RENDER_WAIT_SECS * 1000
    }
}

/// A text within the limit is shown as it is; of a longer one the part before the note
/// is a prefix within the limit, to which not even the next character could be added.
pub proof fn law_truncation(s: Seq<char>, limit: int)
    requires
        0 <= limit,
    ensures
        byte_len(s) <= limit ==> truncated(s, limit) == s,
        byte_len(s) > limit ==> {
            let kept = clipped(s, limit);
            &&& truncated(s, limit) == kept + "\n... (response truncated at 512KB)"@
            &&& kept.is_prefix_of(s)
            &&& kept.len() < s.len()
            &&& byte_len(kept) <= limit
            &&& byte_len(s.take(kept.len() as int + 1)) > limit
        },
        byte_len(truncated(s, limit)) <= limit + byte_len("\n... (response truncated at 512KB)"@),
{
    lemma_clipped(s, limit);
    if byte_len(s) > limit {
        lemma_byte_len_concat(clipped(s, limit), "\n... (response truncated at 512KB)"@);
        if fit(s, limit) == s.len() {
            assert(clipped(s, limit) =~= s);
        }
    }
}

/// A request with headers of its own is never handed to a browser.
pub proof fn law_custom_headers_exclude_browser(text: Seq<char>)
    ensures
        !wants_browser(text, true),
{
}

/// White space around the text of a page does not count toward its length.
pub proof fn law_fallback_ignores_outer_space(a: Seq<char>, b: Seq<char>, has_custom_headers: bool)
    requires
        trimmed(a) == trimmed(b),
    ensures
        wants_browser(a, has_custom_headers) == wants_browser(b, has_custom_headers),
{
}

proof fn lemma_first_mark(s: Seq<char>, at: int)
    requires
        0 <= at < s.len(),
        s[at] == ';',
        forall|j: int| 0 <= j < at ==> s[j] != ';',
    ensures
        first_index(s, ";"@, 0) == Some(at),
{
    reveal_strlit(";");
    lemma_first_index(s, ";"@, 0);
    assert(occurs_at(s, ";"@, at)) by {
        assert(s.subrange(at, at + 1) =~= ";"@);
    }
    assert forall|j: int| 0 <= j < at implies !occurs_at(s, ";"@, j) by {
        assert(s.subrange(j, j + 1)[0] == s[j]);
        assert(";"@[0] == ';');
    }
}

/// A content type has a semicolon first where `first_index` finds it, and none where it
/// finds none.
proof fn lemma_mark(s: Seq<char>)
    ensures
        match first_index(s, ";"@, 0) {
            Some(at) => 0 <= at < s.len() && s[at] == ';' && forall|j: int|
                0 <= j < at ==> s[j] != ';',
            None => forall|j: int| 0 <= j < s.len() ==> s[j] != ';',
        },
{
    reveal_strlit(";");
    lemma_first_index(s, ";"@, 0);
    assert forall|j: int| 0 <= j < s.len() && s[j] == ';' implies occurs_at(s, ";"@, j) by {
        assert(s.subrange(j, j + 1) =~= ";"@);
    }
    match first_index(s, ";"@, 0) {
        Some(at) => {
            assert(s.subrange(at, at + 1)[0] == s[at]);
            assert(";"@[0] == ';');
        },
        None => {},
    }
}

/// The parameters of a content type do not matter to whether content is binary.
pub proof fn law_content_type_parameters(content_type: Seq<char>, parameters: Seq<char>)
    ensures
        is_binary(content_type + seq![';'] + parameters) == is_binary(content_type),
{
    let full = content_type + seq![';'] + parameters;
    lemma_mark(content_type);
    match first_index(content_type, ";"@, 0) {
        Some(at) => {
            lemma_first_mark(full, at);
            assert(full.take(at) =~= content_type.take(at));
        },
        None => {
            let at = content_type.len() as int;
            lemma_first_mark(full, at);
            assert(full.take(at) =~= content_type);
        },
    }
}

proof fn lemma_trim_front_space(s: Seq<char>)
    ensures
        trimmed(seq![' '] + s) == trimmed(s),
{
    assert((seq![' '] + s).drop_first() =~= s);
}

proof fn lemma_trim_start_back_space(s: Seq<char>)
    ensures
        trim_start(s).len() == 0 ==> trim_start(s.push(' ')).len() == 0,
        trim_start(s).len() > 0 ==> trim_start(s.push(' ')) == trim_start(s).push(' '),
    decreases s.len(),
{
    let longer = s.push(' ');
    if s.len() == 0 {
        assert(longer.drop_first() =~= Seq::empty());
        assert(trim_start(longer.drop_first()).len() == 0);
    } else if is_white_space(s[0]) {
        assert(longer.drop_first() =~= s.drop_first().push(' '));
        lemma_trim_start_back_space(s.drop_first());
    }
}

proof fn lemma_trim_back_space(s: Seq<char>)
    ensures
        trimmed(s.push(' ')) == trimmed(s),
{
    lemma_trim_start_back_space(s);
    let front = trim_start(s);
    if front.len() == 0 {
        assert(trim_start(s.push(' ')) =~= front);
    } else {
        assert(front.push(' ').drop_last() =~= front);
        assert(trim_end(front.push(' ')) == trim_end(front));
    }
}

/// Spaces around a content type do not matter to whether content is binary.
pub proof fn law_content_type_outer_space(content_type: Seq<char>)
    ensures
        is_binary(seq![' '] + content_type + seq![' ']) == is_binary(content_type),
{
    let full = seq![' '] + content_type + seq![' '];
    lemma_mark(content_type);
    match first_index(content_type, ";"@, 0) {
        Some(at) => {
            lemma_first_mark(full, at + 1);
            assert(full.take(at + 1) =~= seq![' '] + content_type.take(at));
            lemma_trim_front_space(content_type.take(at));
        },
        None => {
            lemma_mark(full);
            assert forall|j: int| 0 <= j < full.len() implies full[j] != ';' by {
                if 1 <= j < full.len() - 1 {
                    assert(full[j] == content_type[j - 1]);
                }
            }
            let behind = seq![' '] + content_type;
            assert(full =~= behind.push(' '));
            lemma_trim_back_space(behind);
            lemma_trim_front_space(content_type);
        },
    }
}

/// A page counts as rendered when its last four readings are one length above zero, and
/// only then.
pub proof fn law_render_watch(readings: Seq<usize>)
    ensures
        0 <= stable_after(readings) <= STABLE_READINGS,
        ({
            let n = readings.len() as int;
            (stable_after(readings) == STABLE_READINGS) == (n >= 4 && readings[n - 1] > 0
                && readings[n - 1] == readings[n - 2] && readings[n - 2] == readings[n - 3]
                && readings[n - 3] == readings[n - 4])
        }),
{
    lemma_stable(readings);
    let n = readings.len() as int;
    if n >= 2 {
        let r1 = readings.drop_last();
        lemma_stable(r1);
        if n >= 3 {
            let r2 = r1.drop_last();
            lemma_stable(r2);
            if n >= 4 {
                lemma_stable(r2.drop_last());
            }
        }
    }
}

proof fn lemma_stable(readings: Seq<usize>)
    ensures
        0 <= stable_after(readings) <= STABLE_READINGS,
    decreases readings.len(),
{
    if readings.len() >= 2 {
        lemma_stable(readings.drop_last());
    }
}

} // verus!
