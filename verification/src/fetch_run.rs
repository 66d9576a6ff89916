//! The run of one web fetch, from the request to the result.
//!
//! `FetchRun` decides, the host acts: it sends the request, reads the response and
//! runs the browser.

use vstd::pervasive::unreached;
use vstd::prelude::*;

use crate::json::Json;
use crate::parameter_completion::optional_text;
use crate::renderable::{is_renderable, renderable};
use crate::text::contains;
use crate::types::{ToolError, ToolErrorView, ToolResult, ToolResultView};
use crate::web_fetch::{
    binary, body_error, choose_text, client_error, failure, fetched, is_binary, named_headers, named_url,
    page_text, pairs, refused, rendered_page, send_error, text_members, text_or_source, wants_browser, BodyStep,
    FetchRequest, ResponseStep, WebFetchTool,
};

verus! {

/// Where the run of a fetch stands, and with that what the host does next.
#[derive(Debug, PartialEq, Eq)]
pub enum FetchPhase {
    /// The host sends the request.
    Sending,
    /// The host reads the body of a refusal.
    ReadingRefusal { status: u16 },
    /// The host reads the body.
    ReadingBody { status: u16, is_html: bool },
    /// The host makes the text of the page, which is none that is handed to `html2text`
    /// from here.
    Extracting { status: u16, html: String },
    /// The host renders the page in a browser, and says so.
    Rendering { status: u16, fetched_text: String },
    /// The host makes the text of the page as the browser rendered it.
    ExtractingRendered { status: u16, html: String },
    /// The run is over.
    Done { outcome: Result<ToolResult, ToolError> },
}

/// What came of a request.
#[derive(Debug, PartialEq, Eq)]
pub enum SendOutcome {
    /// There was no client to send it with.
    NoClient { cause: String },
    /// The call was cancelled before a response came.
    Cancelled,
    /// No response came.
    Failed { cause: String },
    /// A response came; its content type is empty where it has none that is text.
    Response { status: u16, content_type: String },
}

/// The run of one fetch.
#[derive(Debug, PartialEq, Eq)]
pub struct FetchRun {
    pub request: FetchRequest,
    pub phase: FetchPhase,
}

/// The run is over with that result.
pub open spec fn succeeded(phase: FetchPhase, result: ToolResultView) -> bool {
    phase matches FetchPhase::Done { outcome: Ok(r) } && r@ == result
}

/// The run is over with that error.
pub open spec fn failed(phase: FetchPhase, error: ToolErrorView) -> bool {
    phase matches FetchPhase::Done { outcome: Err(e) } && e@ == error
}

/// A run that has the text of an HTML page goes on with it: the page is rendered where
/// the text is too short and no header was named; else the text is the result.
pub open spec fn goes_on_with_page(
    phase: FetchPhase,
    text: Seq<char>,
    status: u16,
    has_custom_headers: bool,
) -> bool {
    if wants_browser(text, has_custom_headers) {
        phase matches FetchPhase::Rendering { status: s, fetched_text } && s == status
            && fetched_text@ == text
    } else {
        succeeded(phase, fetched(text, status))
    }
}

/// What follows a response.
pub open spec fn goes_on_with_response(
    phase: FetchPhase,
    status: u16,
    content_type: Seq<char>,
) -> bool {
    if status >= 400 {
        phase == (FetchPhase::ReadingRefusal { status })
    } else if is_binary(content_type) {
        succeeded(phase, binary(content_type, status))
    } else {
        phase == (FetchPhase::ReadingBody {
            status,
            is_html: contains(content_type, "text/html"@),
        })
    }
}

impl FetchRun {
    /// Starts a fetch with those parameters; without a URL there is nothing to fetch.
    pub fn start(params: &Json) -> (r: Result<FetchRun, ToolError>)
        ensures
            match named_url(params@) {
                Some(url) => r matches Ok(run) && run.phase == FetchPhase::Sending
                    && run.request.url@ == url && pairs(run.request.headers@) == text_members(
                    named_headers(params@),
                ) && run.request.has_custom_headers == (named_headers(params@).len() > 0),
                None => r matches Err(e) && e@ == ToolErrorView::InvalidArgs(
                    "missing 'url' parameter"@,
                ),
            },
    {
        match WebFetchTool::new().request(params) {
            Ok(request) => Ok(FetchRun { request, phase: FetchPhase::Sending }),
            Err(e) => Err(e),
        }
    }

    /// Takes what came of the request.
    pub fn sent(self, outcome: SendOutcome) -> (r: FetchRun)
        requires
            self.phase == FetchPhase::Sending,
        ensures
            r.request == self.request,
            match outcome {
                SendOutcome::NoClient { cause } => failed(
                    r.phase,
                    failure("Failed to create HTTP client: "@, cause@),
                ),
                SendOutcome::Cancelled => failed(r.phase, ToolErrorView::Cancelled),
                SendOutcome::Failed { cause } => failed(
                    r.phase,
                    failure("Fetch failed: "@, cause@),
                ),
                SendOutcome::Response { status, content_type } => goes_on_with_response(
                    r.phase,
                    status,
                    content_type@,
                ),
            },
    {
        let phase: FetchPhase = match outcome {
            SendOutcome::NoClient { cause } => FetchPhase::Done {
                outcome: Err(client_error(cause.as_str())),
            },
            SendOutcome::Cancelled => FetchPhase::Done { outcome: Err(ToolError::Cancelled) },
            SendOutcome::Failed { cause } => FetchPhase::Done {
                outcome: Err(send_error(cause.as_str())),
            },
            SendOutcome::Response { status, content_type } => {
                match WebFetchTool::new().on_response(status, content_type.as_str()) {
                    ResponseStep::ReadRefusal => FetchPhase::ReadingRefusal { status },
                    ResponseStep::ReadBody { is_html } => FetchPhase::ReadingBody {
                        status,
                        is_html,
                    },
                    ResponseStep::Done(result) => FetchPhase::Done { outcome: Ok(result) },
                }
            },
        };
        FetchRun { request: self.request, phase }
    }

    /// Takes the body, or why it could not be read.
    pub fn read(self, body: Result<String, String>) -> (r: FetchRun)
        requires
            self.phase is ReadingRefusal || self.phase is ReadingBody,
        ensures
            r.request == self.request,
            match body {
                Err(cause) => failed(
                    r.phase,
                    failure("Failed to read response body: "@, cause@),
                ),
                Ok(body) => match self.phase {
                    FetchPhase::ReadingRefusal { status } => succeeded(
                        r.phase,
                        refused(self.request.url@, status, body@),
                    ),
                    FetchPhase::ReadingBody { status, is_html } => if !is_html {
                        succeeded(r.phase, fetched(body@, status))
                    } else if renderable(body@) {
                        goes_on_with_page(
                            r.phase,
                            page_text(body@),
                            status,
                            self.request.has_custom_headers,
                        )
                    } else {
                        r.phase == (FetchPhase::Extracting { status, html: body })
                    },
                    _ => true,
                },
            },
    {
        let request: FetchRequest = self.request;
        let phase: FetchPhase = match body {
            Err(cause) => FetchPhase::Done { outcome: Err(body_error(cause.as_str())) },
            Ok(body) => match self.phase {
                FetchPhase::ReadingRefusal { status } => FetchPhase::Done {
                    outcome: Ok(
                        WebFetchTool::new().on_refusal(request.url.as_str(), status, body),
                    ),
                },
                FetchPhase::ReadingBody { status, is_html } => {
                    if is_html && !is_renderable(body.as_str()) {
                        return FetchRun {
                            request,
                            phase: FetchPhase::Extracting { status, html: body },
                        };
                    }
                    match WebFetchTool::new().on_body(
                        body,
                        is_html,
                        status,
                        request.has_custom_headers,
                    ) {
                        BodyStep::Render { fetched_text } => FetchPhase::Rendering {
                            status,
                            fetched_text,
                        },
                        BodyStep::Done(result) => FetchPhase::Done { outcome: Ok(result) },
                    }
                },
                _ => unreached(),
            },
        };
        FetchRun { request, phase }
    }

    /// Takes the source of the rendered page, or that it could not be rendered.
    pub fn rendered(self, html: Option<String>) -> (r: FetchRun)
        requires
            self.phase is Rendering,
        ensures
            r.request == self.request,
            match html {
                Some(html) => if renderable(html@) {
                    succeeded(
                        r.phase,
                        rendered_page(page_text(html@), self.phase->Rendering_status),
                    )
                } else {
                    r.phase == (FetchPhase::ExtractingRendered {
                        status: self.phase->Rendering_status,
                        html,
                    })
                },
                None => succeeded(
                    r.phase,
                    fetched(self.phase->Rendering_fetched_text@, self.phase->Rendering_status),
                ),
            },
    {
        match self.phase {
            FetchPhase::Rendering { status, fetched_text } => {
                let renders: bool = match &html {
                    Some(html) => is_renderable(html.as_str()),
                    None => true,
                };
                let phase: FetchPhase = match html {
                    Some(html) if !renders => FetchPhase::ExtractingRendered { status, html },
                    html => FetchPhase::Done {
                        outcome: Ok(WebFetchTool::new().on_rendered(fetched_text, html, status)),
                    },
                };
                FetchRun { request: self.request, phase }
            },
            _ => unreached(),
        }
    }

    /// Takes the text that the host made of the page; where it could make none, the
    /// source stands for it.
    pub fn extracted(self, text: Option<String>) -> (r: FetchRun)
        requires
            self.phase is Extracting || self.phase is ExtractingRendered,
        ensures
            r.request == self.request,
            match self.phase {
                FetchPhase::Extracting { status, html } => goes_on_with_page(
                    r.phase,
                    text_or_source(html@, optional_text(text)),
                    status,
                    self.request.has_custom_headers,
                ),
                FetchPhase::ExtractingRendered { status, html } => succeeded(
                    r.phase,
                    rendered_page(text_or_source(html@, optional_text(text)), status),
                ),
                _ => true,
            },
    {
        let request: FetchRequest = self.request;
        let phase: FetchPhase = match self.phase {
            FetchPhase::Extracting { status, html } => {
                let shown: String = choose_text(html.as_str(), text);
                match WebFetchTool::new().on_page_text(
                    shown,
                    status,
                    request.has_custom_headers,
                ) {
                    BodyStep::Render { fetched_text } => FetchPhase::Rendering {
                        status,
                        fetched_text,
                    },
                    BodyStep::Done(result) => FetchPhase::Done { outcome: Ok(result) },
                }
            },
            FetchPhase::ExtractingRendered { status, html } => FetchPhase::Done {
                outcome: Ok(
                    WebFetchTool::new().on_rendered_text(
                        choose_text(html.as_str(), text),
                        status,
                    ),
                ),
            },
            _ => unreached(),
        };
        FetchRun { request, phase }
    }

    /// The outcome of the fetch.
    pub fn finish(self) -> (r: Result<ToolResult, ToolError>)
        requires
            self.phase is Done,
        ensures
            self.phase == (FetchPhase::Done { outcome: r }),
    {
        match self.phase {
            FetchPhase::Done { outcome } => outcome,
            _ => unreached(),
        }
    }
}

} // verus!
