//! Tool calls, their results, and the events and messages that report them.

use vstd::prelude::*;

use crate::json::{Json, JsonView};

verus! {

/// How long a result is kept in the conversation.
#[derive(Debug, Clone, Copy, PartialEq, Eq, Structural)]
pub enum Retention {
    Normal,
    /// Another retention class of the host, by its number.
    Class(u32),
}

/// One block of a tool's output.
#[derive(Debug, PartialEq, Eq)]
pub enum Content {
    Text { text: String },
    /// A block that is not text.
    Other { value: Json },
}

/// What a `Content` holds.
#[verifier::ext_equal]
pub enum ContentView {
    Text(Seq<char>),
    Other(JsonView),
}

impl View for Content {
    type V = ContentView;

    open spec fn view(&self) -> ContentView {
        match *self {
            Content::Text { text } => ContentView::Text(text@),
            Content::Other { value } => ContentView::Other(value@),
        }
    }
}

/// What a sequence of blocks holds.
pub open spec fn blocks(content: Seq<Content>) -> Seq<ContentView> {
    content.map_values(|c: Content| c@)
}

impl Content {
    /// A copy of the block.
    pub fn copy(&self) -> (r: Content)
        ensures
            r@ == self@,
    {
        match self {
            Content::Text { text } => Content::Text { text: text.clone() },
            Content::Other { value } => Content::Other { value: value.copy() },
        }
    }
}

/// A copy of the blocks.
pub fn copy_blocks(content: &Vec<Content>) -> (r: Vec<Content>)
    ensures
        blocks(r@) == blocks(content@),
{
    let mut r: Vec<Content> = Vec::new();
    let mut i: usize = 0;
    while i < content.len()
        invariant
            i <= content.len(),
            r@.len() == i,
            forall|k: int| 0 <= k < i ==> (#[trigger] r@[k])@ == content@[k]@,
        decreases content.len() - i,
    {
        r.push(content[i].copy());
        i = i + 1;
    }
    assert(blocks(r@) =~= blocks(content@));
    r
}

/// What a tool gives back.
#[derive(Debug, PartialEq, Eq)]
pub struct ToolResult {
    pub content: Vec<Content>,
    pub details: Json,
    pub retention: Retention,
}

/// What a `ToolResult` holds.
#[verifier::ext_equal]
pub struct ToolResultView {
    pub content: Seq<ContentView>,
    pub details: JsonView,
    pub retention: Retention,
}

impl View for ToolResult {
    type V = ToolResultView;

    open spec fn view(&self) -> ToolResultView {
        ToolResultView {
            content: blocks(self.content@),
            details: self.details@,
            retention: self.retention,
        }
    }
}

/// A result with one block of text, normal retention and those details.
pub open spec fn text_result(text: Seq<char>, details: JsonView) -> ToolResultView {
    ToolResultView {
        content: seq![ContentView::Text(text)],
        details,
        retention: Retention::Normal,
    }
}

impl ToolResult {
    /// A result with one block of text, normal retention and those details.
    pub fn text(text: String, details: Json) -> (r: ToolResult)
        ensures
            r@ == text_result(text@, details@),
    {
        let mut content: Vec<Content> = Vec::new();
        content.push(Content::Text { text });
        let r: ToolResult = ToolResult { content, details, retention: Retention::Normal };
        assert(blocks(r.content@) =~= seq![ContentView::Text(text@)]);
        r
    }

    /// A copy of the result.
    pub fn copy(&self) -> (r: ToolResult)
        ensures
            r@ == self@,
    {
        ToolResult {
            content: copy_blocks(&self.content),
            details: self.details.copy(),
            retention: self.retention,
        }
    }
}

/// Why a tool gave no result.
#[derive(Debug, PartialEq, Eq)]
pub enum ToolError {
    InvalidArgs(String),
    Failed(String),
    Cancelled,
}

/// What a `ToolError` says.
#[verifier::ext_equal]
pub enum ToolErrorView {
    InvalidArgs(Seq<char>),
    Failed(Seq<char>),
    Cancelled,
}

impl View for ToolError {
    type V = ToolErrorView;

    open spec fn view(&self) -> ToolErrorView {
        match *self {
            ToolError::InvalidArgs(text) => ToolErrorView::InvalidArgs(text@),
            ToolError::Failed(text) => ToolErrorView::Failed(text@),
            ToolError::Cancelled => ToolErrorView::Cancelled,
        }
    }
}

/// A call of a tool that the model asked for.
#[derive(Debug, PartialEq, Eq)]
pub struct ToolCall {
    pub id: String,
    pub name: String,
    pub args: Json,
}

/// What the execution of calls needs to know of a tool.
#[derive(Debug, PartialEq, Eq)]
pub struct ToolInfo {
    pub name: String,
    /// Whether calls of the tool may run at the same time as others.
    pub concurrency_safe: bool,
}

/// A message of the conversation.
#[derive(Debug, PartialEq, Eq)]
pub enum Message {
    ToolResult {
        tool_call_id: String,
        tool_name: String,
        content: Vec<Content>,
        is_error: bool,
        timestamp: u64,
        retention: Retention,
    },
}

/// What a `Message` holds.
#[verifier::ext_equal]
pub struct MessageView {
    pub tool_call_id: Seq<char>,
    pub tool_name: Seq<char>,
    pub content: Seq<ContentView>,
    pub is_error: bool,
    pub timestamp: u64,
    pub retention: Retention,
}

impl View for Message {
    type V = MessageView;

    open spec fn view(&self) -> MessageView {
        match *self {
            Message::ToolResult {
                tool_call_id,
                tool_name,
                content,
                is_error,
                timestamp,
                retention,
            } => MessageView {
                tool_call_id: tool_call_id@,
                tool_name: tool_name@,
                content: blocks(content@),
                is_error,
                timestamp,
                retention,
            },
        }
    }
}

impl Message {
    /// A copy of the message.
    pub fn copy(&self) -> (r: Message)
        ensures
            r@ == self@,
    {
        match self {
            Message::ToolResult {
                tool_call_id,
                tool_name,
                content,
                is_error,
                timestamp,
                retention,
            } => Message::ToolResult {
                tool_call_id: tool_call_id.clone(),
                tool_name: tool_name.clone(),
                content: copy_blocks(content),
                is_error: *is_error,
                timestamp: *timestamp,
                retention: *retention,
            },
        }
    }
}

/// What the host is told while tool calls run.
#[derive(Debug, PartialEq, Eq)]
pub enum AgentEvent {
    ToolExecutionStart {
        tool_call_id: String,
        tool_name: String,
        args: Json,
        preview_command: Option<String>,
    },
    ToolExecutionUpdate { tool_call_id: String, tool_name: String, partial_result: ToolResult },
    ProgressMessage { tool_call_id: String, tool_name: String, text: String },
    ToolExecutionEnd {
        tool_call_id: String,
        tool_name: String,
        result: ToolResult,
        is_error: bool,
        result_tokens: usize,
        duration_ms: u64,
    },
    MessageStart { message: Message },
    MessageEnd { message: Message },
}

/// What an `AgentEvent` holds.
#[verifier::ext_equal]
pub enum AgentEventView {
    ToolExecutionStart {
        tool_call_id: Seq<char>,
        tool_name: Seq<char>,
        args: JsonView,
        preview_command: Option<Seq<char>>,
    },
    ToolExecutionUpdate {
        tool_call_id: Seq<char>,
        tool_name: Seq<char>,
        partial_result: ToolResultView,
    },
    ProgressMessage { tool_call_id: Seq<char>, tool_name: Seq<char>, text: Seq<char> },
    ToolExecutionEnd {
        tool_call_id: Seq<char>,
        tool_name: Seq<char>,
        result: ToolResultView,
        is_error: bool,
        result_tokens: usize,
        duration_ms: u64,
    },
    MessageStart { message: MessageView },
    MessageEnd { message: MessageView },
}

impl View for AgentEvent {
    type V = AgentEventView;

    open spec fn view(&self) -> AgentEventView {
        match *self {
            AgentEvent::ToolExecutionStart { tool_call_id, tool_name, args, preview_command } => {
                AgentEventView::ToolExecutionStart {
                    tool_call_id: tool_call_id@,
                    tool_name: tool_name@,
                    args: args@,
                    preview_command: match preview_command {
                        Some(text) => Some(text@),
                        None => None,
                    },
                }
            },
            AgentEvent::ToolExecutionUpdate { tool_call_id, tool_name, partial_result } => {
                AgentEventView::ToolExecutionUpdate {
                    tool_call_id: tool_call_id@,
                    tool_name: tool_name@,
                    partial_result: partial_result@,
                }
            },
            AgentEvent::ProgressMessage { tool_call_id, tool_name, text } => {
                AgentEventView::ProgressMessage {
                    tool_call_id: tool_call_id@,
                    tool_name: tool_name@,
                    text: text@,
                }
            },
            AgentEvent::ToolExecutionEnd {
                tool_call_id,
                tool_name,
                result,
                is_error,
                result_tokens,
                duration_ms,
            } => AgentEventView::ToolExecutionEnd {
                tool_call_id: tool_call_id@,
                tool_name: tool_name@,
                result: result@,
                is_error,
                result_tokens,
                duration_ms,
            },
            AgentEvent::MessageStart { message } => AgentEventView::MessageStart {
                message: message@,
            },
            AgentEvent::MessageEnd { message } => AgentEventView::MessageEnd { message: message@ },
        }
    }
}

/// What a sequence of events holds.
pub open spec fn event_views(events: Seq<AgentEvent>) -> Seq<AgentEventView> {
    events.map_values(|e: AgentEvent| e@)
}

} // verus!
