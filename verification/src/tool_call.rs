//! One tool call: from its arguments to its result, and the events that report it.
//!
//! The host runs the tool, validates arguments against the tool's schema and measures
//! results; the functions here decide what comes next and what is reported.

use vstd::prelude::*;

use crate::json::{json_text, json_view, Json, JsonView};
use crate::parameter_completion::{
    auto_complete_parameters, completed_parameters, optional_text, ParameterCompletionContext,
};
use crate::text::{
    byte_len, clip, clipped, lemma_byte_len_concat, lemma_byte_len_first, lemma_clipped,
    len_in_bytes, same_text, texts,
};
use crate::types::{
    blocks, copy_blocks, event_views, text_result, AgentEvent, AgentEventView, Content,
    Message, MessageView, ToolCall, ToolInfo, ToolResult, ToolResultView,
};

verus! {

/// The index of the first tool of that name, from `from` on.
pub open spec fn tool_index(tools: Seq<ToolInfo>, name: Seq<char>, from: int) -> Option<int>
    decreases tools.len() - from,
{
    if from < 0 || from >= tools.len() {
        None
    } else if tools[from].name@ == name {
        Some(from)
    } else {
        tool_index(tools, name, from + 1)
    }
}

/// The first tool of that name.
pub fn find_tool(tools: &Vec<ToolInfo>, name: &str) -> (r: Option<usize>)
    ensures
        match r {
            Some(i) => i < tools@.len() && tool_index(tools@, name@, 0) == Some(i as int),
            None => tool_index(tools@, name@, 0) is None,
        },
{
    let mut i: usize = 0;
    while i < tools.len()
        invariant
            i <= tools.len(),
            tool_index(tools@, name@, 0) == tool_index(tools@, name@, i as int),
        decreases tools.len() - i,
    {
        if same_text(tools[i].name.as_str(), name) {
            return Some(i);
        }
        i = i + 1;
    }
    None
}

/// The result of a call that failed with that text.
pub open spec fn error_result(text: Seq<char>) -> ToolResultView {
    text_result(text, JsonView::Null)
}

/// The report that a call starts.
pub open spec fn start_event(
    id: Seq<char>,
    name: Seq<char>,
    args: JsonView,
    preview_command: Option<Seq<char>>,
) -> AgentEventView {
    AgentEventView::ToolExecutionStart { tool_call_id: id, tool_name: name, args, preview_command }
}

/// The report that `call` starts.
pub fn start_report(call: &ToolCall, preview_command: Option<String>) -> (r: AgentEvent)
    ensures
        r@ == start_event(call.id@, call.name@, call.args@, optional_text(preview_command)),
{
    AgentEvent::ToolExecutionStart {
        tool_call_id: call.id.clone(),
        tool_name: call.name.clone(),
        args: call.args.copy(),
        preview_command,
    }
}

/// The arguments that a call runs with before validation.
pub open spec fn completed_arguments(
    name: Seq<char>,
    args: JsonView,
    cwd: Seq<char>,
    taken: Seq<Seq<char>>,
) -> JsonView {
    match completed_parameters(name, args, cwd, None, taken) {
        Ok(completed) => completed,
        Err(_) => args,
    }
}

/// The arguments of a call with what is missing completed; where completion fails, the
/// arguments as they are.
pub fn complete_arguments(call: &ToolCall, cwd: &str, taken: &Vec<String>) -> (r: Json)
    ensures
        r@ == completed_arguments(call.name@, call.args@, cwd@, texts(taken@)),
{
    let context: ParameterCompletionContext = ParameterCompletionContext::new(cwd.to_string());
    match auto_complete_parameters(call.name.as_str(), call.args.copy(), &context, taken) {
        Ok(completed) => completed,
        Err(_) => call.args.copy(),
    }
}

/// The report of an intermediate result.
pub fn update_event(id: &str, name: &str, partial_result: ToolResult) -> (r: AgentEvent)
    ensures
        r@ == (AgentEventView::ToolExecutionUpdate {
            tool_call_id: id@,
            tool_name: name@,
            partial_result: partial_result@,
        }),
{
    AgentEvent::ToolExecutionUpdate {
        tool_call_id: id.to_string(),
        tool_name: name.to_string(),
        partial_result,
    }
}

/// The report of progress.
pub fn progress_event(id: &str, name: &str, text: String) -> (r: AgentEvent)
    ensures
        r@ == (AgentEventView::ProgressMessage {
            tool_call_id: id@,
            tool_name: name@,
            text: text@,
        }),
{
    AgentEvent::ProgressMessage { tool_call_id: id.to_string(), tool_name: name.to_string(), text }
}

/// The message that answers a call, and the events that report it.
#[derive(Debug, PartialEq, Eq)]
pub struct Emission {
    pub events: Vec<AgentEvent>,
    pub message: Message,
}

/// The message that answers a call.
pub open spec fn answer(
    id: Seq<char>,
    name: Seq<char>,
    result: ToolResultView,
    is_error: bool,
    timestamp: u64,
) -> MessageView {
    MessageView {
        tool_call_id: id,
        tool_name: name,
        content: result.content,
        is_error,
        timestamp,
        retention: result.retention,
    }
}

/// The events at the end of a call: its end, then the start and the end of its message.
pub open spec fn end_events(
    id: Seq<char>,
    name: Seq<char>,
    result: ToolResultView,
    is_error: bool,
    result_tokens: usize,
    duration_ms: u64,
    timestamp: u64,
) -> Seq<AgentEventView> {
    let message = answer(id, name, result, is_error, timestamp);
    seq![
        AgentEventView::ToolExecutionEnd {
            tool_call_id: id,
            tool_name: name,
            result,
            is_error,
            result_tokens,
            duration_ms,
        },
        AgentEventView::MessageStart { message },
        AgentEventView::MessageEnd { message },
    ]
}

/// Reports the end of a call and builds the message that answers it.
pub fn finish_call(
    id: &str,
    name: &str,
    result: ToolResult,
    is_error: bool,
    result_tokens: usize,
    duration_ms: u64,
    timestamp: u64,
) -> (r: Emission)
    ensures
        r.message@ == answer(id@, name@, result@, is_error, timestamp),
        event_views(r.events@) == end_events(
            id@,
            name@,
            result@,
            is_error,
            result_tokens,
            duration_ms,
            timestamp,
        ),
{
    let message: Message = Message::ToolResult {
        tool_call_id: id.to_string(),
        tool_name: name.to_string(),
        content: copy_blocks(&result.content),
        is_error,
        timestamp,
        retention: result.retention,
    };
    let mut events: Vec<AgentEvent> = Vec::new();
    events.push(
        AgentEvent::ToolExecutionEnd {
            tool_call_id: id.to_string(),
            tool_name: name.to_string(),
            result,
            is_error,
            result_tokens,
            duration_ms,
        },
    );
    events.push(AgentEvent::MessageStart { message: message.copy() });
    events.push(AgentEvent::MessageEnd { message: message.copy() });
    proof {
        assert(event_views(events@) =~= end_events(
            id@,
            name@,
            result@,
            is_error,
            result_tokens,
            duration_ms,
            timestamp,
        ));
    }
    Emission { events, message }
}

/// A call that does not run: reported as started and ended at once, with an error.
pub open spec fn skip_events(
    id: Seq<char>,
    name: Seq<char>,
    args: JsonView,
    preview_command: Option<Seq<char>>,
    text: Seq<char>,
    result_tokens: usize,
    timestamp: u64,
) -> Seq<AgentEventView> {
    seq![start_event(id, name, args, preview_command)] + end_events(
        id,
        name,
        error_result(text),
        true,
        result_tokens,
        0,
        timestamp,
    )
}

/// Reports a call that does not run.
fn skip(
    id: &str,
    name: &str,
    args: Json,
    preview_command: Option<String>,
    text: String,
    result_tokens: usize,
    timestamp: u64,
) -> (r: Emission)
    ensures
        r.message@ == answer(id@, name@, error_result(text@), true, timestamp),
        event_views(r.events@) == skip_events(
            id@,
            name@,
            args@,
            optional_text(preview_command),
            text@,
            result_tokens,
            timestamp,
        ),
{
    let start: AgentEvent = AgentEvent::ToolExecutionStart {
        tool_call_id: id.to_string(),
        tool_name: name.to_string(),
        args,
        preview_command,
    };
    let result: ToolResult = ToolResult::text(text, Json::Null);
    let end: Emission = finish_call(id, name, result, true, result_tokens, 0, timestamp);
    let mut events: Vec<AgentEvent> = Vec::new();
    events.push(start);
    let mut rest: Vec<AgentEvent> = end.events;
    let ghost tail = rest@;
    events.append(&mut rest);
    proof {
        assert(event_views(events@) =~= seq![start@] + event_views(tail));
    }
    Emission { events, message: end.message }
}

/// The text of a skipped call's result.
pub open spec fn skipped_text() -> Seq<char> {
    "Skipped due to queued user message."@
}

/// The content of a skipped call's result, for the host to measure.
pub fn skipped_content() -> (r: Vec<Content>)
    ensures
        blocks(r@) == error_result(skipped_text()).content,
{
    let result: ToolResult = ToolResult::text(
        "Skipped due to queued user message.".to_string(),
        Json::Null,
    );
    result.content
}

/// Answers a call that is skipped because the user sent a message.
pub fn skip_tool_call(
    tool_call_id: &str,
    tool_name: &str,
    result_tokens: usize,
    timestamp: u64,
) -> (r: Emission)
    ensures
        r.message@ == answer(
            tool_call_id@,
            tool_name@,
            error_result(skipped_text()),
            true,
            timestamp,
        ),
        event_views(r.events@) == skip_events(
            tool_call_id@,
            tool_name@,
            JsonView::Null,
            None,
            skipped_text(),
            result_tokens,
            timestamp,
        ),
{
    skip(
        tool_call_id,
        tool_name,
        Json::Null,
        None,
        "Skipped due to queued user message.".to_string(),
        result_tokens,
        timestamp,
    )
}

/// The number of bytes of an argument that a preview shows.
pub const PREVIEW_VALUE_BYTES: usize = 80;

/// How an argument is written in a preview: a string as it is, any other value as JSON.
pub open spec fn argument_text(value: JsonView) -> Seq<char> {
    match value {
        JsonView::Text(text) => text,
        _ => json_text(value),
    }
}

/// A text as a preview shows it: whole, or its first bytes and an ellipsis.
pub open spec fn shortened(text: Seq<char>) -> Seq<char> {
    if byte_len(text) > PREVIEW_VALUE_BYTES {
        clipped(text, PREVIEW_VALUE_BYTES as int).push('…')
    } else {
        text
    }
}

/// Where a preview cuts `text`, it cuts between two characters.
pub open spec fn cuts_cleanly(text: Seq<char>) -> bool {
    byte_len(text) > PREVIEW_VALUE_BYTES ==> byte_len(clipped(text, PREVIEW_VALUE_BYTES as int))
        == PREVIEW_VALUE_BYTES
}

/// Each of these arguments can be shown in a preview.
pub open spec fn all_cut_cleanly(members: Seq<(Seq<char>, JsonView)>) -> bool {
    forall|i: int|
        0 <= i < members.len() ==> cuts_cleanly(argument_text((#[trigger] members[i]).1))
}

/// Each argument can be shown in a preview.
pub open spec fn previewable(args: JsonView) -> bool {
    match args {
        JsonView::Object(members) => all_cut_cleanly(members),
        _ => true,
    }
}

/// The arguments in a preview, each as ` key=value`.
pub open spec fn arguments_preview(members: Seq<(Seq<char>, JsonView)>) -> Seq<char>
    decreases members.len(),
{
    if members.len() == 0 {
        Seq::empty()
    } else {
        arguments_preview(members.drop_last()) + " "@ + members.last().0 + "="@ + shortened(
            argument_text(members.last().1),
        )
    }
}

/// The preview of a call: the tool's name, then its arguments.
pub open spec fn call_preview(tool_name: Seq<char>, args: JsonView) -> Seq<char> {
    match args {
        JsonView::Object(members) => tool_name + arguments_preview(members),
        _ => tool_name,
    }
}

/// How an argument is written in a preview.
fn text_of_argument(value: &Json) -> (r: String)
    ensures
        r@ == argument_text(value@),
{
    match value {
        Json::Text(text) => text.clone(),
        _ => value.text(),
    }
}

/// Whether each argument can be shown in a preview.
pub fn is_previewable(args: &Json) -> (r: bool)
    ensures
        r == previewable(args@),
{
    match args {
        Json::Object(members) => {
            let ghost views = args@->Object_0;
            let mut i: usize = 0;
            while i < members.len()
                invariant
                    i <= members.len(),
                    *args == Json::Object(*members),
                    args@ == JsonView::Object(views),
                    views.len() == members.len(),
                    forall|k: int|
                        0 <= k < i ==> cuts_cleanly(argument_text((#[trigger] views[k]).1)),
                decreases members.len() - i,
            {
                proof {
                    assert(views[i as int].1 == json_view(members[i as int].1));
                }
                let text: String = text_of_argument(&members[i].1);
                if len_in_bytes(text.as_str()) > PREVIEW_VALUE_BYTES {
                    let head: &str = clip(text.as_str(), PREVIEW_VALUE_BYTES);
                    if len_in_bytes(head) != PREVIEW_VALUE_BYTES {
                        proof {
                            assert(!cuts_cleanly(argument_text(views[i as int].1)));
                            assert(!all_cut_cleanly(views));
                        }
                        return false;
                    }
                }
                i = i + 1;
            }
            true
        },
        _ => true,
    }
}

/// Build a compact preview string for doom-loop skipped tool calls.
pub fn build_doom_loop_preview(tool_name: &str, args: &Json) -> (r: String)
    requires
        previewable(args@),
    ensures
        r@ == call_preview(tool_name@, args@),
{
    let mut preview: String = tool_name.to_string();
    if let Json::Object(members) = args {
        let ghost views = args@->Object_0;
        let mut i: usize = 0;
        proof {
            assert(preview@ =~= tool_name@ + arguments_preview(views.take(0)));
        }
        while i < members.len()
            invariant
                i <= members.len(),
                *args == Json::Object(*members),
                args@ == JsonView::Object(views),
                views.len() == members.len(),
                preview@ == tool_name@ + arguments_preview(views.take(i as int)),
            decreases members.len() - i,
        {
            proof {
                assert(views.take(i + 1).drop_last() =~= views.take(i as int));
                assert(views[i as int].0 == members[i as int].0@);
                assert(views[i as int].1 == json_view(members[i as int].1));
            }
            let text: String = text_of_argument(&members[i].1);
            let value: String = if len_in_bytes(text.as_str()) > PREVIEW_VALUE_BYTES {
                let mut head: String = clip(text.as_str(), PREVIEW_VALUE_BYTES).to_string();
                head.push('…');
                head
            } else {
                text
            };
            preview.append(" ");
            preview.append(members[i].0.as_str());
            preview.append("=");
            preview.append(value.as_str());
            proof {
                assert(preview@ =~= tool_name@ + arguments_preview(views.take(i + 1)));
            }
            i = i + 1;
        }
        proof {
            assert(views.take(i as int) =~= views);
        }
    }
    preview
}

/// The text of the result of a call that repeats itself.
pub open spec fn doom_loop_text() -> Seq<char> {
    "Skipped: doom loop detected — repeated identical tool call."@
}

/// The content of the result of a call that repeats itself, for the host to measure.
pub fn doom_loop_content() -> (r: Vec<Content>)
    ensures
        blocks(r@) == error_result(doom_loop_text()).content,
{
    let result: ToolResult = ToolResult::text(
        "Skipped: doom loop detected — repeated identical tool call.".to_string(),
        Json::Null,
    );
    result.content
}

/// Answers a call that is skipped because it repeats itself.
pub fn skip_tool_call_doom_loop(
    tool_call_id: &str,
    tool_name: &str,
    args: &Json,
    result_tokens: usize,
    timestamp: u64,
) -> (r: Emission)
    requires
        previewable(args@),
    ensures
        r.message@ == answer(
            tool_call_id@,
            tool_name@,
            error_result(doom_loop_text()),
            true,
            timestamp,
        ),
        event_views(r.events@) == skip_events(
            tool_call_id@,
            tool_name@,
            args@,
            Some(call_preview(tool_name@, args@)),
            doom_loop_text(),
            result_tokens,
            timestamp,
        ),
{
    let preview: String = build_doom_loop_preview(tool_name, args);
    skip(
        tool_call_id,
        tool_name,
        args.copy(),
        Some(preview),
        "Skipped: doom loop detected — repeated identical tool call.".to_string(),
        result_tokens,
        timestamp,
    )
}

/// A preview shows at most the first bytes of an argument and the ellipsis, and a short
/// argument whole.
pub proof fn law_shortened(text: Seq<char>)
    ensures
        byte_len(text) <= PREVIEW_VALUE_BYTES ==> shortened(text) == text,
        byte_len(text) > PREVIEW_VALUE_BYTES ==> shortened(text).last() == '…'
            && shortened(text).drop_last().is_prefix_of(text),
        byte_len(shortened(text)) <= PREVIEW_VALUE_BYTES + 3,
{
    let head = clipped(text, PREVIEW_VALUE_BYTES as int);
    lemma_clipped(text, PREVIEW_VALUE_BYTES as int);
    let mark = seq!['…'];
    lemma_byte_len_concat(head, mark);
    assert(head + mark =~= head.push('…'));
    assert(head.push('…').drop_last() =~= head);
    lemma_byte_len_concat(Seq::empty(), mark);
    lemma_ellipsis();
}

proof fn lemma_ellipsis()
    ensures
        byte_len(seq!['…']) == 3,
{
    let mark = seq!['…'];
    assert(mark.drop_first() =~= Seq::empty());
    assert(byte_len(mark.drop_first()) == 0);
    lemma_byte_len_first(mark);
}

/// The events at the end of a call name the call, and the message that they announce is
/// the one that answers it.
pub proof fn law_end_events_name_the_call(
    id: Seq<char>,
    name: Seq<char>,
    result: ToolResultView,
    is_error: bool,
    result_tokens: usize,
    duration_ms: u64,
    timestamp: u64,
)
    ensures
        ({
            let events = end_events(
                id,
                name,
                result,
                is_error,
                result_tokens,
                duration_ms,
                timestamp,
            );
            let message = answer(id, name, result, is_error, timestamp);
            &&& events.len() == 3
            &&& events[0] is ToolExecutionEnd
            &&& events[0]->ToolExecutionEnd_tool_call_id == id
            &&& events[0]->ToolExecutionEnd_tool_name == name
            &&& events[0]->ToolExecutionEnd_result.content == message.content
            &&& events[0]->ToolExecutionEnd_is_error == message.is_error
            &&& events[1] == (AgentEventView::MessageStart { message })
            &&& events[2] == (AgentEventView::MessageEnd { message })
            &&& message.tool_call_id == id
            &&& message.tool_name == name
        }),
{
}

} // verus!
