//! Laws of tool results: how their text is merged, saved and shown.

use vstd::prelude::*;

use crate::call_run::{completes, settles, CallPhase};
use crate::json::{json_view, Json, JsonView};
use crate::parameter_completion::{added_path, completed_parameters};
use crate::laws::text::law_clipped;
use crate::text::{byte_len, clipped, decimal, lemma_byte_len_concat, lemma_clipped};
use crate::tool_call::completed_arguments;
use crate::tool_output::{merged_text, other_blocks, spill_notice, spilled_result};
use crate::types::{
    blocks, event_views, text_result, AgentEvent, AgentEventView, Content, ContentView, Message,
    MessageView, Retention, ToolCall, ToolError, ToolErrorView, ToolResult, ToolResultView,
};

verus! {

/// The number of characters in the texts of the blocks.
pub open spec fn text_total(content: Seq<ContentView>) -> nat
    decreases content.len(),
{
    if content.len() == 0 {
        0
    } else {
        text_total(content.drop_last()) + (match content.last() {
            ContentView::Text(text) => text.len(),
            ContentView::Other(_) => 0,
        })
    }
}

/// A further block of text is merged behind one line break, whatever was merged before
/// it, and without one where nothing was; a block that is not text adds nothing.
pub proof fn law_merged_appends(content: Seq<ContentView>, text: Seq<char>, value: JsonView)
    ensures
        merged_text(Seq::<ContentView>::empty()) == Seq::<char>::empty(),
        merged_text(content).len() == 0 ==> merged_text(content.push(ContentView::Text(text)))
            == text,
        merged_text(content).len() > 0 ==> merged_text(content.push(ContentView::Text(text)))
            == merged_text(content) + seq!['\n'] + text,
        merged_text(content.push(ContentView::Other(value))) == merged_text(content),
{
    let with_text = content.push(ContentView::Text(text));
    let with_other = content.push(ContentView::Other(value));
    assert(with_text.drop_last() =~= content);
    assert(with_other.drop_last() =~= content);
    assert(merged_text(content).push('\n') + text =~= merged_text(content) + seq!['\n'] + text);
}

/// Where the first block is text that is not empty, and the others are text, the merged
/// text holds their texts and one line break less than there are blocks.
pub proof fn law_merged_len(content: Seq<ContentView>)
    requires
        content.len() > 0,
        forall|i: int| 0 <= i < content.len() ==> (#[trigger] content[i]) is Text,
        content[0]->Text_0.len() > 0,
    ensures
        merged_text(content).len() == text_total(content) + content.len() - 1,
    decreases content.len(),
{
    let before = content.drop_last();
    assert(content[content.len() - 1] is Text);
    if content.len() == 1 {
        assert(before =~= Seq::<ContentView>::empty());
        assert(merged_text(before).len() == 0);
        assert(text_total(before) == 0);
    } else {
        assert(before[0] == content[0]);
        assert forall|i: int| 0 <= i < before.len() implies (#[trigger] before[i]) is Text by {
            assert(before[i] == content[i]);
        }
        law_merged_len(before);
    }
}

/// The merged text starts with the merged text of the blocks before the last.
pub proof fn law_merged_grows(content: Seq<ContentView>, block: ContentView)
    ensures
        merged_text(content).is_prefix_of(merged_text(content.push(block))),
{
    let longer = content.push(block);
    assert(longer.drop_last() =~= content);
    let before = merged_text(content);
    match block {
        ContentView::Text(text) => {
            if before.len() > 0 {
                let after = merged_text(longer);
                assert(after.subrange(0, before.len() as int) =~= before);
            }
        },
        ContentView::Other(_) => {
            assert(before.subrange(0, before.len() as int) =~= before);
        },
    }
}

/// Of the blocks those are kept that are not text, each of them and in order.
pub proof fn law_other_blocks(content: Seq<ContentView>, text: Seq<char>, value: JsonView)
    ensures
        other_blocks(Seq::<ContentView>::empty()).len() == 0,
        other_blocks(content.push(ContentView::Text(text))) == other_blocks(content),
        other_blocks(content.push(ContentView::Other(value))) == other_blocks(content).push(
            ContentView::Other(value),
        ),
{
    assert(content.push(ContentView::Text(text)).drop_last() =~= content);
    assert(content.push(ContentView::Other(value)).drop_last() =~= content);
}

/// The notice in place of a saved text gives its size and its path, and then as much of
/// the preview as fits into 4000 bytes; the rest of the result stays.
pub proof fn law_spill_notice(
    result: ToolResultView,
    path: Seq<char>,
    size_bytes: u64,
    preview: Seq<char>,
    n: int,
)
    requires
        0 <= n <= preview.len(),
        byte_len(preview.take(n)) <= 4000,
        n < preview.len() ==> byte_len(preview.take(n + 1)) > 4000,
    ensures
        spilled_result(result, path, size_bytes, preview) == (ToolResultView {
            content: seq![
                ContentView::Text(
                    "Tool output was too large ("@ + decimal(size_bytes as nat)
                        + " bytes) and was saved to:\n"@ + path
                        + "\n\nOnly a preview is shown below. Use read_file with offset/limit to read the full output.\n\nPreview:\n"@
                        + preview.take(n),
                ),
            ] + other_blocks(result.content),
            details: result.details,
            retention: result.retention,
        }),
{
    law_clipped(preview, 4000, n);
    lemma_clipped(preview, 4000);
    let head = clipped(preview, 4000);
    if n < preview.len() {
        let m = head.len() as int;
        if n < m {
            assert(preview.take(m) =~= preview.take(n + 1) + preview.subrange(n + 1, m));
            lemma_byte_len_concat(preview.take(n + 1), preview.subrange(n + 1, m));
        }
    }
    assert(head =~= preview.take(n));
}

/// The result of a call is capped where it is an error or the host saves nothing; else it
/// stays where it has no text, and its merged text is saved where it has.
pub proof fn law_result_is_settled(
    phase: CallPhase,
    result: ToolResultView,
    is_error: bool,
    can_spill: bool,
    id: Seq<char>,
)
    requires
        settles(phase, result, is_error, can_spill, id),
    ensures
        is_error || !can_spill ==> (phase matches CallPhase::Capping { result: r, is_error: e }
            && r@ == result && e == is_error),
        !is_error && can_spill && merged_text(result.content).len() == 0 ==> (phase matches
            CallPhase::Measuring { result: r, is_error: e } && r@ == result && !e),
        !is_error && can_spill && merged_text(result.content).len() > 0 ==> (phase matches
            CallPhase::Spilling { request, result: r } && r@ == result && request.key@ == id
            && request.text@ == merged_text(result.content)),
{
}

/// The arguments of a call are completed without a task, and stay as they are where
/// completion fails; the host probes a path that was added, and validates where none was.
pub proof fn law_call_is_completed(
    phase: CallPhase,
    tool: usize,
    call: ToolCall,
    cwd: Seq<char>,
    taken: Seq<Seq<char>>,
)
    requires
        completes(phase, tool, call, cwd, taken),
    ensures
        ({
            let completed = completed_parameters(call.name@, call.args@, cwd, None, taken);
            let args = if completed is Ok {
                completed->Ok_0
            } else {
                call.args@
            };
            &&& completed_arguments(call.name@, call.args@, cwd, taken) == args
            &&& (added_path(call.args@, args) matches Some(path) ==> (phase matches
                CallPhase::Probing { tool: t, args: a, path: p } && t == tool && a@ == args
                && p@ == path))
            &&& (added_path(call.args@, args) is None ==> (phase matches CallPhase::Validating {
                tool: t,
                args: a,
            } && t == tool && a@ == args))
        }),
{
}

/// A result of one text holds that text, those details, and nothing else.
pub proof fn law_text_result(text: Seq<char>, details: JsonView)
    ensures
        text_result(text, details).content == seq![ContentView::Text(text)],
        text_result(text, details).details == details,
        text_result(text, details).retention == Retention::Normal,
{
}

/// Blocks and events are seen one each and in order.
pub proof fn law_views_in_order(content: Seq<Content>, events: Seq<AgentEvent>)
    ensures
        blocks(content).len() == content.len(),
        forall|i: int| 0 <= i < content.len() ==> blocks(content)[i] == (#[trigger] content[i])@,
        event_views(events).len() == events.len(),
        forall|i: int| 0 <= i < events.len() ==> event_views(events)[i] == (#[trigger] events[i])@,
{
}

/// How many blocks of text there are from the first on that is not empty.
pub open spec fn counted_texts(content: Seq<ContentView>) -> nat
    decreases content.len(),
{
    if content.len() == 0 {
        0
    } else {
        let before = counted_texts(content.drop_last());
        match content.last() {
            ContentView::Text(text) => if before > 0 || text.len() > 0 {
                before + 1
            } else {
                0
            },
            ContentView::Other(_) => before,
        }
    }
}

/// Whatever the blocks are, the merged text is as long as their texts together, and one
/// line break for each text from the first on that is not empty, but for one.
pub proof fn law_merged_total(content: Seq<ContentView>)
    ensures
        counted_texts(content) == 0 <==> merged_text(content).len() == 0,
        counted_texts(content) == 0 ==> text_total(content) == 0,
        counted_texts(content) > 0 ==> merged_text(content).len() == text_total(content)
            + counted_texts(content) - 1,
    decreases content.len(),
{
    if content.len() > 0 {
        law_merged_total(content.drop_last());
    }
}

/// A block is seen as the text or the value that it holds.
pub proof fn law_view_of_block(text: String, value: Json)
    ensures
        (Content::Text { text })@ == ContentView::Text(text@),
        (Content::Other { value })@ == ContentView::Other(value@),
        value@ == json_view(value),
{
}

/// A result and a message are seen with all that they hold.
pub proof fn law_view_of_result(
    result: ToolResult,
    id: String,
    name: String,
    is_error: bool,
    timestamp: u64,
)
    ensures
        result@ == (ToolResultView {
            content: blocks(result.content@),
            details: result.details@,
            retention: result.retention,
        }),
        (Message::ToolResult {
            tool_call_id: id,
            tool_name: name,
            content: result.content,
            is_error,
            timestamp,
            retention: result.retention,
        })@ == (MessageView {
            tool_call_id: id@,
            tool_name: name@,
            content: blocks(result.content@),
            is_error,
            timestamp,
            retention: result.retention,
        }),
{
}

/// An error is seen as what it is, with its text.
pub proof fn law_view_of_error(text: String)
    ensures
        ToolError::InvalidArgs(text)@ == ToolErrorView::InvalidArgs(text@),
        ToolError::Failed(text)@ == ToolErrorView::Failed(text@),
        ToolError::Cancelled@ == ToolErrorView::Cancelled,
{
}

/// An event is seen with all that it holds.
pub proof fn law_view_of_event(
    id: String,
    name: String,
    text: String,
    args: Json,
    result: ToolResult,
    message: Message,
    is_error: bool,
    result_tokens: usize,
    duration_ms: u64,
)
    ensures
        (AgentEvent::ToolExecutionStart {
            tool_call_id: id,
            tool_name: name,
            args,
            preview_command: Some(text),
        })@ == (AgentEventView::ToolExecutionStart {
            tool_call_id: id@,
            tool_name: name@,
            args: args@,
            preview_command: Some(text@),
        }),
        (AgentEvent::ToolExecutionStart {
            tool_call_id: id,
            tool_name: name,
            args,
            preview_command: None,
        })@ == (AgentEventView::ToolExecutionStart {
            tool_call_id: id@,
            tool_name: name@,
            args: args@,
            preview_command: None,
        }),
        (AgentEvent::ToolExecutionUpdate {
            tool_call_id: id,
            tool_name: name,
            partial_result: result,
        })@ == (AgentEventView::ToolExecutionUpdate {
            tool_call_id: id@,
            tool_name: name@,
            partial_result: result@,
        }),
        (AgentEvent::ProgressMessage { tool_call_id: id, tool_name: name, text })@ == (
        AgentEventView::ProgressMessage { tool_call_id: id@, tool_name: name@, text: text@ }),
        (AgentEvent::ToolExecutionEnd {
            tool_call_id: id,
            tool_name: name,
            result,
            is_error,
            result_tokens,
            duration_ms,
        })@ == (AgentEventView::ToolExecutionEnd {
            tool_call_id: id@,
            tool_name: name@,
            result: result@,
            is_error,
            result_tokens,
            duration_ms,
        }),
        (AgentEvent::MessageStart { message })@ == (AgentEventView::MessageStart {
            message: message@,
        }),
        (AgentEvent::MessageEnd { message })@ == (AgentEventView::MessageEnd {
            message: message@,
        }),
{
}

} // verus!
