//! Laws of the execution of tool calls: which calls run together, in what order, and what
//! each of them is answered.

use vstd::prelude::*;

use crate::json::{json_text, JsonView};
use crate::text::{
    byte_len, clipped, fit, lemma_byte_len_concat, lemma_byte_len_first, lemma_clipped,
};
use crate::tool_call::{
    all_cut_cleanly, answer, argument_text, arguments_preview, call_preview, cuts_cleanly,
    doom_loop_text, end_events, error_result, previewable, shortened, skip_events, skipped_text,
    start_event, tool_index, PREVIEW_VALUE_BYTES,
};
use crate::tool_exec::{
    all_safe, answer_in_order, answers, batch_end, batches, covers, is_safe,
    law_plan_covers_all_calls, plan, RunAction, RunPhase, Segment,
    ToolExecutionStrategy, ToolRun,
};
use crate::types::{
    AgentEventView, ContentView, Message, Retention, ToolCall, ToolInfo, ToolResultView,
};

verus! {

/// The first tool of that name exists and may run at the same time as others.
pub open spec fn first_tool_allows(tools: Seq<ToolInfo>, name: Seq<char>) -> bool {
    exists|k: int|
        {
            &&& 0 <= k < tools.len()
            &&& (#[trigger] tools[k]).name@ == name
            &&& tools[k].concurrency_safe
            &&& forall|m: int| 0 <= m < k ==> (#[trigger] tools[m]).name@ != name
        }
}

proof fn lemma_tool_index(tools: Seq<ToolInfo>, name: Seq<char>, from: int)
    requires
        0 <= from <= tools.len(),
    ensures
        match tool_index(tools, name, from) {
            Some(i) => {
                &&& from <= i < tools.len()
                &&& tools[i].name@ == name
                &&& forall|m: int| from <= m < i ==> (#[trigger] tools[m]).name@ != name
            },
            None => forall|m: int|
                from <= m < tools.len() ==> (#[trigger] tools[m]).name@ != name,
        },
    decreases tools.len() - from,
{
    if from < tools.len() && tools[from].name@ != name {
        lemma_tool_index(tools, name, from + 1);
    }
}

/// A name stands for the first tool that has it, and for none only where none has it.
pub proof fn law_tool_index(tools: Seq<ToolInfo>, name: Seq<char>)
    ensures
        match tool_index(tools, name, 0) {
            Some(i) => {
                &&& 0 <= i < tools.len()
                &&& tools[i].name@ == name
                &&& forall|m: int| 0 <= m < i ==> (#[trigger] tools[m]).name@ != name
            },
            None => forall|m: int| 0 <= m < tools.len() ==> (#[trigger] tools[m]).name@ != name,
        },
{
    lemma_tool_index(tools, name, 0);
}

proof fn lemma_is_safe(tools: Seq<ToolInfo>, call: ToolCall)
    ensures
        is_safe(tools, call) == first_tool_allows(tools, call.name@),
{
    let name = call.name@;
    lemma_tool_index(tools, name, 0);
    if first_tool_allows(tools, name) {
        let k = choose|k: int|
            {
                &&& 0 <= k < tools.len()
                &&& (#[trigger] tools[k]).name@ == name
                &&& tools[k].concurrency_safe
                &&& forall|m: int| 0 <= m < k ==> (#[trigger] tools[m]).name@ != name
            };
        let i = tool_index(tools, name, 0)->0;
        assert(tools[i].name@ == name);
        assert(i == k);
    }
}

/// A batch is safe exactly where the first tool that each of its calls names exists and
/// allows other calls at the same time.
pub proof fn law_batch_is_safe(tools: Seq<ToolInfo>, calls: Seq<ToolCall>)
    ensures
        all_safe(tools, calls) == (forall|j: int|
            0 <= j < calls.len() ==> first_tool_allows(tools, (#[trigger] calls[j]).name@)),
{
    assert forall|j: int| 0 <= j < calls.len() implies is_safe(tools, #[trigger] calls[j])
        == first_tool_allows(tools, calls[j].name@) by {
        lemma_is_safe(tools, calls[j]);
    }
}

/// One call of a batch whose tool is missing or allows no other call makes the batch
/// unsafe, wherever the call stands.
pub proof fn law_one_unsafe_call(tools: Seq<ToolInfo>, calls: Seq<ToolCall>, j: int)
    requires
        0 <= j < calls.len(),
        !first_tool_allows(tools, calls[j].name@),
    ensures
        !all_safe(tools, calls),
{
    lemma_is_safe(tools, calls[j]);
    assert(!is_safe(tools, calls[j]));
}

proof fn lemma_batch_at(
    tools: Seq<ToolInfo>,
    calls: Seq<ToolCall>,
    size: usize,
    from: int,
    k: int,
)
    requires
        size > 0,
        0 <= from <= calls.len() <= usize::MAX,
        0 <= k < batches(tools, calls, size, from).len(),
    ensures
        ({
            let segment = batches(tools, calls, size, from)[k];
            let start = from + k * size;
            let end = if start + size < calls.len() {
                start + size
            } else {
                calls.len() as int
            };
            &&& start < calls.len()
            &&& segment.start == start
            &&& segment.end == end
            &&& segment.concurrent == all_safe(tools, calls.subrange(start, end))
        }),
    decreases calls.len() - from,
{
    let end = batch_end(calls.len(), size, from);
    if k > 0 {
        lemma_batch_at(tools, calls, size, end, k - 1);
        assert(k * size == (k - 1) * size + size) by (nonlinear_arith);
        assert(batches(tools, calls, size, from)[k] == batches(tools, calls, size, end)[k - 1]);
        if end == calls.len() {
            assert(batches(tools, calls, size, end).len() == 0);
        }
    } else {
        assert(k * size == 0) by (nonlinear_arith)
            requires
                k == 0,
        ;
    }
}

/// A batch is the calls from a multiple of the size up to the next, or up to the last
/// call; it runs at once exactly where the tool of each of its calls allows that.
pub proof fn law_batched(tools: Seq<ToolInfo>, calls: Seq<ToolCall>, size: usize, k: int)
    requires
        size > 0,
        calls.len() <= usize::MAX,
        0 <= k < plan(tools, calls, ToolExecutionStrategy::Batched { size }).len(),
    ensures
        ({
            let segment = plan(tools, calls, ToolExecutionStrategy::Batched { size })[k];
            &&& segment.start == k * size
            &&& segment.start < segment.end <= calls.len()
            &&& segment.end == k * size + size || (segment.end == calls.len() && segment.end < k
                * size + size)
            &&& segment.concurrent == (forall|j: int|
                segment.start <= j < segment.end ==> first_tool_allows(
                    tools,
                    (#[trigger] calls[j]).name@,
                ))
        }),
{
    lemma_batch_at(tools, calls, size, 0, k);
    let segment = plan(tools, calls, ToolExecutionStrategy::Batched { size })[k];
    lemma_part_is_safe(tools, calls, segment.start as int, segment.end as int);
}

proof fn lemma_part_is_safe(tools: Seq<ToolInfo>, calls: Seq<ToolCall>, start: int, end: int)
    requires
        0 <= start <= end <= calls.len(),
    ensures
        all_safe(tools, calls.subrange(start, end)) == (forall|j: int|
            start <= j < end ==> first_tool_allows(tools, (#[trigger] calls[j]).name@)),
{
    let part = calls.subrange(start, end);
    law_batch_is_safe(tools, part);
    if all_safe(tools, part) {
        assert forall|j: int| start <= j < end implies first_tool_allows(
            tools,
            (#[trigger] calls[j]).name@,
        ) by {
            assert(part[j - start] == calls[j]);
        }
    }
    if forall|j: int| start <= j < end ==> first_tool_allows(tools, (#[trigger] calls[j]).name@) {
        assert forall|j: int| 0 <= j < part.len() implies first_tool_allows(
            tools,
            (#[trigger] part[j]).name@,
        ) by {
            assert(part[j] == calls[start + j]);
        }
    }
}

/// Under any strategy, each call of a segment whose calls run at the same time names a
/// tool that exists and allows it.
pub proof fn law_concurrent_calls_are_allowed(
    tools: Seq<ToolInfo>,
    calls: Seq<ToolCall>,
    strategy: ToolExecutionStrategy,
    k: int,
    j: int,
)
    requires
        calls.len() <= usize::MAX,
        strategy matches ToolExecutionStrategy::Batched { size } ==> size > 0,
        0 <= k < plan(tools, calls, strategy).len(),
        plan(tools, calls, strategy)[k].concurrent,
        plan(tools, calls, strategy)[k].start <= j < plan(tools, calls, strategy)[k].end,
    ensures
        0 <= j < calls.len(),
        first_tool_allows(tools, calls[j].name@),
{
    match strategy {
        ToolExecutionStrategy::Sequential => {},
        ToolExecutionStrategy::Parallel => {
            law_batch_is_safe(tools, calls);
        },
        ToolExecutionStrategy::Batched { size } => {
            law_batched(tools, calls, size, k);
        },
    }
}

/// The sequential strategy runs each call on its own, in order; so does the parallel one
/// where the tool of some call does not allow other calls at the same time.
pub proof fn law_one_after_the_other(
    tools: Seq<ToolInfo>,
    calls: Seq<ToolCall>,
    strategy: ToolExecutionStrategy,
    i: int,
)
    requires
        calls.len() <= usize::MAX,
        strategy == ToolExecutionStrategy::Sequential || (strategy
            == ToolExecutionStrategy::Parallel && exists|j: int|
            0 <= j < calls.len() && !first_tool_allows(tools, (#[trigger] calls[j]).name@)),
        0 <= i < calls.len(),
    ensures
        plan(tools, calls, strategy).len() == calls.len(),
        plan(tools, calls, strategy)[i].start == i,
        plan(tools, calls, strategy)[i].end == i + 1,
        !plan(tools, calls, strategy)[i].concurrent,
{
    law_batch_is_safe(tools, calls);
}

/// The parallel strategy runs all calls at once where the tool of each allows it.
pub proof fn law_all_at_once(tools: Seq<ToolInfo>, calls: Seq<ToolCall>)
    requires
        calls.len() <= usize::MAX,
        forall|j: int|
            0 <= j < calls.len() ==> first_tool_allows(tools, (#[trigger] calls[j]).name@),
    ensures
        ({
            let segments = plan(tools, calls, ToolExecutionStrategy::Parallel);
            &&& segments.len() == 1
            &&& segments[0].start == 0
            &&& segments[0].end == calls.len()
            &&& segments[0].concurrent
        }),
{
    law_batch_is_safe(tools, calls);
}

proof fn lemma_covers(segments: Seq<Segment>, from: int, n: int, j: int) -> (k: int)
    requires
        covers(segments, from, n),
        from <= j < n,
    ensures
        0 <= k < segments.len(),
        segments[k].start <= j < segments[k].end,
    decreases segments.len(),
{
    if j < segments[0].end {
        0
    } else {
        let k = lemma_covers(segments.drop_first(), segments[0].end as int, n, j);
        assert(segments.drop_first()[k] == segments[k + 1]);
        k + 1
    }
}

proof fn lemma_covers_in_order(segments: Seq<Segment>, from: int, n: int, k: int)
    requires
        covers(segments, from, n),
        0 <= k < segments.len(),
    ensures
        segments[0].start == from,
        segments[k].start <= segments[k].end <= n,
        k + 1 < segments.len() ==> segments[k + 1].start == segments[k].end,
        segments[segments.len() - 1].end == n,
    decreases segments.len(),
{
    let rest = segments.drop_first();
    if segments.len() > 1 {
        lemma_covers_in_order(
            rest,
            segments[0].end as int,
            n,
            if k > 0 {
                k - 1
            } else {
                0
            },
        );
        assert(rest[0] == segments[1]);
        assert(rest[rest.len() - 1] == segments[segments.len() - 1]);
        if k > 0 {
            assert(rest[k - 1] == segments[k]);
            if k + 1 < segments.len() {
                assert(rest[k] == segments[k + 1]);
            }
        }
    } else {
        assert(covers(rest, segments[0].end as int, n));
    }
}

/// Under any strategy, each call is in a segment, and each segment starts where the one
/// before it ends: the first at the first call, and the last ends behind the last call.
pub proof fn law_each_call_is_planned(
    tools: Seq<ToolInfo>,
    calls: Seq<ToolCall>,
    strategy: ToolExecutionStrategy,
    j: int,
)
    requires
        calls.len() <= usize::MAX,
        strategy matches ToolExecutionStrategy::Batched { size } ==> size > 0,
        0 <= j < calls.len(),
    ensures
        ({
            let segments = plan(tools, calls, strategy);
            &&& exists|k: int|
                0 <= k < segments.len() && (#[trigger] segments[k]).start <= j < segments[k].end
            &&& segments.len() > 0 && segments[0].start == 0
            &&& segments[segments.len() - 1].end == calls.len()
            &&& forall|k: int|
                0 <= k < segments.len() - 1 ==> (#[trigger] segments[k]).end == segments[k
                    + 1].start
        }),
{
    let segments = plan(tools, calls, strategy);
    let n = calls.len() as int;
    law_plan_covers_all_calls(tools, calls, strategy);
    let k = lemma_covers(segments, 0, n, j);
    assert(segments[k].start <= j < segments[k].end);
    assert forall|k: int| 0 <= k < segments.len() - 1 implies (#[trigger] segments[k]).end
        == segments[k + 1].start by {
        lemma_covers_in_order(segments, 0, n, k);
    }
    lemma_covers_in_order(segments, 0, n, k);
}

/// A host polls once the calls of a segment are done, if the user can be heard; it
/// executes segments until none is left; it skips calls once the user was heard, until
/// each has its message.
pub proof fn law_next_action<M>(run: &ToolRun<M>)
    requires
        run.results@.len() <= usize::MAX,
    ensures
        run.phase == RunPhase::Polling ==> run.next_action() == RunAction::Poll,
        run.phase == RunPhase::Executing && run.next < run.segments@.len() ==> run.next_action()
            == RunAction::Execute(run.segments@[run.next as int]),
        run.phase == RunPhase::Executing && run.next >= run.segments@.len() ==> run.next_action()
            == RunAction::Finish,
        run.phase == RunPhase::Skipping && run.results@.len() < run.calls@.len() ==> (
        run.next_action() matches RunAction::Skip(i) && i == run.results@.len()),
        run.phase == RunPhase::Skipping && run.results@.len() >= run.calls@.len() ==> run.next_action()
            == RunAction::Finish,
{
}

/// Messages answer calls in order where each names its call by id and name.
pub proof fn law_answer_in_order(messages: Seq<Message>, calls: Seq<ToolCall>, from: int)
    ensures
        answer_in_order(messages, calls, from) == (from + messages.len() <= calls.len() && forall|
            i: int,
        |
            0 <= i < messages.len() ==> (#[trigger] messages[i])@.tool_call_id == calls[from
                + i].id@ && messages[i]@.tool_name == calls[from + i].name@),
{
    assert forall|i: int| 0 <= i < messages.len() implies answers(
        (#[trigger] messages[i])@,
        calls[from + i],
    ) == (messages[i]@.tool_call_id == calls[from + i].id@ && messages[i]@.tool_name == calls[from
        + i].name@) by {}
}

/// A run that stays well formed keeps its promises: the messages answer the first calls
/// in order, and once the user was heard, what was sent is kept.
pub proof fn law_run_keeps_order<M>(run: &ToolRun<M>, i: int)
    requires
        run.well_formed(),
        0 <= i < run.results@.len(),
    ensures
        run.results@.len() <= run.calls@.len(),
        run.results@[i]@.tool_call_id == run.calls@[i].id@,
        run.results@[i]@.tool_name == run.calls@[i].name@,
        run.phase == RunPhase::Skipping ==> (run.steering matches Some(sent) && sent@.len() > 0),
        run.phase != RunPhase::Skipping ==> run.steering is None,
        run.phase == RunPhase::Polling ==> run.polls,
{
    assert(answers(run.results@[i]@, run.calls@[0 + i]));
}

/// The result of a failed call is one block with the text of the error, without details.
pub proof fn law_error_result(text: Seq<char>)
    ensures
        error_result(text).content == seq![ContentView::Text(text)],
        error_result(text).details == JsonView::Null,
        error_result(text).retention == Retention::Normal,
{
}

/// The start of a call is reported with its id, name, arguments and preview.
pub proof fn law_start_event(
    id: Seq<char>,
    name: Seq<char>,
    args: JsonView,
    preview_command: Option<Seq<char>>,
)
    ensures
        start_event(id, name, args, preview_command) == (AgentEventView::ToolExecutionStart {
            tool_call_id: id,
            tool_name: name,
            args,
            preview_command,
        }),
{
}

/// The message that answers a call holds what its result holds, and the end of the call
/// and the start and the end of that message are reported, in this order.
pub proof fn law_end_of_a_call(
    id: Seq<char>,
    name: Seq<char>,
    result: ToolResultView,
    is_error: bool,
    result_tokens: usize,
    duration_ms: u64,
    timestamp: u64,
)
    ensures
        ({
            let message = answer(id, name, result, is_error, timestamp);
            let events = end_events(
                id,
                name,
                result,
                is_error,
                result_tokens,
                duration_ms,
                timestamp,
            );
            &&& message.tool_call_id == id && message.tool_name == name
            &&& message.content == result.content && message.retention == result.retention
            &&& message.is_error == is_error && message.timestamp == timestamp
            &&& events.len() == 3
            &&& events[0] == (AgentEventView::ToolExecutionEnd {
                tool_call_id: id,
                tool_name: name,
                result,
                is_error,
                result_tokens,
                duration_ms,
            })
            &&& events[1] == (AgentEventView::MessageStart { message })
            &&& events[2] == (AgentEventView::MessageEnd { message })
        }),
{
}

/// A call that does not run is reported as started, and as ended at once with an error;
/// its message is announced as that of any other call.
pub proof fn law_skipped_call(
    id: Seq<char>,
    name: Seq<char>,
    args: JsonView,
    preview_command: Option<Seq<char>>,
    text: Seq<char>,
    result_tokens: usize,
    timestamp: u64,
)
    ensures
        ({
            let events = skip_events(
                id,
                name,
                args,
                preview_command,
                text,
                result_tokens,
                timestamp,
            );
            let message = answer(id, name, error_result(text), true, timestamp);
            &&& events.len() == 4
            &&& events[0] == (AgentEventView::ToolExecutionStart {
                tool_call_id: id,
                tool_name: name,
                args,
                preview_command,
            })
            &&& events[1] == (AgentEventView::ToolExecutionEnd {
                tool_call_id: id,
                tool_name: name,
                result: error_result(text),
                is_error: true,
                result_tokens,
                duration_ms: 0,
            })
            &&& events[2] == (AgentEventView::MessageStart { message })
            &&& events[3] == (AgentEventView::MessageEnd { message })
        }),
{
}

/// What a skipped call is answered.
pub proof fn law_skip_texts()
    ensures
        skipped_text() == "Skipped due to queued user message."@,
        doom_loop_text() == "Skipped: doom loop detected — repeated identical tool call."@,
{
}

/// A preview shows a value of at most 80 bytes whole, and of a longer one that can be cut
/// there the first 80 bytes and an ellipsis.
pub proof fn law_preview_of_value(text: Seq<char>, n: int)
    requires
        0 <= n <= text.len(),
    ensures
        byte_len(text) <= 80 ==> shortened(text) == text,
        byte_len(text) > 80 && byte_len(text.take(n)) == 80 ==> shortened(text) == text.take(
            n,
        ).push('…'),
{
    lemma_clipped(text, 80);
    if byte_len(text) > 80 && byte_len(text.take(n)) == 80 {
        lemma_cut(text, n);
    }
}

proof fn lemma_longer_prefix(s: Seq<char>, n: int, m: int)
    requires
        0 <= n < m <= s.len(),
    ensures
        byte_len(s.take(n)) < byte_len(s.take(m)),
{
    let part = s.subrange(n, m);
    assert(s.take(m) =~= s.take(n) + part);
    lemma_byte_len_concat(s.take(n), part);
    lemma_byte_len_first(part);
}

proof fn lemma_cut(s: Seq<char>, n: int)
    requires
        0 <= n <= s.len(),
        byte_len(s) > 80,
        byte_len(s.take(n)) == 80,
    ensures
        clipped(s, 80) == s.take(n),
{
    lemma_clipped(s, 80);
    let head = clipped(s, 80);
    let m = head.len() as int;
    assert(head =~= s.take(m));
    if n < m {
        lemma_longer_prefix(s, n, m);
    }
    if m < n {
        lemma_longer_prefix(s, m, n);
        if m + 1 < n {
            lemma_longer_prefix(s, m + 1, n);
        }
        assert(fit(s, 80) == m);
    }
}

/// A preview is the name of the tool and, for each argument in order, a space, the key,
/// an equals sign and the value: a string as it is, any other value as JSON.
pub proof fn law_preview(
    tool_name: Seq<char>,
    members: Seq<(Seq<char>, JsonView)>,
    key: Seq<char>,
    value: JsonView,
)
    ensures
        call_preview(tool_name, JsonView::Object(Seq::empty())) == tool_name,
        call_preview(tool_name, JsonView::Object(members.push((key, value)))) == call_preview(
            tool_name,
            JsonView::Object(members),
        ) + " "@ + key + "="@ + shortened(
            if value is Text {
                value->Text_0
            } else {
                json_text(value)
            },
        ),
        value !is Object ==> call_preview(tool_name, value) == tool_name && previewable(value),
{
    let none = Seq::<(Seq<char>, JsonView)>::empty();
    assert(tool_name + arguments_preview(none) =~= tool_name);
    let longer = members.push((key, value));
    assert(longer.drop_last() =~= members);
    assert(argument_text(value) == if value is Text {
        value->Text_0
    } else {
        json_text(value)
    });
    assert(tool_name + arguments_preview(longer) =~= tool_name + arguments_preview(members) + " "@
        + key + "="@ + shortened(argument_text(value)));
}

/// A call can be previewed exactly where each of its longer arguments has a character
/// that ends at 80 bytes.
pub proof fn law_previewable(members: Seq<(Seq<char>, JsonView)>)
    ensures
        previewable(JsonView::Object(members)) == (forall|i: int|
            0 <= i < members.len() ==> cut_at_eighty(
                if (#[trigger] members[i]).1 is Text {
                    members[i].1->Text_0
                } else {
                    json_text(members[i].1)
                },
            )),
{
    assert forall|i: int| 0 <= i < members.len() implies cuts_cleanly(
        argument_text((#[trigger] members[i]).1),
    ) == cut_at_eighty(
        if members[i].1 is Text {
            members[i].1->Text_0
        } else {
            json_text(members[i].1)
        },
    ) by {
        lemma_cut_at_eighty(argument_text(members[i].1));
    }
    if previewable(JsonView::Object(members)) {
        assert(all_cut_cleanly(members));
    }
}

/// The text takes at most 80 bytes, or some prefix of it takes just as many.
pub open spec fn cut_at_eighty(text: Seq<char>) -> bool {
    byte_len(text) <= 80 || exists|n: int|
        0 <= n <= text.len() && byte_len(#[trigger] text.take(n)) == 80
}

proof fn lemma_cut_at_eighty(text: Seq<char>)
    ensures
        cuts_cleanly(text) == cut_at_eighty(text),
{
    lemma_clipped(text, 80);
    assert(PREVIEW_VALUE_BYTES == 80);
    if byte_len(text) > 80 {
        let head = clipped(text, 80);
        assert(head =~= text.take(head.len() as int));
        if cuts_cleanly(text) {
            assert(byte_len(text.take(head.len() as int)) == 80);
        }
        if exists|n: int| 0 <= n <= text.len() && byte_len(#[trigger] text.take(n)) == 80 {
            let n = choose|n: int|
                0 <= n <= text.len() && byte_len(#[trigger] text.take(n)) == 80;
            lemma_cut(text, n);
        }
    }
}

/// Without calls there is nothing to run, but for the one empty segment of the parallel
/// strategy.
pub proof fn law_no_calls(tools: Seq<ToolInfo>, strategy: ToolExecutionStrategy)
    ensures
        strategy != ToolExecutionStrategy::Parallel ==> plan(
            tools,
            Seq::<ToolCall>::empty(),
            strategy,
        ).len() == 0,
        strategy == ToolExecutionStrategy::Parallel ==> plan(
            tools,
            Seq::<ToolCall>::empty(),
            strategy,
        ) == seq![Segment { start: 0, end: 0, concurrent: true }],
{
}

} // verus!
