use agent_tools::call_run::{CallPhase, CallRun};
use agent_tools::json::Json;
use agent_tools::tool_call::{
    build_doom_loop_preview, complete_arguments, doom_loop_content, find_tool, finish_call,
    is_previewable, progress_event, skip_tool_call, skip_tool_call_doom_loop, skipped_content,
    update_event,
};
use agent_tools::tool_exec::{
    all_concurrency_safe, plan_segments, RunAction, Segment, ToolExecutionStrategy, ToolRun,
};
use agent_tools::tool_output::{
    build_spilled_result, merge_text_blocks, process_result, settle_spill, truncate_result,
    ResultStep, SpillRef, SpillRequest,
};
use agent_tools::types::{AgentEvent, Content, Message, Retention, ToolCall, ToolInfo, ToolResult};

fn text(s: &str) -> Json {
    Json::Text(s.to_string())
}

fn object(members: Vec<(&str, Json)>) -> Json {
    let mut r: Vec<(String, Json)> = Vec::new();
    for (key, value) in members {
        r.push((key.to_string(), value));
    }
    Json::Object(r)
}

fn block(s: &str) -> Content {
    Content::Text { text: s.to_string() }
}

fn image(n: &str) -> Content {
    Content::Other { value: Json::Number(n.to_string()) }
}

fn result(content: Vec<Content>) -> ToolResult {
    ToolResult { content, details: Json::Bool(true), retention: Retention::Class(7) }
}

fn failure(s: &str) -> ToolResult {
    ToolResult { content: vec![block(s)], details: Json::Null, retention: Retention::Normal }
}

fn call(id: &str, name: &str) -> ToolCall {
    ToolCall { id: id.to_string(), name: name.to_string(), args: Json::Null }
}

fn calls(names: &[&str]) -> Vec<ToolCall> {
    let mut r: Vec<ToolCall> = Vec::new();
    for (i, name) in names.iter().enumerate() {
        r.push(call(&format!("c{}", i), name));
    }
    r
}

fn tools() -> Vec<ToolInfo> {
    vec![
        ToolInfo { name: "safe".to_string(), concurrency_safe: true },
        ToolInfo { name: "lone".to_string(), concurrency_safe: false },
        ToolInfo { name: "lone".to_string(), concurrency_safe: true },
    ]
}

fn segment(start: usize, end: usize, concurrent: bool) -> Segment {
    Segment { start, end, concurrent }
}

fn message(call: &ToolCall) -> Message {
    Message::ToolResult {
        tool_call_id: call.id.clone(),
        tool_name: call.name.clone(),
        content: vec![block("ran")],
        is_error: false,
        timestamp: 1,
        retention: Retention::Normal,
    }
}

fn skipped_message(call: &ToolCall, timestamp: u64) -> Message {
    Message::ToolResult {
        tool_call_id: call.id.clone(),
        tool_name: call.name.clone(),
        content: vec![block("Skipped due to queued user message.")],
        is_error: true,
        timestamp,
        retention: Retention::Normal,
    }
}

/// Runs the calls, with one answer of the user after each segment.
fn drive(
    calls: &Vec<ToolCall>,
    strategy: ToolExecutionStrategy,
    mut answers: Option<Vec<Vec<u8>>>,
) -> (Vec<Segment>, Vec<Message>, Option<Vec<u8>>, usize) {
    let mut run: ToolRun<u8> = ToolRun::new(&tools(), calls, strategy, answers.is_some());
    let mut executed: Vec<Segment> = Vec::new();
    let mut polls: usize = 0;
    loop {
        match run.action() {
            RunAction::Execute(s) => {
                executed.push(s);
                run.executed(calls[s.start..s.end].iter().map(message).collect());
            }
            RunAction::Poll => {
                polls += 1;
                run.polled(answers.as_mut().unwrap().remove(0));
            }
            RunAction::Skip(i) => {
                let events = run.skip_next(3, 9);
                assert_eq!(events, skip_tool_call(&calls[i].id, &calls[i].name, 3, 9).events);
            }
            RunAction::Finish => break,
        }
    }
    let r = run.finish();
    (executed, r.tool_results, r.steering_messages, polls)
}

#[test]
fn safety_asks_the_first_tool_of_each_name() {
    assert!(all_concurrency_safe(&tools(), &calls(&["safe", "safe"])));
    assert!(!all_concurrency_safe(&tools(), &calls(&["safe", "lone"])));
    assert!(!all_concurrency_safe(&tools(), &calls(&["absent"])));
    assert!(all_concurrency_safe(&tools(), &[]));
    assert_eq!(find_tool(&tools(), "lone"), Some(1));
    assert_eq!(find_tool(&tools(), "absent"), None);
}

#[test]
fn plans_follow_the_strategy() {
    let mixed = calls(&["safe", "lone", "safe", "safe", "safe"]);
    let safe = calls(&["safe", "safe", "safe"]);
    let none = calls(&[]);
    let single: Vec<Segment> = (0..5).map(|i| segment(i, i + 1, false)).collect();
    assert_eq!(plan_segments(&tools(), &mixed, ToolExecutionStrategy::Sequential), single);
    assert_eq!(plan_segments(&tools(), &mixed, ToolExecutionStrategy::Parallel), single);
    assert_eq!(
        plan_segments(&tools(), &safe, ToolExecutionStrategy::Parallel),
        vec![segment(0, 3, true)]
    );
    assert_eq!(
        plan_segments(&tools(), &mixed, ToolExecutionStrategy::Batched { size: 2 }),
        vec![segment(0, 2, false), segment(2, 4, true), segment(4, 5, true)]
    );
    assert_eq!(
        plan_segments(&tools(), &safe, ToolExecutionStrategy::Batched { size: usize::MAX }),
        vec![segment(0, 3, true)]
    );
    assert_eq!(plan_segments(&tools(), &none, ToolExecutionStrategy::Sequential), vec![]);
    assert_eq!(
        plan_segments(&tools(), &none, ToolExecutionStrategy::Parallel),
        vec![segment(0, 0, true)]
    );
    assert_eq!(
        plan_segments(&tools(), &none, ToolExecutionStrategy::Batched { size: 1 }),
        vec![]
    );
}

#[test]
fn every_call_is_answered_in_order() {
    let cs = calls(&["safe", "lone", "safe"]);
    let all: Vec<Message> = cs.iter().map(message).collect();
    for strategy in [
        ToolExecutionStrategy::Sequential,
        ToolExecutionStrategy::Parallel,
        ToolExecutionStrategy::Batched { size: 2 },
    ] {
        let (_, messages, steering, polls) = drive(&cs, strategy, None);
        assert_eq!(messages, all);
        assert_eq!(steering, None);
        assert_eq!(polls, 0);
    }
    let (executed, messages, steering, polls) = drive(
        &cs,
        ToolExecutionStrategy::Sequential,
        Some(vec![vec![], vec![], vec![]]),
    );
    assert_eq!(executed.len(), 3);
    assert_eq!(messages, all);
    assert_eq!(steering, None);
    assert_eq!(polls, 3);
}

#[test]
fn a_message_of_the_user_skips_what_is_left() {
    let cs = calls(&["safe", "lone", "safe"]);
    let (executed, messages, steering, polls) = drive(
        &cs,
        ToolExecutionStrategy::Sequential,
        Some(vec![vec![], vec![42]]),
    );
    assert_eq!(executed, vec![segment(0, 1, false), segment(1, 2, false)]);
    assert_eq!(
        messages,
        vec![message(&cs[0]), message(&cs[1]), skipped_message(&cs[2], 9)]
    );
    assert_eq!(steering, Some(vec![42]));
    assert_eq!(polls, 2);

    let (executed, messages, steering, _) = drive(
        &cs,
        ToolExecutionStrategy::Batched { size: 2 },
        Some(vec![vec![1, 2]]),
    );
    assert_eq!(executed, vec![segment(0, 2, false)]);
    assert_eq!(
        messages,
        vec![message(&cs[0]), message(&cs[1]), skipped_message(&cs[2], 9)]
    );
    assert_eq!(steering, Some(vec![1, 2]));
}

#[test]
fn a_parallel_run_listens_once_at_its_end() {
    let cs = calls(&["safe", "safe"]);
    let (executed, messages, steering, polls) =
        drive(&cs, ToolExecutionStrategy::Parallel, Some(vec![vec![5]]));
    assert_eq!(executed, vec![segment(0, 2, true)]);
    assert_eq!(messages, vec![message(&cs[0]), message(&cs[1])]);
    assert_eq!(steering, Some(vec![5]));
    assert_eq!(polls, 1);
    let (_, messages, steering, polls) =
        drive(&calls(&[]), ToolExecutionStrategy::Parallel, Some(vec![vec![5]]));
    assert_eq!(messages, vec![]);
    assert_eq!(steering, Some(vec![5]));
    assert_eq!(polls, 1);
    let (_, _, steering, polls) = drive(&calls(&[]), ToolExecutionStrategy::Sequential, Some(vec![]));
    assert_eq!(steering, None);
    assert_eq!(polls, 0);
}

#[test]
fn skipped_calls_are_reported_in_full() {
    let r = skip_tool_call("i", "n", 8, 77);
    let answer = skipped_message(&call("i", "n"), 77);
    assert_eq!(r.message, answer);
    assert_eq!(
        r.events,
        vec![
            AgentEvent::ToolExecutionStart {
                tool_call_id: "i".to_string(),
                tool_name: "n".to_string(),
                args: Json::Null,
                preview_command: None,
            },
            AgentEvent::ToolExecutionEnd {
                tool_call_id: "i".to_string(),
                tool_name: "n".to_string(),
                result: failure("Skipped due to queued user message."),
                is_error: true,
                result_tokens: 8,
                duration_ms: 0,
            },
            AgentEvent::MessageStart { message: skipped_message(&call("i", "n"), 77) },
            AgentEvent::MessageEnd { message: answer },
        ]
    );
    assert_eq!(skipped_content(), failure("Skipped due to queued user message.").content);
}

#[test]
fn doom_loops_are_reported_with_a_preview() {
    let args = object(vec![("a", text("x")), ("b", Json::Bool(true))]);
    let r = skip_tool_call_doom_loop("i", "n", &args, 8, 77);
    let shown = "Skipped: doom loop detected — repeated identical tool call.";
    assert_eq!(r.events.len(), 4);
    assert_eq!(
        r.events[0],
        AgentEvent::ToolExecutionStart {
            tool_call_id: "i".to_string(),
            tool_name: "n".to_string(),
            args: object(vec![("a", text("x")), ("b", Json::Bool(true))]),
            preview_command: Some("n a=x b=true".to_string()),
        }
    );
    assert_eq!(
        r.events[1],
        AgentEvent::ToolExecutionEnd {
            tool_call_id: "i".to_string(),
            tool_name: "n".to_string(),
            result: failure(shown),
            is_error: true,
            result_tokens: 8,
            duration_ms: 0,
        }
    );
    assert_eq!(
        r.message,
        Message::ToolResult {
            tool_call_id: "i".to_string(),
            tool_name: "n".to_string(),
            content: vec![block(shown)],
            is_error: true,
            timestamp: 77,
            retention: Retention::Normal,
        }
    );
    assert_eq!(doom_loop_content(), failure(shown).content);
}

#[test]
fn previews_shorten_long_arguments() {
    assert_eq!(build_doom_loop_preview("t", &Json::Null), "t");
    assert_eq!(build_doom_loop_preview("t", &object(vec![])), "t");
    let exact = "x".repeat(80);
    let long = "x".repeat(81);
    let args = object(vec![
        ("k", text(&exact)),
        ("l", text(&long)),
        ("m", Json::Array(vec![text(&long)])),
        ("n", object(vec![("o", Json::Null)])),
        ("p", text("a\"b")),
        ("q", Json::Array(vec![text("a\"b")])),
    ]);
    assert!(is_previewable(&args));
    assert_eq!(
        build_doom_loop_preview("t", &args),
        format!(
            "t k={} l={}… m=[\"{}… n={{\"o\":null}} p=a\"b q=[\"a\\\"b\"]",
            exact,
            exact,
            "x".repeat(78)
        )
    );
    assert!(!is_previewable(&object(vec![("k", text(&"图".repeat(40)))])));
    assert!(is_previewable(&object(vec![("k", text(&"é".repeat(41)))])));
}

#[test]
fn ends_of_calls_are_reported() {
    let r = finish_call("i", "n", result(vec![block("a"), image("1")]), false, 4, 12, 99);
    assert_eq!(
        r.message,
        Message::ToolResult {
            tool_call_id: "i".to_string(),
            tool_name: "n".to_string(),
            content: vec![block("a"), image("1")],
            is_error: false,
            timestamp: 99,
            retention: Retention::Class(7),
        }
    );
    assert_eq!(
        r.events,
        vec![
            AgentEvent::ToolExecutionEnd {
                tool_call_id: "i".to_string(),
                tool_name: "n".to_string(),
                result: result(vec![block("a"), image("1")]),
                is_error: false,
                result_tokens: 4,
                duration_ms: 12,
            },
            AgentEvent::MessageStart { message: r.message.copy() },
            AgentEvent::MessageEnd { message: r.message.copy() },
        ]
    );
    assert_eq!(
        update_event("i", "n", failure("p")),
        AgentEvent::ToolExecutionUpdate {
            tool_call_id: "i".to_string(),
            tool_name: "n".to_string(),
            partial_result: failure("p"),
        }
    );
    assert_eq!(
        progress_event("i", "n", "p".to_string()),
        AgentEvent::ProgressMessage {
            tool_call_id: "i".to_string(),
            tool_name: "n".to_string(),
            text: "p".to_string(),
        }
    );
}

#[test]
fn text_blocks_are_merged_with_line_breaks() {
    assert_eq!(merge_text_blocks(&vec![]), "");
    assert_eq!(merge_text_blocks(&vec![image("1")]), "");
    assert_eq!(merge_text_blocks(&vec![block("a"), image("1"), block("b")]), "a\nb");
    assert_eq!(merge_text_blocks(&vec![block(""), block("b"), block("")]), "b\n");
}

#[test]
fn spilled_results_show_a_preview() {
    let long = "图".repeat(2000);
    let r = build_spilled_result(
        result(vec![image("1"), block("big"), image("2")]),
        SpillRef { path: "/s/x".to_string(), size_bytes: 123456, preview: long },
    );
    let notice = format!(
        "Tool output was too large (123456 bytes) and was saved to:\n/s/x\n\n\
         Only a preview is shown below. Use read_file with offset/limit to read the full output.\n\n\
         Preview:\n{}",
        "图".repeat(1333)
    );
    assert_eq!(r, result(vec![block(&notice), image("1"), image("2")]));
}

#[test]
fn results_are_capped_kept_or_spilled() {
    assert_eq!(
        process_result(true, "i", failure("e"), true),
        ResultStep::Truncate(failure("e"))
    );
    assert_eq!(
        process_result(false, "i", result(vec![block("t")]), false),
        ResultStep::Truncate(result(vec![block("t")]))
    );
    assert_eq!(
        process_result(true, "i", result(vec![image("1")]), false),
        ResultStep::Keep(result(vec![image("1")]))
    );
    assert_eq!(
        process_result(true, "i", result(vec![block("t")]), false),
        ResultStep::Spill {
            request: SpillRequest { key: "i".to_string(), text: "t".to_string() },
            result: result(vec![block("t")]),
        }
    );
    assert_eq!(
        settle_spill(result(vec![block("t")]), None),
        ResultStep::Truncate(result(vec![block("t")]))
    );
    assert_eq!(
        truncate_result(result(vec![block("long")]), vec![block("l")]),
        result(vec![block("l")])
    );
}

#[test]
fn arguments_are_completed_before_validation() {
    let write = ToolCall {
        id: "i".to_string(),
        name: "write_file".to_string(),
        args: object(vec![("content", text("x"))]),
    };
    assert_eq!(
        complete_arguments(&write, "/w", &Vec::new()),
        object(vec![("content", text("x")), ("path", text("/w/file.txt"))])
    );
    let broken = ToolCall {
        id: "i".to_string(),
        name: "write_file".to_string(),
        args: text("no object"),
    };
    assert_eq!(complete_arguments(&broken, "/w", &Vec::new()), text("no object"));
}

#[test]
fn a_call_of_an_unknown_tool_fails() {
    let c = call("i", "absent");
    let (start, run) =
        CallRun::start(&tools(), &c, Some("p".to_string()), "/w".to_string(), true);
    assert_eq!(
        start,
        AgentEvent::ToolExecutionStart {
            tool_call_id: "i".to_string(),
            tool_name: "absent".to_string(),
            args: Json::Null,
            preview_command: None,
        }
    );
    assert_eq!(
        run.phase,
        CallPhase::Capping { result: failure("Tool absent not found"), is_error: true }
    );
}

#[test]
fn a_call_runs_to_its_answer() {
    let c = call("i", "safe");
    let (start, run) =
        CallRun::start(&tools(), &c, Some("p".to_string()), "/w".to_string(), true);
    assert_eq!(
        start,
        AgentEvent::ToolExecutionStart {
            tool_call_id: "i".to_string(),
            tool_name: "safe".to_string(),
            args: Json::Null,
            preview_command: Some("p".to_string()),
        }
    );
    assert_eq!(run.phase, CallPhase::Validating { tool: 0, args: Json::Null });
    let run = run.validated(Ok(text("coerced")));
    assert_eq!(run.phase, CallPhase::Executing { tool: 0, args: text("coerced") });
    let run = run.executed(Ok(result(vec![block("out")])));
    assert_eq!(
        run.phase,
        CallPhase::Spilling {
            request: SpillRequest { key: "i".to_string(), text: "out".to_string() },
            result: result(vec![block("out")]),
        }
    );
    let run = run.spilled(None);
    assert_eq!(
        run.phase,
        CallPhase::Capping { result: result(vec![block("out")]), is_error: false }
    );
    let run = run.capped(vec![block("o")]);
    assert_eq!(
        run.finish(4, 12, 99),
        finish_call("i", "safe", result(vec![block("o")]), false, 4, 12, 99)
    );
}

#[test]
fn errors_of_validation_and_of_tools_are_answers() {
    let c = call("i", "safe");
    let (_, run) = CallRun::start(&tools(), &c, None, "/w".to_string(), true);
    let run = run.validated(Err("bad args".to_string()));
    assert_eq!(
        run.phase,
        CallPhase::Capping { result: failure("bad args"), is_error: true }
    );
    let (_, run) = CallRun::start(&tools(), &c, None, "/w".to_string(), true);
    let run = run.validated(Ok(Json::Null)).executed(Err("boom".to_string()));
    assert_eq!(run.phase, CallPhase::Capping { result: failure("boom"), is_error: true });
    let (_, run) = CallRun::start(&tools(), &c, None, "/w".to_string(), true);
    let run = run
        .validated(Ok(Json::Null))
        .executed(Ok(result(vec![block("big")])))
        .spilled(Some(SpillRef {
            path: "/s".to_string(),
            size_bytes: 3,
            preview: "b".to_string(),
        }));
    assert!(matches!(run.phase, CallPhase::Measuring { is_error: false, .. }));
}

#[test]
fn paths_are_probed_in_order_until_one_is_free() {
    let write_tools = vec![ToolInfo { name: "write_file".to_string(), concurrency_safe: false }];
    let c = ToolCall {
        id: "i".to_string(),
        name: "write_file".to_string(),
        args: object(vec![("content", text("x"))]),
    };
    let (_, mut run) = CallRun::start(&write_tools, &c, None, "/w".to_string(), false);
    for expected in ["/w/file.txt", "/w/file_1.txt", "/w/file_2.txt"] {
        match &run.phase {
            CallPhase::Probing { path, .. } => assert_eq!(path, expected),
            _ => panic!("no path is probed"),
        }
        run = run.probed(expected != "/w/file_2.txt");
    }
    assert_eq!(
        run.phase,
        CallPhase::Validating {
            tool: 0,
            args: object(vec![("content", text("x")), ("path", text("/w/file_2.txt"))]),
        }
    );

    let (_, mut run) = CallRun::start(&write_tools, &c, None, "/w".to_string(), false);
    let mut probes: usize = 0;
    while matches!(run.phase, CallPhase::Probing { .. }) {
        probes += 1;
        run = run.probed(true);
    }
    assert_eq!(probes, 1000);
    assert_eq!(
        run.phase,
        CallPhase::Validating { tool: 0, args: object(vec![("content", text("x"))]) }
    );
}

#[test]
fn results_without_text_are_kept_as_they_are() {
    let c = call("i", "safe");
    let (_, run) = CallRun::start(&tools(), &c, None, "/w".to_string(), true);
    let run = run
        .validated(Ok(Json::Null))
        .executed(Ok(result(vec![image("1"), block("")])));
    assert_eq!(
        run.phase,
        CallPhase::Measuring {
            result: result(vec![image("1"), block("")]),
            is_error: false,
        }
    );
    let (_, run) = CallRun::start(&tools(), &c, None, "/w".to_string(), false);
    let run = run
        .validated(Ok(Json::Null))
        .executed(Ok(result(vec![block("big")])));
    assert_eq!(
        run.phase,
        CallPhase::Capping { result: result(vec![block("big")]), is_error: false }
    );
}
