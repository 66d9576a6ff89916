//! Tool execution: sequential, parallel and in batches.
//!
//! `ToolRun` decides, the host acts: it executes the calls of a segment, polls for
//! messages of the user between segments, and sends the events of skipped calls.

use vstd::prelude::*;
use vstd::slice::slice_subrange;

use crate::json::JsonView;
use crate::tool_call::{
    answer, error_result, find_tool, skip_events, skip_tool_call, skipped_text, tool_index, Emission,
};
use crate::types::{event_views, AgentEvent, Message, MessageView, ToolCall, ToolInfo};

verus! {

/// How the calls of one turn are executed.
#[derive(Debug, Clone, Copy, PartialEq, Eq, Structural)]
pub enum ToolExecutionStrategy {
    /// One at a time, in order.
    Sequential,
    /// All at once, where each tool allows it.
    Parallel,
    /// In batches of that size, each at once where its tools allow it.
    Batched { size: usize },
}

/// The tool that `call` names exists and allows other calls at the same time.
pub open spec fn is_safe(tools: Seq<ToolInfo>, call: ToolCall) -> bool {
    match tool_index(tools, call.name@, 0) {
        Some(i) => tools[i].concurrency_safe,
        None => false,
    }
}

/// Each of `calls` may run at the same time as the others.
pub open spec fn all_safe(tools: Seq<ToolInfo>, calls: Seq<ToolCall>) -> bool {
    forall|i: int| 0 <= i < calls.len() ==> is_safe(tools, #[trigger] calls[i])
}

/// Check if all tool calls in a batch are concurrency-safe.
pub fn all_concurrency_safe(tools: &Vec<ToolInfo>, tool_calls: &[ToolCall]) -> (r: bool)
    ensures
        r == all_safe(tools@, tool_calls@),
{
    let mut i: usize = 0;
    while i < tool_calls.len()
        invariant
            i <= tool_calls.len(),
            forall|k: int| 0 <= k < i ==> is_safe(tools@, #[trigger] tool_calls@[k]),
        decreases tool_calls.len() - i,
    {
        let safe: bool = match find_tool(tools, tool_calls[i].name.as_str()) {
            Some(tool) => tools[tool].concurrency_safe,
            None => false,
        };
        if !safe {
            proof {
                assert(!is_safe(tools@, tool_calls@[i as int]));
            }
            return false;
        }
        i = i + 1;
    }
    true
}

/// Consecutive calls that are executed without a look at what the user sent meanwhile.
#[derive(Debug, Clone, Copy, PartialEq, Eq, Structural)]
pub struct Segment {
    /// The first call.
    pub start: usize,
    /// The call behind the last.
    pub end: usize,
    /// Whether the calls run at the same time; if not, one after the other.
    pub concurrent: bool,
}

/// Each call on its own.
pub open spec fn one_by_one(n: nat) -> Seq<Segment> {
    Seq::new(
        n,
        |i: int| Segment { start: i as usize, end: (i + 1) as usize, concurrent: false },
    )
}

/// Where the batch that starts at `from` ends.
pub open spec fn batch_end(n: nat, size: usize, from: int) -> int {
    if from + size < n {
        from + size
    } else {
        n as int
    }
}

/// The calls from `from` on, in batches.
pub open spec fn batches(
    tools: Seq<ToolInfo>,
    calls: Seq<ToolCall>,
    size: usize,
    from: int,
) -> Seq<Segment>
    decreases calls.len() - from,
{
    if size == 0 || from < 0 || from >= calls.len() {
        Seq::empty()
    } else {
        let end = batch_end(calls.len(), size, from);
        seq![
            Segment {
                start: from as usize,
                end: end as usize,
                concurrent: all_safe(tools, calls.subrange(from, end)),
            },
        ] + batches(tools, calls, size, end)
    }
}

/// How `calls` are executed under `strategy`.
pub open spec fn plan(
    tools: Seq<ToolInfo>,
    calls: Seq<ToolCall>,
    strategy: ToolExecutionStrategy,
) -> Seq<Segment> {
    match strategy {
        ToolExecutionStrategy::Sequential => one_by_one(calls.len()),
        ToolExecutionStrategy::Parallel => if all_safe(tools, calls) {
            seq![Segment { start: 0, end: calls.len() as usize, concurrent: true }]
        } else {
            one_by_one(calls.len())
        },
        ToolExecutionStrategy::Batched { size } => batches(tools, calls, size, 0),
    }
}

/// The segments cover the calls from `from` up to `n`, in order and without gaps.
pub open spec fn covers(segments: Seq<Segment>, from: int, n: int) -> bool
    decreases segments.len(),
{
    if segments.len() == 0 {
        from == n
    } else {
        &&& segments[0].start == from
        &&& from <= segments[0].end <= n
        &&& covers(segments.drop_first(), segments[0].end as int, n)
    }
}

/// Each call on its own, as segments.
fn plan_one_by_one(n: usize) -> (r: Vec<Segment>)
    ensures
        r@ == one_by_one(n as nat),
{
    let mut segments: Vec<Segment> = Vec::new();
    let mut i: usize = 0;
    while i < n
        invariant
            i <= n,
            segments@ == one_by_one(n as nat).take(i as int),
        decreases n - i,
    {
        let segment: Segment = Segment { start: i, end: i + 1, concurrent: false };
        proof {
            assert(one_by_one(n as nat).take(i + 1) =~= one_by_one(n as nat).take(i as int).push(
                segment,
            ));
        }
        segments.push(segment);
        i = i + 1;
    }
    proof {
        assert(one_by_one(n as nat).take(n as int) =~= one_by_one(n as nat));
    }
    segments
}

/// How the calls are executed.
pub fn plan_segments(
    tools: &Vec<ToolInfo>,
    tool_calls: &Vec<ToolCall>,
    strategy: ToolExecutionStrategy,
) -> (r: Vec<Segment>)
    requires
        strategy matches ToolExecutionStrategy::Batched { size } ==> size > 0,
    ensures
        r@ == plan(tools@, tool_calls@, strategy),
{
    let n: usize = tool_calls.len();
    match strategy {
        ToolExecutionStrategy::Sequential => plan_one_by_one(n),
        ToolExecutionStrategy::Parallel => {
            if all_concurrency_safe(tools, tool_calls.as_slice()) {
                let mut segments: Vec<Segment> = Vec::new();
                segments.push(Segment { start: 0, end: n, concurrent: true });
                proof {
                    assert(segments@ =~= plan(tools@, tool_calls@, strategy));
                }
                segments
            } else {
                plan_one_by_one(n)
            }
        },
        ToolExecutionStrategy::Batched { size } => {
            let mut segments: Vec<Segment> = Vec::new();
            let mut from: usize = 0;
            proof {
                assert(segments@ + batches(tools@, tool_calls@, size, 0) =~= batches(
                    tools@,
                    tool_calls@,
                    size,
                    0,
                ));
            }
            while from < n
                invariant
                    from <= n,
                    n == tool_calls@.len(),
                    size > 0,
                    segments@ + batches(tools@, tool_calls@, size, from as int) == batches(
                        tools@,
                        tool_calls@,
                        size,
                        0,
                    ),
                decreases n - from,
            {
                let end: usize = if size < n - from {
                    from + size
                } else {
                    n
                };
                let concurrent: bool = all_concurrency_safe(
                    tools,
                    slice_subrange(tool_calls.as_slice(), from, end),
                );
                let segment: Segment = Segment { start: from, end, concurrent };
                proof {
                    assert(segments@.push(segment) + batches(tools@, tool_calls@, size, end as int)
                        =~= segments@ + (seq![segment] + batches(
                        tools@,
                        tool_calls@,
                        size,
                        end as int,
                    )));
                }
                segments.push(segment);
                from = end;
            }
            proof {
                assert(segments@ + batches(tools@, tool_calls@, size, n as int) =~= segments@);
            }
            segments
        },
    }
}

proof fn lemma_one_by_one_covers(n: nat, from: int)
    requires
        0 <= from <= n <= usize::MAX,
    ensures
        covers(one_by_one(n).skip(from), from, n as int),
    decreases n - from,
{
    let rest = one_by_one(n).skip(from);
    if from < n {
        lemma_one_by_one_covers(n, from + 1);
        assert(rest.drop_first() =~= one_by_one(n).skip(from + 1));
    }
}

proof fn lemma_batches_cover(tools: Seq<ToolInfo>, calls: Seq<ToolCall>, size: usize, from: int)
    requires
        size > 0,
        0 <= from <= calls.len() <= usize::MAX,
    ensures
        covers(batches(tools, calls, size, from), from, calls.len() as int),
    decreases calls.len() - from,
{
    if from < calls.len() {
        let end = batch_end(calls.len(), size, from);
        lemma_batches_cover(tools, calls, size, end);
        assert(batches(tools, calls, size, from).drop_first() =~= batches(tools, calls, size, end));
    }
}

/// Whatever the strategy, the segments of a plan hold each call exactly once, in order.
pub proof fn law_plan_covers_all_calls(
    tools: Seq<ToolInfo>,
    calls: Seq<ToolCall>,
    strategy: ToolExecutionStrategy,
)
    requires
        calls.len() <= usize::MAX,
        strategy matches ToolExecutionStrategy::Batched { size } ==> size > 0,
    ensures
        covers(plan(tools, calls, strategy), 0, calls.len() as int),
{
    let n = calls.len();
    lemma_one_by_one_covers(n, 0);
    assert(one_by_one(n).skip(0) =~= one_by_one(n));
    match strategy {
        ToolExecutionStrategy::Sequential => {},
        ToolExecutionStrategy::Parallel => {
            let whole = seq![Segment { start: 0, end: n as usize, concurrent: true }];
            assert(whole.drop_first() =~= Seq::<Segment>::empty());
            assert(covers(whole.drop_first(), n as int, n as int));
            assert(covers(whole, 0, n as int));
        },
        ToolExecutionStrategy::Batched { size } => {
            lemma_batches_cover(tools, calls, size, 0);
        },
    }
}

proof fn lemma_batches_safe(
    tools: Seq<ToolInfo>,
    calls: Seq<ToolCall>,
    size: usize,
    from: int,
    k: int,
)
    requires
        size > 0,
        0 <= from <= calls.len() <= usize::MAX,
        0 <= k < batches(tools, calls, size, from).len(),
    ensures
        ({
            let segment = batches(tools, calls, size, from)[k];
            &&& from <= segment.start < segment.end <= calls.len()
            &&& segment.end - segment.start <= size
            &&& segment.concurrent == all_safe(
                tools,
                calls.subrange(segment.start as int, segment.end as int),
            )
        }),
    decreases calls.len() - from,
{
    let end = batch_end(calls.len(), size, from);
    if k > 0 {
        lemma_batches_safe(tools, calls, size, end, k - 1);
    }
}

/// Calls run at the same time only where the tool of each allows it, and no batch is
/// larger than the strategy says.
pub proof fn law_concurrent_segments_are_safe(
    tools: Seq<ToolInfo>,
    calls: Seq<ToolCall>,
    strategy: ToolExecutionStrategy,
    k: int,
)
    requires
        calls.len() <= usize::MAX,
        strategy matches ToolExecutionStrategy::Batched { size } ==> size > 0,
        0 <= k < plan(tools, calls, strategy).len(),
    ensures
        ({
            let segment = plan(tools, calls, strategy)[k];
            &&& segment.start <= segment.end <= calls.len()
            &&& segment.concurrent ==> all_safe(
                tools,
                calls.subrange(segment.start as int, segment.end as int),
            )
            &&& (strategy matches ToolExecutionStrategy::Batched { size } ==> segment.end
                - segment.start <= size)
        }),
{
    match strategy {
        ToolExecutionStrategy::Sequential => {},
        ToolExecutionStrategy::Parallel => {
            assert(calls.subrange(0, calls.len() as int) =~= calls);
        },
        ToolExecutionStrategy::Batched { size } => {
            lemma_batches_safe(tools, calls, size, 0, k);
        },
    }
}

/// The messages of one turn, and what the user sent meanwhile.
#[derive(Debug, PartialEq, Eq)]
pub struct ToolExecutionResult<M> {
    pub tool_results: Vec<Message>,
    pub steering_messages: Option<Vec<M>>,
}

/// Where a run stands.
#[derive(Debug, Clone, Copy, PartialEq, Eq, Structural)]
pub enum RunPhase {
    Executing,
    Polling,
    Skipping,
}

/// What the host does next.
#[derive(Debug, Clone, Copy, PartialEq, Eq, Structural)]
pub enum RunAction {
    /// Execute the calls of a segment and hand back their messages.
    Execute(Segment),
    /// Ask for messages of the user and hand them back.
    Poll,
    /// Skip the call at that index.
    Skip(usize),
    /// The run is over.
    Finish,
}

/// The execution of the calls of one turn. `M` is what the user may send meanwhile.
pub struct ToolRun<'a, M> {
    pub calls: &'a Vec<ToolCall>,
    pub segments: Vec<Segment>,
    /// Whether the user can be heard at all.
    pub polls: bool,
    /// The segment that comes next.
    pub next: usize,
    pub phase: RunPhase,
    /// The messages so far, one for each call from the first on.
    pub results: Vec<Message>,
    pub steering: Option<Vec<M>>,
}

/// `message` answers `call`.
pub open spec fn answers(message: MessageView, call: ToolCall) -> bool {
    message.tool_call_id == call.id@ && message.tool_name == call.name@
}

/// The messages answer the calls from `from` on, one each and in order.
pub open spec fn answer_in_order(
    messages: Seq<Message>,
    calls: Seq<ToolCall>,
    from: int,
) -> bool {
    &&& from + messages.len() <= calls.len()
    &&& forall|i: int|
        0 <= i < messages.len() ==> answers((#[trigger] messages[i])@, calls[from + i])
}

impl<'a, M> ToolRun<'a, M> {
    /// The messages answer the first calls in order, and the segments to come cover the
    /// others; once the user was heard, nothing more is executed.
    pub open spec fn well_formed(&self) -> bool {
        &&& self.next <= self.segments@.len()
        &&& answer_in_order(self.results@, self.calls@, 0)
        &&& match self.phase {
            RunPhase::Executing | RunPhase::Polling => {
                &&& self.phase == RunPhase::Polling ==> self.polls
                &&& self.steering is None
                &&& covers(
                    self.segments@.skip(self.next as int),
                    self.results@.len() as int,
                    self.calls@.len() as int,
                )
            },
            RunPhase::Skipping => self.polls && (self.steering matches Some(sent) && sent@.len()
                > 0),
        }
    }

    /// What the host does next.
    pub open spec fn next_action(&self) -> RunAction {
        match self.phase {
            RunPhase::Executing => if self.next < self.segments@.len() {
                RunAction::Execute(self.segments@[self.next as int])
            } else {
                RunAction::Finish
            },
            RunPhase::Polling => RunAction::Poll,
            RunPhase::Skipping => if self.results@.len() < self.calls@.len() {
                RunAction::Skip(self.results@.len() as usize)
            } else {
                RunAction::Finish
            },
        }
    }

    /// A bound on the actions that are left before the run is over.
    pub open spec fn actions_left(&self) -> int {
        3 * (self.segments@.len() - self.next) + (self.calls@.len() - self.results@.len()) + (
        if self.phase == RunPhase::Polling {
            1int
        } else {
            0
        })
    }

    /// A run of `calls` under `strategy`; `polls` says whether the user can be heard.
    pub fn new(
        tools: &Vec<ToolInfo>,
        calls: &'a Vec<ToolCall>,
        strategy: ToolExecutionStrategy,
        polls: bool,
    ) -> (r: Self)
        requires
            strategy matches ToolExecutionStrategy::Batched { size } ==> size > 0,
        ensures
            r.well_formed(),
            r.calls == calls,
            r.segments@ == plan(tools@, calls@, strategy),
            r.polls == polls,
            r.next == 0,
            r.phase == RunPhase::Executing,
            r.results@.len() == 0,
            r.steering is None,
    {
        let segments: Vec<Segment> = plan_segments(tools, calls, strategy);
        proof {
            assert(calls.len() == calls@.len());
            law_plan_covers_all_calls(tools@, calls@, strategy);
            assert(segments@.skip(0) =~= segments@);
        }
        ToolRun {
            calls,
            segments,
            polls,
            next: 0,
            phase: RunPhase::Executing,
            results: Vec::new(),
            steering: None,
        }
    }

    /// What the host does next.
    pub fn action(&self) -> (r: RunAction)
        ensures
            r == self.next_action(),
    {
        match self.phase {
            RunPhase::Executing => {
                if self.next < self.segments.len() {
                    RunAction::Execute(self.segments[self.next])
                } else {
                    RunAction::Finish
                }
            },
            RunPhase::Polling => RunAction::Poll,
            RunPhase::Skipping => {
                if self.results.len() < self.calls.len() {
                    RunAction::Skip(self.results.len())
                } else {
                    RunAction::Finish
                }
            },
        }
    }

    /// Takes the messages of the segment that was executed: one for each of its calls,
    /// in order. Where the user can be heard, the host polls next.
    pub fn executed(&mut self, messages: Vec<Message>)
        requires
            old(self).well_formed(),
            old(self).next_action() matches RunAction::Execute(segment) && messages@.len()
                == segment.end - segment.start,
            answer_in_order(messages@, old(self).calls@, old(self).results@.len() as int),
        ensures
            final(self).well_formed(),
            0 <= final(self).actions_left() < old(self).actions_left(),
            final(self).calls == old(self).calls,
            final(self).segments@ == old(self).segments@,
            final(self).polls == old(self).polls,
            final(self).next == old(self).next + 1,
            final(self).phase == (if old(self).polls {
                RunPhase::Polling
            } else {
                RunPhase::Executing
            }),
            final(self).results@ == old(self).results@ + messages@,
            final(self).steering is None,
    {
        let ghost rest = self.segments@.skip(self.next as int);
        let ghost before = self.results@;
        let mut messages: Vec<Message> = messages;
        let ghost added = messages@;
        self.results.append(&mut messages);
        assert(self.next < self.segments.len());
        self.next = self.next + 1;
        if self.polls {
            self.phase = RunPhase::Polling;
        }
        proof {
            assert(rest.drop_first() =~= self.segments@.skip(self.next as int));
            assert forall|i: int| 0 <= i < self.results@.len() implies answers(
                (#[trigger] self.results@[i])@,
                self.calls@[0 + i],
            ) by {
                if i >= before.len() {
                    assert(self.results@[i] == added[i - before.len()]);
                } else {
                    assert(self.results@[i] == before[i]);
                }
            }
        }
    }

    /// Takes what the user sent: where that is nothing, the run goes on; else the calls
    /// that are left are skipped.
    pub fn polled(&mut self, sent: Vec<M>)
        requires
            old(self).well_formed(),
            old(self).next_action() == RunAction::Poll,
        ensures
            final(self).well_formed(),
            0 <= final(self).actions_left() < old(self).actions_left(),
            final(self).calls == old(self).calls,
            final(self).segments@ == old(self).segments@,
            final(self).polls == old(self).polls,
            final(self).next == old(self).next,
            final(self).results@ == old(self).results@,
            sent@.len() == 0 ==> final(self).phase == RunPhase::Executing && final(self).steering
                is None,
            sent@.len() > 0 ==> final(self).phase == RunPhase::Skipping && final(self).steering
                == Some(sent),
    {
        if sent.len() == 0 {
            self.phase = RunPhase::Executing;
        } else {
            self.phase = RunPhase::Skipping;
            self.steering = Some(sent);
        }
    }

    /// Skips the next call, and gives the events that report it.
    pub fn skip_next(&mut self, result_tokens: usize, timestamp: u64) -> (r: Vec<AgentEvent>)
        requires
            old(self).well_formed(),
            old(self).next_action() is Skip,
        ensures
            final(self).well_formed(),
            0 <= final(self).actions_left() < old(self).actions_left(),
            final(self).calls == old(self).calls,
            final(self).segments@ == old(self).segments@,
            final(self).polls == old(self).polls,
            final(self).next == old(self).next,
            final(self).phase == old(self).phase,
            final(self).steering == old(self).steering,
            final(self).results@.len() == old(self).results@.len() + 1,
            final(self).results@.drop_last() == old(self).results@,
            ({
                let call = old(self).calls@[old(self).results@.len() as int];
                &&& final(self).results@.last()@ == answer(
                    call.id@,
                    call.name@,
                    error_result(skipped_text()),
                    true,
                    timestamp,
                )
                &&& event_views(r@) == skip_events(
                    call.id@,
                    call.name@,
                    JsonView::Null,
                    None,
                    skipped_text(),
                    result_tokens,
                    timestamp,
                )
            }),
    {
        let ghost before = self.results@;
        let index: usize = self.results.len();
        let call: &ToolCall = &self.calls[index];
        let emission: Emission = skip_tool_call(
            call.id.as_str(),
            call.name.as_str(),
            result_tokens,
            timestamp,
        );
        self.results.push(emission.message);
        proof {
            assert(self.results@.drop_last() =~= before);
        }
        emission.events
    }

    /// The messages of the run, one for each call and in order, and what the user sent.
    pub fn finish(self) -> (r: ToolExecutionResult<M>)
        requires
            self.well_formed(),
            self.next_action() == RunAction::Finish,
        ensures
            r.tool_results == self.results,
            r.steering_messages == self.steering,
            r.tool_results@.len() == self.calls@.len(),
            answer_in_order(r.tool_results@, self.calls@, 0),
            r.steering_messages is None ==> self.next == self.segments@.len(),
    {
        proof {
            if self.phase == RunPhase::Executing {
                assert(self.segments@.skip(self.next as int).len() == 0);
            }
        }
        ToolExecutionResult { tool_results: self.results, steering_messages: self.steering }
    }
}

} // verus!
