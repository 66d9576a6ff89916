//! The run of one tool call, from its start to the message that answers it.
//!
//! `CallRun` decides, the host acts: it probes paths, validates arguments, runs the
//! tool, saves or caps the result and measures it.

use vstd::pervasive::unreached;
use vstd::prelude::*;

use crate::json::Json;
use crate::parameter_completion::{
    added_path, completed_parameters, law_added_only_to_pathless, law_tries_in_order,
    optional_text, path_added, pathless_content, tries, MAX_NAMES,
};
use crate::text::texts;
use crate::tool_call::{
    answer, complete_arguments, completed_arguments, end_events, error_result, find_tool,
    finish_call, start_event, start_report, tool_index, Emission,
};
use crate::tool_output::{
    merged_text, process_result, settle_spill, spilled_result, truncate_result, ResultStep,
    SpillRef, SpillRequest,
};
use crate::types::{
    event_views, AgentEvent, Content, ToolCall, ToolInfo, ToolResult, ToolResultView,
};

verus! {

/// Where the run of a call stands, and with that what the host does next.
#[derive(Debug, PartialEq, Eq)]
pub enum CallPhase {
    /// The host probes whether something exists at the path that completion proposes.
    Probing { tool: usize, args: Json, path: String },
    /// The host checks the arguments against the schema of the tool.
    Validating { tool: usize, args: Json },
    /// The host runs the tool.
    Executing { tool: usize, args: Json },
    /// The host saves the text of the result.
    Spilling { request: SpillRequest, result: ToolResult },
    /// The host caps the content of the result.
    Capping { result: ToolResult, is_error: bool },
    /// The host measures the result.
    Measuring { result: ToolResult, is_error: bool },
}

/// The run of one call.
pub struct CallRun<'a> {
    pub call: &'a ToolCall,
    pub cwd: String,
    /// Whether the host can save large texts.
    pub can_spill: bool,
    /// The paths that the host found taken.
    pub taken: Vec<String>,
    pub phase: CallPhase,
}

/// A run whose call has its result goes on with it as its size asks.
pub open spec fn settles(
    phase: CallPhase,
    result: ToolResultView,
    is_error: bool,
    can_spill: bool,
    id: Seq<char>,
) -> bool {
    if is_error || !can_spill {
        phase matches CallPhase::Capping { result: r, is_error: e } && r@ == result && e == is_error
    } else if merged_text(result.content).len() == 0 {
        phase matches CallPhase::Measuring { result: r, is_error: e } && r@ == result && e
            == is_error
    } else {
        phase matches CallPhase::Spilling { request, result: r } && r@ == result && request.key@
            == id && request.text@ == merged_text(result.content)
    }
}

/// A run goes on with completed arguments: where completion added a path, the host
/// probes it; else it validates.
pub open spec fn completes(
    phase: CallPhase,
    tool: usize,
    call: ToolCall,
    cwd: Seq<char>,
    taken: Seq<Seq<char>>,
) -> bool {
    let args = completed_arguments(call.name@, call.args@, cwd, taken);
    match added_path(call.args@, args) {
        Some(path) => phase matches CallPhase::Probing { tool: t, args: a, path: p } && t == tool
            && a@ == args && p@ == path,
        None => phase matches CallPhase::Validating { tool: t, args: a } && t == tool && a@ == args,
    }
}

/// The phase of a call that has its result.
fn settle(result: ToolResult, is_error: bool, can_spill: bool, id: &str) -> (r: CallPhase)
    ensures
        settles(r, result@, is_error, can_spill, id@),
{
    match process_result(can_spill, id, result, is_error) {
        ResultStep::Truncate(result) => CallPhase::Capping { result, is_error },
        ResultStep::Keep(result) => CallPhase::Measuring { result, is_error },
        ResultStep::Spill { request, result } => CallPhase::Spilling { request, result },
    }
}

/// The phase of a call whose arguments are completed.
fn complete(tool: usize, call: &ToolCall, cwd: &str, taken: &Vec<String>) -> (r: CallPhase)
    ensures
        completes(r, tool, *call, cwd@, texts(taken@)),
{
    let args: Json = complete_arguments(call, cwd, taken);
    match path_added(&call.args, &args) {
        Some(path) => CallPhase::Probing { tool, args, path },
        None => CallPhase::Validating { tool, args },
    }
}

proof fn lemma_probing(
    phase: CallPhase,
    tool: usize,
    call: ToolCall,
    cwd: Seq<char>,
    taken: Seq<Seq<char>>,
)
    requires
        completes(phase, tool, call, cwd, taken),
        phase is Probing,
    ensures
        pathless_content(call.name@, call.args@) is Some,
{
    let completed = completed_parameters(call.name@, call.args@, cwd, None, taken);
    if completed is Ok {
        law_added_only_to_pathless(call.name@, call.args@, cwd, None, taken);
    }
}

impl<'a> CallRun<'a> {
    /// While the host probes, the paths it found taken are the first tries for the
    /// file's name, in order, and the path it probes is the next.
    pub open spec fn well_formed(&self) -> bool {
        match self.phase {
            CallPhase::Probing { tool, args, path } => {
                &&& pathless_content(self.call.name@, self.call.args@) is Some
                &&& self.taken@.len() < MAX_NAMES
                &&& ({
                    let content = pathless_content(self.call.name@, self.call.args@)->0;
                    &&& texts(self.taken@) == tries(self.cwd@, content, self.taken@.len())
                    &&& path@ == tries(self.cwd@, content, self.taken@.len() + 1)[self.taken@.len() as int]
                })
                &&& completes(self.phase, tool, *self.call, self.cwd@, texts(self.taken@))
            },
            _ => true,
        }
    }

    /// Starts a call: the report of its start, and its run. `preview_command` is what
    /// the tool, if there is one of that name, shows of the call.
    pub fn start(
        tools: &Vec<ToolInfo>,
        call: &'a ToolCall,
        preview_command: Option<String>,
        cwd: String,
        can_spill: bool,
    ) -> (r: (AgentEvent, Self))
        ensures
            r.1.well_formed(),
            r.1.call == call,
            r.1.cwd == cwd,
            r.1.can_spill == can_spill,
            r.1.taken@.len() == 0,
            match tool_index(tools@, call.name@, 0) {
                Some(i) => {
                    &&& r.0@ == start_event(
                        call.id@,
                        call.name@,
                        call.args@,
                        optional_text(preview_command),
                    )
                    &&& completes(r.1.phase, i as usize, *call, cwd@, Seq::empty())
                },
                None => {
                    &&& r.0@ == start_event(call.id@, call.name@, call.args@, None)
                    &&& settles(
                        r.1.phase,
                        error_result("Tool "@ + call.name@ + " not found"@),
                        true,
                        can_spill,
                        call.id@,
                    )
                },
            },
    {
        let taken: Vec<String> = Vec::new();
        proof {
            assert(texts(taken@) =~= Seq::empty());
        }
        match find_tool(tools, call.name.as_str()) {
            Some(tool) => {
                let event: AgentEvent = start_report(call, preview_command);
                let phase: CallPhase = complete(tool, call, cwd.as_str(), &taken);
                proof {
                    if phase is Probing {
                        lemma_probing(phase, tool, *call, cwd@, texts(taken@));
                        let content = pathless_content(call.name@, call.args@)->0;
                        assert(tries(cwd@, content, 0) =~= Seq::empty());
                        law_tries_in_order(call.name@, call.args@, cwd@, None, 0);
                    }
                }
                (event, CallRun { call, cwd, can_spill, taken, phase })
            },
            None => {
                let event: AgentEvent = start_report(call, None);
                let mut text: String = "Tool ".to_string();
                text.append(call.name.as_str());
                text.append(" not found");
                let phase: CallPhase = settle(
                    ToolResult::text(text, Json::Null),
                    true,
                    can_spill,
                    call.id.as_str(),
                );
                (event, CallRun { call, cwd, can_spill, taken, phase })
            },
        }
    }

    /// Takes what the host found at the path: where something exists there, the next
    /// try is proposed, or, after the last, the arguments stay as they are.
    pub fn probed(self, exists: bool) -> (r: Self)
        requires
            self.well_formed(),
            self.phase is Probing,
        ensures
            r.well_formed(),
            r.call == self.call,
            r.cwd == self.cwd,
            r.can_spill == self.can_spill,
            !exists ==> r.taken == self.taken && r.phase == (CallPhase::Validating {
                tool: self.phase->Probing_tool,
                args: self.phase->Probing_args,
            }),
            exists ==> texts(r.taken@) == texts(self.taken@).push(self.phase->Probing_path@)
                && completes(
                r.phase,
                self.phase->Probing_tool,
                *self.call,
                self.cwd@,
                texts(r.taken@),
            ),
            r.phase is Probing ==> r.taken@.len() == self.taken@.len() + 1,
            r.phase !is Probing ==> r.phase is Validating,
    {
        let call: &'a ToolCall = self.call;
        let cwd: String = self.cwd;
        let can_spill: bool = self.can_spill;
        let mut taken: Vec<String> = self.taken;
        match self.phase {
            CallPhase::Probing { tool, args, path } => {
                if !exists {
                    return CallRun {
                        call,
                        cwd,
                        can_spill,
                        taken,
                        phase: CallPhase::Validating { tool, args },
                    };
                }
                let ghost content = pathless_content(call.name@, call.args@)->0;
                let ghost m = taken@.len();
                let ghost before = taken@;
                taken.push(path);
                proof {
                    assert(texts(taken@) =~= texts(before).push(path@));
                    assert(texts(taken@) =~= tries(cwd@, content, m + 1));
                }
                let phase: CallPhase = complete(tool, call, cwd.as_str(), &taken);
                proof {
                    law_tries_in_order(call.name@, call.args@, cwd@, None, m + 1);
                }
                CallRun { call, cwd, can_spill, taken, phase }
            },
            _ => unreached(),
        }
    }

    /// Takes the outcome of validation: the arguments to run the tool with, or an error.
    pub fn validated(self, outcome: Result<Json, String>) -> (r: Self)
        requires
            self.phase is Validating,
        ensures
            r.well_formed(),
            r.call == self.call,
            r.cwd == self.cwd,
            r.can_spill == self.can_spill,
            r.taken == self.taken,
            match outcome {
                Ok(args) => r.phase == (CallPhase::Executing {
                    tool: self.phase->Validating_tool,
                    args,
                }),
                Err(text) => settles(
                    r.phase,
                    error_result(text@),
                    true,
                    self.can_spill,
                    self.call.id@,
                ),
            },
    {
        let call: &'a ToolCall = self.call;
        let phase: CallPhase = match self.phase {
            CallPhase::Validating { tool, args: _ } => match outcome {
                Ok(args) => CallPhase::Executing { tool, args },
                Err(text) => settle(
                    ToolResult::text(text, Json::Null),
                    true,
                    self.can_spill,
                    call.id.as_str(),
                ),
            },
            _ => unreached(),
        };
        CallRun { call, cwd: self.cwd, can_spill: self.can_spill, taken: self.taken, phase }
    }

    /// Takes the outcome of the tool: its result, or an error.
    pub fn executed(self, outcome: Result<ToolResult, String>) -> (r: Self)
        requires
            self.phase is Executing,
        ensures
            r.well_formed(),
            r.call == self.call,
            r.cwd == self.cwd,
            r.can_spill == self.can_spill,
            r.taken == self.taken,
            match outcome {
                Ok(result) => settles(
                    r.phase,
                    result@,
                    false,
                    self.can_spill,
                    self.call.id@,
                ),
                Err(text) => settles(
                    r.phase,
                    error_result(text@),
                    true,
                    self.can_spill,
                    self.call.id@,
                ),
            },
    {
        let call: &'a ToolCall = self.call;
        let phase: CallPhase = match outcome {
            Ok(result) => settle(result, false, self.can_spill, call.id.as_str()),
            Err(text) => settle(
                ToolResult::text(text, Json::Null),
                true,
                self.can_spill,
                call.id.as_str(),
            ),
        };
        CallRun { call, cwd: self.cwd, can_spill: self.can_spill, taken: self.taken, phase }
    }

    /// Takes where the host saved the text, or that it did not.
    pub fn spilled(self, saved: Option<SpillRef>) -> (r: Self)
        requires
            self.phase is Spilling,
        ensures
            r.well_formed(),
            r.call == self.call,
            r.cwd == self.cwd,
            r.can_spill == self.can_spill,
            r.taken == self.taken,
            match saved {
                Some(spill_ref) => r.phase matches CallPhase::Measuring { result, is_error }
                    && result@ == spilled_result(
                    self.phase->Spilling_result@,
                    spill_ref.path@,
                    spill_ref.size_bytes,
                    spill_ref.preview@,
                ) && !is_error,
                None => r.phase == (CallPhase::Capping {
                    result: self.phase->Spilling_result,
                    is_error: false,
                }),
            },
    {
        let phase: CallPhase = match self.phase {
            CallPhase::Spilling { request: _, result } => match settle_spill(result, saved) {
                ResultStep::Keep(result) => CallPhase::Measuring { result, is_error: false },
                ResultStep::Truncate(result) => CallPhase::Capping { result, is_error: false },
                ResultStep::Spill { request, result } => CallPhase::Spilling { request, result },
            },
            _ => unreached(),
        };
        CallRun {
            call: self.call,
            cwd: self.cwd,
            can_spill: self.can_spill,
            taken: self.taken,
            phase,
        }
    }

    /// Takes the content as the host capped it.
    pub fn capped(self, content: Vec<Content>) -> (r: Self)
        requires
            self.phase is Capping,
        ensures
            r.well_formed(),
            r.call == self.call,
            r.cwd == self.cwd,
            r.can_spill == self.can_spill,
            r.taken == self.taken,
            r.phase matches CallPhase::Measuring { result, is_error } && result.content == content
                && result.details == self.phase->Capping_result.details && result.retention
                == self.phase->Capping_result.retention && is_error
                == self.phase->Capping_is_error,
    {
        let phase: CallPhase = match self.phase {
            CallPhase::Capping { result, is_error } => CallPhase::Measuring {
                result: truncate_result(result, content),
                is_error,
            },
            _ => unreached(),
        };
        CallRun {
            call: self.call,
            cwd: self.cwd,
            can_spill: self.can_spill,
            taken: self.taken,
            phase,
        }
    }

    /// Ends the run: the message that answers the call, and the events that report it.
    pub fn finish(self, result_tokens: usize, duration_ms: u64, timestamp: u64) -> (r: Emission)
        requires
            self.phase is Measuring,
        ensures
            r.message@ == answer(
                self.call.id@,
                self.call.name@,
                self.phase->Measuring_result@,
                self.phase->Measuring_is_error,
                timestamp,
            ),
            event_views(r.events@) == end_events(
                self.call.id@,
                self.call.name@,
                self.phase->Measuring_result@,
                self.phase->Measuring_is_error,
                result_tokens,
                duration_ms,
                timestamp,
            ),
    {
        let call: &'a ToolCall = self.call;
        match self.phase {
            CallPhase::Measuring { result, is_error } => finish_call(
                call.id.as_str(),
                call.name.as_str(),
                result,
                is_error,
                result_tokens,
                duration_ms,
                timestamp,
            ),
            _ => unreached(),
        }
    }
}

/// The text of an error is never saved away from the result.
pub proof fn law_errors_are_not_spilled(
    phase: CallPhase,
    result: ToolResultView,
    can_spill: bool,
    id: Seq<char>,
)
    requires
        settles(phase, result, true, can_spill, id),
    ensures
        phase is Capping,
{
}

} // verus!
