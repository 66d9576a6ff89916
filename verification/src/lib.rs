//! Verified core of an agent's tool layer: parameter completion, web fetching
//! and the execution of tool calls.

pub mod call_run;
pub mod fetch_run;
pub mod json;
pub mod laws;
pub mod parameter_completion;
pub mod paths;
pub mod renderable;
pub mod text;
pub mod tool_call;
pub mod tool_exec;
pub mod tool_output;
pub mod types;
pub mod web_fetch;
