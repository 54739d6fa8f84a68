//! Messages that the background agent task sends back to the interface.

pub mod file_tool;
pub mod pattern;

use vstd::prelude::*;

verus! {

/// What a finished agent request reports: its reply, or the error's text.
#[derive(Debug)]
pub enum AgentEvent {
    Response(String),
    Error(String),
}

} // verus!
