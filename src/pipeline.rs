use vstd::prelude::*;
use crate::preflight::{SEARCH_BINARY, SELECTOR_BINARY};

verus! {

/// One of the two external engines of a run.
#[derive(PartialEq, Eq, Structural, Clone, Copy, Debug)]
pub enum Stage {
    Search,
    Selector,
}

impl Stage {
    pub open spec fn tool_spec(self) -> Seq<char> {
        match self {
            Stage::Search => SEARCH_BINARY@,
            Stage::Selector => SELECTOR_BINARY@,
        }
    }

    /// The executable that runs this stage.
    pub fn tool(self) -> (r: &'static str)
        ensures
            r@ == self.tool_spec(),
    {
        match self {
            Stage::Search => SEARCH_BINARY,
            Stage::Selector => SELECTOR_BINARY,
        }
    }
}

/// A fatal failure of a run, naming the stage it happened at.
#[derive(PartialEq, Eq, Structural, Clone, Copy, Debug)]
pub enum PipelineError {
    /// The engine's process could not be started.
    SpawnFailed { stage: Stage },
    /// A standard stream of the engine could not be obtained or read.
    StreamUnavailable { stage: Stage },
}

impl PipelineError {
    pub open spec fn message_spec(self) -> Seq<char> {
        match self {
            PipelineError::SpawnFailed { stage } => "failed to launch "@ + stage.tool_spec(),
            PipelineError::StreamUnavailable { stage } => "standard streams unavailable for "@
                + stage.tool_spec(),
        }
    }

    /// The text shown to the user, naming the engine that failed.
    pub fn message(&self) -> (r: String)
        ensures
            r@ == self.message_spec(),
    {
        match self {
            PipelineError::SpawnFailed { stage } => {
                let mut r = String::from_str("failed to launch ");
                r.append(stage.tool());
                r
            },
            PipelineError::StreamUnavailable { stage } => {
                let mut r = String::from_str("standard streams unavailable for ");
                r.append(stage.tool());
                r
            },
        }
    }
}

} // verus!
