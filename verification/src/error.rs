//! Errors of the engine. Command failures are not errors: they are absorbed
//! into the run's status. These are the configuration, trigger-context and
//! stop-target failures that end an invocation.

use vstd::prelude::*;

verus! {

#[derive(Clone, Copy, Debug, PartialEq, Eq, Structural)]
pub enum PipelightError {
    /// Two pipelines in one configuration share a name.
    DuplicatePipelineNames,
    /// No pipeline of the requested name exists in the configuration.
    PipelineNotFound,
    /// No running pipeline of the requested name was found in the logs.
    NotRunning,
    /// The current branch could not be determined.
    NoBranch,
    /// The invoking hook is missing or not a recognized hook.
    UnknownHook,
    /// A declared trigger carries no actions to flatten.
    NoActions,
}

impl PipelightError {
    /// A short description, for callers that report the error.
    pub fn message(&self) -> (r: &'static str)
        ensures
            r@ == spec_message(*self),
    {
        match self {
            PipelightError::DuplicatePipelineNames => "duplicate pipeline names in config",
            PipelightError::PipelineNotFound => "no pipeline of that name",
            PipelightError::NotRunning => "pipeline isn't running",
            PipelightError::NoBranch => "current branch can't be determined",
            PipelightError::UnknownHook => "hook action isn't recognized",
            PipelightError::NoActions => "trigger declares no actions",
        }
    }
}

pub open spec fn spec_message(e: PipelightError) -> Seq<char> {
    match e {
        PipelightError::DuplicatePipelineNames => "duplicate pipeline names in config"@,
        PipelightError::PipelineNotFound => "no pipeline of that name"@,
        PipelightError::NotRunning => "pipeline isn't running"@,
        PipelightError::NoBranch => "current branch can't be determined"@,
        PipelightError::UnknownHook => "hook action isn't recognized"@,
        PipelightError::NoActions => "trigger declares no actions"@,
    }
}

} // verus!
