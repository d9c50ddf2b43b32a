//! The errors of the rewriter and of the build steps.

use vstd::prelude::*;
use vstd::string::StringExecFns;

verus! {

/// Why a rewrite pass left its buffer untouched.
#[derive(Clone, Copy, Debug, PartialEq, Eq, Structural)]
pub enum RewriteError {
    /// The buffer could not be parsed as C, or the pattern could not be
    /// evaluated on it.
    ParseFailed,
    /// A match did not have the captures of its pattern, or a captured span
    /// does not lie inside the buffer or inside the span around it.
    MalformedMatch,
    /// Two edits of one pass overlap, or do not come in source order.
    OverlappingEdits,
}

/// Why a build step failed.
pub enum BuildStepError {
    /// The named tool could not be started: it is missing, or may not be
    /// executed.
    ChildExecutionFailed(String),
    /// The named tool ran and ended unsuccessfully, with the given exit code
    /// where it left one.
    ChildProcessFailed(String, Option<i32>),
    /// Reading or writing a file failed; the text says how.
    FileError(String),
    /// The search for the one file with the given name pattern found none, or
    /// more than one.
    PatternAmbiguous(String),
    /// The rewriter could not work on the transpiled source.
    RewriteFailed(RewriteError),
}

/// How the start of a tool ended.
#[derive(Clone, Copy, Debug, PartialEq, Eq, Structural)]
pub enum ToolOutcome {
    /// The tool could not be started.
    NotStarted,
    /// The tool ran and ended successfully.
    Succeeded,
    /// The tool ran and ended unsuccessfully, with the given exit code where
    /// it left one.
    Failed(Option<i32>),
}

/// What a step reports for a tool that ended as `outcome` says.
pub open spec fn verdict(tool: Seq<char>, outcome: ToolOutcome, result: Result<
    (),
    BuildStepError,
>) -> bool {
    match outcome {
        ToolOutcome::Succeeded => result is Ok,
        ToolOutcome::NotStarted => result matches Err(BuildStepError::ChildExecutionFailed(name))
            && name@ == tool,
        ToolOutcome::Failed(code) => result matches Err(
            BuildStepError::ChildProcessFailed(name, status),
        ) && name@ == tool && status == code,
    }
}

/// Judges the run of one tool: success only where it ran and ended
/// successfully; otherwise the error names the tool.
pub fn judge(tool: &str, outcome: ToolOutcome) -> (result: Result<(), BuildStepError>)
    ensures
        verdict(tool@, outcome, result),
{
    match outcome {
        ToolOutcome::Succeeded => Ok(()),
        ToolOutcome::NotStarted => Err(
            BuildStepError::ChildExecutionFailed(String::from_str(tool)),
        ),
        ToolOutcome::Failed(code) => Err(
            BuildStepError::ChildProcessFailed(String::from_str(tool), code),
        ),
    }
}

} // verus!
