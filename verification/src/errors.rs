use vstd::prelude::*;

verus! {

/// The fatal conditions the pipeline itself detects. Transport failures are
/// reported by the surrounding program; these are the ones the library's own
/// rules impose.
#[derive(Clone, Copy, Debug, PartialEq, Eq, Structural)]
pub enum PipelineError {
    /// The staged diff is empty: there is nothing to summarize.
    EmptyDiff,
    /// A count in the change summary does not fit the counter type.
    CountOutOfRange,
    /// No choice of the response carries an assistant-role message.
    NoAssistantMessage,
}

impl PipelineError {
    /// Human-readable description of the failure.
    pub fn describe(&self) -> (s: String)
        ensures
            self is EmptyDiff ==> s@ == "`git diff --cached` output is empty"@,
            self is CountOutOfRange ==> s@ == "change count in `git diff --cached --shortstat` is out of range"@,
            self is NoAssistantMessage ==> s@ == "at least one message is expected"@,
    {
        match self {
            PipelineError::EmptyDiff => String::from_str("`git diff --cached` output is empty"),
            PipelineError::CountOutOfRange => String::from_str(
                "change count in `git diff --cached --shortstat` is out of range",
            ),
            PipelineError::NoAssistantMessage => String::from_str("at least one message is expected"),
        }
    }
}

} // verus!
