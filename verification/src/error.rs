//! The failures a run can end in.

use vstd::prelude::*;

verus! {

/// What went wrong. Every failure is final: nothing is retried and nothing
/// is written once one has occurred.
#[derive(Clone, Copy, Debug, PartialEq, Eq, Structural)]
pub enum FailureKind {
    /// The configuration is missing or malformed.
    Config,
    /// The registry could not be reached or answered with a failure.
    Network,
    /// The registry's answer does not have the expected shape.
    Parse,
    /// The repository cannot be read, or a tag in it leads to no commit.
    Repository,
    /// The tag pattern is no usable regular expression.
    Pattern,
    /// No single package could be chosen.
    Resolution,
}

/// A failure: its kind and a description for the person running the tool.
#[derive(Debug)]
pub struct Failure {
    pub kind: FailureKind,
    pub message: String,
}

impl Failure {
    /// A failure of kind `kind` described by `message`.
    pub fn new(kind: FailureKind, message: &str) -> (e: Failure)
        ensures
            e.kind == kind,
            e.message@ == message@,
    {
        Failure { kind, message: message.to_owned() }
    }

    /// The description of the failure.
    pub fn message(&self) -> (m: String)
        ensures
            m@ == self.message@,
    {
        self.message.clone()
    }
}

/// Whether `r` is a failure of kind `kind`.
pub open spec fn fails_as<T>(r: Result<T, Failure>, kind: FailureKind) -> bool {
    r matches Err(e) && e.kind == kind
}

/// Whether `r` is a failure of kind `kind` described by `message`.
pub open spec fn fails_with<T>(r: Result<T, Failure>, kind: FailureKind, message: &str) -> bool {
    r matches Err(e) && e.kind == kind && e.message@ == message@
}

} // verus!
