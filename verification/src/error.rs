//! The failures of the adapter. Each reaches the engine as one opaque error
//! that carries a message; the kind tells the library's callers which step
//! gave up.

use vstd::prelude::*;

verus! {

/// The step that failed.
#[derive(Clone, Copy, Debug, PartialEq, Eq, Structural)]
pub enum ErrorKind {
    /// The repository path names no repository that can be opened.
    RepositoryOpen,
    /// The revision is malformed or names no commit.
    RevisionResolution,
    /// A commit's tree, or a parent's, cannot be found.
    TreeLookup,
    /// The comparison of two trees failed.
    DiffComputation,
    /// A commit has more than two parents.
    UnsupportedMergeTopology,
    /// The bind mode names a parameter that the call did not supply.
    ConstraintBinding,
}

/// A failure with the message that the engine shows.
#[derive(Clone, Debug, PartialEq, Eq)]
pub struct QueryError {
    pub kind: ErrorKind,
    pub message: String,
}

impl QueryError {
    /// An error of `kind` with `message`.
    pub fn new(kind: ErrorKind, message: String) -> (e: QueryError)
        ensures
            e.kind == kind,
            e.message@ == message@,
    {
        QueryError { kind, message }
    }

    /// An error of `kind` with the message `text`.
    pub fn with_text(kind: ErrorKind, text: &str) -> (e: QueryError)
        ensures
            e.kind == kind,
            e.message@ == text@,
    {
        QueryError { kind, message: text.to_owned() }
    }

    /// The step that failed.
    pub fn kind(&self) -> (kind: ErrorKind)
        ensures
            kind == self.kind,
    {
        self.kind
    }

    /// The message, as the engine is to show it.
    pub fn message(&self) -> (text: String)
        ensures
            text@ == self.message@,
    {
        self.message.clone()
    }
}

} // verus!
