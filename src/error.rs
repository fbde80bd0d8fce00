//! What can go wrong in an operation.
use vstd::prelude::*;

verus! {

/// The kinds of failure.
#[derive(Clone, Copy, Debug, PartialEq, Eq, Structural)]
pub enum ErrorKind {
    /// A path does not lie below the workspace root.
    OutsideWorkspace,
    /// A path names no package and non-package paths are not allowed.
    NotAPackage,
    /// No package matches a package ID specification.
    UnknownSpec,
    /// More than one package matches a package ID specification.
    AmbiguousSpec,
    /// The destination of a copy exists already.
    DestinationExists,
    /// A cargo command failed; the subject is its message.
    Collaborator,
    /// A cargo command printed what could not be read.
    MalformedOutput,
}

/// A failure and the input or message it concerns.
#[derive(Debug)]
pub struct MemberError {
    pub kind: ErrorKind,
    pub subject: String,
}

impl View for MemberError {
    type V = (ErrorKind, Seq<char>);

    open spec fn view(&self) -> (ErrorKind, Seq<char>) {
        (self.kind, self.subject@)
    }
}

/// Failures in mapping a path or a specification to a package.
pub open spec fn is_resolution_kind(k: ErrorKind) -> bool {
    k == ErrorKind::OutsideWorkspace || k == ErrorKind::NotAPackage || k == ErrorKind::UnknownSpec
        || k == ErrorKind::AmbiguousSpec
}

impl MemberError {
    /// The failure `kind` concerning `subject`.
    pub fn about(kind: ErrorKind, subject: &str) -> (r: MemberError)
        ensures
            r@ == (kind, subject@),
    {
        MemberError { kind, subject: String::from_str(subject) }
    }

    /// Whether this is a failure to resolve a package.
    pub fn is_resolution(&self) -> (r: bool)
        ensures
            r == is_resolution_kind(self.kind),
    {
        match self.kind {
            ErrorKind::OutsideWorkspace | ErrorKind::NotAPackage | ErrorKind::UnknownSpec
            | ErrorKind::AmbiguousSpec => true,
            _ => false,
        }
    }
}

} // verus!
