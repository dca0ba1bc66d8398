//! The ways in which handling one book can fail.

use vstd::prelude::*;

verus! {

/// What went wrong while one input path was processed.
#[derive(Clone, Copy, Debug, PartialEq, Eq, Structural)]
pub enum EpubError {
    /// The input is not a readable ZIP container, or one of its entries
    /// cannot be placed in the working tree.
    CorruptArchive,
    /// The container file, its root-file pointer, or the document it points
    /// to is absent.
    MissingRootFile,
    /// The package document cannot be parsed, has no metadata block, or
    /// cannot be written back.
    MalformedPackageDocument,
    /// An optimizer could not be run on one file.
    ExternalToolFailure,
    /// The input path could not be read.
    PathUnreadable,
    /// The driver was handed an event its current stage does not expect.
    OutOfSequence,
}

impl EpubError {
    /// Whether this failure ends the processing of the current input path.
    /// Only a failing optimizer does not: the file it was run on is kept as
    /// it was and the run goes on.
    pub open spec fn fatal(self) -> bool {
        self != EpubError::ExternalToolFailure
    }

    /// Whether this failure ends the processing of the current input path.
    pub fn is_fatal(&self) -> (b: bool)
        ensures
            b == self.fatal(),
    {
        match self {
            EpubError::ExternalToolFailure => false,
            _ => true,
        }
    }

    /// A one-line description for the console.
    pub fn describe(&self) -> (s: &'static str)
        ensures
            s@ == self.description(),
    {
        match self {
            EpubError::CorruptArchive => "corrupt archive",
            EpubError::MissingRootFile => "missing root file",
            EpubError::MalformedPackageDocument => "malformed package document",
            EpubError::ExternalToolFailure => "external tool failure",
            EpubError::PathUnreadable => "path unreadable",
            EpubError::OutOfSequence => "event out of sequence",
        }
    }

    /// The text that [`EpubError::describe`] returns.
    pub open spec fn description(self) -> Seq<char> {
        match self {
            EpubError::CorruptArchive => "corrupt archive"@,
            EpubError::MissingRootFile => "missing root file"@,
            EpubError::MalformedPackageDocument => "malformed package document"@,
            EpubError::ExternalToolFailure => "external tool failure"@,
            EpubError::PathUnreadable => "path unreadable"@,
            EpubError::OutOfSequence => "event out of sequence"@,
        }
    }
}

} // verus!
