//! The failures that the library and the program around it report.

use vstd::prelude::*;
use vstd::string::StringExecFns;

verus! {

/// Why a verse could not be resolved against a catalog.
#[derive(Debug, PartialEq, Eq)]
pub enum Error {
    /// No chapter carries the title that was looked for.
    VerseNotFound { verse: String },
    /// The last chapter's title holds no `:` to end a prefix.
    PrefixNotMatch,
    /// The text after the last `:` of a title is not a verse number.
    VerseFromTitle { item: String },
    /// A range token does not consist of two labels around a single `-`.
    InvalidRangeFormat,
}

/// The mathematical content of an [`Error`].
pub enum ErrorView {
    VerseNotFound { verse: Seq<char> },
    PrefixNotMatch,
    VerseFromTitle { item: Seq<char> },
    InvalidRangeFormat,
}

impl View for Error {
    type V = ErrorView;

    open spec fn view(&self) -> ErrorView {
        match self {
            Error::VerseNotFound { verse } => ErrorView::VerseNotFound { verse: verse@ },
            Error::PrefixNotMatch => ErrorView::PrefixNotMatch,
            Error::VerseFromTitle { item } => ErrorView::VerseFromTitle { item: item@ },
            Error::InvalidRangeFormat => ErrorView::InvalidRangeFormat,
        }
    }
}

/// Failures of the probing step.
#[derive(Debug, Clone, Copy, PartialEq, Eq, Structural)]
pub enum Errors {
    /// The input file is missing, or the probing tool could not read it.
    FileError,
}

impl Errors {
    /// The text shown for this failure.
    pub fn message(&self) -> (text: String)
        ensures
            text@ == "FileError:"@,
    {
        String::from_str("FileError:")
    }
}

/// Failures that end a run of the program.
#[derive(Debug, Clone, Copy, PartialEq, Eq, Structural)]
pub enum ScriptxErrors {
    /// One of the two media tools is not installed or cannot be run.
    DependencyError,
    /// The input file could not be read or the output not written.
    FileError,
}

impl ScriptxErrors {
    /// The text shown for this failure.
    pub fn message(&self) -> (text: String)
        ensures
            text@ == match *self {
                ScriptxErrors::DependencyError => "DependencyError:"@,
                ScriptxErrors::FileError => "LibraryError:"@,
            },
    {
        match self {
            ScriptxErrors::DependencyError => String::from_str("DependencyError:"),
            ScriptxErrors::FileError => String::from_str("LibraryError:"),
        }
    }
}

} // verus!
