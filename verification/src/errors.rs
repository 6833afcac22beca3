//! Errors raised while classifying or rendering a file. Every error carries
//! the source position (file and line) at which it was detected.

use vstd::prelude::*;

verus! {

/// A source position: the file's name and the 0-based line number within it.
#[derive(Debug)]
pub struct Location {
    pub file: String,
    pub line: u32,
}

/// The mathematical shadow of `Location`.
pub struct LocationModel {
    pub file: Seq<char>,
    pub line: u32,
}

impl View for Location {
    type V = LocationModel;

    open spec fn view(&self) -> LocationModel {
        LocationModel { file: self.file@, line: self.line }
    }
}

/// What went wrong, with the offending name or text as payload.
#[derive(Debug)]
pub enum ErrorKind {
    /// The directive name after the marker is not in the recognized set.
    UnknownMacro(String),
    /// A context-sensitive directive (`else`, `end`, `then`) stood where the
    /// open-block context does not permit it.
    UnexpectedMacro(String),
    /// A directive that requires an argument had none.
    MissingArgument(String),
    /// A directive that forbids an argument had one, or `when` had a third
    /// token (the payload is that token).
    UnexpectedArgument(String),
    /// `call` named a procedure absent from the table at the call site.
    UnknownProc(String),
    /// `include` named a path absent from the supplied content store.
    Include(String),
    /// The input ended while the named block was still open.
    UnterminatedBlock(String),
}

/// The mathematical shadow of `ErrorKind`.
pub enum ErrorKindModel {
    UnknownMacro(Seq<char>),
    UnexpectedMacro(Seq<char>),
    MissingArgument(Seq<char>),
    UnexpectedArgument(Seq<char>),
    UnknownProc(Seq<char>),
    Include(Seq<char>),
    UnterminatedBlock(Seq<char>),
}

impl View for ErrorKind {
    type V = ErrorKindModel;

    open spec fn view(&self) -> ErrorKindModel {
        match self {
            ErrorKind::UnknownMacro(s) => ErrorKindModel::UnknownMacro(s@),
            ErrorKind::UnexpectedMacro(s) => ErrorKindModel::UnexpectedMacro(s@),
            ErrorKind::MissingArgument(s) => ErrorKindModel::MissingArgument(s@),
            ErrorKind::UnexpectedArgument(s) => ErrorKindModel::UnexpectedArgument(s@),
            ErrorKind::UnknownProc(s) => ErrorKindModel::UnknownProc(s@),
            ErrorKind::Include(s) => ErrorKindModel::Include(s@),
            ErrorKind::UnterminatedBlock(s) => ErrorKindModel::UnterminatedBlock(s@),
        }
    }
}

/// A failure of one file's render pass: where it happened and what it was.
#[derive(Debug)]
pub struct Error {
    pub location: Location,
    pub kind: ErrorKind,
}

/// The mathematical shadow of `Error`.
pub struct ErrorModel {
    pub location: LocationModel,
    pub kind: ErrorKindModel,
}

impl View for Error {
    type V = ErrorModel;

    open spec fn view(&self) -> ErrorModel {
        ErrorModel { location: self.location@, kind: self.kind@ }
    }
}

} // verus!
