//! Errors that a command answers with.

use vstd::prelude::*;
use crate::repository::error::{
    Error as RepositoryError, ErrorKind as RepositoryErrorKind,
    ErrorKindView as RepositoryErrorKindView,
};
use crate::text::{concat, owned};

verus! {

/// What made a command fail.
#[derive(Debug, Clone, PartialEq, Eq)]
pub enum ErrorKind {
    IO { message: String },
    Internal { message: String },
    Unknown { command_name: String },
    Invalid { message: String },
    AlreadyExists { path: String },
}

/// The error a command fails with.
#[derive(Debug, PartialEq, Eq)]
pub struct Error {
    pub inner: ErrorKind,
}

/// The value of an [`ErrorKind`].
pub enum ErrorKindView {
    IO(Seq<char>),
    Internal(Seq<char>),
    Unknown(Seq<char>),
    Invalid(Seq<char>),
    AlreadyExists(Seq<char>),
}

impl ErrorKindView {
    /// The text an error of this kind is shown with.
    pub open spec fn text(self) -> Seq<char> {
        match self {
            ErrorKindView::IO(message) => "IO error: "@ + message,
            ErrorKindView::Internal(message) => "Internal error: "@ + message,
            ErrorKindView::Unknown(command_name) => "Unknown command: "@ + command_name,
            ErrorKindView::Invalid(message) => "Invalid command: "@ + message,
            ErrorKindView::AlreadyExists(path) => "Already exists: "@ + path,
        }
    }
}

impl View for ErrorKind {
    type V = ErrorKindView;

    open spec fn view(&self) -> ErrorKindView {
        match self {
            ErrorKind::IO { message } => ErrorKindView::IO(message@),
            ErrorKind::Internal { message } => ErrorKindView::Internal(message@),
            ErrorKind::Unknown { command_name } => ErrorKindView::Unknown(command_name@),
            ErrorKind::Invalid { message } => ErrorKindView::Invalid(message@),
            ErrorKind::AlreadyExists { path } => ErrorKindView::AlreadyExists(path@),
        }
    }
}

impl View for Error {
    type V = ErrorKindView;

    open spec fn view(&self) -> ErrorKindView {
        self.inner@
    }
}

/// A file-tree error as a command error: a name clash stays a name clash,
/// anything else becomes an internal error carrying its text.
pub open spec fn lifted(k: RepositoryErrorKind) -> ErrorKindView {
    lifted_view(k@)
}

/// A file-tree error value as a command error value.
pub open spec fn lifted_view(k: RepositoryErrorKindView) -> ErrorKindView {
    match k {
        RepositoryErrorKindView::AlreadyExists(path) => ErrorKindView::AlreadyExists(path),
        _ => ErrorKindView::Internal(k.text()),
    }
}

/// The error given when a value that must be present is absent.
pub open spec fn none_error() -> ErrorKindView {
    ErrorKindView::Internal("NoneError"@)
}

impl ErrorKind {

    /// The kind of error for a command used the wrong way.
    pub fn invalid(message: &str) -> (r: Error)
        ensures
            r@ == ErrorKindView::Invalid(message@),
    {
        Error { inner: ErrorKind::Invalid { message: owned(message) } }
    }
}

impl Error {
    /// An error of the given kind.
    pub fn from(kind: ErrorKind) -> (r: Error)
        ensures
            r.inner == kind,
    {
        Error { inner: kind }
    }

    /// The error given when a value that must be present is absent.
    pub fn none() -> (r: Error)
        ensures
            r@ == none_error(),
    {
        Error { inner: ErrorKind::Internal { message: owned("NoneError") } }
    }

    /// A file-tree error as a command error: a name clash stays a name
    /// clash, anything else becomes an internal error carrying its text.
    pub fn from_repository(e: RepositoryError) -> (r: Error)
        ensures
            r@ == lifted(e.inner),
    {
        let text = e.message();
        match e.inner {
            RepositoryErrorKind::AlreadyExists { path } => Error {
                inner: ErrorKind::AlreadyExists { path },
            },
            _ => Error { inner: ErrorKind::Internal { message: text } },
        }
    }

    /// The text a file-tree error is shown with once it is a command error.
    pub fn lifted_message(e: &RepositoryError) -> (r: String)
        ensures
            r@ == lifted(e.inner).text(),
    {
        match &e.inner {
            RepositoryErrorKind::AlreadyExists { path } => concat("Already exists: ", path.as_str()),
            _ => {
                let m = e.message();
                concat("Internal error: ", m.as_str())
            },
        }
    }

    /// The text this error is shown with.
    pub fn message(&self) -> (r: String)
        ensures
            r@ == self@.text(),
    {
        match &self.inner {
            ErrorKind::IO { message } => concat("IO error: ", message.as_str()),
            ErrorKind::Internal { message } => concat("Internal error: ", message.as_str()),
            ErrorKind::Unknown { command_name } => concat(
                "Unknown command: ",
                command_name.as_str(),
            ),
            ErrorKind::Invalid { message } => concat("Invalid command: ", message.as_str()),
            ErrorKind::AlreadyExists { path } => concat("Already exists: ", path.as_str()),
        }
    }
}

} // verus!
