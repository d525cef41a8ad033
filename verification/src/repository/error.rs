//! Errors of file-tree operations.

use vstd::prelude::*;
use crate::text::concat;

verus! {

/// What went wrong in a file-tree operation.
#[derive(Debug, Clone, PartialEq, Eq)]
pub enum ErrorKind {
    IO { message: String },
    Internal { message: String },
    AlreadyExists { path: String },
}

/// An error of a file-tree operation.
#[derive(Debug, PartialEq, Eq)]
pub struct Error {
    pub inner: ErrorKind,
}

impl ErrorKind {
    /// The text an error of this kind is shown with.
    pub open spec fn text(self) -> Seq<char> {
        self@.text()
    }
}

/// The value of an [`ErrorKind`].
pub enum ErrorKindView {
    IO(Seq<char>),
    Internal(Seq<char>),
    AlreadyExists(Seq<char>),
}

impl ErrorKindView {
    /// The text an error of this kind is shown with.
    pub open spec fn text(self) -> Seq<char> {
        match self {
            ErrorKindView::IO(message) => "IO error: "@ + message,
            ErrorKindView::Internal(message) => "Internal error: "@ + message,
            ErrorKindView::AlreadyExists(path) => "Already exists: "@ + path,
        }
    }
}

impl View for ErrorKind {
    type V = ErrorKindView;

    open spec fn view(&self) -> ErrorKindView {
        match self {
            ErrorKind::IO { message } => ErrorKindView::IO(message@),
            ErrorKind::Internal { message } => ErrorKindView::Internal(message@),
            ErrorKind::AlreadyExists { path } => ErrorKindView::AlreadyExists(path@),
        }
    }
}

/// The error given when a value that must be present is absent.
pub open spec fn none_kind() -> ErrorKindView {
    ErrorKindView::Internal("NoneError"@)
}

impl ErrorKind {
    /// A copy of this kind.
    pub fn duplicate(&self) -> (r: ErrorKind)
        ensures
            r == *self,
    {
        match self {
            ErrorKind::IO { message } => ErrorKind::IO { message: message.clone() },
            ErrorKind::Internal { message } => ErrorKind::Internal { message: message.clone() },
            ErrorKind::AlreadyExists { path } => ErrorKind::AlreadyExists { path: path.clone() },
        }
    }
}

impl Error {
    /// An error of the given kind.
    pub fn from(kind: ErrorKind) -> (r: Error)
        ensures
            r.inner == kind,
    {
        Error { inner: kind }
    }

    /// An input/output failure with the system's message.
    pub fn io(message: String) -> (r: Error)
        ensures
            r.inner == (ErrorKind::IO { message }),
    {
        Error { inner: ErrorKind::IO { message } }
    }

    /// The error given when a value that must be present is absent.
    pub fn none() -> (r: Error)
        ensures
            r.inner matches ErrorKind::Internal { message } && message@ == "NoneError"@,
    {
        Error { inner: ErrorKind::Internal { message: crate::text::owned("NoneError") } }
    }

    /// The error given when `path` is already taken.
    pub fn already_exists(path: &str) -> (r: Error)
        ensures
            r.inner matches ErrorKind::AlreadyExists { path: p } && p@ == path@,
    {
        Error { inner: ErrorKind::AlreadyExists { path: crate::text::owned(path) } }
    }

    /// The text this error is shown with.
    pub fn message(&self) -> (r: String)
        ensures
            r@ == self.inner.text(),
    {
        match &self.inner {
            ErrorKind::IO { message } => concat("IO error: ", message.as_str()),
            ErrorKind::Internal { message } => concat("Internal error: ", message.as_str()),
            ErrorKind::AlreadyExists { path } => concat("Already exists: ", path.as_str()),
        }
    }
}

} // verus!
