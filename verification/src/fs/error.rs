//! What can go wrong with a control group's interface files.

use vstd::prelude::*;

use crate::fs::number::NumberError;
use crate::fs::paths::{self, show};

verus! {

/// The kinds of failure.
#[derive(Debug, PartialEq, Eq)]
pub enum ErrorKind {
    /// A failure that a message describes.
    Common(String),
    /// The named file could not be read.
    ReadFailed(String),
    /// The named file could not be written with the given content.
    WriteFailed(String, String),
    /// A file holds something other than what is expected of it.
    ParseError,
}

/// What lies behind a failure.
#[derive(Debug, PartialEq, Eq)]
pub enum Cause {
    /// The operating system refused, and described why.
    Io(String),
    /// What was read is not valid UTF-8.
    InvalidUtf8,
    /// What was read is not a number.
    Number(NumberError),
}

/// A failure: its kind and what lies behind it, where that is known.
#[derive(Debug, PartialEq, Eq)]
pub struct Error {
    kind: ErrorKind,
    cause: Option<Cause>,
}

/// An [`ErrorKind`] with its texts as sequences of characters.
pub enum ErrorKindView {
    Common(Seq<char>),
    ReadFailed(Seq<char>),
    WriteFailed(Seq<char>, Seq<char>),
    ParseError,
}

/// A [`Cause`] with its text as a sequence of characters.
pub enum CauseView {
    Io(Seq<char>),
    InvalidUtf8,
    Number(NumberError),
}

/// An [`Error`] with its texts as sequences of characters.
pub struct ErrorView {
    pub kind: ErrorKindView,
    pub cause: Option<CauseView>,
}

impl View for ErrorKind {
    type V = ErrorKindView;

    open spec fn view(&self) -> ErrorKindView {
        match *self {
            ErrorKind::Common(m) => ErrorKindView::Common(m@),
            ErrorKind::ReadFailed(f) => ErrorKindView::ReadFailed(f@),
            ErrorKind::WriteFailed(f, c) => ErrorKindView::WriteFailed(f@, c@),
            ErrorKind::ParseError => ErrorKindView::ParseError,
        }
    }
}

impl View for Cause {
    type V = CauseView;

    open spec fn view(&self) -> CauseView {
        match *self {
            Cause::Io(m) => CauseView::Io(m@),
            Cause::InvalidUtf8 => CauseView::InvalidUtf8,
            Cause::Number(n) => CauseView::Number(n),
        }
    }
}

impl View for Error {
    type V = ErrorView;

    closed spec fn view(&self) -> ErrorView {
        ErrorView {
            kind: self.kind@,
            cause: match self.cause {
                Some(c) => Some(c@),
                None => None,
            },
        }
    }
}

impl ErrorView {
    /// A failure of which no cause is known.
    pub open spec fn new(kind: ErrorKindView) -> ErrorView {
        ErrorView { kind, cause: None }
    }

    /// A failure with its cause.
    pub open spec fn with_cause(kind: ErrorKindView, cause: CauseView) -> ErrorView {
        ErrorView { kind, cause: Some(cause) }
    }
}

/// A result whose error is taken by its view.
pub open spec fn outcome<T>(r: Result<T, Error>) -> Result<T, ErrorView> {
    match r {
        Ok(v) => Ok(v),
        Err(e) => Err(e@),
    }
}

/// A result with a text, both sides taken by their views.
pub open spec fn text_outcome(r: Result<String, Error>) -> Result<Seq<char>, ErrorView> {
    match r {
        Ok(v) => Ok(v@),
        Err(e) => Err(e@),
    }
}

/// What came of an operation of the operating system, its description of a failure taken by its
/// view.
pub open spec fn described<T>(r: Result<T, String>) -> Result<T, Seq<char>> {
    match r {
        Ok(v) => Ok(v),
        Err(m) => Err(m@),
    }
}

/// The failure to read a file, or to get ready to read it.
pub open spec fn read_failure(path: Seq<char>, cause: Seq<char>) -> ErrorView {
    ErrorView::with_cause(ErrorKindView::ReadFailed(path), CauseView::Io(cause))
}

/// The failure to write some content to a file.
pub open spec fn write_failure(path: Seq<char>, content: Seq<char>, cause: Seq<char>) -> ErrorView {
    ErrorView::with_cause(ErrorKindView::WriteFailed(path, content), CauseView::Io(cause))
}

impl Error {
    /// A failure of which no cause is known.
    pub fn new(kind: ErrorKind) -> (r: Error)
        ensures
            r@ == ErrorView::new(kind@),
    {
        Error { kind, cause: None }
    }

    /// A failure with its cause.
    pub fn with_cause(kind: ErrorKind, cause: Cause) -> (r: Error)
        ensures
            r@ == ErrorView::with_cause(kind@, cause@),
    {
        Error { kind, cause: Some(cause) }
    }

    /// A failure that a message describes.
    pub fn from_string(message: String) -> (r: Error)
        ensures
            r@ == ErrorView::new(ErrorKindView::Common(message@)),
    {
        Error { kind: ErrorKind::Common(message), cause: None }
    }

    /// The failure to read the file at a path, or to get ready to read it.
    pub fn read_failed(path: &[u8], cause: String) -> (r: Error)
        ensures
            r@ == read_failure(paths::shown(path@), cause@),
    {
        Error::with_cause(ErrorKind::ReadFailed(show(path)), Cause::Io(cause))
    }

    /// The kind of the failure.
    pub fn kind(&self) -> (r: &ErrorKind)
        ensures
            r@ == self@.kind,
    {
        &self.kind
    }

    /// What lies behind the failure, where that is known.
    pub fn cause(&self) -> (r: Option<&Cause>)
        ensures
            match r {
                Some(c) => self@.cause == Some(c@),
                None => self@.cause is None,
            },
    {
        self.cause.as_ref()
    }
}

// ---------------------------------------------------------------------------------------------
// Laws
// ---------------------------------------------------------------------------------------------

/// A view shows all of a kind of failure: which one it is, and each of its texts whole.
pub proof fn law_kind_is_shown_whole(f: String, c: String)
    ensures
        ErrorKind::Common(f)@ == ErrorKindView::Common(f@),
        ErrorKind::ReadFailed(f)@ == ErrorKindView::ReadFailed(f@),
        ErrorKind::WriteFailed(f, c)@ == ErrorKindView::WriteFailed(f@, c@),
        ErrorKind::ParseError@ == ErrorKindView::ParseError,
{
}

/// A view shows all of a cause.
pub proof fn law_cause_is_shown_whole(m: String, n: NumberError)
    ensures
        Cause::Io(m)@ == CauseView::Io(m@),
        Cause::InvalidUtf8@ == CauseView::InvalidUtf8,
        Cause::Number(n)@ == CauseView::Number(n),
{
}

/// A failure has the kind and the cause that it was made with, and no cause where it was made
/// without one.
pub proof fn law_failure_keeps_its_parts(kind: ErrorKindView, cause: CauseView)
    ensures
        ErrorView::new(kind).kind == kind,
        ErrorView::new(kind).cause is None,
        ErrorView::with_cause(kind, cause).kind == kind,
        ErrorView::with_cause(kind, cause).cause == Some(cause),
{
}

/// The failure to read a file names the file and what the operating system said, and the failure
/// to write one names the content as well.
pub proof fn law_failure_names_the_file(path: Seq<char>, content: Seq<char>, cause: Seq<char>)
    ensures
        read_failure(path, cause) == (ErrorView {
            kind: ErrorKindView::ReadFailed(path),
            cause: Some(CauseView::Io(cause)),
        }),
        write_failure(path, content, cause) == (ErrorView {
            kind: ErrorKindView::WriteFailed(path, content),
            cause: Some(CauseView::Io(cause)),
        }),
{
}

/// Taking the parts of a result by their views keeps success and failure apart, and each value
/// as it is.
pub proof fn law_results_are_shown_whole<T>(v: T, s: String, e: Error, m: String)
    ensures
        outcome(Ok::<T, Error>(v)) == Ok::<T, ErrorView>(v),
        outcome(Err::<T, Error>(e)) == Err::<T, ErrorView>(e@),
        text_outcome(Ok::<String, Error>(s)) == Ok::<Seq<char>, ErrorView>(s@),
        text_outcome(Err::<String, Error>(e)) == Err::<Seq<char>, ErrorView>(e@),
        described(Ok::<T, String>(v)) == Ok::<T, Seq<char>>(v),
        described(Err::<T, String>(m)) == Err::<T, Seq<char>>(m@),
{
}

} // verus!
