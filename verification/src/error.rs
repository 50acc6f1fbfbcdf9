//! The error value shared by every fallible operation of the crate.

use vstd::prelude::*;

verus! {

/// What went wrong, as far as a caller may want to tell failures apart.
#[derive(Debug, Clone, Copy, PartialEq, Eq, Structural)]
pub enum ErrorKind {
    /// No live document carries what was asked for.
    NotFound,
    /// A stored field is absent or holds a value of the wrong type: the
    /// index is damaged, or was written by another version. Trying again
    /// does not help.
    Corrupt,
    /// A value cannot be stored as it is: its shape is malformed.
    Malformed,
    /// The index engine or the file system failed.
    Index,
    /// Any other failure.
    Other,
}

/// A failure: its kind, and a message that describes it.
#[derive(Debug, Clone)]
pub struct Error {
    pub kind: ErrorKind,
    pub msg: String,
}

impl View for Error {
    type V = Seq<char>;

    open spec fn view(&self) -> Seq<char> {
        self.msg@
    }
}

impl Error {
    /// Makes an error of no particular kind that carries `msg`.
    pub fn new(msg: String) -> (e: Error)
        ensures
            e@ == msg@,
            e.kind == ErrorKind::Other,
    {
        Error { kind: ErrorKind::Other, msg }
    }

    /// Makes an error of the kind `kind` that carries `msg`.
    pub fn of(kind: ErrorKind, msg: &str) -> (e: Error)
        ensures
            e@ == msg@,
            e.kind == kind,
    {
        Error { kind, msg: msg.to_owned() }
    }

    /// The message the error carries.
    pub fn message(&self) -> (m: &str)
        ensures
            m@ == self@,
    {
        self.msg.as_str()
    }
}

/// Turns the absence of a value into an error with a chosen message.
pub trait BadError<R>: Sized {
    /// The value, if there is one.
    spec fn good(self) -> Option<R>;

    /// `Ok` with the value where there is one, else an error carrying `msg`.
    fn bad_err(self, msg: &str) -> (r: Result<R, Error>)
        ensures
            match r {
                Ok(v) => self.good() == Some(v),
                Err(e) => self.good().is_none() && e@ == msg@ && e.kind == ErrorKind::Other,
            },
    ;
}

impl<R> BadError<R> for Option<R> {
    open spec fn good(self) -> Option<R> {
        self
    }

    fn bad_err(self, msg: &str) -> (r: Result<R, Error>) {
        match self {
            Some(s) => Ok(s),
            None => Err(Error::new(msg.to_owned())),
        }
    }
}

impl<R, E> BadError<R> for Result<R, E> {
    open spec fn good(self) -> Option<R> {
        match self {
            Ok(v) => Some(v),
            Err(_) => None,
        }
    }

    fn bad_err(self, msg: &str) -> (r: Result<R, Error>) {
        match self {
            Ok(v) => Ok(v),
            Err(_) => Err(Error::new(msg.to_owned())),
        }
    }
}

/// Turns any failure into an error that carries what the failure says of
/// itself.
pub trait InferBadError<R>: Sized {
    /// The value, if there is one.
    spec fn inferred(self) -> Option<R>;

    /// Whether `msg` is what the failure says of itself.
    spec fn says(self, msg: String) -> bool;

    /// `Ok` with the value where there is one, else an error that carries
    /// what the failure says of itself.
    fn infer_err(self) -> (r: Result<R, Error>)
        ensures
            match r {
                Ok(v) => self.inferred() == Some(v),
                Err(e) => self.inferred().is_none() && self.says(e.msg) && e.kind == ErrorKind::Other,
            },
    ;
}

impl<R, E: std::fmt::Display> InferBadError<R> for Result<R, E> {
    open spec fn inferred(self) -> Option<R> {
        match self {
            Ok(v) => Some(v),
            Err(_) => None,
        }
    }

    open spec fn says(self, msg: String) -> bool {
        match self {
            Ok(_) => false,
            Err(e) => vstd::string::to_string_from_display_ensures::<E>(&e, msg),
        }
    }

    fn infer_err(self) -> (r: Result<R, Error>) {
        match self {
            Ok(v) => Ok(v),
            Err(e) => Err(Error { kind: ErrorKind::Other, msg: e.to_string() }),
        }
    }
}

} // verus!
