//! The error taxonomy of the server core.

use vstd::prelude::*;

verus! {

/// Everything that can go wrong while building or running the server.
///
/// Registration yields `AlreadyExists`; a connection whose stream closes
/// before a request line arrives yields `PrematureEof`; a request line with
/// fewer than two whitespace-separated tokens yields `MalformedRequestLine`.
/// `BindFailure`, `AcceptFailure`, `ContentUnavailable` and `WriteFailure`
/// classify the I/O failures of the surrounding serving loop, which logs
/// them through [`HttpError::message`].
#[derive(Clone, Copy, Debug, PartialEq, Eq, Structural)]
pub enum HttpError {
    AlreadyExists,
    BindFailure,
    AcceptFailure,
    PrematureEof,
    MalformedRequestLine,
    ContentUnavailable,
    WriteFailure,
}

impl HttpError {
    /// A human-readable description, one fixed line per variant.
    pub fn message(&self) -> (m: &'static str)
        ensures
            m@ == match *self {
                HttpError::AlreadyExists => "Route already exists"@,
                HttpError::BindFailure => "Error while binding listener"@,
                HttpError::AcceptFailure => "Error while reading from listener"@,
                HttpError::PrematureEof => "EOF while reading request!"@,
                HttpError::MalformedRequestLine => "Malformed request line"@,
                HttpError::ContentUnavailable => "Couldn't read from file 404.html!"@,
                HttpError::WriteFailure => "Error while writing response"@,
            },
    {
        match *self {
            HttpError::AlreadyExists => "Route already exists",
            HttpError::BindFailure => "Error while binding listener",
            HttpError::AcceptFailure => "Error while reading from listener",
            HttpError::PrematureEof => "EOF while reading request!",
            HttpError::MalformedRequestLine => "Malformed request line",
            HttpError::ContentUnavailable => "Couldn't read from file 404.html!",
            HttpError::WriteFailure => "Error while writing response",
        }
    }
}

} // verus!
