//! The ways in which an operation on the audio hardware fails.

use vstd::prelude::*;

verus! {

/// Why an operation failed.
#[derive(Clone, Copy, Debug, PartialEq, Eq, Structural)]
pub enum ErrorKind {
    /// The name matched nothing that the tool listed.
    NotFound,
    /// The tool ran, and its output has not the expected shape.
    ParseFailure,
    /// The tool could not be started.
    ExecutionFailure,
    /// The tool ran and reported failure.
    CommandRejected,
    /// The request breaks a rule on its values; no tool was run.
    InvalidValue,
}

/// A failed operation: its kind, and the message for the caller.
#[derive(Clone, Debug, PartialEq, Eq)]
pub struct ControlError {
    pub kind: ErrorKind,
    pub message: String,
}

/// A failed operation, the message as a sequence of characters.
pub struct Failure {
    pub kind: ErrorKind,
    pub message: Seq<char>,
}

impl View for ControlError {
    type V = Failure;

    open spec fn view(&self) -> Failure {
        Failure { kind: self.kind, message: self.message@ }
    }
}

/// The failure of kind `NotFound` with this message.
pub open spec fn not_found(message: Seq<char>) -> Failure {
    Failure { kind: ErrorKind::NotFound, message }
}

/// The failure of kind `ParseFailure` with this message.
pub open spec fn parse_failure(message: Seq<char>) -> Failure {
    Failure { kind: ErrorKind::ParseFailure, message }
}

/// The failure of kind `ExecutionFailure` with this message.
pub open spec fn execution_failure(message: Seq<char>) -> Failure {
    Failure { kind: ErrorKind::ExecutionFailure, message }
}

/// The failure of kind `CommandRejected` with this message.
pub open spec fn command_rejected(message: Seq<char>) -> Failure {
    Failure { kind: ErrorKind::CommandRejected, message }
}

/// A result whose text and error are taken by their views.
pub open spec fn text_result(r: Result<String, ControlError>) -> Result<Seq<char>, Failure> {
    match r {
        Ok(s) => Ok(s@),
        Err(e) => Err(e@),
    }
}

/// A result whose error is taken by its view.
pub open spec fn value_result<T>(r: Result<T, ControlError>) -> Result<T, Failure> {
    match r {
        Ok(v) => Ok(v),
        Err(e) => Err(e@),
    }
}

impl ControlError {
    /// The error of the given kind with the given message.
    pub fn new(kind: ErrorKind, message: String) -> (e: ControlError)
        ensures
            e@ == (Failure { kind, message: message@ }),
    {
        ControlError { kind, message }
    }

    /// `prefix` and `subject` joined into the message of an error of the
    /// given kind.
    pub fn prefixed(kind: ErrorKind, prefix: &str, subject: &str) -> (e: ControlError)
        ensures
            e@ == (Failure { kind, message: prefix@ + subject@ }),
    {
        let mut message = prefix.to_string();
        message.append(subject);
        ControlError { kind, message }
    }

    /// `prefix`, `subject` and `suffix` joined into the message of an error
    /// of the given kind.
    pub fn describe(kind: ErrorKind, prefix: &str, subject: &str, suffix: &str) -> (e:
        ControlError)
        ensures
            e@ == (Failure { kind, message: prefix@ + subject@ + suffix@ }),
    {
        let mut message = prefix.to_string();
        message.append(subject);
        message.append(suffix);
        ControlError { kind, message }
    }
}

} // verus!
