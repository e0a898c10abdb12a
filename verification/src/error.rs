//! Shared result and error vocabulary for the relay node.
//!
//! Every engine outcome is reported as `Result<T, Error>`. An `Error` carries
//! a machine-readable code, a human-readable message and a `traceback` list of
//! sub-errors: an aggregating failure (such as an unreachable destination)
//! attaches one traceback entry per failed attempt, so no error is dropped.

use vstd::prelude::*;
use vstd::string::*;

verus! {

/// Stable machine-readable error codes.
#[derive(Debug, Clone, Copy, PartialEq, Eq, Structural)]
pub enum ErrorCode {
    /// The engine is not yet initialized.
    Unready,
    /// The message has already been handled by this node.
    LoopDetected,
    /// No adaptor is registered for the requested transport specifier.
    NotFound,
    /// No viable send path remained after exhausting direct and relay attempts.
    Unreachable,
    /// Malformed input, e.g. a transport specifier string or an address.
    Invalid,
}

impl ErrorCode {
    /// The stable numeric code of this error kind, for wire-level reporting.
    pub fn value(&self) -> (r: u32)
        ensures
            r == self.spec_value(),
    {
        match self {
            ErrorCode::Unready => 0,
            ErrorCode::LoopDetected => 10000,
            ErrorCode::NotFound => 10001,
            ErrorCode::Unreachable => 10002,
            ErrorCode::Invalid => 10003,
        }
    }

    /// The numeric code, as a spec-level function.
    pub open spec fn spec_value(self) -> u32 {
        match self {
            ErrorCode::Unready => 0,
            ErrorCode::LoopDetected => 10000,
            ErrorCode::NotFound => 10001,
            ErrorCode::Unreachable => 10002,
            ErrorCode::Invalid => 10003,
        }
    }

    /// The name of this error kind.
    pub fn name(&self) -> (r: &'static str)
        ensures
            r@ == self.spec_name(),
    {
        match self {
            ErrorCode::Unready => "Unready",
            ErrorCode::LoopDetected => "LoopDetected",
            ErrorCode::NotFound => "NotFound",
            ErrorCode::Unreachable => "Unreachable",
            ErrorCode::Invalid => "Invalid",
        }
    }

    /// The name of this error kind, as a spec-level function.
    pub open spec fn spec_name(self) -> Seq<char> {
        match self {
            ErrorCode::Unready => "Unready"@,
            ErrorCode::LoopDetected => "LoopDetected"@,
            ErrorCode::NotFound => "NotFound"@,
            ErrorCode::Unreachable => "Unreachable"@,
            ErrorCode::Invalid => "Invalid"@,
        }
    }
}

/// An engine error: a code, a message, and the sub-errors that led to it.
#[derive(Debug)]
pub struct Error {
    pub message: String,
    pub code: ErrorCode,
    pub traceback: Vec<Error>,
}

impl Error {
    /// Builds an error with the given message and code and no traceback.
    pub fn from_message(message: String, code: ErrorCode) -> (r: Error)
        ensures
            r.message@ == message@,
            r.code == code,
            r.traceback@.len() == 0,
    {
        Error { message, code, traceback: Vec::new() }
    }

    /// A one-line rendering of this error: `message[Code]: message`.
    pub fn render(&self) -> (r: String)
        ensures
            r@ == self.message@ + "["@ + self.code.spec_name() + "]: "@ + self.message@,
    {
        let mut r = self.message.clone();
        r.append("[");
        r.append(self.code.name());
        r.append("]: ");
        r.append(self.message.as_str());
        r
    }
}

/// Builds an `Err` result with the given message and code and no traceback.
pub fn error<T>(message: String, code: ErrorCode) -> (r: Result<T, Error>)
    ensures
        r matches Err(e) && e.message@ == message@ && e.code == code && e.traceback@.len() == 0,
{
    Err(Error::from_message(message, code))
}

/// The result envelope used at API boundaries that serialize outcomes.
#[derive(Debug)]
pub enum Response<T> {
    Done(T),
    Failed(Error),
}

} // verus!
