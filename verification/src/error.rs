//! The failures that the runtime reports to its callers.

use crate::numeral::{format_i32, signed_decimal};
use vstd::prelude::*;
use vstd::string::*;

verus! {

/// The kinds of platform failure that the runtime tells apart.
#[derive(Clone, Copy, Debug, PartialEq, Eq, Structural)]
pub enum IoKind {
    /// The thing asked for does not exist.
    NotFound,
    /// Any other failure.
    Other,
}

/// A failure reported by the platform: what kind it was and the platform's
/// own words for it.
#[derive(Debug, PartialEq, Eq)]
pub struct IoFailure {
    pub kind: IoKind,
    pub message: String,
}

impl IoFailure {
    /// A failure of the given kind with the platform's message.
    pub fn new(kind: IoKind, message: String) -> (failure: Self)
        ensures
            failure == (IoFailure { kind, message }),
    {
        IoFailure { kind, message }
    }

    /// A copy of this failure.
    pub fn duplicate(&self) -> (copy: Self)
        ensures
            copy == *self,
    {
        IoFailure { kind: self.kind, message: self.message.clone() }
    }
}

/// A failure that the runtime reports as a value. Each launch of a batch
/// carries its own; none stands for the whole batch.
#[derive(Debug, PartialEq, Eq)]
pub enum Error {
    /// The executable to launch does not exist.
    CommandNotFound(String),
    /// No port of this name is open.
    NoSuchPort(String),
    /// The platform failed to bind, start or wait.
    IoError(IoFailure),
    /// A launched process ended with a failure code.
    FailExitCode(i32),
}

impl Error {
    /// The fixed sentence for each kind of failure; for a platform failure
    /// the platform's message.
    pub open spec fn description_text(self) -> Seq<char> {
        match self {
            Error::CommandNotFound(_) => "empire could not find the requested command"@,
            Error::NoSuchPort(_) => "empire could not find a port with the given name"@,
            Error::IoError(failure) => failure.message@,
            Error::FailExitCode(_) => "launched process exited early with a failure code"@,
        }
    }

    /// The sentence shown to the user, which names the command, port or
    /// exit code concerned.
    pub open spec fn display_text(self) -> Seq<char> {
        match self {
            Error::CommandNotFound(command) => "empire could not find the command '"@ + command@
                + "'"@,
            Error::NoSuchPort(port_name) => "empire could not find the port '"@ + port_name@
                + "'"@,
            Error::IoError(failure) => failure.message@,
            Error::FailExitCode(code) => "child process exited with code '"@ + signed_decimal(
                code as int,
            ) + "'"@,
        }
    }

    /// A short description of the kind of failure.
    pub fn description(&self) -> (text: &str)
        ensures
            text@ == self.description_text(),
    {
        match self {
            Error::CommandNotFound(_) => "empire could not find the requested command",
            Error::NoSuchPort(_) => "empire could not find a port with the given name",
            Error::IoError(failure) => failure.message.as_str(),
            Error::FailExitCode(_) => "launched process exited early with a failure code",
        }
    }

    /// The failure as a sentence for the user.
    pub fn to_string(&self) -> (text: String)
        ensures
            text@ == self.display_text(),
    {
        match self {
            Error::CommandNotFound(command) => String::from_str(
                "empire could not find the command '",
            ).concat(command.as_str()).concat("'"),
            Error::NoSuchPort(port_name) => String::from_str(
                "empire could not find the port '",
            ).concat(port_name.as_str()).concat("'"),
            Error::IoError(failure) => failure.message.clone(),
            Error::FailExitCode(code) => {
                let digits = format_i32(*code);
                String::from_str("child process exited with code '").concat(
                    digits.as_str(),
                ).concat("'")
            },
        }
    }

    /// A copy of this failure.
    pub fn duplicate(&self) -> (copy: Self)
        ensures
            copy == *self,
    {
        match self {
            Error::CommandNotFound(command) => Error::CommandNotFound(command.clone()),
            Error::NoSuchPort(port_name) => Error::NoSuchPort(port_name.clone()),
            Error::IoError(failure) => Error::IoError(failure.duplicate()),
            Error::FailExitCode(code) => Error::FailExitCode(*code),
        }
    }
}

} // verus!
