//! The closed set of failures the profiler can report.

use vstd::prelude::*;
use vstd::string::*;
use crate::text::{decimal, push_decimal, push_signed_decimal, signed_decimal};

verus! {

/// Every condition that ends a run.
#[derive(Debug, Clone, PartialEq, Eq)]
pub enum JouleProfilerError {
    /// The energy interface is absent at the given path.
    RaplNotAvailable(String),
    /// No counter was found, or none is left after filtering.
    NoDomains,
    /// A counter could not be read.
    RaplReadError(String),
    /// The interface path exists but is not a directory.
    InvalidRaplPath(String),
    /// A counter went backwards and the wrap cannot be corrected.
    CounterOverflow,
    /// The command line to profile is empty.
    NoCommand,
    /// The iteration count is not at least one.
    InvalidIterations(usize),
    /// Both structured and delimited export were requested.
    ConflictingOutputFormats,
    /// A socket filter token is not a number.
    InvalidSocketSpec(String),
    /// A socket filter names a socket that no counter belongs to.
    SocketNotFound(u32),
    /// The command could not be started.
    CommandExecutionFailed(String),
    /// The command's executable does not exist.
    CommandNotFound(String),
    /// The command was ended by a signal.
    CommandKilled(i32),
    /// A phase token was never seen.
    TokenNotFound(String),
    /// The end token was seen before the start token.
    InvalidTokenOrder { start: String, end: String },
    /// A phase token was seen more than once.
    MultipleTokens(String),
    /// The output destination could not be created.
    OutputFileCreationFailed(String),
    /// Writing to the output destination failed.
    OutputWriteFailed(String),
    /// The chosen renderer cannot show this kind of result.
    UnsupportedOutputFormat,
    /// The platform has no supported energy interface.
    UnsupportedOS(String),
    /// The energy interface may not be read by this user.
    InsufficientPermissions,
    /// The working directory is unknown.
    CurrentDirNotFound,
    /// A counter's text is not a number.
    ParseEnergyError(String),
    /// A duration's text is not a number.
    ParseDurationError(String),
    /// Delimited input is malformed.
    InvalidCsvFormat(String),
    /// Structured input is malformed.
    InvalidJsonFormat(String),
    /// The token pattern is not a valid regular expression.
    InvalidPattern(String),
}

/// A [`JouleProfilerError`] as a value of specifications: the same cases,
/// with each text given by its characters.
pub ghost enum Failure {
    RaplNotAvailable(Seq<char>),
    NoDomains,
    RaplReadError(Seq<char>),
    InvalidRaplPath(Seq<char>),
    CounterOverflow,
    NoCommand,
    InvalidIterations(usize),
    ConflictingOutputFormats,
    InvalidSocketSpec(Seq<char>),
    SocketNotFound(u32),
    CommandExecutionFailed(Seq<char>),
    CommandNotFound(Seq<char>),
    CommandKilled(i32),
    TokenNotFound(Seq<char>),
    InvalidTokenOrder { start: Seq<char>, end: Seq<char> },
    MultipleTokens(Seq<char>),
    OutputFileCreationFailed(Seq<char>),
    OutputWriteFailed(Seq<char>),
    UnsupportedOutputFormat,
    UnsupportedOS(Seq<char>),
    InsufficientPermissions,
    CurrentDirNotFound,
    ParseEnergyError(Seq<char>),
    ParseDurationError(Seq<char>),
    InvalidCsvFormat(Seq<char>),
    InvalidJsonFormat(Seq<char>),
    InvalidPattern(Seq<char>),
}

impl View for JouleProfilerError {
    type V = Failure;

    open spec fn view(&self) -> Failure {
        match *self {
            JouleProfilerError::RaplNotAvailable(t) => Failure::RaplNotAvailable(t@),
            JouleProfilerError::NoDomains => Failure::NoDomains,
            JouleProfilerError::RaplReadError(t) => Failure::RaplReadError(t@),
            JouleProfilerError::InvalidRaplPath(t) => Failure::InvalidRaplPath(t@),
            JouleProfilerError::CounterOverflow => Failure::CounterOverflow,
            JouleProfilerError::NoCommand => Failure::NoCommand,
            JouleProfilerError::InvalidIterations(n) => Failure::InvalidIterations(n),
            JouleProfilerError::ConflictingOutputFormats => Failure::ConflictingOutputFormats,
            JouleProfilerError::InvalidSocketSpec(t) => Failure::InvalidSocketSpec(t@),
            JouleProfilerError::SocketNotFound(s) => Failure::SocketNotFound(s),
            JouleProfilerError::CommandExecutionFailed(t) => Failure::CommandExecutionFailed(t@),
            JouleProfilerError::CommandNotFound(t) => Failure::CommandNotFound(t@),
            JouleProfilerError::CommandKilled(n) => Failure::CommandKilled(n),
            JouleProfilerError::TokenNotFound(t) => Failure::TokenNotFound(t@),
            JouleProfilerError::InvalidTokenOrder { start, end } => Failure::InvalidTokenOrder {
                start: start@,
                end: end@,
            },
            JouleProfilerError::MultipleTokens(t) => Failure::MultipleTokens(t@),
            JouleProfilerError::OutputFileCreationFailed(t) => Failure::OutputFileCreationFailed(
                t@,
            ),
            JouleProfilerError::OutputWriteFailed(t) => Failure::OutputWriteFailed(t@),
            JouleProfilerError::UnsupportedOutputFormat => Failure::UnsupportedOutputFormat,
            JouleProfilerError::UnsupportedOS(t) => Failure::UnsupportedOS(t@),
            JouleProfilerError::InsufficientPermissions => Failure::InsufficientPermissions,
            JouleProfilerError::CurrentDirNotFound => Failure::CurrentDirNotFound,
            JouleProfilerError::ParseEnergyError(t) => Failure::ParseEnergyError(t@),
            JouleProfilerError::ParseDurationError(t) => Failure::ParseDurationError(t@),
            JouleProfilerError::InvalidCsvFormat(t) => Failure::InvalidCsvFormat(t@),
            JouleProfilerError::InvalidJsonFormat(t) => Failure::InvalidJsonFormat(t@),
            JouleProfilerError::InvalidPattern(t) => Failure::InvalidPattern(t@),
        }
    }
}

impl JouleProfilerError {
    /// The failure to find the executable `cmd`.
    pub fn command_not_found(cmd: &str) -> (e: Self)
        ensures
            e@ == Failure::CommandNotFound(cmd@),
    {
        JouleProfilerError::CommandNotFound(cmd.to_owned())
    }

    /// The failure to see the token `token` in the output.
    pub fn token_not_found(token: &str) -> (e: Self)
        ensures
            e@ == Failure::TokenNotFound(token@),
    {
        JouleProfilerError::TokenNotFound(token.to_owned())
    }

    /// The failure to find socket `socket` among the counters.
    pub fn socket_not_found(socket: u32) -> (e: Self)
        ensures
            e@ == Failure::SocketNotFound(socket),
    {
        JouleProfilerError::SocketNotFound(socket)
    }
}

/// The kinds of input and output failure that the profiler tells apart.
#[derive(Debug, Clone, Copy, PartialEq, Eq, Structural)]
pub enum IoFailure {
    /// What was asked for is not there.
    NotFound,
    /// What was asked for may not be touched.
    PermissionDenied,
    /// Anything else.
    Other,
}

/// An input or output failure: its kind and its message.
#[derive(Debug)]
pub struct IoReport {
    pub kind: IoFailure,
    pub text: String,
}

impl JouleProfilerError {
    /// The failure that an input or output failure amounts to when
    /// nothing more is known of what was being done.
    pub fn from_io(report: IoReport) -> (e: Self)
        ensures
            e@ == (match report.kind {
                IoFailure::NotFound => Failure::RaplNotAvailable(report.text@),
                IoFailure::PermissionDenied => Failure::InsufficientPermissions,
                IoFailure::Other => Failure::RaplReadError(report.text@),
            }),
    {
        match report.kind {
            IoFailure::NotFound => JouleProfilerError::RaplNotAvailable(report.text),
            IoFailure::PermissionDenied => JouleProfilerError::InsufficientPermissions,
            IoFailure::Other => JouleProfilerError::RaplReadError(report.text),
        }
    }

    /// The failure to start the command `cmd`: a command that is not
    /// there is told apart from every other reason.
    pub fn from_spawn(cmd: &str, report: IoReport) -> (e: Self)
        ensures
            e@ == (match report.kind {
                IoFailure::NotFound => Failure::CommandNotFound(cmd@),
                _ => Failure::CommandExecutionFailed(report.text@),
            }),
    {
        match report.kind {
            IoFailure::NotFound => JouleProfilerError::CommandNotFound(cmd.to_owned()),
            _ => JouleProfilerError::CommandExecutionFailed(report.text),
        }
    }
}

/// What a failure says to the user.
pub open spec fn failure_text(f: Failure) -> Seq<char> {
    match f {
        Failure::RaplNotAvailable(t) => "Intel RAPL not available at "@ + t,
        Failure::NoDomains => "No RAPL domains found"@,
        Failure::RaplReadError(t) => "Failed to read RAPL domain: "@ + t,
        Failure::InvalidRaplPath(t) => "Invalid RAPL domain path: "@ + t,
        Failure::CounterOverflow => "RAPL counter overflow detected"@,
        Failure::NoCommand => "No command specified"@,
        Failure::InvalidIterations(n) => "Invalid iterations value: "@ + decimal(n as nat)
            + ". Must be >= 1"@,
        Failure::ConflictingOutputFormats => "Cannot use both --json and --csv flags simultaneously"@,
        Failure::InvalidSocketSpec(t) => "Invalid socket specification: "@ + t,
        Failure::SocketNotFound(s) => "Socket "@ + decimal(s as nat)
            + " not found in available RAPL domains"@,
        Failure::CommandExecutionFailed(t) => "Failed to execute command: "@ + t,
        Failure::CommandNotFound(t) => "Command not found: "@ + t,
        Failure::CommandKilled(n) => "Command killed by signal: "@ + signed_decimal(n as int),
        Failure::TokenNotFound(t) => "Token '"@ + t + "' not found in program output"@,
        Failure::InvalidTokenOrder { start, end } => "End token '"@ + end
            + "' found before start token '"@ + start + "'"@,
        Failure::MultipleTokens(t) => "Multiple occurrences of token '"@ + t
            + "' found (expected exactly one)"@,
        Failure::OutputFileCreationFailed(t) => "Failed to create output file: "@ + t,
        Failure::OutputWriteFailed(t) => "Failed to write output: "@ + t,
        Failure::UnsupportedOutputFormat => "Output format not supported for this mode"@,
        Failure::UnsupportedOS(t) => "Unsupported operating system: "@ + t
            + ". Only Linux is supported"@,
        Failure::InsufficientPermissions => "Insufficient permissions to access RAPL. Try running with sudo"@,
        Failure::CurrentDirNotFound => "Failed to get current directory"@,
        Failure::ParseEnergyError(t) => "Failed to parse energy value: "@ + t,
        Failure::ParseDurationError(t) => "Failed to parse duration: "@ + t,
        Failure::InvalidCsvFormat(t) => "Invalid CSV format: "@ + t,
        Failure::InvalidJsonFormat(t) => "Invalid JSON format: "@ + t,
        Failure::InvalidPattern(t) => "Invalid regex pattern: "@ + t,
    }
}

fn joined(head: &str, middle: &str, tail: &str) -> (r: String)
    ensures
        r@ == head@ + middle@ + tail@,
{
    let mut r = String::from_str(head);
    r.append(middle);
    r.append(tail);
    r
}

impl JouleProfilerError {
    /// What the failure says to the user.
    pub fn message(&self) -> (text: String)
        ensures
            text@ == failure_text(self@),
    {
        proof {
            reveal_strlit("");
        }
        let text = match self {
            JouleProfilerError::RaplNotAvailable(t) => joined(
                "Intel RAPL not available at ",
                t.as_str(),
                "",
            ),
            JouleProfilerError::NoDomains => String::from_str("No RAPL domains found"),
            JouleProfilerError::RaplReadError(t) => joined(
                "Failed to read RAPL domain: ",
                t.as_str(),
                "",
            ),
            JouleProfilerError::InvalidRaplPath(t) => joined(
                "Invalid RAPL domain path: ",
                t.as_str(),
                "",
            ),
            JouleProfilerError::CounterOverflow => String::from_str(
                "RAPL counter overflow detected",
            ),
            JouleProfilerError::NoCommand => String::from_str("No command specified"),
            JouleProfilerError::InvalidIterations(n) => {
                let mut text = String::from_str("Invalid iterations value: ");
                push_decimal(&mut text, *n as u128);
                text.append(". Must be >= 1");
                text
            },
            JouleProfilerError::ConflictingOutputFormats => String::from_str(
                "Cannot use both --json and --csv flags simultaneously",
            ),
            JouleProfilerError::InvalidSocketSpec(t) => joined(
                "Invalid socket specification: ",
                t.as_str(),
                "",
            ),
            JouleProfilerError::SocketNotFound(s) => {
                let mut text = String::from_str("Socket ");
                push_decimal(&mut text, *s as u128);
                text.append(" not found in available RAPL domains");
                text
            },
            JouleProfilerError::CommandExecutionFailed(t) => joined(
                "Failed to execute command: ",
                t.as_str(),
                "",
            ),
            JouleProfilerError::CommandNotFound(t) => joined("Command not found: ", t.as_str(), ""),
            JouleProfilerError::CommandKilled(n) => {
                let mut text = String::from_str("Command killed by signal: ");
                push_signed_decimal(&mut text, *n);
                text
            },
            JouleProfilerError::TokenNotFound(t) => joined(
                "Token '",
                t.as_str(),
                "' not found in program output",
            ),
            JouleProfilerError::InvalidTokenOrder { start, end } => {
                let mut text = joined("End token '", end.as_str(), "' found before start token '");
                text.append(start.as_str());
                text.append("'");
                text
            },
            JouleProfilerError::MultipleTokens(t) => joined(
                "Multiple occurrences of token '",
                t.as_str(),
                "' found (expected exactly one)",
            ),
            JouleProfilerError::OutputFileCreationFailed(t) => joined(
                "Failed to create output file: ",
                t.as_str(),
                "",
            ),
            JouleProfilerError::OutputWriteFailed(t) => joined(
                "Failed to write output: ",
                t.as_str(),
                "",
            ),
            JouleProfilerError::UnsupportedOutputFormat => String::from_str(
                "Output format not supported for this mode",
            ),
            JouleProfilerError::UnsupportedOS(t) => joined(
                "Unsupported operating system: ",
                t.as_str(),
                ". Only Linux is supported",
            ),
            JouleProfilerError::InsufficientPermissions => String::from_str(
                "Insufficient permissions to access RAPL. Try running with sudo",
            ),
            JouleProfilerError::CurrentDirNotFound => String::from_str(
                "Failed to get current directory",
            ),
            JouleProfilerError::ParseEnergyError(t) => joined(
                "Failed to parse energy value: ",
                t.as_str(),
                "",
            ),
            JouleProfilerError::ParseDurationError(t) => joined(
                "Failed to parse duration: ",
                t.as_str(),
                "",
            ),
            JouleProfilerError::InvalidCsvFormat(t) => joined("Invalid CSV format: ", t.as_str(), ""),
            JouleProfilerError::InvalidJsonFormat(t) => joined(
                "Invalid JSON format: ",
                t.as_str(),
                "",
            ),
            JouleProfilerError::InvalidPattern(t) => joined(
                "Invalid regex pattern: ",
                t.as_str(),
                "",
            ),
        };
        text
    }
}

} // verus!
