//! The error type of Pinner operations.
use crate::text::concat;
use vstd::prelude::*;

verus! {

/// The kind of an I/O failure, as `std::io::ErrorKind` classifies it (the
/// kinds this tool tells apart; the rest are `Other`).
#[derive(Debug, Clone, Copy, PartialEq, Eq, Structural)]
pub enum IoKind {
    NotFound,
    PermissionDenied,
    AlreadyExists,
    InvalidData,
    Other,
}

/// What can go wrong while pinning, upgrading or verifying dependencies.
///
/// Errors that wrap an outside error (I/O, directory walking) carry its
/// message; an I/O error carries its kind too.
#[derive(Debug, Clone, PartialEq, Eq)]
pub enum PinnerError {
    /// IO-related errors (file reading, writing, etc.): the kind and message.
    Io(IoKind, String),
    /// Errors returned by a provider API or the HTTP client.
    Api(String),
    /// Errors during YAML parsing.
    Parse(String),
    /// Specified workflow path not found.
    PathNotFound(String),
    /// Unpinned dependencies found during verification.
    VerificationFailed(String),
    /// Errors raised while walking directories.
    Ignore(String),
    /// Config file errors.
    Config(String),
    /// API rate limit errors.
    RateLimit(String),
}

/// Errors that stop the whole process: everything but a plain API error.
pub open spec fn fatal(e: PinnerError) -> bool {
    !(e is Api)
}

/// The prefix of the message of each kind of error.
pub open spec fn error_prefix(e: PinnerError) -> Seq<char> {
    match e {
        PinnerError::Io(_, _) => "IO error: "@,
        PinnerError::Api(_) => "API error: "@,
        PinnerError::Parse(_) => "Parse error: "@,
        PinnerError::PathNotFound(_) => "Path not found: "@,
        PinnerError::VerificationFailed(_) => "Verification failed: "@,
        PinnerError::Ignore(_) => "Ignore error: "@,
        PinnerError::Config(_) => "Config error: "@,
        PinnerError::RateLimit(_) => "Rate limit error: "@,
    }
}

/// The detail carried by an error.
pub open spec fn error_detail(e: PinnerError) -> Seq<char> {
    match e {
        PinnerError::Io(_, m) => m@,
        PinnerError::Api(m) => m@,
        PinnerError::Parse(m) => m@,
        PinnerError::PathNotFound(m) => m@,
        PinnerError::VerificationFailed(m) => m@,
        PinnerError::Ignore(m) => m@,
        PinnerError::Config(m) => m@,
        PinnerError::RateLimit(m) => m@,
    }
}

impl PinnerError {
    /// Returns true if the error is a PathNotFound error.
    pub fn is_path_not_found(&self) -> (r: bool)
        ensures
            r == (*self is PathNotFound),
    {
        match self {
            PinnerError::PathNotFound(_) => true,
            _ => false,
        }
    }

    /// Returns true if the error should stop the entire process (e.g., rate
    /// limits). Generic API errors (like a 404) are not fatal.
    pub fn is_fatal(&self) -> (r: bool)
        ensures
            r == fatal(*self),
    {
        match self {
            PinnerError::RateLimit(_) => true,
            PinnerError::Config(_) => true,
            PinnerError::Io(_, _) => true,
            PinnerError::Parse(_) => true,
            PinnerError::PathNotFound(_) => true,
            PinnerError::VerificationFailed(_) => true,
            PinnerError::Ignore(_) => true,
            PinnerError::Api(_) => false,
        }
    }

    /// The human-readable message, e.g. `API error: failed`.
    pub fn to_string(&self) -> (r: String)
        ensures
            r@ == error_prefix(*self) + error_detail(*self),
    {
        match self {
            PinnerError::Io(_, m) => concat("IO error: ", m.as_str()),
            PinnerError::Api(m) => concat("API error: ", m.as_str()),
            PinnerError::Parse(m) => concat("Parse error: ", m.as_str()),
            PinnerError::PathNotFound(m) => concat("Path not found: ", m.as_str()),
            PinnerError::VerificationFailed(m) => concat("Verification failed: ", m.as_str()),
            PinnerError::Ignore(m) => concat("Ignore error: ", m.as_str()),
            PinnerError::Config(m) => concat("Config error: ", m.as_str()),
            PinnerError::RateLimit(m) => concat("Rate limit error: ", m.as_str()),
        }
    }
}

} // verus!
