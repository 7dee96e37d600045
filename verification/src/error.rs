//! Error codes of the sync engine.

use vstd::prelude::*;

verus! {

/// Error codes that the sync engine reports.
#[derive(Clone, Copy, Debug, PartialEq, Eq, Structural)]
pub enum ErrorCode {
    Success,
    Init,
    Pairing,
    Network,
    InvalidArg,
    NotRunning,
    AlreadyExists,
    NotFound,
    Serialization,
}

/// The numeric value of each code, as the C interface returns it.
pub open spec fn code_value(c: ErrorCode) -> i32 {
    match c {
        ErrorCode::Success => 0,
        ErrorCode::Init => 1,
        ErrorCode::Pairing => 2,
        ErrorCode::Network => 3,
        ErrorCode::InvalidArg => 4,
        ErrorCode::NotRunning => 5,
        ErrorCode::AlreadyExists => 6,
        ErrorCode::NotFound => 7,
        ErrorCode::Serialization => 8,
    }
}

/// The human-readable description of each code.
pub open spec fn code_message(c: ErrorCode) -> Seq<char> {
    match c {
        ErrorCode::Success => "OK"@,
        ErrorCode::Init => "Initialization error"@,
        ErrorCode::Pairing => "Pairing error"@,
        ErrorCode::Network => "Network error"@,
        ErrorCode::InvalidArg => "Invalid argument"@,
        ErrorCode::NotRunning => "Sync engine not running"@,
        ErrorCode::AlreadyExists => "Already exists"@,
        ErrorCode::NotFound => "Not found"@,
        ErrorCode::Serialization => "Serialization error"@,
    }
}

impl ErrorCode {
    /// The numeric value of this code.
    pub fn value(&self) -> (v: i32)
        ensures
            v == code_value(*self),
    {
        match self {
            ErrorCode::Success => 0,
            ErrorCode::Init => 1,
            ErrorCode::Pairing => 2,
            ErrorCode::Network => 3,
            ErrorCode::InvalidArg => 4,
            ErrorCode::NotRunning => 5,
            ErrorCode::AlreadyExists => 6,
            ErrorCode::NotFound => 7,
            ErrorCode::Serialization => 8,
        }
    }

    /// The human-readable description of this code (what it displays as).
    pub fn message(&self) -> (s: String)
        ensures
            s@ == code_message(*self),
    {
        let m = match self {
            ErrorCode::Success => "OK",
            ErrorCode::Init => "Initialization error",
            ErrorCode::Pairing => "Pairing error",
            ErrorCode::Network => "Network error",
            ErrorCode::InvalidArg => "Invalid argument",
            ErrorCode::NotRunning => "Sync engine not running",
            ErrorCode::AlreadyExists => "Already exists",
            ErrorCode::NotFound => "Not found",
            ErrorCode::Serialization => "Serialization error",
        };
        m.to_owned()
    }
}

} // verus!
