//! The error type of the framework and its human-readable rendering.

use vstd::prelude::*;
use vstd::string::*;
use crate::text::{decimal_i32, i32_to_decimal};

verus! {

/// Errors that can occur anywhere in the system.
#[derive(Debug)]
pub enum PregelError {
    /// File or network I/O failed; carries the system's description.
    Io(String),
    /// Failed to encode or decode data.
    Serialization(String),
    /// Connection problems between workers and coordinator.
    Network(String),
    /// A worker reported an error or crashed.
    Worker(String),
    /// Checkpoint save or load failed.
    Checkpoint(String),
    /// A compute guest returned an error code: its name and the code.
    WasmGuest(String, i32),
}

impl PregelError {
    /// The text that the error prints as.
    pub open spec fn spec_message(&self) -> Seq<char> {
        match self {
            PregelError::Io(s) => "IO error: "@ + s@,
            PregelError::Serialization(s) => "Serialization error: "@ + s@,
            PregelError::Network(s) => "Network error: "@ + s@,
            PregelError::Worker(s) => "Worker error: "@ + s@,
            PregelError::Checkpoint(s) => "Checkpoint error: "@ + s@,
            PregelError::WasmGuest(s, c) => "WASM guest error: "@ + s@ + " (code "@ + decimal_i32(
                *c as int,
            ) + ")"@,
        }
    }

    /// Renders the error as text.
    pub fn message(&self) -> (r: String)
        ensures
            r@ == self.spec_message(),
    {
        match self {
            PregelError::Io(s) => String::from_str("IO error: ").concat(s.as_str()),
            PregelError::Serialization(s) => String::from_str("Serialization error: ").concat(
                s.as_str(),
            ),
            PregelError::Network(s) => String::from_str("Network error: ").concat(s.as_str()),
            PregelError::Worker(s) => String::from_str("Worker error: ").concat(s.as_str()),
            PregelError::Checkpoint(s) => String::from_str("Checkpoint error: ").concat(s.as_str()),
            PregelError::WasmGuest(s, c) => {
                let mut r = String::from_str("WASM guest error: ").concat(s.as_str());
                r.append(" (code ");
                let code = i32_to_decimal(*c);
                r.append(code.as_str());
                r.append(")");
                r
            },
        }
    }
}

} // verus!
