//! Error taxonomy of the library.
//!
//! Per-field read failures never surface here: collectors absorb them and
//! fall back to zero/empty values. These variants cover whole operations
//! that the caller must hear about, such as rejected control inputs or
//! failed privileged writes.

use vstd::prelude::*;
use vstd::string::StringExecFns;

verus! {

/// An error surfaced to callers of the library.
#[derive(Debug)]
pub enum Error {
    /// An I/O failure, carrying the underlying description.
    Io(String),
    /// A hardware feature that this board does not expose.
    HardwareNotFound(String),
    /// A privileged write that the kernel refused.
    PermissionDenied(String),
    /// An operation that this platform cannot perform at all.
    UnsupportedPlatform(String),
    /// A control input outside its documented range, rejected before
    /// any write is attempted.
    InvalidInput(String),
}

impl Error {
    /// Human-readable description, in the form "<category>: <detail>".
    pub fn message(&self) -> (r: String)
        ensures
            (self matches Error::Io(m) ==> r@ == "I/O error: "@ + m@),
            (self matches Error::HardwareNotFound(m) ==> r@ == "Hardware not found: "@ + m@),
            (self matches Error::PermissionDenied(m) ==> r@ == "Permission denied: "@ + m@),
            (self matches Error::UnsupportedPlatform(m) ==> r@ == "Unsupported platform: "@ + m@),
            (self matches Error::InvalidInput(m) ==> r@ == "Invalid input: "@ + m@),
    {
        let mut out: String = String::new();
        match self {
            Error::Io(m) => {
                out.append("I/O error: ");
                out.append(m.as_str());
            }
            Error::HardwareNotFound(m) => {
                out.append("Hardware not found: ");
                out.append(m.as_str());
            }
            Error::PermissionDenied(m) => {
                out.append("Permission denied: ");
                out.append(m.as_str());
            }
            Error::UnsupportedPlatform(m) => {
                out.append("Unsupported platform: ");
                out.append(m.as_str());
            }
            Error::InvalidInput(m) => {
                out.append("Invalid input: ");
                out.append(m.as_str());
            }
        }
        out
    }

    /// The underlying cause, where one exists: only I/O errors carry one.
    pub fn source(&self) -> (r: Option<&String>)
        ensures
            r is Some <==> self is Io,
            self is Io ==> r is Some && r->Some_0@ == self->Io_0@,
    {
        match self {
            Error::Io(m) => Some(m),
            _ => None,
        }
    }
}

} // verus!
