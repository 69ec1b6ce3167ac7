//! The closed error taxonomy for a single compression job.
//!
//! Every failure mode of one job is one variant here, carrying just what a
//! human-readable line needs.  Conversions from transport- or I/O-specific
//! errors happen at the boundary where they are first observed, outside
//! this library; the library only classifies and renders them.

use vstd::prelude::*;

verus! {

use crate::utils::push_decimal;
use crate::utils::spec_decimal;
use vstd::string::StringExecFns;

/// What went wrong with one compression job.
#[derive(Debug)]
pub enum TinyPngError {
    /// A local file could not be opened, read, or written.
    Io(String),
    /// The HTTP transport itself failed: DNS, connection, TLS, timeout.
    Transport(String),
    /// The remote service answered with an unexpected status; carries that
    /// status and the best-effort response body text.
    Service { status: u16, body: String },
    /// The response was malformed relative to the expected protocol.
    Protocol(String),
    /// The execution substrate failed to run the job at all.
    TaskExecution(String),
}

/// The one-line rendering of an error.
pub open spec fn spec_error_message(e: &TinyPngError) -> Seq<char> {
    match e {
        TinyPngError::Io(detail) => ("IO error: ")@ + detail@,
        TinyPngError::Transport(detail) => ("transport error: ")@ + detail@,
        TinyPngError::Service { status, body } => ("service error: ")@ + spec_decimal(
            *status as nat,
        ) + (" ")@ + body@,
        TinyPngError::Protocol(reason) => ("protocol error: ")@ + reason@,
        TinyPngError::TaskExecution(detail) => ("task error: ")@ + detail@,
    }
}

impl TinyPngError {
    /// Renders the error as one line of text.
    pub fn message(&self) -> (s: String)
        ensures
            s@ == spec_error_message(self),
    {
        match self {
            TinyPngError::Io(detail) => {
                let mut s = String::from_str("IO error: ");
                s.append(detail.as_str());
                s
            },
            TinyPngError::Transport(detail) => {
                let mut s = String::from_str("transport error: ");
                s.append(detail.as_str());
                s
            },
            TinyPngError::Service { status, body } => {
                let mut s = String::from_str("service error: ");
                push_decimal(&mut s, *status as u128);
                s.append(" ");
                s.append(body.as_str());
                proof {
                    assert(s@ =~= spec_error_message(self));
                }
                s
            },
            TinyPngError::Protocol(reason) => {
                let mut s = String::from_str("protocol error: ");
                s.append(reason.as_str());
                s
            },
            TinyPngError::TaskExecution(detail) => {
                let mut s = String::from_str("task error: ");
                s.append(detail.as_str());
                s
            },
        }
    }
}

} // verus!
