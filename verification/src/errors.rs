//! The error taxonomy of the service.
//!
//! `Sampling` is the only non-fatal error: a failed metrics reading skips
//! that tick and the publisher loop continues. Every other error ends the
//! loop it occurred in.

use vstd::prelude::*;

verus! {

/// An error of the notification service.
#[derive(Clone, Copy, Debug, PartialEq, Eq, Structural)]
pub enum ServiceError {
    /// The bus could not be reached at startup.
    Connection,
    /// Another process already owns the well-known service name.
    NameTaken,
    /// The metrics source failed for one tick.
    Sampling,
    /// Signal emission or subscription delivery failed.
    Transport,
    /// A received payload does not match the expected schema.
    Decode,
}

/// Whether an error ends the loop it occurred in, rather than being
/// skipped. Only a sampling failure is survivable.
pub open spec fn spec_is_fatal(e: ServiceError) -> bool {
    !(e is Sampling)
}

impl ServiceError {
    /// A fatal error ends the offending loop; a sampling failure only
    /// skips the current tick.
    pub fn is_fatal(&self) -> (r: bool)
        ensures
            r == spec_is_fatal(*self),
    {
        !matches!(self, ServiceError::Sampling)
    }
}

} // verus!
