//! Transport errors.
//!
//! Performing HTTP requests is the caller's part; a failed request is reported
//! to the fetch state machine as a [`TransportError`].

use vstd::prelude::*;

verus! {

/// An error from the underlying HTTP transport.
#[derive(Debug, Clone, PartialEq, Eq)]
pub struct TransportError(pub String);

impl TransportError {
    /// The text by which this error is shown.
    pub fn message(&self) -> (m: String)
        ensures
            m@ == self.0@,
    {
        self.0.clone()
    }
}

} // verus!
