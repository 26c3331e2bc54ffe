//! Error values the library hands to its caller.
//!
//! The tracker core itself raises no errors: unresolvable indices, stale
//! authority sets and duplicate deliveries are absorbed as no-ops.  These
//! variants exist for the surrounding run loop: a failed hook script, a chat
//! client failure, a finished subscription.

use vstd::prelude::*;

verus! {

/// What can go wrong around the tracking loop.
#[derive(Debug)]
pub enum ScoutyError {
    /// The chat client failed; the message says how.
    MatrixError(String),
    /// The block subscription ended and the run must start over.
    SubscriptionFinished,
    /// Any other failure, described by its message.
    Other(String),
}

impl ScoutyError {
    /// The error rendered as one line of text.
    pub fn message(&self) -> (r: String)
        ensures
            r@ == match self {
                ScoutyError::MatrixError(m) => "Matrix error: "@ + m@,
                ScoutyError::SubscriptionFinished => "Subscription finished"@,
                ScoutyError::Other(m) => "Other error: "@ + m@,
            },
    {
        match self {
            ScoutyError::MatrixError(m) => String::from_str("Matrix error: ").concat(m.as_str()),
            ScoutyError::SubscriptionFinished => String::from_str("Subscription finished"),
            ScoutyError::Other(m) => String::from_str("Other error: ").concat(m.as_str()),
        }
    }
}

} // verus!
