use vstd::prelude::*;

verus! {

/// All failure kinds of the actor runtime.
#[derive(Debug)]
pub enum SwErlError {
    /// A target process identifier or registered name was not found.
    ProcessNotFound(String),
    /// A state access found a value of the wrong shape: a logic defect.
    InvalidState(String),
    /// The message channel receiver has closed: the process has terminated.
    MailboxClosed,
    /// A synchronous call exceeded an externally imposed deadline.
    Timeout,
    /// An asynchronous cast failed to enqueue.
    CastFailed(String),
}

/// Which failure kinds a process survives: a missing target suggests a retry
/// or a respawn, and a timed-out call may simply be retried; every other kind
/// is terminal for the process that meets it.
pub open spec fn spec_recoverable(e: SwErlError) -> bool {
    match e {
        SwErlError::ProcessNotFound(_) => true,
        SwErlError::InvalidState(_) => false,
        SwErlError::MailboxClosed => false,
        SwErlError::Timeout => true,
        SwErlError::CastFailed(_) => false,
    }
}

impl Clone for SwErlError {
    /// A clone carries the same kind and the same detail text.
    fn clone(&self) -> (r: Self)
        ensures
            r == *self,
    {
        match self {
            SwErlError::ProcessNotFound(s) => SwErlError::ProcessNotFound(s.clone()),
            SwErlError::InvalidState(s) => SwErlError::InvalidState(s.clone()),
            SwErlError::MailboxClosed => SwErlError::MailboxClosed,
            SwErlError::Timeout => SwErlError::Timeout,
            SwErlError::CastFailed(s) => SwErlError::CastFailed(s.clone()),
        }
    }
}

impl SwErlError {
    /// Whether a process that met this error keeps running (`true`) or stops
    /// for good (`false`).
    pub fn is_recoverable(&self) -> (r: bool)
        ensures
            r == spec_recoverable(*self),
    {
        match self {
            SwErlError::ProcessNotFound(_) => true,
            SwErlError::InvalidState(_) => false,
            SwErlError::MailboxClosed => false,
            SwErlError::Timeout => true,
            SwErlError::CastFailed(_) => false,
        }
    }
}

} // verus!
