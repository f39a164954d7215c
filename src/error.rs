use vstd::prelude::*;

verus! {

/// Why the bridge stopped, or why one of its steps failed.
#[derive(Debug, Clone, Copy, PartialEq, Eq, Structural)]
pub enum RelayError {
    /// The transport's I/O failed or the peer closed the connection.
    ConnectionLost,
    /// The console rejected the login credential.
    AuthenticationFailed,
    /// A frame was malformed or oversized.
    ProtocolViolation,
    /// An upstream channel was closed by its producer.
    ProducerClosed,
    /// The wrapped server process terminated.
    ProcessExited,
    /// A graceful stop was requested; the only cause that is not a failure.
    ShutdownRequested,
}

impl RelayError {
    /// Whether this cause ends the bridge as a failure.
    pub open spec fn spec_is_fatal(self) -> bool {
        self != RelayError::ShutdownRequested
    }

    /// Every cause but a requested shutdown is fatal to the bridge.
    #[verifier::when_used_as_spec(spec_is_fatal)]
    pub fn is_fatal(self) -> (r: bool)
        ensures
            r == self.spec_is_fatal(),
    {
        !matches!(self, RelayError::ShutdownRequested)
    }
}

} // verus!
