//! The error taxonomy of the engine, and the coarse bus-error classification.

use vstd::prelude::*;

verus! {

/// A failure of the underlying channel itself, as the transport reports it.
/// The variants mirror the finer I/O conditions the classification cares
/// about; everything else is `Other`.
#[derive(Clone, Copy, Debug, PartialEq, Eq, Structural)]
pub enum TransportError {
    /// The channel delivered data it considers invalid.
    InvalidData,
    /// The channel would have had to block.
    WouldBlock,
    /// Any other channel failure.
    Other,
}

/// A transaction failure.
#[derive(Clone, Copy, Debug, PartialEq, Eq, Structural)]
pub enum Error {
    /// The transport failed; the bus call itself did not complete.
    Transport(TransportError),
    /// A framed read came back with a support flag other than `1`: the bus
    /// call completed, but the slave declined the requested read shape.
    FeatureNotSupported,
    /// The framed-write protocol is not supported by this engine; a `Write`
    /// operation inside a framed transaction is rejected with this error
    /// rather than aborting the process.
    Unimplemented,
}

/// The coarse bus-error category of a failure.
#[derive(Clone, Copy, Debug, PartialEq, Eq, Structural)]
pub enum ErrorKind {
    /// A bus-contention-like condition.
    Bus,
    /// An arbitration-loss-like condition.
    ArbitrationLoss,
    /// Everything else.
    Other,
}

impl Error {
    /// The category [`Error::kind`] returns: transport-level invalid data is a
    /// bus condition, a transport that would block is an arbitration loss, and
    /// every other failure is `Other`.
    pub open spec fn spec_kind(self) -> ErrorKind {
        match self {
            Error::Transport(TransportError::InvalidData) => ErrorKind::Bus,
            Error::Transport(TransportError::WouldBlock) => ErrorKind::ArbitrationLoss,
            _ => ErrorKind::Other,
        }
    }

    /// Classify this failure into a coarse bus-error category. A pure,
    /// side-effect-free mapping; it cannot itself fail.
    pub fn kind(&self) -> (k: ErrorKind)
        ensures
            k == self.spec_kind(),
    {
        match self {
            Error::Transport(TransportError::InvalidData) => ErrorKind::Bus,
            Error::Transport(TransportError::WouldBlock) => ErrorKind::ArbitrationLoss,
            _ => ErrorKind::Other,
        }
    }
}

} // verus!
