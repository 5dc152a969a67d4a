//! The capability surface a logger uses to transmit a fully assembled
//! wire message, and the no-op backend used for testing.

use vstd::prelude::*;

use crate::errors::Error;
use crate::message::wire_message::WireMessage;

verus! {

/// A trait for a GELF backend.
///
/// A backend is responsible for transporting a `WireMessage` to a GELF
/// host: it chooses serialization, compression and chunking options and
/// performs the send.  It reports success or a transport failure and is
/// otherwise opaque.
pub trait Backend {
    /// Transmit one fully-formed wire message.
    fn log_message(&self, msg: WireMessage) -> Result<(), Error>;
}

/// The `NullBackend` is a utility backend which discards all messages.
pub struct NullBackend;

impl NullBackend {
    /// Construct a new NullBackend.
    pub fn new() -> NullBackend {
        NullBackend {  }
    }
}

impl Backend for NullBackend {
    /// Log a message.
    ///
    /// Logging a message with NullBackend is a no-op and never fails.
    fn log_message(&self, _msg: WireMessage) -> (r: Result<(), Error>)
        ensures
            r is Ok,
    {
        Ok(())
    }
}

} // verus!
