//! The kinds of failure the core distinguishes.

use vstd::prelude::*;

verus! {

/// A failure, named by where it is recovered.
#[derive(Debug, Clone, Copy, PartialEq, Eq, Structural)]
pub enum CoreError {
    /// A connect, authenticate or round trip to the device service failed;
    /// the session restarts.
    TransportError,
    /// No device could be selected and nobody can choose one.
    DeviceNotFound,
    /// An inbound event could not be decoded; it is dropped.
    MalformedEvent,
    /// The audio server could not be queried.
    InventoryUnavailable,
    /// An audio command exited with a failure status.
    AudioCommandFailed,
}

} // verus!
