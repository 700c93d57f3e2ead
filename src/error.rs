//! Errors of the zFCP operations.
use vstd::prelude::*;

verus! {

/// Why an operation did not succeed.
#[derive(Clone, Debug, PartialEq, Eq)]
pub enum ZfcpError {
    /// The platform has no zFCP support.
    NotSupported,
    /// No controller with the given identifier is known.
    UnknownController,
    /// The controller has no WWPN with the given identifier.
    UnknownWwpn,
    /// The WWPN has no LUN with the given identifier.
    UnknownLun,
    /// An ancestor of the addressed device is not active.
    PreconditionFailed,
    /// The hardware-management subsystem rejected the request, for this reason.
    ActivationFailed(String),
    /// A notification source was dropped; the event stream has ended.
    SubscriptionLost,
}

} // verus!
