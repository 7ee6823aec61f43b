//! Error taxonomy of canvas operations.

use vstd::prelude::*;

verus! {

/// Why a canvas operation failed.
///
/// Remote-call failures are surfaced to the caller and never retried by the
/// core; a cooldown rejection is recoverable by waiting.
#[derive(Clone, Copy, PartialEq, Eq, Structural, Debug)]
pub enum CanvasError {
    /// A remote call failed at the transport or protocol layer.
    Client,
    /// Admission control rejected the write; the payload is the remaining
    /// wait in milliseconds.
    Cooldown(u64),
}

} // verus!
