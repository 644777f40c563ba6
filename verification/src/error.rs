//! The ways in which building or placing a hierarchy can fail.

use vstd::prelude::*;

verus! {

/// Why an operation was refused. Every failure leaves the buffers as they were.
#[derive(Clone, Copy, Debug, PartialEq, Eq, Hash, Structural)]
pub enum Error {
    /// The vertex or index count is not a multiple of three, or an attribute
    /// view holds fewer elements than the mesh needs.
    MalformedMesh,
    /// The mesh has no triangle, holds a coordinate that is not a number, or
    /// the builder returned a hierarchy that does not describe it.
    BuildFailure,
    /// An index names an element or an entry that does not exist.
    IndexOutOfRange,
    /// The transform of an instance cannot be inverted.
    InvalidTransform,
    /// More components were asked of an attribute than its storage holds.
    FormatMismatch,
    /// The shared buffers would outgrow what a 32-bit offset can address.
    CapacityExceeded,
}

} // verus!
