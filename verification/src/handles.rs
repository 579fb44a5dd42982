//! Plain-value stand-ins for device object handles.
//!
//! The renderer core never dereferences a device handle; it only stores,
//! compares and hands handles back to the caller. Each handle is therefore
//! carried as its raw 64-bit value, and the surrounding application converts
//! to and from the real device types at the boundary.

use vstd::prelude::*;

verus! {

/// Handle of a device buffer object.
#[derive(Clone, Copy, Debug, PartialEq, Eq, Structural)]
pub struct BufferHandle {
    pub raw: u64,
}

/// Handle of a device memory allocation.
#[derive(Clone, Copy, Debug, PartialEq, Eq, Structural)]
pub struct MemoryHandle {
    pub raw: u64,
}

} // verus!
