//! Window and device identifiers.
use vstd::prelude::*;

verus! {

/// Unique identifier of a window.
#[derive(Clone, Copy, Debug, PartialEq, Eq, Hash, Structural)]
pub struct WindowId(pub u64);

/// Unique identifier of an input device.
#[derive(Clone, Copy, Debug, PartialEq, Eq, Hash, Structural)]
pub struct DeviceId(pub u64);

} // verus!
