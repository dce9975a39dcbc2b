//! The backends of the device-level renderer interface.
use vstd::prelude::*;

verus! {

/// The graphics APIs a GPU device can be created for.
#[derive(Clone, Copy, Debug, PartialEq, Eq, Structural)]
pub enum Backend {
    Dx11,
    Dx12,
    Metal,
    Vulkan,
}

} // verus!
