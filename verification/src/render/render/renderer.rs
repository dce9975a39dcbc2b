//! The backends of the frame-level renderer.
use vstd::prelude::*;

verus! {

/// The renderers that can draw frames.
#[derive(Clone, Copy, Debug, PartialEq, Eq, Structural)]
pub enum Backend {
    Wgpu,
}

} // verus!
