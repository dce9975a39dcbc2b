//! The frame-level renderer interface.
pub mod renderer;
