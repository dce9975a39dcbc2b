//! Rendering: backend selection, texture format mapping and image descriptions.
pub mod device;
pub mod opengl;
pub mod render;
pub mod renderer;
pub mod rendergraph;
pub mod texture;
pub mod vulkan;
pub mod world;
