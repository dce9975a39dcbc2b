//! The world side of the engine: scene graphs, textures and plain components.
pub mod components;
pub mod graph_store;
pub mod scenegraph;
pub mod texture;
