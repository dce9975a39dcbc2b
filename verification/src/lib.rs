//! Phantom: the engine-side logic of the Phantom game engine (scene graph,
//! textures, image descriptions, renderer configuration and editor state),
//! verified with Verus.
pub mod app;
pub mod editor;
pub mod render;
pub mod window;
pub mod world;
