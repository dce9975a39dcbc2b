//! Application start-up settings.
use vstd::prelude::*;

use crate::render::device::Backend;

verus! {

/// The window and renderer an application starts with.
#[derive(Debug)]
pub struct AppConfig {
    pub width: u32,
    pub height: u32,
    pub is_fullscreen: bool,
    pub title: String,
    pub icon: Option<String>,
    pub render_backend: Backend,
}

impl Default for AppConfig {
    /// A 1024 x 768 windowed "Phantom Editor" without an icon, rendered with
    /// OpenGL.
    fn default() -> (r: Self)
        ensures
            r.width == 1024,
            r.height == 768,
            !r.is_fullscreen,
            r.title@ == "Phantom Editor"@,
            r.icon is None,
            r.render_backend == Backend::OpenGL,
    {
        AppConfig {
            width: 1024,
            height: 768,
            is_fullscreen: false,
            title: "Phantom Editor".to_owned(),
            icon: None,
            render_backend: Backend::OpenGL,
        }
    }
}

} // verus!
