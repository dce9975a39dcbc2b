//! Window settings.
use vstd::prelude::*;

verus! {

/// The size, title and icon of a window.
#[derive(Debug)]
pub struct WindowConfig {
    pub width: u32,
    pub height: u32,
    pub is_fullscreen: bool,
    pub title: String,
    /// The path of the icon's image file.
    pub icon: Option<String>,
}

impl Default for WindowConfig {
    /// A 1024 x 768 windowed "Phantom App" without an icon.
    fn default() -> (r: Self)
        ensures
            r.width == 1024,
            r.height == 768,
            !r.is_fullscreen,
            r.title@ == "Phantom App"@,
            r.icon is None,
    {
        WindowConfig {
            width: 1024,
            height: 768,
            is_fullscreen: false,
            title: "Phantom App".to_owned(),
            icon: None,
        }
    }
}

} // verus!
