//! Window settings.
use vstd::prelude::*;

verus! {

/// The window's resolution and mode.
#[derive(Debug)]
pub struct Settings {
    pub resolution: (u32, u32),
    pub fullscreen: bool,
    pub borderless: bool,
}

impl Default for Settings {
    fn default() -> (r: Self)
        ensures
            r.resolution == (1000u32, 1000u32),
            !r.fullscreen,
            !r.borderless,
    {
        Self { resolution: (1000, 1000), fullscreen: false, borderless: false }
    }
}

} // verus!
