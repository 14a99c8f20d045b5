use vstd::prelude::*;

verus! {

/// Preferences kept between sessions by the settings store.
#[derive(Clone, Copy, Debug, PartialEq, Eq, Structural)]
pub struct Settings {
    pub window_width: u32,
    pub window_height: u32,
    pub fullscreen: bool,
    pub music_volume: i32,
    pub sfx_volume: i32,
    pub music_muted: bool,
    pub sfx_muted: bool,
    pub gravity_mode: bool,
}

/// Volumes run from silent to this value.
pub const MAX_VOLUME: i32 = 128;

impl Settings {
    pub open spec fn default_spec() -> Settings {
        Settings {
            window_width: 1280,
            window_height: 720,
            fullscreen: false,
            music_volume: 64,
            sfx_volume: 64,
            music_muted: false,
            sfx_muted: false,
            gravity_mode: false,
        }
    }
}

impl Default for Settings {
    /// A 1280x720 window, half volume, sound on, normal physics.
    fn default() -> (s: Settings)
        ensures
            s == Settings::default_spec(),
    {
        Settings {
            window_width: 1280,
            window_height: 720,
            fullscreen: false,
            music_volume: 64,
            sfx_volume: 64,
            music_muted: false,
            sfx_muted: false,
            gravity_mode: false,
        }
    }
}

} // verus!
