//! What a wallpaper project says of itself.

use vstd::prelude::*;

verus! {

/// The kind of a wallpaper.
#[derive(Debug, Clone, Copy, PartialEq, Eq, Structural)]
pub enum WallpaperType {
    Preset,
    Video,
    Scene,
    Web,
}

impl Default for WallpaperType {
    /// A project that names no kind is a preset.
    fn default() -> (t: Self)
        ensures
            t == WallpaperType::Preset,
    {
        WallpaperType::Preset
    }
}

impl WallpaperType {
    /// Whether a renderer exists for wallpapers of this kind.
    pub open spec fn renderable(&self) -> bool {
        *self == WallpaperType::Video || *self == WallpaperType::Scene
    }

    pub fn is_renderable(&self) -> (b: bool)
        ensures
            b == self.renderable(),
    {
        match self {
            WallpaperType::Video => true,
            WallpaperType::Scene => true,
            _ => false,
        }
    }
}

/// How the files of a directory property are fetched.
#[derive(Debug, Clone, Copy, PartialEq, Eq, Structural)]
pub enum DirMode {
    OnDemand,
    FetchAll,
}

/// One choice of a combo property.
#[derive(Debug, Clone)]
pub struct ComboOption {
    pub value: Option<String>,
    pub label: String,
}

} // verus!
