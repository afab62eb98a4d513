//! Which wallpaper each screen shows.

use vstd::prelude::*;
use vstd::hash_map::StringHashMap;
use vstd::string::StringExecFns;

verus! {

/// The wallpaper of each screen, by the screen's name.
pub struct ProfileManager {
    wallpapers: StringHashMap<u64>,
}

impl View for ProfileManager {
    type V = Map<Seq<char>, u64>;

    closed spec fn view(&self) -> Map<Seq<char>, u64> {
        self.wallpapers@
    }
}

impl ProfileManager {
    /// A profile without any screen.
    pub fn new() -> (p: ProfileManager)
        ensures
            p@ == Map::<Seq<char>, u64>::empty(),
    {
        ProfileManager { wallpapers: StringHashMap::new() }
    }

    /// Notes that `screen` shows the wallpaper `id`.
    pub fn save_wallpaper(&mut self, id: u64, screen: &str)
        ensures
            final(self)@ == old(self)@.insert(screen@, id),
    {
        self.wallpapers.insert(String::from_str(screen), id);
    }

    /// Whether the profile knows nothing of `screen`, so that what was
    /// stored is to be read before the screen is looked up.
    pub fn is_unknown(&self, screen: &str) -> (b: bool)
        ensures
            b == !self@.contains_key(screen@),
    {
        !self.wallpapers.contains_key(screen)
    }

    /// The wallpaper that `screen` shows.
    pub fn load_wallpaper(&self, screen: &str) -> (r: Option<u64>)
        ensures
            r is Some <==> self@.contains_key(screen@),
            r matches Some(id) ==> id == self@[screen@],
    {
        match self.wallpapers.get(screen) {
            Some(id) => Some(*id),
            None => None,
        }
    }
}

} // verus!
