//! The client-side launch settings a caller configures once and reuses
//! across instances.

use vstd::prelude::*;

verus! {

/// Memory, window and language settings for launching the game.
#[derive(Debug, Clone, PartialEq)]
pub struct Client {
    pub ram_min: i32,
    pub ram_max: i32,
    pub window_width: i32,
    pub window_height: i32,
    pub current_language: String,
}

impl Client {
    pub fn new(
        ram_min: i32,
        ram_max: i32,
        window_width: i32,
        window_height: i32,
        current_language: String,
    ) -> (r: Self)
        ensures
            r.ram_min == ram_min,
            r.ram_max == ram_max,
            r.window_width == window_width,
            r.window_height == window_height,
            r.current_language == current_language,
    {
        Self { ram_min, ram_max, window_height, window_width, current_language }
    }
}

impl Default for Client {
    fn default() -> (r: Self)
        ensures
            r.ram_min == 512,
            r.ram_max == 1024,
            r.window_width == 854,
            r.window_height == 480,
            r.current_language@ == "en"@,
    {
        Self {
            ram_min: 512,
            ram_max: 1024,
            window_width: 854,
            window_height: 480,
            current_language: "en".to_owned(),
        }
    }
}

} // verus!
