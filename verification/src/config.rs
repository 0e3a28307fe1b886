//! Settings kept between runs.

use vstd::prelude::*;

verus! {

/// What the user has chosen once and for all: where the timetable lives,
/// whose it is, and whether answers are kept on disk.
#[derive(Debug)]
pub struct Config {
    pub domain: String,
    pub school: String,
    pub class: String,
    pub cache: bool,
}

impl Default for Config {
    /// Nothing chosen yet, and no cache.
    fn default() -> (r: Self)
        ensures
            r.domain@.len() == 0,
            r.school@.len() == 0,
            r.class@.len() == 0,
            !r.cache,
    {
        Config { domain: String::new(), school: String::new(), class: String::new(), cache: false }
    }
}

/// Whether answers are kept on disk in this run: never with the flag that
/// forbids it, else as configured.
pub fn use_cache(no_cache: bool, config: &Config) -> (r: bool)
    ensures
        r == (!no_cache && config.cache),
{
    if no_cache {
        false
    } else {
        config.cache
    }
}

} // verus!
