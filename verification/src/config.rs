use vstd::prelude::*;

verus! {

/// The path of the executable whose presence drives disabling and
/// restoring of secondary displays. Loaded at startup and on save by
/// the surrounding program; the watcher reads it once per tick.
#[derive(Clone, Debug)]
pub struct Config {
    pub target_exe: String,
}

/// The target path used when no saved configuration exists.
pub open spec fn spec_default_target_exe() -> Seq<char> {
    "C:\\Riot Games\\League of Legends\\Game\\League of Legends.exe"@
}

impl Default for Config {
    fn default() -> (c: Config)
        ensures
            c.target_exe@ == spec_default_target_exe(),
    {
        Config {
            target_exe: String::from_str("C:\\Riot Games\\League of Legends\\Game\\League of Legends.exe"),
        }
    }
}

} // verus!
