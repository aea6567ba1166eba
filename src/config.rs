//! Session configuration, handed to the core as an immutable value.
use vstd::prelude::*;

verus! {

/// Where and what to write, and how the dashboard behaves.
#[derive(Clone, Debug)]
pub struct Config {
    pub write_dir: String,
    pub lua_path: String,
    pub dll_path: String,
    pub debug: bool,
    pub enable_object_log: bool,
    pub enable_framerate_log: bool,
    pub enable_gui: bool,
    /// Dashboard redraw interval in fixed-point seconds; not positive for a
    /// redraw on every frame.
    pub gui_update_interval: i64,
}

impl Default for Config {
    /// No directories, frame-timing log on, object log off, dashboard on and
    /// redrawn on every frame.
    fn default() -> (r: Config)
        ensures
            r.write_dir@ == Seq::<char>::empty(),
            r.lua_path@ == Seq::<char>::empty(),
            r.dll_path@ == Seq::<char>::empty(),
            !r.debug,
            !r.enable_object_log,
            r.enable_framerate_log,
            r.enable_gui,
            r.gui_update_interval == -100_000_000,
    {
        Config {
            write_dir: String::new(),
            lua_path: String::new(),
            dll_path: String::new(),
            debug: false,
            enable_object_log: false,
            enable_framerate_log: true,
            enable_gui: true,
            gui_update_interval: -100_000_000,
        }
    }
}

} // verus!
