//! User settings and the session state kept between runs.
use vstd::prelude::*;

verus! {

/// The user's preferences.
#[derive(Clone, Copy, Debug, PartialEq, Eq, Structural)]
pub struct Settings {
    pub restore_tabs_on_startup: bool,
    pub galaxy_mode: bool,
}

impl Default for Settings {
    /// Both options on.
    fn default() -> (s: Self)
        ensures
            s.restore_tabs_on_startup,
            s.galaxy_mode,
    {
        Settings { restore_tabs_on_startup: true, galaxy_mode: true }
    }
}

/// What is saved of a session: the settings, the open tabs' paths, which
/// of them is active, and the paths of closed tabs (most recent last).
pub struct AppState {
    pub settings: Settings,
    pub tabs: Vec<String>,
    pub active_tab: usize,
    pub closed_tabs: Vec<String>,
}

impl Default for AppState {
    /// Default settings, no tabs, nothing closed.
    fn default() -> (s: Self)
        ensures
            s.settings.restore_tabs_on_startup,
            s.settings.galaxy_mode,
            s.tabs@ == Seq::<String>::empty(),
            s.active_tab == 0,
            s.closed_tabs@ == Seq::<String>::empty(),
    {
        AppState {
            settings: Settings::default(),
            tabs: Vec::new(),
            active_tab: 0,
            closed_tabs: Vec::new(),
        }
    }
}

} // verus!
