use vstd::prelude::*;
use crate::slide::SlideType;

verus! {

/// The user's configuration: key bindings grouped by modifier combination, programs
/// to start, and window options.
#[derive(Debug)]
pub struct Config {
    /// For each modifier combination (such as `"super+shift"`), the bound keys and
    /// the action text for each.
    pub bindings: Vec<(String, Vec<(String, String)>)>,
    pub startup: Vec<String>,
    pub window: WindowConfig,
}

/// Options for windows.
#[derive(Debug, Clone, Copy)]
pub struct WindowConfig {
    /// Ask river to draw server-side decorations on every window.
    pub force_ssd: bool,
}

/// A workspace as a configuration describes it.
#[derive(Debug)]
pub struct WorkspaceConfig {
    pub id: String,
    pub coord: (i32, i32),
    pub slides: Vec<SlideConfig>,
}

/// A slide as a configuration describes it.
#[derive(Debug, Clone, Copy)]
pub struct SlideConfig {
    pub slide_type: SlideType,
}

impl Default for WindowConfig {
    fn default() -> (c: WindowConfig)
        ensures
            !c.force_ssd,
    {
        WindowConfig { force_ssd: false }
    }
}

impl Default for Config {
    fn default() -> (c: Config)
        ensures
            c.bindings@.len() == 0,
            c.startup@.len() == 0,
            !c.window.force_ssd,
    {
        Config { bindings: Vec::new(), startup: Vec::new(), window: WindowConfig { force_ssd: false } }
    }
}

impl Default for WorkspaceConfig {
    fn default() -> (c: WorkspaceConfig)
        ensures
            c.id@.len() == 0,
            c.coord == (0i32, 0i32),
            c.slides@.len() == 0,
    {
        WorkspaceConfig { id: String::new(), coord: (0, 0), slides: Vec::new() }
    }
}

impl Default for SlideConfig {
    fn default() -> (c: SlideConfig)
        ensures
            c.slide_type == SlideType::Master,
    {
        SlideConfig { slide_type: SlideType::Master }
    }
}

}
