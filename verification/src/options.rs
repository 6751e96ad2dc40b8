//! Options passed through verbatim to multiplexer session creation. The
//! resolver and cloner never inspect them.

use vstd::prelude::*;

verus! {

/// Options for multiplexer session creation: a layout, configuration
/// locations, a pane limit and a debug flag, each handed to the
/// multiplexer unchanged and unvalidated.
#[derive(Debug, Clone)]
pub struct ZellijOptions {
    /// Name of a predefined layout or path to a layout file.
    pub new_session_with_layout: Option<String>,
    /// Path to a config file.
    pub config: Option<String>,
    /// Path to a config directory.
    pub config_dir: Option<String>,
    /// Path to a data directory for plugins.
    pub data_dir: Option<String>,
    /// Maximum panes on screen.
    pub max_panes: Option<u32>,
    /// Enable debug output.
    pub debug: bool,
}

impl Default for ZellijOptions {
    /// All options absent, debug off.
    fn default() -> (r: Self)
        ensures
            r.new_session_with_layout is None,
            r.config is None,
            r.config_dir is None,
            r.data_dir is None,
            r.max_panes is None,
            !r.debug,
    {
        ZellijOptions {
            new_session_with_layout: None,
            config: None,
            config_dir: None,
            data_dir: None,
            max_panes: None,
            debug: false,
        }
    }
}

} // verus!
