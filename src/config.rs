//! User interface settings.
use vstd::prelude::*;

verus! {

/// The interface scale, in percent, when none is configured.
pub const DEFAULT_UI_SCALE: u16 = 90;

/// Settings of the user interface.
#[derive(Debug, Clone, PartialEq, Eq, Structural)]
pub struct UiConfig {
    pub use_nerd_font_icons: bool,
    pub ui_scale: u16,
    pub show_help_bar: bool,
}

impl Default for UiConfig {
    /// No icons, the default scale, and the help bar shown.
    fn default() -> (r: Self)
        ensures
            r.use_nerd_font_icons == false,
            r.ui_scale == DEFAULT_UI_SCALE,
            r.show_help_bar == true,
    {
        UiConfig { use_nerd_font_icons: false, ui_scale: DEFAULT_UI_SCALE, show_help_bar: true }
    }
}

} // verus!
