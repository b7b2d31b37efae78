//! Sidebar configuration defaults.

use vstd::prelude::*;

verus! {

/// Configuration of the left sidebar (nothing to configure yet).
#[derive(Debug, Clone)]
pub struct LeftSidebarConfig {}

impl Default for LeftSidebarConfig {
    fn default() -> (c: Self)
        ensures
            c == (LeftSidebarConfig {}),
    {
        LeftSidebarConfig {}
    }
}

/// How the sidebar shares the window with the terminal.
#[derive(Debug, Clone, Copy, PartialEq, Eq, Structural)]
pub enum SidebarMode {
    /// Sidebar overlays on top of terminal content
    Overlay,
    /// Sidebar expands the window, terminal content shifts
    Expand,
}

impl Default for SidebarMode {
    fn default() -> (m: Self)
        ensures
            m == SidebarMode::Expand,
    {
        SidebarMode::Expand
    }
}

/// Default width of the right sidebar, in pixels.
pub fn default_sidebar_width() -> (w: u16)
    ensures
        w == 400,
{
    400
}

/// The right sidebar is shown at startup by default.
pub fn default_show_on_startup() -> (b: bool)
    ensures
        b,
{
    true
}

/// Default number of glow layers of the neon effect.
pub fn default_glow_layers() -> (n: u8)
    ensures
        n == 6,
{
    6
}

/// Default weight of body text.
pub fn default_body_font_weight() -> (w: String)
    ensures
        w@ == "Regular"@,
{
    String::from_str("Regular")
}

} // verus!
