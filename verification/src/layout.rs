//! The responsive layout modes the window switches between as it narrows.
//! Selecting a mode from a pixel width, and the pane geometry itself, are
//! floating-point presentation work and live outside the verified library.
use vstd::prelude::*;

verus! {

/// The pane arrangement in use: three panes side by side, two panes, a
/// vertical stack, or a single mobile column.
#[derive(Debug, Clone, PartialEq, Eq, Structural)]
pub enum LayoutMode {
    ThreePane,
    TwoPane,
    CompactPane,
    MobilePane,
}

impl LayoutMode {
    /// The mode's name, for diagnostics.
    pub fn display_name(&self) -> (r: &'static str)
        ensures
            r@ == (match *self {
                LayoutMode::ThreePane => "Fullscreen"@,
                LayoutMode::TwoPane => "Half Horizontal"@,
                LayoutMode::CompactPane => "Half Vertical"@,
                LayoutMode::MobilePane => "Mobile"@,
            }),
    {
        match self {
            LayoutMode::ThreePane => "Fullscreen",
            LayoutMode::TwoPane => "Half Horizontal",
            LayoutMode::CompactPane => "Half Vertical",
            LayoutMode::MobilePane => "Mobile",
        }
    }
}

} // verus!
