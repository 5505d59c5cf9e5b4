//! Colour switch and capability of the explore screens.

use vstd::prelude::*;

use super::terminal::{ColorCapability, UiSymbols};

verus! {

/// Whether colour is on, what the terminal can show, and the glyph set.
#[derive(Debug, Clone, Copy)]
pub struct Theme {
    pub color_enabled: bool,
    pub color_capability: ColorCapability,
    pub symbols: UiSymbols,
}

/// The colour hint shown in the status line.
pub open spec fn color_status_text(color_enabled: bool, capability: ColorCapability) -> Seq<char> {
    if !color_enabled {
        "off"@
    } else {
        match capability {
            ColorCapability::Basic => "on"@,
            ColorCapability::Indexed => "256"@,
            ColorCapability::Truecolor => "rgb"@,
        }
    }
}

impl Theme {
    /// Switches colour on or off; nothing else changes.
    pub fn toggle_color(&mut self)
        ensures
            final(self).color_enabled == !old(self).color_enabled,
            final(self).color_capability == old(self).color_capability,
            final(self).symbols == old(self).symbols,
    {
        self.color_enabled = !self.color_enabled;
    }

    /// `off`, or the colour depth when colour is on: `on`, `256` or `rgb`.
    pub fn color_status_hint(&self) -> (s: &'static str)
        ensures
            s@ == color_status_text(self.color_enabled, self.color_capability),
    {
        if !self.color_enabled {
            "off"
        } else {
            match self.color_capability {
                ColorCapability::Basic => "on",
                ColorCapability::Indexed => "256",
                ColorCapability::Truecolor => "rgb",
            }
        }
    }
}

} // verus!
