//! The adjustable split between the two Browse panes, and the scroll hints
//! drawn in pane borders.

use vstd::prelude::*;

use crate::text::push_char;

verus! {

/// Adjustable vertical split between a top and bottom pane.
#[derive(Debug, Clone, Copy, PartialEq, Eq, Structural)]
pub struct VerticalPaneSplit {
    pub first_percent: u16,
}

/// The share of the top pane stays within the bounds.
pub open spec fn percent_in_bounds(p: u16) -> bool {
    25 <= p <= 75
}

pub open spec fn clamp_percent(p: u16) -> u16 {
    if p < 25 { 25 } else if p > 75 { 75 } else { p }
}

impl VerticalPaneSplit {
    pub const DEFAULT_PERCENT: u16 = 55;

    pub const MIN_PERCENT: u16 = 25;

    pub const MAX_PERCENT: u16 = 75;

    pub const STEP: u16 = 5;

    /// A split with `percent` clamped to 25..=75.
    pub fn new(percent: u16) -> (r: Self)
        ensures
            r.first_percent == clamp_percent(percent),
            percent_in_bounds(r.first_percent),
    {
        let first_percent = if percent < Self::MIN_PERCENT {
            Self::MIN_PERCENT
        } else if percent > Self::MAX_PERCENT {
            Self::MAX_PERCENT
        } else {
            percent
        };
        VerticalPaneSplit { first_percent }
    }

    /// A stored split: kept when within bounds, else the default.
    pub fn from_stored(percent: u16) -> (r: Self)
        ensures
            r.first_percent == (if percent_in_bounds(percent) { percent } else { 55 }),
    {
        if Self::MIN_PERCENT <= percent && percent <= Self::MAX_PERCENT {
            Self::new(percent)
        } else {
            Self::default()
        }
    }

    /// Gives the top pane one step more, up to the maximum.
    pub fn grow_first(&mut self)
        requires
            old(self).first_percent <= u16::MAX - 5,
        ensures
            final(self).first_percent == (if old(self).first_percent + 5 <= 75 {
                old(self).first_percent + 5
            } else {
                75
            }),
    {
        let grown = self.first_percent + Self::STEP;
        self.first_percent = if grown <= Self::MAX_PERCENT { grown } else { Self::MAX_PERCENT };
    }

    /// Gives the top pane one step less, down to the minimum.
    pub fn shrink_first(&mut self)
        ensures
            final(self).first_percent == (if old(self).first_percent >= 30 {
                old(self).first_percent - 5
            } else {
                25
            }),
    {
        let shrunk = if self.first_percent >= Self::STEP { self.first_percent - Self::STEP } else { 0 };
        self.first_percent = if shrunk >= Self::MIN_PERCENT { shrunk } else { Self::MIN_PERCENT };
    }
}

impl Default for VerticalPaneSplit {
    fn default() -> (r: Self)
        ensures
            r.first_percent == 55,
    {
        Self::new(Self::DEFAULT_PERCENT)
    }
}

/// Growing or shrinking a split within bounds keeps it within bounds.
pub proof fn lemma_split_steps_stay_in_bounds(p: u16)
    requires
        percent_in_bounds(p),
    ensures
        percent_in_bounds(if p + 5 <= 75 { (p + 5) as u16 } else { 75 }),
        percent_in_bounds(if p >= 30 { (p - 5) as u16 } else { 25 }),
{
}

/// Shrinking after growing returns to the start unless growing hit the maximum,
/// and growing after shrinking returns to the start unless shrinking hit the minimum.
pub proof fn lemma_split_steps_undo(p: u16)
    requires
        percent_in_bounds(p),
    ensures
        p + 5 <= 75 ==> {
            let g = (p + 5) as u16;
            (if g >= 30 { (g - 5) as u16 } else { 25u16 }) == p
        },
        p >= 30 ==> {
            let s = (p - 5) as u16;
            (if s + 5 <= 75 { (s + 5) as u16 } else { 75u16 }) == p
        },
{
}

/// Which scroll directions are available on one axis.
#[derive(Debug, Clone, Copy, PartialEq, Eq, Structural)]
pub struct AxisScrollHints {
    pub backward: bool,
    pub forward: bool,
}

/// The hint text: empty when nothing scrolls, else two spaces, the
/// backward glyph, and the forward glyph, a space between them.
pub open spec fn hints_text(hints: AxisScrollHints, backward: char, forward: char) -> Seq<char> {
    if !hints.backward && !hints.forward {
        Seq::<char>::empty()
    } else if hints.backward && hints.forward {
        seq![' ', ' ', backward, ' ', forward]
    } else if hints.backward {
        seq![' ', ' ', backward]
    } else {
        seq![' ', ' ', forward]
    }
}

impl AxisScrollHints {
    /// Hints for a vertical scroll `position` of at most `max_scroll`.
    pub fn vertical(position: u16, max_scroll: u16) -> (r: Self)
        ensures
            r.backward == (position > 0),
            r.forward == (position < max_scroll),
    {
        AxisScrollHints { backward: position > 0, forward: position < max_scroll }
    }

    /// Hints for a horizontal scroll `position` of at most `max_scroll`.
    pub fn horizontal(position: u16, max_scroll: u16) -> (r: Self)
        ensures
            r.backward == (position > 0),
            r.forward == (position < max_scroll),
    {
        Self::vertical(position, max_scroll)
    }

    /// The hints with up and down triangles.
    pub fn format_vertical(self) -> (s: String)
        ensures
            s@ == hints_text(self, '▲', '▼'),
    {
        format_directional_hints(self, '▲', '▼')
    }

    /// The hints with left and right triangles.
    pub fn format_horizontal(self) -> (s: String)
        ensures
            s@ == hints_text(self, '◀', '▶'),
    {
        format_directional_hints(self, '◀', '▶')
    }
}

fn format_directional_hints(hints: AxisScrollHints, backward: char, forward: char) -> (s: String)
    ensures
        s@ == hints_text(hints, backward, forward),
{
    if !hints.backward && !hints.forward {
        return String::new();
    }
    let mut rendered = String::new();
    push_char(&mut rendered, ' ');
    push_char(&mut rendered, ' ');
    if hints.backward {
        push_char(&mut rendered, backward);
    }
    if hints.forward {
        if hints.backward {
            push_char(&mut rendered, ' ');
        }
        push_char(&mut rendered, forward);
    }
    assert(rendered@ =~= hints_text(hints, backward, forward));
    rendered
}

} // verus!
