//! The help overlay: its lines as data, which the terminal front end styles.

use vstd::prelude::*;

use super::terminal::{ColorCapability, UiSymbols};
use super::view_state::ActiveScreen;

verus! {

/// One line of the help overlay.
#[derive(Debug, Clone, Copy, PartialEq, Eq)]
pub enum HelpLine {
    /// A section heading.
    Section(&'static str),
    /// A key binding and what it does.
    Binding { keys: &'static str, description: &'static str },
    /// A hop glyph and its meaning, styled as cached or live.
    Legend { symbol: &'static str, description: &'static str, from_cache: bool },
    /// An empty line.
    Blank,
}

/// The bindings that hold on every screen.
pub open spec fn global_help() -> Seq<HelpLine> {
    seq![
        HelpLine::Section("Global"),
        HelpLine::Binding { keys: "?", description: "Show this help" },
        HelpLine::Binding { keys: "q", description: "Quit (prompts to save refreshed RTTs)" },
        HelpLine::Binding { keys: "Ctrl+C", description: "Quit" },
        HelpLine::Binding { keys: "c", description: "Toggle colors" },
        HelpLine::Binding { keys: "Tab / Shift-Tab", description: "Cycle screens" },
        HelpLine::Binding { keys: "1 / 2", description: "Select Browse / Compare" },
        HelpLine::Binding { keys: "m", description: "Jump to Compare" },
        HelpLine::Binding { keys: "r", description: "Refresh hop RTTs in memory" },
        HelpLine::Binding { keys: "E / C", description: "Expand all / collapse all" },
        HelpLine::Blank,
    ]
}

/// The browse screen's bindings and the hop glyph legend.
pub open spec fn browse_help(symbols: UiSymbols) -> Seq<HelpLine> {
    seq![
        HelpLine::Section("Browse"),
        HelpLine::Binding { keys: "w", description: "Toggle tree/detail focus" },
        HelpLine::Binding { keys: "j/k, ↑/↓", description: "Move selection" },
        HelpLine::Binding { keys: "Space, Enter", description: "Toggle expand" },
        HelpLine::Binding { keys: "E / C", description: "Expand all / collapse all" },
        HelpLine::Binding { keys: "b", description: "Branch from selected node" },
        HelpLine::Binding { keys: "h/l, ←/→", description: "Scroll tree horizontally" },
        HelpLine::Binding { keys: "+ / -", description: "Resize tree/detail split" },
        HelpLine::Blank,
        HelpLine::Section("Hop symbols"),
        HelpLine::Legend {
            symbol: match symbols.cache_legend {
                Some(l) => l,
                None => symbols.cache,
            },
            description: "response from cache",
            from_cache: true,
        },
        HelpLine::Legend {
            symbol: match symbols.live_legend {
                Some(l) => l,
                None => symbols.live,
            },
            description: "live DNS lookup",
            from_cache: false,
        },
    ]
}

/// The compare screen's bindings; the RTT bar colours are a gradient when
/// the terminal has more than the basic colours, stepped bands otherwise.
pub open spec fn compare_help(gradient: bool) -> Seq<HelpLine> {
    seq![
        HelpLine::Section("Compare"),
        HelpLine::Binding { keys: "j/k, ↑/↓", description: "Move among sibling paths" },
        HelpLine::Binding { keys: "Enter", description: "Return to Browse at selected path" },
        HelpLine::Binding { keys: "F", description: "Toggle fork full-path stats panel" },
        HelpLine::Binding { keys: "B", description: "Toggle fork sibling hop RTT panel" },
        HelpLine::Binding {
            keys: "f / s",
            description: "Highlight fastest / slowest answered path",
        },
        HelpLine::Binding { keys: "Esc", description: "Clear path highlight" },
        HelpLine::Blank,
        HelpLine::Section("Compare stats"),
        HelpLine::Binding {
            keys: "",
            description: "Totals sum hop RTT along answered leaf paths only",
        },
        HelpLine::Blank,
        HelpLine::Section("RTT bar colors"),
        HelpLine::Binding {
            keys: "",
            description: if gradient {
                "Gradient toward next step: green→yellow, then yellow→orange, then orange→red"
            } else {
                "Stepped bands: green / yellow / orange / red"
            },
        },
        HelpLine::Binding { keys: "green", description: "≤ green_ms (config)" },
        HelpLine::Binding { keys: "yellow", description: "≤ yellow_ms" },
        HelpLine::Binding { keys: "orange", description: "≤ orange_ms" },
        HelpLine::Binding { keys: "red", description: "> orange_ms" },
    ]
}

/// Whether RTT bars are drawn as a gradient.
pub open spec fn uses_gradient(capability: ColorCapability) -> bool {
    capability == ColorCapability::Indexed || capability == ColorCapability::Truecolor
}

/// The whole overlay for a screen.
pub open spec fn help_text(screen: ActiveScreen, capability: ColorCapability, symbols: UiSymbols) -> Seq<
    HelpLine,
> {
    global_help() + if screen == ActiveScreen::Browse {
        browse_help(symbols)
    } else {
        compare_help(uses_gradient(capability))
    }
}

fn binding(keys: &'static str, description: &'static str) -> (l: HelpLine)
    ensures
        l == (HelpLine::Binding { keys, description }),
{
    HelpLine::Binding { keys, description }
}

fn push_global(lines: &mut Vec<HelpLine>)
    ensures
        final(lines)@ == old(lines)@ + global_help(),
{
    lines.push(HelpLine::Section("Global"));
    lines.push(binding("?", "Show this help"));
    lines.push(binding("q", "Quit (prompts to save refreshed RTTs)"));
    lines.push(binding("Ctrl+C", "Quit"));
    lines.push(binding("c", "Toggle colors"));
    lines.push(binding("Tab / Shift-Tab", "Cycle screens"));
    lines.push(binding("1 / 2", "Select Browse / Compare"));
    lines.push(binding("m", "Jump to Compare"));
    lines.push(binding("r", "Refresh hop RTTs in memory"));
    lines.push(binding("E / C", "Expand all / collapse all"));
    lines.push(HelpLine::Blank);
    assert(lines@ =~= old(lines)@ + global_help());
}

fn push_browse(lines: &mut Vec<HelpLine>, symbols: UiSymbols)
    ensures
        final(lines)@ == old(lines)@ + browse_help(symbols),
{
    lines.push(HelpLine::Section("Browse"));
    lines.push(binding("w", "Toggle tree/detail focus"));
    lines.push(binding("j/k, ↑/↓", "Move selection"));
    lines.push(binding("Space, Enter", "Toggle expand"));
    lines.push(binding("E / C", "Expand all / collapse all"));
    lines.push(binding("b", "Branch from selected node"));
    lines.push(binding("h/l, ←/→", "Scroll tree horizontally"));
    lines.push(binding("+ / -", "Resize tree/detail split"));
    lines.push(HelpLine::Blank);
    lines.push(HelpLine::Section("Hop symbols"));
    let cache = match symbols.cache_legend {
        Some(l) => l,
        None => symbols.cache,
    };
    let live = match symbols.live_legend {
        Some(l) => l,
        None => symbols.live,
    };
    lines.push(HelpLine::Legend { symbol: cache, description: "response from cache", from_cache: true });
    lines.push(HelpLine::Legend { symbol: live, description: "live DNS lookup", from_cache: false });
    assert(lines@ =~= old(lines)@ + browse_help(symbols));
}

fn push_compare(lines: &mut Vec<HelpLine>, gradient: bool)
    ensures
        final(lines)@ == old(lines)@ + compare_help(gradient),
{
    lines.push(HelpLine::Section("Compare"));
    lines.push(binding("j/k, ↑/↓", "Move among sibling paths"));
    lines.push(binding("Enter", "Return to Browse at selected path"));
    lines.push(binding("F", "Toggle fork full-path stats panel"));
    lines.push(binding("B", "Toggle fork sibling hop RTT panel"));
    lines.push(binding("f / s", "Highlight fastest / slowest answered path"));
    lines.push(binding("Esc", "Clear path highlight"));
    lines.push(HelpLine::Blank);
    lines.push(HelpLine::Section("Compare stats"));
    lines.push(binding("", "Totals sum hop RTT along answered leaf paths only"));
    lines.push(HelpLine::Blank);
    lines.push(HelpLine::Section("RTT bar colors"));
    let bands = if gradient {
        "Gradient toward next step: green→yellow, then yellow→orange, then orange→red"
    } else {
        "Stepped bands: green / yellow / orange / red"
    };
    lines.push(binding("", bands));
    lines.push(binding("green", "≤ green_ms (config)"));
    lines.push(binding("yellow", "≤ yellow_ms"));
    lines.push(binding("orange", "≤ orange_ms"));
    lines.push(binding("red", "> orange_ms"));
    assert(lines@ =~= old(lines)@ + compare_help(gradient));
}

/// The help overlay's lines for the active screen.
pub fn help_lines(screen: ActiveScreen, capability: ColorCapability, symbols: UiSymbols) -> (r: Vec<
    HelpLine,
>)
    ensures
        r@ == help_text(screen, capability, symbols),
{
    let mut lines: Vec<HelpLine> = Vec::new();
    push_global(&mut lines);
    let browse = match screen {
        ActiveScreen::Browse => true,
        ActiveScreen::Compare => false,
    };
    if browse {
        push_browse(&mut lines, symbols);
    } else {
        let gradient = match capability {
            ColorCapability::Indexed | ColorCapability::Truecolor => true,
            ColorCapability::Basic => false,
        };
        push_compare(&mut lines, gradient);
    }
    assert(lines@ =~= help_text(screen, capability, symbols));
    lines
}

} // verus!
