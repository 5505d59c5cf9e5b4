//! What the terminal can render, decided from its environment, and the
//! glyph sets for each capability.
//!
//! Reading the environment happens outside the library; its values arrive
//! as a [`TerminalEnv`]. A variable that is unset, or not valid Unicode,
//! is `None`.

use vstd::prelude::*;

use crate::text::{
    chars_of, contains, contains_lit, eq_ignore_case, eq_lit, lower, lower_chars, starts_with,
    starts_with_lit,
};

verus! {

/// How many distinct colors the terminal can render for RTT bar gradients.
#[derive(Debug, Clone, Copy, PartialEq, Eq, Structural)]
pub enum ColorCapability {
    /// 8/16 ANSI colors — stepped threshold bands.
    Basic,
    /// 256-color palette — smooth gradient via indexed colors.
    Indexed,
    /// 24-bit RGB — smooth gradient via truecolor.
    Truecolor,
}

/// How richly we can render non-ASCII UI chrome.
#[derive(Debug, Clone, Copy, PartialEq, Eq, Structural)]
pub enum TextCapability {
    /// 7-bit-safe fallbacks only.
    Ascii,
    /// Box drawing and geometric symbols (◆, ├, ▼, …).
    Unicode,
    /// Likely emoji-capable terminal; emoji only where layout is not affected.
    Emoji,
}

/// Glyphs used in explore output. Keep width at one column for tree alignment.
#[derive(Debug, Clone, Copy)]
pub struct UiSymbols {
    pub cache: &'static str,
    pub live: &'static str,
    pub tree_expand: &'static str,
    pub tree_collapse: &'static str,
    pub branch_tee: &'static str,
    pub branch_end: &'static str,
    pub branch_pipe: &'static str,
    pub missing: &'static str,
    /// Optional emoji legend labels (help overlay only); `None` when not using emoji.
    pub cache_legend: Option<&'static str>,
    pub live_legend: Option<&'static str>,
}

pub open spec fn opt_view(o: Option<&'static str>) -> Option<Seq<char>> {
    match o {
        Some(s) => Some(s@),
        None => None,
    }
}

impl UiSymbols {
    /// The glyphs, as character sequences, in field order.
    pub open spec fn glyphs(self) -> (Seq<char>, Seq<char>, Seq<char>, Seq<char>, Seq<char>, Seq<char>, Seq<char>, Seq<char>, Option<Seq<char>>, Option<Seq<char>>) {
        (self.cache@, self.live@, self.tree_expand@, self.tree_collapse@, self.branch_tee@,
            self.branch_end@, self.branch_pipe@, self.missing@, opt_view(self.cache_legend), opt_view(self.live_legend))
    }
}

/// The glyphs of each capability.
pub open spec fn symbols_for(capability: TextCapability) -> (Seq<char>, Seq<char>, Seq<char>, Seq<char>, Seq<char>, Seq<char>, Seq<char>, Seq<char>, Option<Seq<char>>, Option<Seq<char>>) {
    match capability {
        TextCapability::Ascii => ("*"@, "o"@, "+"@, "-"@, "|-- "@, "`-- "@, "|  "@, "-"@, None, None),
        TextCapability::Unicode => ("◆"@, "◇"@, "▼ "@, "▶ "@, "├─ "@, "└─ "@, "│  "@, "—"@, None, None),
        TextCapability::Emoji => ("◆"@, "◇"@, "▼ "@, "▶ "@, "├─ "@, "└─ "@, "│  "@, "—"@, Some("📦"@), Some("⚡"@)),
    }
}

/// The 7-bit glyph set.
pub fn ascii_symbols() -> (s: UiSymbols)
    ensures
        s.glyphs() == symbols_for(TextCapability::Ascii),
{
    UiSymbols {
        cache: "*",
        live: "o",
        tree_expand: "+",
        tree_collapse: "-",
        branch_tee: "|-- ",
        branch_end: "`-- ",
        branch_pipe: "|  ",
        missing: "-",
        cache_legend: None,
        live_legend: None,
    }
}

/// The box-drawing and geometric glyph set.
pub fn unicode_symbols() -> (s: UiSymbols)
    ensures
        s.glyphs() == symbols_for(TextCapability::Unicode),
{
    UiSymbols {
        cache: "◆",
        live: "◇",
        tree_expand: "▼ ",
        tree_collapse: "▶ ",
        branch_tee: "├─ ",
        branch_end: "└─ ",
        branch_pipe: "│  ",
        missing: "—",
        cache_legend: None,
        live_legend: None,
    }
}

/// The Unicode glyph set with emoji legend labels.
pub fn emoji_symbols() -> (s: UiSymbols)
    ensures
        s.glyphs() == symbols_for(TextCapability::Emoji),
{
    UiSymbols {
        cache: "◆",
        live: "◇",
        tree_expand: "▼ ",
        tree_collapse: "▶ ",
        branch_tee: "├─ ",
        branch_end: "└─ ",
        branch_pipe: "│  ",
        missing: "—",
        cache_legend: Some("📦"),
        live_legend: Some("⚡"),
    }
}

/// The glyph set for a text capability.
pub fn ui_symbols(capability: TextCapability) -> (s: UiSymbols)
    ensures
        s.glyphs() == symbols_for(capability),
{
    match capability {
        TextCapability::Ascii => ascii_symbols(),
        TextCapability::Unicode => unicode_symbols(),
        TextCapability::Emoji => emoji_symbols(),
    }
}

/// The glyph marking a response from cache or from a live lookup.
pub fn cache_source_symbol(from_cache: bool, symbols: UiSymbols) -> (s: &'static str)
    ensures
        s@ == (if from_cache { symbols.cache@ } else { symbols.live@ }),
{
    if from_cache {
        symbols.cache
    } else {
        symbols.live
    }
}

/// The help legend: the cache and live glyphs (emoji labels where the set
/// has them) with their meanings.
pub fn cache_source_legend(symbols: UiSymbols) -> (r: [(&'static str, &'static str); 2])
    ensures
        r[0].0@ == (match symbols.cache_legend { Some(l) => l@, None => symbols.cache@ }),
        r[0].1@ == "response from cache"@,
        r[1].0@ == (match symbols.live_legend { Some(l) => l@, None => symbols.live@ }),
        r[1].1@ == "live DNS lookup"@,
{
    let cache = match symbols.cache_legend {
        Some(l) => l,
        None => symbols.cache,
    };
    let live = match symbols.live_legend {
        Some(l) => l,
        None => symbols.live,
    };
    [(cache, "response from cache"), (live, "live DNS lookup")]
}

// ---------------------------------------------------------------------------
// Capability detection
// ---------------------------------------------------------------------------

/// The environment variables that decide the terminal's capabilities.
#[derive(Debug, Clone)]
pub struct TerminalEnv {
    pub delve_basic_colors: Option<String>,
    pub delve_no_truecolor: Option<String>,
    pub delve_truecolor: Option<String>,
    pub colorterm: Option<String>,
    pub term: Option<String>,
    pub delve_ascii: Option<String>,
    pub delve_no_unicode: Option<String>,
    pub delve_unicode: Option<String>,
    pub delve_no_emoji: Option<String>,
    pub lc_all: Option<String>,
    pub lc_ctype: Option<String>,
    pub lang: Option<String>,
    pub wt_session: Option<String>,
    pub kitty_window_id: Option<String>,
    pub alacritty_window_id: Option<String>,
    pub konsole_version: Option<String>,
    pub term_program: Option<String>,
}

/// A flag variable is on when set to anything but empty, `0` or `false`
/// (in any case).
pub open spec fn flag_on(v: Option<String>) -> bool {
    match v {
        Some(s) => s@.len() > 0 && s@ != "0"@ && !eq_ignore_case(s@, "false"@),
        None => false,
    }
}

fn is_set(v: &Option<String>) -> (r: bool)
    ensures
        r == flag_on(*v),
{
    match v {
        Some(s) => {
            let c = chars_of(s.as_str());
            if c.len() == 0 {
                return false;
            }
            if eq_lit(&c, "0") {
                return false;
            }
            let l = lower_chars(&c);
            let f = chars_of("false");
            let lf = lower_chars(&f);
            !crate::text::eq_chars(&l, &lf)
        },
        None => false,
    }
}

pub open spec fn is_value(v: Option<String>, lit: Seq<char>) -> bool {
    match v {
        Some(s) => s@ == lit,
        None => false,
    }
}

fn value_is(v: &Option<String>, lit: &str) -> (r: bool)
    ensures
        r == is_value(*v, lit@),
{
    match v {
        Some(s) => {
            let c = chars_of(s.as_str());
            eq_lit(&c, lit)
        },
        None => false,
    }
}

/// `DELVE_BASIC_COLORS` or `DELVE_NO_TRUECOLOR` is on.
pub open spec fn spec_force_basic_colors(env: TerminalEnv) -> bool {
    flag_on(env.delve_basic_colors) || flag_on(env.delve_no_truecolor)
}

/// `DELVE_TRUECOLOR` is on.
pub open spec fn spec_force_truecolor(env: TerminalEnv) -> bool {
    flag_on(env.delve_truecolor)
}

/// `TERM`, lowered, contains `needle`.
pub open spec fn term_contains(env: TerminalEnv, needle: Seq<char>) -> bool {
    match env.term {
        Some(t) => contains(lower(t@), needle),
        None => false,
    }
}

pub open spec fn spec_terminal_reports_truecolor(env: TerminalEnv) -> bool {
    is_value(env.colorterm, "truecolor"@) || is_value(env.colorterm, "24bit"@)
        || term_contains(env, "truecolor"@) || term_contains(env, "direct"@)
}

pub open spec fn spec_terminal_reports_256color(env: TerminalEnv) -> bool {
    term_contains(env, "256color"@)
}

/// A GUI terminal known to render Unicode and truecolor.
pub open spec fn spec_modern_terminal_hint(env: TerminalEnv) -> bool {
    env.wt_session is Some || env.kitty_window_id is Some || env.alacritty_window_id is Some
        || env.konsole_version is Some || is_value(env.term_program, "iTerm.app"@)
        || is_value(env.term_program, "Apple_Terminal"@) || is_value(env.term_program, "WezTerm"@)
        || is_value(env.term_program, "vscode"@) || is_value(env.term_program, "Tabby"@)
        || is_value(env.term_program, "ghostty"@)
}

/// What one locale variable says: `Some(false)` for the C/POSIX locale,
/// `Some(true)` for a UTF-8 locale, `None` when it says nothing.
pub open spec fn locale_verdict(v: Option<String>) -> Option<bool> {
    match v {
        None => None,
        Some(s) => if s@.len() == 0 {
            None
        } else if eq_ignore_case(s@, "C"@) || starts_with(s@, "C."@) || s@ == "POSIX"@ {
            Some(false)
        } else if contains(lower(s@), "utf-8"@) || contains(lower(s@), "utf8"@) {
            Some(true)
        } else {
            None
        },
    }
}

/// The first of `LC_ALL`, `LC_CTYPE`, `LANG` that says something decides;
/// when none does, a modern terminal is taken to render UTF-8.
pub open spec fn spec_locale_supports_utf8(env: TerminalEnv) -> bool {
    match locale_verdict(env.lc_all) {
        Some(b) => b,
        None => match locale_verdict(env.lc_ctype) {
            Some(b) => b,
            None => match locale_verdict(env.lang) {
                Some(b) => b,
                None => spec_modern_terminal_hint(env),
            },
        },
    }
}

pub open spec fn spec_terminal_supports_emoji(env: TerminalEnv) -> bool {
    if flag_on(env.delve_no_emoji) {
        false
    } else if !spec_locale_supports_utf8(env) && !spec_modern_terminal_hint(env) {
        false
    } else {
        env.wt_session is Some || env.kitty_window_id is Some
            || is_value(env.term_program, "iTerm.app"@) || is_value(env.term_program, "Apple_Terminal"@)
            || is_value(env.term_program, "WezTerm"@) || is_value(env.term_program, "vscode"@)
            || is_value(env.term_program, "Tabby"@)
    }
}

pub open spec fn spec_color_capability(env: TerminalEnv) -> ColorCapability {
    if spec_force_basic_colors(env) {
        ColorCapability::Basic
    } else if spec_force_truecolor(env) {
        ColorCapability::Truecolor
    } else if spec_terminal_reports_truecolor(env) {
        ColorCapability::Truecolor
    } else if spec_terminal_reports_256color(env) {
        ColorCapability::Indexed
    } else if spec_modern_terminal_hint(env) {
        ColorCapability::Truecolor
    } else {
        ColorCapability::Basic
    }
}

pub open spec fn spec_force_ascii(env: TerminalEnv) -> bool {
    flag_on(env.delve_ascii) || flag_on(env.delve_no_unicode)
}

pub open spec fn spec_force_unicode(env: TerminalEnv) -> bool {
    flag_on(env.delve_unicode)
}

pub open spec fn spec_text_capability(env: TerminalEnv) -> TextCapability {
    if spec_force_ascii(env) {
        TextCapability::Ascii
    } else if spec_force_unicode(env) {
        if spec_terminal_supports_emoji(env) { TextCapability::Emoji } else { TextCapability::Unicode }
    } else if !spec_locale_supports_utf8(env) {
        TextCapability::Ascii
    } else if spec_terminal_supports_emoji(env) {
        TextCapability::Emoji
    } else {
        TextCapability::Unicode
    }
}

/// Whether the environment forces the stepped 16-colour bands.
pub fn force_basic_colors(env: &TerminalEnv) -> (r: bool)
    ensures
        r == spec_force_basic_colors(*env),
{
    is_set(&env.delve_basic_colors) || is_set(&env.delve_no_truecolor)
}

/// Whether the environment forces 24-bit colour.
pub fn force_truecolor(env: &TerminalEnv) -> (r: bool)
    ensures
        r == spec_force_truecolor(*env),
{
    is_set(&env.delve_truecolor)
}

fn term_contains_any(env: &TerminalEnv, needle: &str) -> (r: bool)
    ensures
        r == term_contains(*env, needle@),
{
    match &env.term {
        Some(t) => {
            let c = chars_of(t.as_str());
            let l = lower_chars(&c);
            contains_lit(&l, needle)
        },
        None => false,
    }
}

fn terminal_reports_truecolor(env: &TerminalEnv) -> (r: bool)
    ensures
        r == spec_terminal_reports_truecolor(*env),
{
    value_is(&env.colorterm, "truecolor") || value_is(&env.colorterm, "24bit")
        || term_contains_any(env, "truecolor") || term_contains_any(env, "direct")
}

/// Whether `TERM` announces the 256-colour palette.
pub fn terminal_reports_256color(env: &TerminalEnv) -> (r: bool)
    ensures
        r == spec_terminal_reports_256color(*env),
{
    term_contains_any(env, "256color")
}

fn modern_terminal_hint(env: &TerminalEnv) -> (r: bool)
    ensures
        r == spec_modern_terminal_hint(*env),
{
    env.wt_session.is_some() || env.kitty_window_id.is_some() || env.alacritty_window_id.is_some()
        || env.konsole_version.is_some() || value_is(&env.term_program, "iTerm.app")
        || value_is(&env.term_program, "Apple_Terminal") || value_is(&env.term_program, "WezTerm")
        || value_is(&env.term_program, "vscode") || value_is(&env.term_program, "Tabby")
        || value_is(&env.term_program, "ghostty")
}

fn locale_var_verdict(v: &Option<String>) -> (r: Option<bool>)
    ensures
        r == locale_verdict(*v),
{
    match v {
        None => None,
        Some(s) => {
            let c = chars_of(s.as_str());
            if c.len() == 0 {
                return None;
            }
            let l = lower_chars(&c);
            let big_c = chars_of("C");
            let lc = lower_chars(&big_c);
            if crate::text::eq_chars(&l, &lc) || starts_with_lit(&c, "C.") || eq_lit(&c, "POSIX") {
                return Some(false);
            }
            if contains_lit(&l, "utf-8") || contains_lit(&l, "utf8") {
                return Some(true);
            }
            None
        },
    }
}

fn locale_supports_utf8(env: &TerminalEnv) -> (r: bool)
    ensures
        r == spec_locale_supports_utf8(*env),
{
    match locale_var_verdict(&env.lc_all) {
        Some(b) => b,
        None => match locale_var_verdict(&env.lc_ctype) {
            Some(b) => b,
            None => match locale_var_verdict(&env.lang) {
                Some(b) => b,
                None => modern_terminal_hint(env),
            },
        },
    }
}

fn terminal_supports_emoji(env: &TerminalEnv) -> (r: bool)
    ensures
        r == spec_terminal_supports_emoji(*env),
{
    if is_set(&env.delve_no_emoji) {
        return false;
    }
    if !locale_supports_utf8(env) && !modern_terminal_hint(env) {
        return false;
    }
    env.wt_session.is_some() || env.kitty_window_id.is_some()
        || value_is(&env.term_program, "iTerm.app") || value_is(&env.term_program, "Apple_Terminal")
        || value_is(&env.term_program, "WezTerm") || value_is(&env.term_program, "vscode")
        || value_is(&env.term_program, "Tabby")
}

/// The colour capability the environment indicates.
pub fn detect_color_capability_uncached(env: &TerminalEnv) -> (r: ColorCapability)
    ensures
        r == spec_color_capability(*env),
{
    if force_basic_colors(env) {
        return ColorCapability::Basic;
    }
    if force_truecolor(env) {
        return ColorCapability::Truecolor;
    }
    if terminal_reports_truecolor(env) {
        return ColorCapability::Truecolor;
    }
    if terminal_reports_256color(env) {
        return ColorCapability::Indexed;
    }
    if modern_terminal_hint(env) {
        return ColorCapability::Truecolor;
    }
    ColorCapability::Basic
}

/// Whether the environment forces 7-bit glyphs.
pub fn force_ascii(env: &TerminalEnv) -> (r: bool)
    ensures
        r == spec_force_ascii(*env),
{
    is_set(&env.delve_ascii) || is_set(&env.delve_no_unicode)
}

/// Whether the environment forces Unicode glyphs.
pub fn force_unicode(env: &TerminalEnv) -> (r: bool)
    ensures
        r == spec_force_unicode(*env),
{
    is_set(&env.delve_unicode)
}

/// The text capability the environment indicates.
pub fn detect_text_capability_uncached(env: &TerminalEnv) -> (r: TextCapability)
    ensures
        r == spec_text_capability(*env),
{
    if force_ascii(env) {
        return TextCapability::Ascii;
    }
    if force_unicode(env) {
        return if terminal_supports_emoji(env) { TextCapability::Emoji } else { TextCapability::Unicode };
    }
    if !locale_supports_utf8(env) {
        return TextCapability::Ascii;
    }
    if terminal_supports_emoji(env) {
        TextCapability::Emoji
    } else {
        TextCapability::Unicode
    }
}

/// A forced choice wins: an environment forcing basic colours yields
/// basic colours whatever else it says, and one forcing ASCII yields ASCII.
pub proof fn lemma_forced_capabilities(env: TerminalEnv)
    ensures
        spec_force_basic_colors(env) ==> spec_color_capability(env) == ColorCapability::Basic,
        spec_force_ascii(env) ==> spec_text_capability(env) == TextCapability::Ascii,
        spec_force_unicode(env) && !spec_force_ascii(env) ==> spec_text_capability(env) != TextCapability::Ascii,
{
}

// ---------------------------------------------------------------------------
// The 256-colour palette
// ---------------------------------------------------------------------------

/// `round(x / d)` for non-negative `x` and positive `d`, halves rounded up.
pub open spec fn round_div(x: int, d: int) -> int {
    (2 * x + d) / (2 * d)
}

/// The nearest xterm-256 index: the grey ramp (232..=255, with 16 and 231
/// at the ends) for greys, else the 6×6×6 cube from 16.
pub open spec fn spec_rgb_to_ansi256(red: u8, green: u8, blue: u8) -> int {
    if red == green && green == blue {
        if red < 8 {
            16
        } else if red > 248 {
            231
        } else {
            round_div((red as int - 8) * 24, 247) + 232
        }
    } else {
        16 + 36 * round_div(red as int * 5, 255) + 6 * round_div(green as int * 5, 255)
            + round_div(blue as int * 5, 255)
    }
}

/// Maps an sRGB triplet to the nearest ANSI 256-color index.
pub fn rgb_to_ansi256(red: u8, green: u8, blue: u8) -> (r: u8)
    ensures
        r as int == spec_rgb_to_ansi256(red, green, blue),
{
    if red == green && green == blue {
        if red < 8 {
            return 16;
        }
        if red > 248 {
            return 231;
        }
        let x: u32 = (red as u32 - 8) * 24;
        let step: u32 = (2 * x + 247) / 494;
        assert(step <= 23) by (nonlinear_arith)
            requires
                x <= 240 * 24,
                step == (2 * x + 247) / 494,
        ;
        return (step as u8) + 232;
    }
    let r_index: u32 = (2 * (red as u32) * 5 + 255) / 510;
    let g_index: u32 = (2 * (green as u32) * 5 + 255) / 510;
    let b_index: u32 = (2 * (blue as u32) * 5 + 255) / 510;
    assert(r_index <= 5 && g_index <= 5 && b_index <= 5) by (nonlinear_arith)
        requires
            red <= 255,
            green <= 255,
            blue <= 255,
            r_index == (2 * (red as u32) * 5 + 255) / 510,
            g_index == (2 * (green as u32) * 5 + 255) / 510,
            b_index == (2 * (blue as u32) * 5 + 255) / 510,
    ;
    (16 + 36 * r_index + 6 * g_index + b_index) as u8
}

/// Every triplet maps into the palette's colour part, 16..=255.
pub proof fn lemma_ansi256_in_palette(red: u8, green: u8, blue: u8)
    ensures
        16 <= spec_rgb_to_ansi256(red, green, blue) <= 255,
{
    let r = round_div(red as int * 5, 255);
    let g = round_div(green as int * 5, 255);
    let b = round_div(blue as int * 5, 255);
    assert(0 <= r <= 5 && 0 <= g <= 5 && 0 <= b <= 5) by (nonlinear_arith)
        requires
            0 <= red <= 255,
            0 <= green <= 255,
            0 <= blue <= 255,
            r == (2 * (red as int * 5) + 255) / 510int,
            g == (2 * (green as int * 5) + 255) / 510int,
            b == (2 * (blue as int * 5) + 255) / 510int,
    ;
    let x = (red as int - 8) * 24;
    if red == green && green == blue && 8 <= red <= 248 {
        assert(0 <= round_div(x, 247) <= 23) by (nonlinear_arith)
            requires
                0 <= x <= 240 * 24,
        ;
    }
}

} // verus!
