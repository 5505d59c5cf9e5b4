//! A hop's identity as shown in tree and compare rows: `[zone] name (ip)`,
//! cut to a display width measured with the `unicode-width` crate.

use vstd::prelude::*;

use super::detail::{effective_name, effective_server_name, opt_str_view};
use crate::text::{chars_of, push_char, push_str, string_of};

verus! {

/// Generous cap for tree and compare rows.
pub const DEFAULT_IDENTITY_MAX_WIDTH: usize = 52;

/// The widest identity column of the compare screen.
pub const MAX_IDENTITY_COLUMN_WIDTH: usize = 56;

/// The narrowest identity column of the compare screen.
pub const MIN_IDENTITY_COLUMN_WIDTH: usize = 16;

/// What `unicode_width::UnicodeWidthStr::width` returns for a text.
pub uninterp spec fn str_display_width(s: Seq<char>) -> usize;

/// What `unicode_width::UnicodeWidthChar::width` returns for a character.
pub uninterp spec fn char_display_width(c: char) -> Option<usize>;

/// `UnicodeWidthStr::width` (unicode-width 0.1): the columns a text takes
/// in a terminal. The contract only names the result as a function of the
/// text; the crate computes it from its Unicode tables, with special cases
/// for sequences such as `\r\n` and emoji ZWJ sequences, so it is not the
/// sum of the characters' widths.
#[verifier::external_body]
pub fn display_width(text: &str) -> (r: usize)
    ensures
        r == str_display_width(text@),
{
    unicode_width::UnicodeWidthStr::width(text)
}

/// `UnicodeWidthChar::width` (unicode-width 0.1): a character's columns,
/// `None` for control characters. The contract names the result as a
/// function of the character.
#[verifier::external_body]
fn char_width(c: char) -> (r: Option<usize>)
    ensures
        r == char_display_width(c),
{
    unicode_width::UnicodeWidthChar::width(c)
}

/// A character's columns, counting control characters as zero.
pub open spec fn char_columns(c: char) -> int {
    match char_display_width(c) {
        Some(w) => w as int,
        None => 0,
    }
}

/// How many leading characters of `v`, from position `i` on with `w`
/// columns used so far, fit in `budget` columns.
pub open spec fn fitting_chars(v: Seq<char>, i: int, w: int, budget: int) -> int
    decreases v.len() - i,
{
    if i < 0 || i >= v.len() {
        v.len() as int
    } else if w + char_columns(v[i]) > budget {
        i
    } else {
        fitting_chars(v, i + 1, w + char_columns(v[i]), budget)
    }
}

/// The text itself when it fits in `max` columns; else as many leading
/// characters as fit in `max - 1` columns, then `…`.
pub open spec fn truncated(v: Seq<char>, max: int) -> Seq<char> {
    if str_display_width(v) <= max {
        v
    } else {
        let budget = if max >= 1 { max - 1 } else { 0 };
        v.subrange(0, fitting_chars(v, 0, 0, budget)) + "…"@
    }
}

/// Cuts a text to a display width.
pub fn truncate_to_display_width(value: &str, max_width: usize) -> (s: String)
    ensures
        s@ == truncated(value@, max_width as int),
{
    if display_width(value) <= max_width {
        return String::from_str(value);
    }
    let budget = if max_width >= 1 { max_width - 1 } else { 0 };
    let chars = chars_of(value);
    let mut i: usize = 0;
    let mut width: usize = 0;
    while i < chars.len()
        invariant
            i <= chars.len(),
            chars@ == value@,
            width <= budget,
            fitting_chars(value@, 0, 0, budget as int) == fitting_chars(
                value@,
                i as int,
                width as int,
                budget as int,
            ),
        ensures
            fitting_chars(value@, 0, 0, budget as int) == i as int,
        decreases chars.len() - i,
    {
        let cw = match char_width(chars[i]) {
            Some(w) => w,
            None => 0,
        };
        if cw > budget - width {
            break;
        }
        width = width + cw;
        i = i + 1;
    }
    let mut out = string_of(&crate::text::slice_chars(&chars, 0, i));
    push_str(&mut out, "…");
    out
}

/// The identity body: `name (ip)` when the server has a name, else `(ip)`.
pub open spec fn identity_body(server: Seq<char>, server_name: Option<Seq<char>>, root_hint: Option<Seq<char>>) -> Seq<
    char,
> {
    match effective_name(server_name, root_hint) {
        Some(n) => n + " ("@ + server + ")"@,
        None => "("@ + server + ")"@,
    }
}

/// `[zone] ` and the body.
pub open spec fn identity_text(
    zone: Seq<char>,
    server: Seq<char>,
    server_name: Option<Seq<char>>,
    root_hint: Option<Seq<char>>,
) -> Seq<char> {
    "["@ + zone + "] "@ + identity_body(server, server_name, root_hint)
}

fn hop_identity_body(server: &str, server_name: Option<&str>, root_hint: Option<&str>) -> (s: String)
    ensures
        s@ == identity_body(server@, opt_str_view(server_name), opt_str_view(root_hint)),
{
    match effective_server_name(server_name, root_hint) {
        Some(name) => {
            let mut s = name;
            push_str(&mut s, " (");
            push_str(&mut s, server);
            push_str(&mut s, ")");
            s
        },
        None => {
            let mut s = String::new();
            push_str(&mut s, "(");
            push_str(&mut s, server);
            push_str(&mut s, ")");
            s
        },
    }
}

/// A hop's identity, cut to `max_width` columns when one is given.
/// `root_hint` is the root-server name for the server's address, if any.
pub fn format_hop_identity(
    zone: &str,
    server: &str,
    server_name: Option<&str>,
    root_hint: Option<&str>,
    max_width: Option<usize>,
) -> (s: String)
    ensures
        s@ == match max_width {
            Some(max) => truncated(
                identity_text(zone@, server@, opt_str_view(server_name), opt_str_view(root_hint)),
                max as int,
            ),
            None => identity_text(zone@, server@, opt_str_view(server_name), opt_str_view(root_hint)),
        },
{
    let body = hop_identity_body(server, server_name, root_hint);
    let mut full = String::new();
    push_str(&mut full, "[");
    push_str(&mut full, zone);
    push_str(&mut full, "] ");
    full.append(body.as_str());
    match max_width {
        Some(max) => truncate_to_display_width(full.as_str(), max),
        None => full,
    }
}

/// The zone label and the body cut to `max_width` columns together: both
/// whole when they fit; else the zone kept and the body cut to what is
/// left; the zone alone, cut, when it leaves nothing.
pub open spec fn identity_parts(zone: Seq<char>, body: Seq<char>, max: int) -> (Seq<char>, Seq<char>) {
    if str_display_width(zone + body) <= max {
        (zone, body)
    } else if str_display_width(zone) >= max {
        (truncated(zone, max), Seq::empty())
    } else {
        (zone, truncated(body, max - str_display_width(zone)))
    }
}

/// Cuts a zone label and body to a width, keeping the zone when it can.
pub fn truncate_identity_parts(zone: &str, body: &str, max_width: usize) -> (r: (String, String))
    ensures
        r.0@ == identity_parts(zone@, body@, max_width as int).0,
        r.1@ == identity_parts(zone@, body@, max_width as int).1,
{
    let mut full = String::from_str(zone);
    push_str(&mut full, body);
    if display_width(full.as_str()) <= max_width {
        return (String::from_str(zone), String::from_str(body));
    }
    let zone_width = display_width(zone);
    if zone_width >= max_width {
        return (truncate_to_display_width(zone, max_width), String::new());
    }
    (String::from_str(zone), truncate_to_display_width(body, max_width - zone_width))
}

/// Spaces to make up `width` columns.
pub open spec fn spaces(n: nat) -> Seq<char>
    decreases n,
{
    if n == 0 {
        Seq::empty()
    } else {
        spaces((n - 1) as nat).push(' ')
    }
}

pub fn push_spaces(s: &mut String, n: usize)
    ensures
        final(s)@ == old(s)@ + spaces(n as nat),
{
    let mut i: usize = 0;
    while i < n
        invariant
            i <= n,
            s@ == old(s)@ + spaces(i as nat),
        decreases n - i,
    {
        push_char(s, ' ');
        i = i + 1;
        assert(s@ =~= old(s)@ + spaces(i as nat));
    }
}

/// The text right-aligned in `width` columns (unchanged when wider).
pub fn pad_left_display(text: &str, width: usize) -> (s: String)
    ensures
        s@ == if str_display_width(text@) >= width {
            text@
        } else {
            spaces((width - str_display_width(text@)) as nat) + text@
        },
{
    let w = display_width(text);
    if w >= width {
        return String::from_str(text);
    }
    let mut s = String::new();
    push_spaces(&mut s, width - w);
    push_str(&mut s, text);
    s
}

/// The text left-aligned in `width` columns (unchanged when wider).
pub fn pad_right_display(text: &str, width: usize) -> (s: String)
    ensures
        s@ == if str_display_width(text@) >= width {
            text@
        } else {
            text@ + spaces((width - str_display_width(text@)) as nat)
        },
{
    let w = display_width(text);
    if w >= width {
        return String::from_str(text);
    }
    let mut s = String::from_str(text);
    push_spaces(&mut s, width - w);
    s
}

} // verus!
