//! Progress of a live trace on the terminal: human lines on stderr, or
//! one JSON event per line with `+events`.

use vstd::prelude::*;

use crate::text::{decimal, push_decimal};

verus! {

/// Where progress goes: JSON events on stdout, or text on stderr.
#[derive(Debug, Clone, Copy, PartialEq, Eq, Structural)]
pub struct StderrProgress {
    pub events: bool,
}

impl StderrProgress {
    /// Progress reporting, as JSON events when `events` is set.
    pub fn new(events: bool) -> (r: Self)
        ensures
            r.events == events,
    {
        StderrProgress { events }
    }
}

/// The message when the query budget runs out.
pub open spec fn budget_text(cap: nat) -> Seq<char> {
    "query budget of "@ + decimal(cap) + " exhausted; trace truncated"@
}

/// The budget message for `cap` queries.
pub fn budget_message(cap: usize) -> (s: String)
    ensures
        s@ == budget_text(cap as nat),
{
    let mut s = String::new();
    s.append("query budget of ");
    push_decimal(&mut s, cap as u64);
    s.append(" exhausted; trace truncated");
    s
}

/// A progress message as printed on stderr: `  -> MESSAGE`.
pub fn message_line(message: &str) -> (s: String)
    ensures
        s@ == "  -> "@ + message@,
{
    let mut s = String::new();
    s.append("  -> ");
    s.append(message);
    s
}

} // verus!
