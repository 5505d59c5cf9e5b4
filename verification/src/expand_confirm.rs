//! The confirmation asked before `+expand=all`.

use vstd::prelude::*;

use crate::text::{
    chars_of, decimal, eq_ignore_case, eq_lit, lower_chars, push_decimal, trim, trim_chars,
};

verus! {

/// How the operator answered the `+expand=all` prompt.
#[derive(Debug, Clone, Copy, PartialEq, Eq, Structural)]
pub enum ExpandConfirmOutcome {
    Confirmed,
    Declined,
    NoTerminal,
}

/// The warning printed before the prompt.
pub open spec fn expand_warning_text(server_count: nat, budget: nat) -> Seq<char> {
    "warning: +expand=all may query every nameserver at every zone cut (starting with "@
        + decimal(server_count) + " server(s) at the first cut, budget "@ + decimal(budget)
        + " queries per action)"@
}

/// The warning shown before asking whether to expand everything.
pub fn expand_all_warning(server_count: usize, budget: usize) -> (s: String)
    ensures
        s@ == expand_warning_text(server_count as nat, budget as nat),
{
    let mut s = String::new();
    s.append("warning: +expand=all may query every nameserver at every zone cut (starting with ");
    push_decimal(&mut s, server_count as u64);
    s.append(" server(s) at the first cut, budget ");
    push_decimal(&mut s, budget as u64);
    s.append(" queries per action)");
    s
}

/// The question itself.
pub const EXPAND_ALL_PROMPT: &'static str = "Proceed with full expansion? [y/N] ";

/// The outcome: without a terminal nothing is asked; otherwise only `y`
/// (any case, surrounding white space ignored) confirms, and an answer that
/// could not be read declines.
pub open spec fn expand_outcome(is_tty: bool, answer: Option<Seq<char>>) -> ExpandConfirmOutcome {
    if !is_tty {
        ExpandConfirmOutcome::NoTerminal
    } else {
        match answer {
            Some(a) => if eq_ignore_case(trim(a), "y"@) {
                ExpandConfirmOutcome::Confirmed
            } else {
                ExpandConfirmOutcome::Declined
            },
            None => ExpandConfirmOutcome::Declined,
        }
    }
}

/// Decides the prompt's outcome from whether stderr is a terminal and the
/// line read (`None` when reading failed).
pub fn expand_confirm_outcome(is_tty: bool, answer: Option<&str>) -> (r: ExpandConfirmOutcome)
    ensures
        r == expand_outcome(
            is_tty,
            match answer {
                Some(a) => Some(a@),
                None => None,
            },
        ),
{
    if !is_tty {
        return ExpandConfirmOutcome::NoTerminal;
    }
    match answer {
        Some(a) => {
            let chars = chars_of(a);
            let trimmed = trim_chars(&chars);
            let lowered = lower_chars(&trimmed);
            proof {
                reveal_strlit("y");
                assert(crate::text::lower("y"@) =~= "y"@);
            }
            if eq_lit(&lowered, "y") {
                ExpandConfirmOutcome::Confirmed
            } else {
                ExpandConfirmOutcome::Declined
            }
        },
        None => ExpandConfirmOutcome::Declined,
    }
}

} // verus!
