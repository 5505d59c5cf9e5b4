//! The default session: `DELVE_SESSION`, else the last session recorded.

use vstd::prelude::*;

use crate::text::{chars_of, string_of, trim, trim_chars};

verus! {

/// The environment variable that names the default session.
pub const DELVE_SESSION_ENV: &'static str = "DELVE_SESSION";

/// A session id from text (the variable's value or the last-session file):
/// the text trimmed, none when that leaves nothing.
pub open spec fn session_id_text(text: Seq<char>) -> Option<Seq<char>> {
    if trim(text).len() == 0 {
        None
    } else {
        Some(trim(text))
    }
}

/// Reads a session id from text.
pub fn session_id_from_text(text: &str) -> (r: Option<String>)
    ensures
        match session_id_text(text@) {
            Some(t) => r matches Some(s) && s@ == t,
            None => r is None,
        },
{
    let t = trim_chars(&chars_of(text));
    if t.len() == 0 {
        None
    } else {
        Some(string_of(&t))
    }
}

/// The default session id: the variable's id when it has one, else the
/// file's. `env` is the variable's value (`None` when unset or not
/// Unicode), `file` the last-session file's text (`None` when absent).
pub fn default_session_choice(env: Option<&str>, file: Option<&str>) -> (r: Option<String>)
    ensures
        match (match env {
            Some(e) => session_id_text(e@),
            None => None,
        }) {
            Some(t) => r matches Some(s) && s@ == t,
            None => match (match file {
                Some(f) => session_id_text(f@),
                None => None,
            }) {
                Some(t) => r matches Some(s) && s@ == t,
                None => r is None,
            },
        },
{
    let from_env = match env {
        Some(e) => session_id_from_text(e),
        None => None,
    };
    match from_env {
        Some(id) => Some(id),
        None => match file {
            Some(f) => session_id_from_text(f),
            None => None,
        },
    }
}

/// The last-session file's content for an id.
pub open spec fn last_session_text(id: Seq<char>) -> Seq<char> {
    id + seq!['\n']
}

/// What `write_last_session` puts in the file: the id and a newline.
pub fn last_session_contents(id: &str) -> (s: String)
    ensures
        s@ == last_session_text(id@),
{
    let mut s = String::from_str(id);
    crate::text::push_char(&mut s, '\n');
    s
}

} // verus!
