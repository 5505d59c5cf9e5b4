//! DNS header flags shown in a stable, response-oriented order.

use vstd::prelude::*;

use crate::text::{push_char, push_str};

verus! {

/// The header flags of a stored response.
#[derive(Debug, Clone, Copy, PartialEq, Eq, Structural)]
pub struct MessageFlags {
    pub authoritative: bool,
    pub truncated: bool,
    pub recursion_desired: bool,
    pub recursion_available: bool,
    pub authentic_data: bool,
    pub checking_disabled: bool,
}

/// The flags in display order.
pub open spec fn flag_names() -> Seq<&'static str> {
    seq!["qr", "rd", "ra", "aa", "tc", "ad", "cd"]
}

/// The display order of the header flags.
pub fn flag_order() -> (r: Vec<&'static str>)
    ensures
        r@ == flag_names(),
{
    let r = vec!["qr", "rd", "ra", "aa", "tc", "ad", "cd"];
    assert(r@ =~= flag_names());
    r
}

/// Each flag in display order with whether it is set; `qr` is always set
/// on a response.
pub open spec fn flag_state_seq(m: MessageFlags) -> Seq<(&'static str, bool)> {
    seq![
        ("qr", true),
        ("rd", m.recursion_desired),
        ("ra", m.recursion_available),
        ("aa", m.authoritative),
        ("tc", m.truncated),
        ("ad", m.authentic_data),
        ("cd", m.checking_disabled),
    ]
}

/// The flags with their states.
pub fn flag_states(m: &MessageFlags) -> (r: Vec<(&'static str, bool)>)
    ensures
        r@ == flag_state_seq(*m),
{
    let r = vec![
        ("qr", true),
        ("rd", m.recursion_desired),
        ("ra", m.recursion_available),
        ("aa", m.authoritative),
        ("tc", m.truncated),
        ("ad", m.authentic_data),
        ("cd", m.checking_disabled),
    ];
    assert(r@ =~= flag_state_seq(*m));
    r
}

/// ASCII upper case of one character.
pub open spec fn ascii_upper(c: char) -> char {
    if 'a' <= c && c <= 'z' {
        ((c as u32) - 32) as char
    } else {
        c
    }
}

/// ASCII upper case of a text.
pub open spec fn upper(s: Seq<char>) -> Seq<char> {
    s.map_values(|c: char| ascii_upper(c))
}

/// A set flag in upper case, a clear one in parentheses.
pub open spec fn flag_token(name: Seq<char>, active: bool) -> Seq<char> {
    if active {
        upper(name)
    } else {
        seq!['('] + name + seq![')']
    }
}

/// One flag as plain text.
pub fn flag_token_plain(name: &str, active: bool) -> (s: String)
    ensures
        s@ == flag_token(name@, active),
{
    if active {
        let mut s = String::new();
        let n = name.unicode_len();
        let mut i: usize = 0;
        while i < n
            invariant
                n == name@.len(),
                i <= n,
                s@ == upper(name@.subrange(0, i as int)),
            decreases n - i,
        {
            let c = name.get_char(i);
            let u = if 'a' <= c && c <= 'z' {
                let code: u8 = (c as u8) - 32;
                code as char
            } else {
                c
            };
            push_char(&mut s, u);
            i = i + 1;
            assert(s@ =~= upper(name@.subrange(0, i as int)));
        }
        assert(name@.subrange(0, n as int) =~= name@);
        s
    } else {
        let mut s = String::new();
        push_char(&mut s, '(');
        push_str(&mut s, name);
        push_char(&mut s, ')');
        assert(s@ =~= seq!['('] + name@ + seq![')']);
        s
    }
}

/// The tokens of the first `k` flags, separated by spaces.
pub open spec fn flags_text(states: Seq<(&'static str, bool)>) -> Seq<char>
    decreases states.len(),
{
    if states.len() == 0 {
        Seq::empty()
    } else if states.len() == 1 {
        flag_token(states[0].0@, states[0].1)
    } else {
        flags_text(states.drop_last()) + seq![' '] + flag_token(
            states.last().0@,
            states.last().1,
        )
    }
}

/// All flags as plain text, e.g. `QR RD RA (aa) (tc) (ad) (cd)`.
pub fn format_flags_plain(m: &MessageFlags) -> (s: String)
    ensures
        s@ == flags_text(flag_state_seq(*m)),
{
    let states = flag_states(m);
    let mut s = String::new();
    let mut i: usize = 0;
    while i < states.len()
        invariant
            states@ == flag_state_seq(*m),
            i <= states.len(),
            s@ == flags_text(states@.subrange(0, i as int)),
        decreases states.len() - i,
    {
        let (name, active) = states[i];
        if i > 0 {
            push_char(&mut s, ' ');
        }
        let t = flag_token_plain(name, active);
        s.append(t.as_str());
        proof {
            let p = states@.subrange(0, i + 1);
            assert(p.drop_last() =~= states@.subrange(0, i as int));
        }
        i = i + 1;
    }
    assert(states@.subrange(0, states@.len() as int) =~= states@);
    s
}

} // verus!
