//! Dig-style `+keyword[=value]` options shared by `trace` and `explore`.

use vstd::prelude::*;

use crate::text::{
    parse_unsigned, parse_unsigned_exec, push_char, slice_chars, starts_with,
    starts_with_lit,
};

verus! {

/// The position of the first `c` in `s`, or `s.len()` when there is none.
pub open spec fn index_of(s: Seq<char>, c: char) -> int
    decreases s.len(),
{
    if s.len() == 0 {
        0
    } else if s[0] == c {
        0
    } else {
        1 + index_of(s.drop_first(), c)
    }
}

/// `index_of` is the first occurrence.
pub proof fn lemma_index_of(s: Seq<char>, c: char, i: int)
    requires
        0 <= i <= s.len(),
        i < s.len() ==> s[i] == c,
        forall|k: int| 0 <= k < i ==> s[k] != c,
    ensures
        index_of(s, c) == i,
    decreases i,
{
    if i > 0 {
        let t = s.drop_first();
        assert forall|k: int| 0 <= k < i - 1 implies t[k] != c by {
            assert(t[k] == s[k + 1]);
        }
        lemma_index_of(t, c, i - 1);
    }
}

/// `str::split_once`: the text before and after the first `=`, when there is one.
pub open spec fn split_eq(s: Seq<char>) -> (Seq<char>, Option<Seq<char>>) {
    let i = index_of(s, '=');
    if i < s.len() {
        (s.subrange(0, i), Some(s.subrange(i + 1, s.len() as int)))
    } else {
        (s, None)
    }
}

/// A `+keyword[=value]` body: a leading `no` negates; the keyword is what
/// comes before the first `=`, the value what follows it.
pub open spec fn split_option(body: Seq<char>) -> (Seq<char>, Option<Seq<char>>, bool) {
    if starts_with(body, "no"@) {
        let (k, v) = split_eq(body.subrange(2, body.len() as int));
        (k, v, true)
    } else {
        let (k, v) = split_eq(body);
        (k, v, false)
    }
}

/// The text with all leading `c` removed (`str::trim_start_matches`).
pub open spec fn strip_leading(s: Seq<char>, c: char) -> Seq<char>
    decreases s.len(),
{
    if s.len() > 0 && s[0] == c {
        strip_leading(s.drop_first(), c)
    } else {
        s
    }
}

/// Removes every leading `c`.
pub fn strip_leading_chars(v: &Vec<char>, c: char) -> (r: Vec<char>)
    ensures
        r@ == strip_leading(v@, c),
{
    let n = v.len();
    let mut i: usize = 0;
    assert(v@.subrange(0, n as int) =~= v@);
    while i < n && v[i] == c
        invariant
            n == v@.len(),
            i <= n,
            strip_leading(v@, c) == strip_leading(v@.subrange(i as int, n as int), c),
        decreases n - i,
    {
        assert(v@.subrange(i as int, n as int).drop_first() =~= v@.subrange(i + 1, n as int));
        i = i + 1;
    }
    slice_chars(v, i, n)
}

fn split_eq_exec(s: &Vec<char>) -> (r: (Vec<char>, Option<Vec<char>>))
    ensures
        r.0@ == split_eq(s@).0,
        match r.1 {
            Some(v) => split_eq(s@).1 == Some(v@),
            None => split_eq(s@).1 is None,
        },
{
    let mut i: usize = 0;
    while i < s.len() && s[i] != '='
        invariant
            i <= s.len(),
            forall|k: int| 0 <= k < i ==> s@[k] != '=',
        decreases s.len() - i,
    {
        i = i + 1;
    }
    proof {
        lemma_index_of(s@, '=', i as int);
    }
    if i < s.len() {
        (slice_chars(s, 0, i), Some(slice_chars(s, i + 1, s.len())))
    } else {
        assert(s@.subrange(0, s@.len() as int) =~= s@);
        (slice_chars(s, 0, s.len()), None)
    }
}

/// Splits a `+option` body (without the `+`) into keyword, value and negation.
pub fn split_query_option(body: &Vec<char>) -> (r: (Vec<char>, Option<Vec<char>>, bool))
    ensures
        r.0@ == split_option(body@).0,
        r.2 == split_option(body@).2,
        match r.1 {
            Some(v) => split_option(body@).1 == Some(v@),
            None => split_option(body@).1 is None,
        },
{
    if starts_with_lit(body, "no") {
        proof {
            reveal_strlit("no");
        }
        let rest = slice_chars(body, 2, body.len());
        let (k, v) = split_eq_exec(&rest);
        (k, v, true)
    } else {
        let (k, v) = split_eq_exec(body);
        (k, v, false)
    }
}

/// A timeout in seconds: a `u64`, raised to at least 1.
pub open spec fn timeout_value(raw: Seq<char>) -> Option<u64> {
    match parse_unsigned(raw, u64::MAX as nat) {
        Ok(n) => Some(if n >= 1 { n as u64 } else { 1 }),
        Err(_) => None,
    }
}

/// Reads a timeout in seconds.
pub fn parse_timeout_value(raw: &Vec<char>) -> (r: Option<u64>)
    ensures
        r == timeout_value(raw@),
{
    match parse_unsigned_exec(raw, u64::MAX) {
        Ok(n) => Some(if n >= 1 { n } else { 1 }),
        Err(_) => None,
    }
}

/// A try count: a `u16`, raised to at least 1, then kept to its low byte
/// (the `as u8` of the count).
pub open spec fn tries_value(raw: Seq<char>) -> Option<u8> {
    match parse_unsigned(raw, u16::MAX as nat) {
        Ok(n) => Some(((if n >= 1 { n } else { 1 }) % 256) as u8),
        Err(_) => None,
    }
}

/// Reads a try count.
pub fn parse_tries_value(raw: &Vec<char>) -> (r: Option<u8>)
    ensures
        r == tries_value(raw@),
{
    match parse_unsigned_exec(raw, 65535) {
        Ok(n) => {
            let m = if n >= 1 { n } else { 1 };
            Some((m % 256) as u8)
        },
        Err(_) => None,
    }
}

/// `+` followed by the characters.
pub fn plus_prefixed(v: &Vec<char>) -> (s: String)
    ensures
        s@ == seq!['+'] + v@,
{
    let mut s = String::new();
    push_char(&mut s, '+');
    crate::text::push_chars(&mut s, v);
    assert(s@ =~= seq!['+'] + v@);
    s
}

} // verus!
