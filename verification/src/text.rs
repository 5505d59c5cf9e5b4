//! Character-sequence helpers shared by the parsers and formatters.
//!
//! Strings are specified by their view, a `Seq<char>`. The helpers here give
//! the executable operations (copying, decimal formatting, trimming,
//! integer parsing) an exact statement over that view.

use vstd::prelude::*;

verus! {

/// Appends one character to a `String` (std `String::push`).
///
/// Trusted: the documentation of `String::push` says that it appends the
/// given `char` to the end of the string, which is what the contract states.
#[verifier::external_body]
pub fn push_char(s: &mut String, c: char)
    ensures
        final(s)@ == old(s)@.push(c),
{
    s.push(c);
}

/// Appends a string slice.
pub fn push_str(s: &mut String, t: &str)
    ensures
        final(s)@ == old(s)@ + t@,
{
    s.append(t);
}

/// The characters of a string slice, as a vector.
pub fn chars_of(s: &str) -> (v: Vec<char>)
    ensures
        v@ == s@,
{
    let n = s.unicode_len();
    let mut v: Vec<char> = Vec::new();
    let mut i: usize = 0;
    while i < n
        invariant
            n == s@.len(),
            i <= n,
            v@ == s@.subrange(0, i as int),
        decreases n - i,
    {
        let c = s.get_char(i);
        v.push(c);
        i = i + 1;
        assert(v@ =~= s@.subrange(0, i as int));
    }
    assert(v@ =~= s@);
    v
}

/// A `String` holding the given characters.
pub fn string_of(v: &Vec<char>) -> (s: String)
    ensures
        s@ == v@,
{
    let mut s = String::new();
    let mut i: usize = 0;
    while i < v.len()
        invariant
            i <= v.len(),
            s@ == v@.subrange(0, i as int),
        decreases v.len() - i,
    {
        push_char(&mut s, v[i]);
        i = i + 1;
        assert(s@ =~= v@.subrange(0, i as int));
    }
    assert(s@ =~= v@);
    s
}

/// A `String` holding the characters of a slice.
pub fn owned(t: &str) -> (s: String)
    ensures
        s@ == t@,
{
    String::from_str(t)
}

/// Appends the characters of a vector.
pub fn push_chars(s: &mut String, v: &Vec<char>)
    ensures
        final(s)@ == old(s)@ + v@,
{
    let mut i: usize = 0;
    while i < v.len()
        invariant
            i <= v.len(),
            s@ == old(s)@ + v@.subrange(0, i as int),
        decreases v.len() - i,
    {
        push_char(s, v[i]);
        i = i + 1;
        assert(s@ =~= old(s)@ + v@.subrange(0, i as int));
    }
    assert(v@.subrange(0, v@.len() as int) =~= v@);
}

// ---------------------------------------------------------------------------
// Decimal digits
// ---------------------------------------------------------------------------

/// The ASCII digit for a value below ten.
pub open spec fn digit_char(d: nat) -> char {
    ((d + 48) as u8) as char
}

/// Whether `c` is an ASCII decimal digit.
pub open spec fn is_digit(c: char) -> bool {
    '0' <= c && c <= '9'
}

/// The value of an ASCII decimal digit.
pub open spec fn digit_value(c: char) -> nat {
    ((c as int) - 48) as nat
}

/// The shortest decimal notation of `n`, as `to_string` writes it.
pub open spec fn decimal(n: nat) -> Seq<char>
    decreases n,
{
    if n < 10 {
        seq![digit_char(n)]
    } else {
        decimal(n / 10).push(digit_char(n % 10))
    }
}

/// The value of a sequence of digits read left to right.
pub open spec fn digits_value(s: Seq<char>) -> nat
    decreases s.len(),
{
    if s.len() == 0 {
        0
    } else {
        digits_value(s.drop_last()) * 10 + digit_value(s.last())
    }
}

/// Every character is a decimal digit.
pub open spec fn all_digits(s: Seq<char>) -> bool {
    forall|i: int| 0 <= i < s.len() ==> is_digit(#[trigger] s[i])
}

fn digit_of(d: u64) -> (c: char)
    requires
        d < 10,
    ensures
        c == digit_char(d as nat),
        is_digit(c),
        digit_value(c) == d,
{
    let b: u8 = (d as u8) + 48u8;
    assert(b as char == ((d + 48) as u8) as char);
    b as char
}

/// Appends the decimal notation of `n`.
pub fn push_decimal(s: &mut String, n: u64)
    ensures
        final(s)@ == old(s)@ + decimal(n as nat),
    decreases n,
{
    if n >= 10 {
        push_decimal(s, n / 10);
    }
    let c = digit_of(n % 10);
    push_char(s, c);
    assert(s@ =~= old(s)@ + decimal(n as nat));
}

/// The decimal notation of `n`.
pub fn decimal_string(n: u64) -> (s: String)
    ensures
        s@ == decimal(n as nat),
{
    let mut s = String::new();
    push_decimal(&mut s, n);
    assert(s@ =~= decimal(n as nat));
    s
}

/// Decimal notation has only digits, never starts with '+', and reads back
/// as the number it was written from.
pub proof fn lemma_decimal_digits(n: nat)
    ensures
        all_digits(decimal(n)),
        decimal(n).len() >= 1,
        digits_value(decimal(n)) == n,
        decimal(n)[0] != '+',
        decimal(n)[0] != '-',
    decreases n,
{
    if n < 10 {
        assert(decimal(n) =~= seq![digit_char(n)]);
        assert(is_digit(digit_char(n)));
        assert(digit_value(digit_char(n)) == n);
        assert(decimal(n).drop_last() =~= Seq::<char>::empty());
        assert(digits_value(Seq::<char>::empty()) == 0);
        assert(decimal(n).last() == digit_char(n));
    } else {
        lemma_decimal_digits(n / 10);
        let d = decimal(n / 10);
        let s = decimal(n);
        assert(s == d.push(digit_char(n % 10)));
        assert(s.drop_last() =~= d);
        assert(is_digit(digit_char(n % 10)));
        assert(digit_value(digit_char(n % 10)) == n % 10);
        assert(s.last() == digit_char(n % 10));
        assert(digits_value(s) == digits_value(d) * 10 + n % 10);
        assert forall|i: int| 0 <= i < s.len() implies is_digit(#[trigger] s[i]) by {
            if i < d.len() {
                assert(s[i] == d[i]);
            }
        }
        assert(s[0] == d[0]);
    }
}

// ---------------------------------------------------------------------------
// Integer parsing with the rules of std's `FromStr` for unsigned integers
// ---------------------------------------------------------------------------

/// Why reading an unsigned integer failed (the kinds of std's
/// `ParseIntError` that unsigned parsing can produce).
#[derive(Debug, Clone, Copy, PartialEq, Eq)]
pub enum IntErrorKind {
    Empty,
    InvalidDigit,
    PosOverflow,
}

/// Reads digits left to right, failing at the first non-digit or at the
/// first digit that takes the value above `max`, whichever comes first.
pub open spec fn scan_digits(d: Seq<char>, max: nat) -> Result<nat, IntErrorKind>
    decreases d.len(),
{
    if d.len() == 0 {
        Ok(0)
    } else {
        match scan_digits(d.drop_last(), max) {
            Err(e) => Err(e),
            Ok(v) => if !is_digit(d.last()) {
                Err(IntErrorKind::InvalidDigit)
            } else if v * 10 + digit_value(d.last()) > max {
                Err(IntErrorKind::PosOverflow)
            } else {
                Ok(v * 10 + digit_value(d.last()))
            },
        }
    }
}

/// What `str::parse` gives for an unsigned integer type whose largest
/// value is `max`: one optional leading `+`, then decimal digits.
pub open spec fn parse_unsigned(s: Seq<char>, max: nat) -> Result<nat, IntErrorKind> {
    if s.len() == 0 {
        Err(IntErrorKind::Empty)
    } else if (s[0] == '+' || s[0] == '-') && s.len() == 1 {
        Err(IntErrorKind::InvalidDigit)
    } else if s[0] == '+' {
        scan_digits(s.drop_first(), max)
    } else {
        scan_digits(s, max)
    }
}

/// The text std's `ParseIntError` displays for each kind.
pub open spec fn int_error_message(kind: IntErrorKind) -> Seq<char> {
    match kind {
        IntErrorKind::Empty => "cannot parse integer from empty string"@,
        IntErrorKind::InvalidDigit => "invalid digit found in string"@,
        IntErrorKind::PosOverflow => "number too large to fit in target type"@,
    }
}

/// Digits within range read back as their value.
pub proof fn lemma_scan_all_digits(d: Seq<char>, max: nat)
    requires
        all_digits(d),
        digits_value(d) <= max,
    ensures
        scan_digits(d, max) == Ok::<nat, IntErrorKind>(digits_value(d)),
    decreases d.len(),
{
    if d.len() > 0 {
        let p = d.drop_last();
        assert(all_digits(p)) by {
            assert forall|i: int| 0 <= i < p.len() implies is_digit(#[trigger] p[i]) by {
                assert(p[i] == d[i]);
            }
        }
        assert(is_digit(d[d.len() - 1]));
        assert(digits_value(p) <= digits_value(d));
        lemma_scan_all_digits(p, max);
    }
}

/// Parsing the decimal notation of a value in range gives the value back.
pub proof fn lemma_parse_decimal(n: nat, max: nat)
    requires
        n <= max,
    ensures
        parse_unsigned(decimal(n), max) == Ok::<nat, IntErrorKind>(n),
{
    lemma_decimal_digits(n);
    lemma_scan_all_digits(decimal(n), max);
}

/// Reads an unsigned integer whose largest value is `max`.
pub fn parse_unsigned_exec(s: &Vec<char>, max: u64) -> (r: Result<u64, IntErrorKind>)
    ensures
        match r {
            Ok(v) => parse_unsigned(s@, max as nat) == Ok::<nat, IntErrorKind>(v as nat),
            Err(e) => parse_unsigned(s@, max as nat) == Err::<nat, IntErrorKind>(e),
        },
{
    let n = s.len();
    if n == 0 {
        return Err(IntErrorKind::Empty);
    }
    if (s[0] == '+' || s[0] == '-') && n == 1 {
        return Err(IntErrorKind::InvalidDigit);
    }
    let start: usize = if s[0] == '+' { 1 } else { 0 };
    let ghost d = s@.subrange(start as int, n as int);
    assert(parse_unsigned(s@, max as nat) == scan_digits(d, max as nat)) by {
        if s@[0] == '+' {
            assert(d =~= s@.drop_first());
        } else {
            assert(d =~= s@);
        }
    }
    let mut value: u64 = 0;
    let mut i: usize = start;
    assert(s@.subrange(start as int, i as int) =~= Seq::<char>::empty());
    while i < n
        invariant
            start <= i <= n,
            n == s@.len(),
            d == s@.subrange(start as int, n as int),
            parse_unsigned(s@, max as nat) == scan_digits(d, max as nat),
            value <= max,
            scan_digits(s@.subrange(start as int, i as int), max as nat)
                == Ok::<nat, IntErrorKind>(value as nat),
        decreases n - i,
    {
        let c = s[i];
        let ghost pre = s@.subrange(start as int, i as int);
        let ghost cur = s@.subrange(start as int, i + 1);
        let ghost k: nat = (i + 1 - start) as nat;
        assert(cur.drop_last() =~= pre);
        assert(cur.last() == c);
        assert(d.subrange(0, k as int) =~= cur);
        if !('0' <= c && c <= '9') {
            assert(scan_digits(cur, max as nat) == Err::<nat, IntErrorKind>(IntErrorKind::InvalidDigit));
            proof {
                lemma_scan_error_extends(d, k, max as nat);
            }
            return Err(IntErrorKind::InvalidDigit);
        }
        let dv: u64 = (c as u64) - 48;
        assert(dv == digit_value(c));
        if dv > max || value > (max - dv) / 10 {
            assert(value * 10 + dv > max) by (nonlinear_arith)
                requires
                    dv > max || value > (max - dv) / 10,
            ;
            assert(scan_digits(cur, max as nat) == Err::<nat, IntErrorKind>(IntErrorKind::PosOverflow));
            proof {
                lemma_scan_error_extends(d, k, max as nat);
            }
            return Err(IntErrorKind::PosOverflow);
        }
        assert(value * 10 + dv <= max) by (nonlinear_arith)
            requires
                value <= (max - dv) / 10,
                dv <= max,
        ;
        value = value * 10 + dv;
        i = i + 1;
    }
    assert(s@.subrange(start as int, n as int) =~= d);
    Ok(value)
}

/// Once a prefix fails, every longer prefix fails the same way.
pub proof fn lemma_scan_error_extends(d: Seq<char>, k: nat, max: nat)
    requires
        k <= d.len(),
        scan_digits(d.subrange(0, k as int), max) is Err,
    ensures
        scan_digits(d, max) == scan_digits(d.subrange(0, k as int), max),
    decreases d.len() - k,
{
    if k < d.len() {
        let a = d.subrange(0, (k + 1) as int);
        assert(a.drop_last() =~= d.subrange(0, k as int));
        assert(d.subrange(0, (k + 1) as int) == a);
        lemma_scan_error_extends(d, k + 1, max);
    } else {
        assert(d.subrange(0, k as int) =~= d);
    }
}


// ---------------------------------------------------------------------------
// Whitespace, case and comparison
// ---------------------------------------------------------------------------

/// `char::is_whitespace`: the code points with the Unicode `White_Space`
/// property.
pub open spec fn is_whitespace(c: char) -> bool {
    let u = c as u32;
    (0x09 <= u && u <= 0x0d) || u == 0x20 || u == 0x85 || u == 0xa0 || u == 0x1680
        || (0x2000 <= u && u <= 0x200a) || u == 0x2028 || u == 0x2029 || u == 0x202f
        || u == 0x205f || u == 0x3000
}

/// The sequence with leading whitespace removed.
pub open spec fn trim_start(s: Seq<char>) -> Seq<char>
    decreases s.len(),
{
    if s.len() > 0 && is_whitespace(s[0]) {
        trim_start(s.drop_first())
    } else {
        s
    }
}

/// The sequence with trailing whitespace removed.
pub open spec fn trim_end(s: Seq<char>) -> Seq<char>
    decreases s.len(),
{
    if s.len() > 0 && is_whitespace(s.last()) {
        trim_end(s.drop_last())
    } else {
        s
    }
}

/// `str::trim`: leading and trailing whitespace removed.
pub open spec fn trim(s: Seq<char>) -> Seq<char> {
    trim_end(trim_start(s))
}

/// `char::to_ascii_lowercase`.
pub open spec fn ascii_lower(c: char) -> char {
    if 'A' <= c && c <= 'Z' {
        ((c as u32) + 32) as char
    } else {
        c
    }
}

/// `str::to_ascii_lowercase`.
pub open spec fn lower(s: Seq<char>) -> Seq<char> {
    s.map_values(|c: char| ascii_lower(c))
}

/// `str::eq_ignore_ascii_case`.
pub open spec fn eq_ignore_case(a: Seq<char>, b: Seq<char>) -> bool {
    lower(a) == lower(b)
}

/// `prefix` opens `s`.
pub open spec fn starts_with(s: Seq<char>, prefix: Seq<char>) -> bool {
    prefix.len() <= s.len() && s.subrange(0, prefix.len() as int) == prefix
}

/// `suffix` closes `s`.
pub open spec fn ends_with(s: Seq<char>, suffix: Seq<char>) -> bool {
    suffix.len() <= s.len() && s.subrange(s.len() - suffix.len(), s.len() as int) == suffix
}

/// `needle` occurs somewhere in `s`.
pub open spec fn contains(s: Seq<char>, needle: Seq<char>) -> bool {
    exists|i: int| 0 <= i <= s.len() - needle.len() && #[trigger] s.subrange(i, i + needle.len()) == needle
}

fn is_whitespace_exec(c: char) -> (r: bool)
    ensures
        r == is_whitespace(c),
{
    let u = c as u32;
    (0x09 <= u && u <= 0x0d) || u == 0x20 || u == 0x85 || u == 0xa0 || u == 0x1680
        || (0x2000 <= u && u <= 0x200a) || u == 0x2028 || u == 0x2029 || u == 0x202f
        || u == 0x205f || u == 0x3000
}

/// The characters of `v` with leading and trailing whitespace removed.
pub fn trim_chars(v: &Vec<char>) -> (r: Vec<char>)
    ensures
        r@ == trim(v@),
{
    let n = v.len();
    let mut i: usize = 0;
    assert(v@.subrange(0, n as int) =~= v@);
    while i < n && is_whitespace_exec(v[i])
        invariant
            n == v@.len(),
            i <= n,
            trim_start(v@) == trim_start(v@.subrange(i as int, n as int)),
        decreases n - i,
    {
        let ghost sub = v@.subrange(i as int, n as int);
        assert(sub.drop_first() =~= v@.subrange(i + 1, n as int));
        i = i + 1;
    }
    let ghost head = v@.subrange(i as int, n as int);
    assert(trim_start(head) == head);
    let mut j: usize = n;
    while j > i && is_whitespace_exec(v[j - 1])
        invariant
            n == v@.len(),
            i <= j <= n,
            trim_end(head) == trim_end(v@.subrange(i as int, j as int)),
        decreases j,
    {
        let ghost sub = v@.subrange(i as int, j as int);
        assert(sub.drop_last() =~= v@.subrange(i as int, j - 1));
        j = j - 1;
    }
    let ghost body = v@.subrange(i as int, j as int);
    assert(trim_end(body) == body);
    let mut r: Vec<char> = Vec::new();
    let mut k: usize = i;
    while k < j
        invariant
            i <= k <= j <= n,
            n == v@.len(),
            r@ == v@.subrange(i as int, k as int),
        decreases j - k,
    {
        r.push(v[k]);
        k = k + 1;
        assert(r@ =~= v@.subrange(i as int, k as int));
    }
    r
}

fn ascii_lower_exec(c: char) -> (r: char)
    ensures
        r == ascii_lower(c),
{
    if 'A' <= c && c <= 'Z' {
        let b: u8 = (c as u8) + 32;
        assert(b as char == ((c as u32) + 32) as char);
        b as char
    } else {
        c
    }
}

/// The characters of `v` with ASCII capitals lowered.
pub fn lower_chars(v: &Vec<char>) -> (r: Vec<char>)
    ensures
        r@ == lower(v@),
{
    let mut r: Vec<char> = Vec::new();
    let mut i: usize = 0;
    while i < v.len()
        invariant
            i <= v.len(),
            r@ == lower(v@.subrange(0, i as int)),
        decreases v.len() - i,
    {
        let c = ascii_lower_exec(v[i]);
        r.push(c);
        i = i + 1;
        assert(r@ =~= lower(v@.subrange(0, i as int)));
    }
    assert(v@.subrange(0, v@.len() as int) =~= v@);
    r
}

/// Whether `v` holds exactly the characters of `lit`.
pub fn eq_lit(v: &Vec<char>, lit: &str) -> (r: bool)
    ensures
        r == (v@ == lit@),
{
    let n = lit.unicode_len();
    if v.len() != n {
        return false;
    }
    let mut i: usize = 0;
    while i < n
        invariant
            n == lit@.len(),
            n == v@.len(),
            i <= n,
            v@.subrange(0, i as int) == lit@.subrange(0, i as int),
        decreases n - i,
    {
        if v[i] != lit.get_char(i) {
            return false;
        }
        i = i + 1;
        assert(v@.subrange(0, i as int) =~= lit@.subrange(0, i as int));
    }
    assert(v@ =~= v@.subrange(0, n as int));
    assert(lit@ =~= lit@.subrange(0, n as int));
    true
}

/// Whether two character vectors are equal.
pub fn eq_chars(a: &Vec<char>, b: &Vec<char>) -> (r: bool)
    ensures
        r == (a@ == b@),
{
    if a.len() != b.len() {
        return false;
    }
    let mut i: usize = 0;
    while i < a.len()
        invariant
            a@.len() == b@.len(),
            i <= a.len(),
            a@.subrange(0, i as int) == b@.subrange(0, i as int),
        decreases a.len() - i,
    {
        if a[i] != b[i] {
            assert(a@[i as int] != b@[i as int]);
            return false;
        }
        i = i + 1;
        assert(a@.subrange(0, i as int) =~= b@.subrange(0, i as int));
    }
    assert(a@ =~= a@.subrange(0, a@.len() as int));
    assert(b@ =~= b@.subrange(0, b@.len() as int));
    true
}

/// Whether `v` opens with the characters of `lit`.
pub fn starts_with_lit(v: &Vec<char>, lit: &str) -> (r: bool)
    ensures
        r == starts_with(v@, lit@),
{
    let n = lit.unicode_len();
    if v.len() < n {
        return false;
    }
    let mut i: usize = 0;
    while i < n
        invariant
            n == lit@.len(),
            n <= v@.len(),
            i <= n,
            v@.subrange(0, i as int) == lit@.subrange(0, i as int),
        decreases n - i,
    {
        if v[i] != lit.get_char(i) {
            assert(v@.subrange(0, n as int)[i as int] != lit@[i as int]);
            return false;
        }
        i = i + 1;
        assert(v@.subrange(0, i as int) =~= lit@.subrange(0, i as int));
    }
    assert(lit@ =~= lit@.subrange(0, n as int));
    true
}

/// Whether `v` closes with the characters of `lit`.
pub fn ends_with_lit(v: &Vec<char>, lit: &str) -> (r: bool)
    ensures
        r == ends_with(v@, lit@),
{
    let n = lit.unicode_len();
    if v.len() < n {
        return false;
    }
    let off = v.len() - n;
    let mut i: usize = 0;
    while i < n
        invariant
            n == lit@.len(),
            off + n == v@.len(),
            i <= n,
            v@.subrange(off as int, off + i) == lit@.subrange(0, i as int),
        decreases n - i,
    {
        assert(off + i < v.len());
        let idx = off + i;
        if v[idx] != lit.get_char(i) {
            assert(v@.subrange(off as int, off + n)[i as int] != lit@[i as int]);
            return false;
        }
        i = i + 1;
        assert(v@.subrange(off as int, off + i) =~= lit@.subrange(0, i as int));
    }
    assert(lit@ =~= lit@.subrange(0, n as int));
    true
}

/// The characters `v[from..to]`.
pub fn slice_chars(v: &Vec<char>, from: usize, to: usize) -> (r: Vec<char>)
    requires
        from <= to <= v.len(),
    ensures
        r@ == v@.subrange(from as int, to as int),
{
    let mut r: Vec<char> = Vec::new();
    let mut k: usize = from;
    while k < to
        invariant
            from <= k <= to <= v.len(),
            r@ == v@.subrange(from as int, k as int),
        decreases to - k,
    {
        r.push(v[k]);
        k = k + 1;
        assert(r@ =~= v@.subrange(from as int, k as int));
    }
    r
}

/// Whether `needle` occurs in `v`.
pub fn contains_lit(v: &Vec<char>, needle: &str) -> (r: bool)
    ensures
        r == contains(v@, needle@),
{
    let nv = chars_of(needle);
    let n = nv.len();
    if n > v.len() {
        assert forall|i: int| 0 <= i <= v@.len() - needle@.len() implies #[trigger] v@.subrange(i, i + needle@.len()) != needle@ by {}
        return false;
    }
    if n == 0 {
        assert(v@.subrange(0int, 0int + needle@.len()) =~= needle@);
        return true;
    }
    let mut i: usize = 0;
    while i <= v.len() - n
        invariant
            n == needle@.len(),
            n >= 1,
            nv@ == needle@,
            n <= v@.len(),
            i <= v@.len() - n + 1,
            forall|k: int| 0 <= k < i ==> #[trigger] v@.subrange(k, k + n) != needle@,
        decreases v.len() - n + 1 - i,
    {
        let w = slice_chars(v, i, i + n);
        if eq_chars(&w, &nv) {
            assert(v@.subrange(i as int, i + needle@.len()) == needle@);
            return true;
        }
        i = i + 1;
    }
    false
}


/// The views of a sequence of strings.
pub open spec fn views(v: Seq<String>) -> Seq<Seq<char>> {
    v.map_values(|s: String| s@)
}

/// Pushing a string pushes its view.
pub proof fn lemma_views_push(v: Seq<String>, s: String)
    ensures
        views(v.push(s)) == views(v).push(s@),
{
    assert(views(v.push(s)) =~= views(v).push(s@));
}

/// `0`, `1` or `n` repetitions of two spaces.
pub open spec fn indent(depth: nat) -> Seq<char>
    decreases depth,
{
    if depth == 0 {
        Seq::<char>::empty()
    } else {
        indent((depth - 1) as nat) + "  "@
    }
}

/// Appends `depth` repetitions of two spaces.
pub fn push_indent(s: &mut String, depth: usize)
    ensures
        final(s)@ == old(s)@ + indent(depth as nat),
{
    let mut i: usize = 0;
    while i < depth
        invariant
            i <= depth,
            s@ == old(s)@ + indent(i as nat),
        decreases depth - i,
    {
        push_str(s, "  ");
        i = i + 1;
        assert(s@ =~= old(s)@ + indent(i as nat));
    }
}

/// `bool`'s `Display`.
pub open spec fn bool_text(b: bool) -> Seq<char> {
    if b { "true"@ } else { "false"@ }
}

/// `bool`'s `Display`.
pub fn bool_string(b: bool) -> (s: String)
    ensures
        s@ == bool_text(b),
{
    if b { owned("true") } else { owned("false") }
}


/// The view of the literal `"#"`.
pub proof fn lemma_lit_hash()
    ensures
        "#"@ == seq!['#'],
{
    reveal_strlit("#");
}


/// `sep` and the decimal notation of each number, in order.
pub open spec fn sep_decimals(path: Seq<usize>, sep: char) -> Seq<char>
    decreases path.len(),
{
    if path.len() == 0 {
        Seq::<char>::empty()
    } else {
        sep_decimals(path.drop_last(), sep) + seq![sep] + decimal(path.last() as nat)
    }
}

/// Appends `sep` and the decimal notation of each number.
pub fn push_sep_decimals(s: &mut String, path: &Vec<usize>, sep: char)
    ensures
        final(s)@ == old(s)@ + sep_decimals(path@, sep),
{
    let mut i: usize = 0;
    assert(path@.subrange(0, 0) =~= Seq::<usize>::empty());
    while i < path.len()
        invariant
            i <= path.len(),
            s@ == old(s)@ + sep_decimals(path@.subrange(0, i as int), sep),
        decreases path.len() - i,
    {
        push_char(s, sep);
        push_decimal(s, path[i] as u64);
        let ghost next = path@.subrange(0, i + 1);
        assert(next.drop_last() =~= path@.subrange(0, i as int));
        i = i + 1;
        assert(s@ =~= old(s)@ + sep_decimals(path@.subrange(0, i as int), sep));
    }
    assert(path@.subrange(0, path@.len() as int) =~= path@);
}

/// Lines joined by `\n`, with no newline after the last.
pub open spec fn join_lines(ls: Seq<Seq<char>>) -> Seq<char>
    decreases ls.len(),
{
    if ls.len() == 0 {
        Seq::<char>::empty()
    } else if ls.len() == 1 {
        ls[0]
    } else {
        join_lines(ls.drop_last()) + "\n"@ + ls.last()
    }
}

/// `[String]::join` with a separator.
pub open spec fn join_with(ls: Seq<Seq<char>>, sep: Seq<char>) -> Seq<char>
    decreases ls.len(),
{
    if ls.len() == 0 {
        Seq::<char>::empty()
    } else if ls.len() == 1 {
        ls[0]
    } else {
        join_with(ls.drop_last(), sep) + sep + ls.last()
    }
}

/// Joins strings with a separator.
pub fn join_strings(v: &Vec<String>, sep: &str) -> (s: String)
    ensures
        s@ == join_with(views(v@), sep@),
{
    let mut s = String::new();
    let mut i: usize = 0;
    assert(views(v@).subrange(0, 0) =~= Seq::<Seq<char>>::empty());
    while i < v.len()
        invariant
            i <= v.len(),
            s@ == join_with(views(v@).subrange(0, i as int), sep@),
        decreases v.len() - i,
    {
        let ghost next = views(v@).subrange(0, i + 1);
        assert(next.drop_last() =~= views(v@).subrange(0, i as int));
        if i > 0 {
            push_str(&mut s, sep);
        }
        push_str(&mut s, v[i].as_str());
        i = i + 1;
        assert(s@ =~= join_with(views(v@).subrange(0, i as int), sep@));
    }
    assert(views(v@).subrange(0, v@.len() as int) =~= views(v@));
    s
}

/// Splitting at a separator: the finished segments and the open one.
pub open spec fn split_fold(s: Seq<char>, sep: char) -> (Seq<Seq<char>>, Seq<char>)
    decreases s.len(),
{
    if s.len() == 0 {
        (Seq::<Seq<char>>::empty(), Seq::<char>::empty())
    } else {
        let (d, c) = split_fold(s.drop_last(), sep);
        if s.last() == sep {
            (d.push(c), Seq::<char>::empty())
        } else {
            (d, c.push(s.last()))
        }
    }
}

/// `str::split` at one character: always at least one segment.
pub open spec fn split_at_char(s: Seq<char>, sep: char) -> Seq<Seq<char>> {
    let (d, c) = split_fold(s, sep);
    d.push(c)
}

/// Splits at a character.
pub fn split_chars(v: &Vec<char>, sep: char) -> (r: Vec<Vec<char>>)
    ensures
        r@.len() == split_at_char(v@, sep).len(),
        forall|i: int| 0 <= i < r@.len() ==> #[trigger] r@[i]@ == split_at_char(v@, sep)[i],
{
    let mut done: Vec<Vec<char>> = Vec::new();
    let mut cur: Vec<char> = Vec::new();
    let mut i: usize = 0;
    assert(v@.subrange(0, 0) =~= Seq::<char>::empty());
    while i < v.len()
        invariant
            i <= v.len(),
            done@.len() == split_fold(v@.subrange(0, i as int), sep).0.len(),
            forall|k: int| 0 <= k < done@.len() ==> #[trigger] done@[k]@ == split_fold(v@.subrange(0, i as int), sep).0[k],
            cur@ == split_fold(v@.subrange(0, i as int), sep).1,
        decreases v.len() - i,
    {
        let ghost pre = v@.subrange(0, i as int);
        assert(v@.subrange(0, i + 1).drop_last() =~= pre);
        let c = v[i];
        if c == sep {
            let finished = cur;
            done.push(finished);
            cur = Vec::new();
        } else {
            cur.push(c);
        }
        i = i + 1;
    }
    assert(v@.subrange(0, v@.len() as int) =~= v@);
    done.push(cur);
    done
}

/// Appending text without the separator extends the open segment.
pub proof fn lemma_split_fold_plain(s: Seq<char>, t: Seq<char>, sep: char)
    requires
        forall|i: int| 0 <= i < t.len() ==> t[i] != sep,
    ensures
        split_fold(s + t, sep) == (split_fold(s, sep).0, split_fold(s, sep).1 + t),
    decreases t.len(),
{
    if t.len() == 0 {
        assert(s + t =~= s);
        assert(split_fold(s, sep).1 + t =~= split_fold(s, sep).1);
    } else {
        lemma_split_fold_plain(s, t.drop_last(), sep);
        assert((s + t).drop_last() =~= s + t.drop_last());
        assert((s + t).last() == t.last());
        assert(split_fold(s, sep).1 + t.drop_last() + seq![t.last()] =~= split_fold(s, sep).1 + t);
        assert((split_fold(s, sep).1 + t.drop_last()).push(t.last()) =~= split_fold(s, sep).1 + t);
    }
}

/// Appending the separator closes the open segment.
pub proof fn lemma_split_fold_sep(s: Seq<char>, sep: char)
    ensures
        split_fold(s + seq![sep], sep) == (split_fold(s, sep).0.push(split_fold(s, sep).1), Seq::<char>::empty()),
{
    assert((s + seq![sep]).drop_last() =~= s);
}


/// Appends a string to a list of strings.
pub fn push_string(v: &mut Vec<String>, s: String)
    ensures
        views(final(v)@) == views(old(v)@).push(s@),
        final(v)@.len() == old(v)@.len() + 1,
{
    v.push(s);
    assert(views(v@) =~= views(old(v)@).push(s@));
}

/// Appends a line.
pub fn push_line(lines: &mut Vec<String>, line: String)
    ensures
        views(final(lines)@) == views(old(lines)@).push(line@),
{
    lines.push(line);
    assert(views(lines@) =~= views(old(lines)@).push(line@));
}

/// The lines joined by newlines.
pub fn join_line_vec(lines: &Vec<String>) -> (s: String)
    ensures
        s@ == join_lines(views(lines@)),
{
    let mut s = String::new();
    let mut i: usize = 0;
    assert(views(lines@).subrange(0, 0) =~= Seq::<Seq<char>>::empty());
    while i < lines.len()
        invariant
            i <= lines.len(),
            s@ == join_lines(views(lines@).subrange(0, i as int)),
        decreases lines.len() - i,
    {
        let ghost next = views(lines@).subrange(0, i + 1);
        assert(next.drop_last() =~= views(lines@).subrange(0, i as int));
        if i > 0 {
            push_str(&mut s, "\n");
        }
        push_str(&mut s, lines[i].as_str());
        i = i + 1;
        assert(s@ =~= join_lines(views(lines@).subrange(0, i as int)));
    }
    assert(views(lines@).subrange(0, lines@.len() as int) =~= views(lines@));
    s
}

} // verus!
