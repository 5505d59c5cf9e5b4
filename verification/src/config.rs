//! `delve.yaml` settings: defaults, validation and the commented dump.
//!
//! Reading the file and decoding YAML happen outside the library; the
//! decoded sections arrive as [`DelveConfigFile`], and everything that is
//! decided from them (fallbacks, warnings, threshold normalisation, the
//! dump text) is here.

use vstd::prelude::*;

use crate::text::{
    bool_string, bool_text, chars_of, decimal, decimal_string, ends_with, ends_with_lit, eq_lit,
    indent, int_error_message, lemma_views_push, lower, lower_chars, owned, parse_unsigned,
    parse_unsigned_exec, push_char, push_indent, push_str, slice_chars, trim, trim_chars, views,
    IntErrorKind,
};

verus! {

/// An IPv4 or IPv6 address, as its octets or 16-bit groups.
#[derive(Debug, Clone, Copy, PartialEq, Eq, Structural)]
pub enum IpAddress {
    V4(u8, u8, u8, u8),
    V6(u16, u16, u16, u16, u16, u16, u16, u16),
}

pub const DEFAULT_MAX_QUERIES: usize = 64;

pub const DEFAULT_MAX_PARALLEL_QUERIES: usize = 8;

pub const DEFAULT_RTT_GREEN_MS: u32 = 50;

pub const DEFAULT_RTT_YELLOW_MS: u32 = 125;

pub const DEFAULT_RTT_ORANGE_MS: u32 = 250;

pub const DEFAULT_RTT_INSANE_MS: u32 = 1000;

pub const DEFAULT_RTT_BAR_WIDTH: u16 = 20;

/// Fixed RTT scale for absolute-length bars (Browse detail, SVG export cards).
/// Matches the default `orange_ms` color threshold.
pub const RTT_BAR_ABSOLUTE_SCALE_MS: u32 = DEFAULT_RTT_ORANGE_MS;

/// Colour thresholds and width of the RTT bar.
#[derive(Debug, Clone, Copy, PartialEq, Eq, Structural)]
pub struct RttBarConfig {
    pub green_ms: u32,
    pub yellow_ms: u32,
    pub orange_ms: u32,
    pub insane_ms: u32,
    pub max_width: u16,
}

pub open spec fn max_int(a: int, b: int) -> int {
    if a >= b { a } else { b }
}

pub open spec fn clamp_int(v: int, lo: int, hi: int) -> int {
    if v < lo { lo } else if v > hi { hi } else { v }
}

impl RttBarConfig {
    /// The configuration shipped as default.
    pub open spec fn spec_default() -> RttBarConfig {
        RttBarConfig {
            green_ms: 50,
            yellow_ms: 125,
            orange_ms: 250,
            insane_ms: 1000,
            max_width: 20,
        }
    }

    /// Thresholds are at least 1 and strictly increasing; the width lies in 4..=40.
    pub open spec fn is_normalized(self) -> bool {
        &&& 1 <= self.green_ms
        &&& self.green_ms < self.yellow_ms
        &&& self.yellow_ms < self.orange_ms
        &&& self.orange_ms < self.insane_ms
        &&& 4 <= self.max_width <= 40
    }

    /// Normalisation raises each threshold above the previous one; it needs
    /// the raised orange threshold to leave room for one more step.
    pub open spec fn can_normalize(self) -> bool {
        let g = max_int(self.green_ms as int, 1);
        let y = max_int(self.yellow_ms as int, g + 1);
        let o = max_int(self.orange_ms as int, y + 1);
        o + 1 <= u32::MAX
    }

    /// Each threshold raised to at least one above the previous, the width clamped to 4..=40.
    pub open spec fn spec_normalized(self) -> RttBarConfig {
        let g = max_int(self.green_ms as int, 1);
        let y = max_int(self.yellow_ms as int, g + 1);
        let o = max_int(self.orange_ms as int, y + 1);
        let i = max_int(self.insane_ms as int, o + 1);
        RttBarConfig {
            green_ms: g as u32,
            yellow_ms: y as u32,
            orange_ms: o as u32,
            insane_ms: i as u32,
            max_width: clamp_int(self.max_width as int, 4, 40) as u16,
        }
    }

    /// Thresholds raised to be strictly increasing and the width clamped.
    pub fn normalized(self) -> (r: Self)
        requires
            self.can_normalize(),
        ensures
            r == self.spec_normalized(),
            r.is_normalized(),
    {
        let green_ms = if self.green_ms >= 1 { self.green_ms } else { 1 };
        let yellow_ms = if self.yellow_ms >= green_ms + 1 { self.yellow_ms } else { green_ms + 1 };
        let orange_ms = if self.orange_ms >= yellow_ms + 1 { self.orange_ms } else { yellow_ms + 1 };
        let insane_ms = if self.insane_ms >= orange_ms + 1 { self.insane_ms } else { orange_ms + 1 };
        let max_width = if self.max_width < 4 {
            4
        } else if self.max_width > 40 {
            40
        } else {
            self.max_width
        };
        RttBarConfig { green_ms, yellow_ms, orange_ms, insane_ms, max_width }
    }
}

impl Default for RttBarConfig {
    fn default() -> (r: Self)
        ensures
            r == RttBarConfig::spec_default(),
    {
        RttBarConfig {
            green_ms: DEFAULT_RTT_GREEN_MS,
            yellow_ms: DEFAULT_RTT_YELLOW_MS,
            orange_ms: DEFAULT_RTT_ORANGE_MS,
            insane_ms: DEFAULT_RTT_INSANE_MS,
            max_width: DEFAULT_RTT_BAR_WIDTH,
        }
    }
}

/// A configuration that is already normalized can be normalized, and
/// normalizing leaves it as it is.
pub proof fn lemma_normalized_fixes_normal(c: RttBarConfig)
    requires
        c.is_normalized(),
    ensures
        c.can_normalize(),
        c.spec_normalized() == c,
{
}

/// Normalizing twice is normalizing once.
pub proof fn lemma_normalized_idempotent(c: RttBarConfig)
    requires
        c.can_normalize(),
    ensures
        c.spec_normalized().is_normalized(),
        c.spec_normalized().can_normalize(),
        c.spec_normalized().spec_normalized() == c.spec_normalized(),
{
}

/// The default thresholds are normalized.
pub proof fn lemma_default_is_normalized()
    ensures
        RttBarConfig::spec_default().is_normalized(),
        RttBarConfig::spec_default().spec_normalized() == RttBarConfig::spec_default(),
{
}

/// How long stored sessions are kept.
#[derive(Debug, Clone, Copy, PartialEq, Eq, Structural)]
pub enum SessionRetention {
    Never,
    Days(u64),
    Months(u32),
}

/// What `parse_retention` gives for a raw setting: `180d`, `6mo`, or one of
/// `0`, `never`, `unlimited` after trimming and lowering ASCII capitals.
pub open spec fn retention_result(raw: Seq<char>) -> Result<SessionRetention, Seq<char>> {
    let value = lower(trim(raw));
    if value.len() == 0 {
        Err("empty retention value"@)
    } else if value == "0"@ || value == "never"@ || value == "unlimited"@ {
        Ok(SessionRetention::Never)
    } else if value.last() == 'd' {
        match parse_unsigned(value.drop_last(), u64::MAX as nat) {
            Ok(n) => Ok(SessionRetention::Days(n as u64)),
            Err(e) => Err("invalid day count: "@ + int_error_message(e)),
        }
    } else if ends_with(value, "mo"@) {
        match parse_unsigned(value.subrange(0, value.len() - 2), u32::MAX as nat) {
            Ok(n) => Ok(SessionRetention::Months(n as u32)),
            Err(e) => Err("invalid month count: "@ + int_error_message(e)),
        }
    } else {
        Err("expected duration like 180d, 6mo, unlimited, 0, or never; got \""@ + raw + "\""@)
    }
}

/// The text of an integer parse error.
pub fn int_error_text(kind: IntErrorKind) -> (s: String)
    ensures
        s@ == int_error_message(kind),
{
    match kind {
        IntErrorKind::Empty => owned("cannot parse integer from empty string"),
        IntErrorKind::InvalidDigit => owned("invalid digit found in string"),
        IntErrorKind::PosOverflow => owned("number too large to fit in target type"),
    }
}

/// Parses a `session.retention` value.
pub fn parse_retention(raw: &str) -> (r: Result<SessionRetention, String>)
    ensures
        match r {
            Ok(v) => retention_result(raw@) == Ok::<SessionRetention, Seq<char>>(v),
            Err(e) => retention_result(raw@) == Err::<SessionRetention, Seq<char>>(e@),
        },
{
    let raw_chars = chars_of(raw);
    let trimmed = trim_chars(&raw_chars);
    let value = lower_chars(&trimmed);
    let n = value.len();
    if n == 0 {
        return Err(owned("empty retention value"));
    }
    if eq_lit(&value, "0") || eq_lit(&value, "never") || eq_lit(&value, "unlimited") {
        return Ok(SessionRetention::Never);
    }
    if value[n - 1] == 'd' {
        let digits = slice_chars(&value, 0, n - 1);
        assert(digits@ =~= value@.drop_last());
        return match parse_unsigned_exec(&digits, u64::MAX) {
            Ok(days) => Ok(SessionRetention::Days(days)),
            Err(e) => {
                let mut msg = owned("invalid day count: ");
                let text = int_error_text(e);
                push_str(&mut msg, text.as_str());
                Err(msg)
            },
        };
    }
    if ends_with_lit(&value, "mo") {
        proof {
            reveal_strlit("mo");
        }
        let digits = slice_chars(&value, 0, n - 2);
        return match parse_unsigned_exec(&digits, 4294967295u64) {
            Ok(months) => {
                assert(months <= u32::MAX);
                Ok(SessionRetention::Months(months as u32))
            },
            Err(e) => {
                let mut msg = owned("invalid month count: ");
                let text = int_error_text(e);
                push_str(&mut msg, text.as_str());
                Err(msg)
            },
        };
    }
    let mut msg = owned("expected duration like 180d, 6mo, unlimited, 0, or never; got \"");
    push_str(&mut msg, raw);
    push_str(&mut msg, "\"");
    Err(msg)
}

/// Effective settings of delve.
#[derive(Debug, Clone)]
pub struct DelveConfig {
    pub session_retention: SessionRetention,
    pub trace_max_queries_per_action: usize,
    pub trace_max_parallel_queries: usize,
    pub explore_persist_view_state: bool,
    pub explore_rtt_bar: RttBarConfig,
    pub capture_public_ip_enabled: bool,
    pub capture_public_ip_provider: String,
    pub capture_public_ip_static_address: Option<IpAddress>,
}

impl DelveConfig {
    /// The settings that hold when nothing is configured.
    pub open spec fn is_default(self) -> bool {
        &&& self.session_retention == SessionRetention::Never
        &&& self.trace_max_queries_per_action == 64
        &&& self.trace_max_parallel_queries == 8
        &&& self.explore_persist_view_state
        &&& self.explore_rtt_bar == RttBarConfig::spec_default()
        &&& !self.capture_public_ip_enabled
        &&& self.capture_public_ip_provider@ == Seq::<char>::empty()
        &&& self.capture_public_ip_static_address is None
    }
}

impl Default for DelveConfig {
    fn default() -> (r: Self)
        ensures
            r.is_default(),
    {
        DelveConfig {
            session_retention: SessionRetention::Never,
            trace_max_queries_per_action: DEFAULT_MAX_QUERIES,
            trace_max_parallel_queries: DEFAULT_MAX_PARALLEL_QUERIES,
            explore_persist_view_state: true,
            explore_rtt_bar: RttBarConfig::default(),
            capture_public_ip_enabled: false,
            capture_public_ip_provider: String::new(),
            capture_public_ip_static_address: None,
        }
    }
}


// ---------------------------------------------------------------------------
// The decoded configuration file
// ---------------------------------------------------------------------------

/// `explore.rtt_bar` as written in the file.
#[derive(Debug, Clone, Copy)]
pub struct RttBarSection {
    pub green_ms: Option<u32>,
    pub yellow_ms: Option<u32>,
    pub orange_ms: Option<u32>,
    pub insane_ms: Option<u32>,
    pub max_width: Option<u16>,
}

/// `session` as written in the file.
#[derive(Debug, Clone)]
pub struct SessionSection {
    pub retention: Option<String>,
}

/// `trace` as written in the file.
#[derive(Debug, Clone, Copy)]
pub struct TraceSection {
    pub max_queries_per_action: Option<usize>,
    pub max_parallel_queries: Option<usize>,
}

/// `explore` as written in the file.
#[derive(Debug, Clone, Copy)]
pub struct ExploreSection {
    pub persist_view_state: Option<bool>,
    pub rtt_bar: Option<RttBarSection>,
}

/// The sections of `delve.yaml`; a missing section has every key unset.
#[derive(Debug, Clone)]
pub struct DelveConfigFile {
    pub session: SessionSection,
    pub trace: TraceSection,
    pub explore: ExploreSection,
}

impl DelveConfigFile {
    /// A file with no keys set (the state when no file exists).
    pub fn empty() -> (r: Self)
        ensures
            r.session.retention is None,
            r.trace.max_queries_per_action is None,
            r.trace.max_parallel_queries is None,
            r.explore.persist_view_state is None,
            r.explore.rtt_bar is None,
    {
        DelveConfigFile {
            session: SessionSection { retention: None },
            trace: TraceSection { max_queries_per_action: None, max_parallel_queries: None },
            explore: ExploreSection { persist_view_state: None, rtt_bar: None },
        }
    }
}

pub open spec fn opt_or<T>(o: Option<T>, d: T) -> T {
    match o {
        Some(v) => v,
        None => d,
    }
}

/// A section with every key unset.
pub open spec fn unset_rtt_section() -> RttBarSection {
    RttBarSection { green_ms: None, yellow_ms: None, orange_ms: None, insane_ms: None, max_width: None }
}

/// The bar settings before normalisation: each key or its default.
pub open spec fn rtt_raw(section: Option<RttBarSection>) -> RttBarConfig {
    let s = opt_or(section, unset_rtt_section());
    let d = RttBarConfig::spec_default();
    RttBarConfig {
        green_ms: opt_or(s.green_ms, d.green_ms),
        yellow_ms: opt_or(s.yellow_ms, d.yellow_ms),
        orange_ms: opt_or(s.orange_ms, d.orange_ms),
        insane_ms: opt_or(s.insane_ms, d.insane_ms),
        max_width: opt_or(s.max_width, d.max_width),
    }
}

/// Some threshold is set in the file.
pub open spec fn rtt_thresholds_set(section: Option<RttBarSection>) -> bool {
    let s = opt_or(section, unset_rtt_section());
    s.green_ms is Some || s.yellow_ms is Some || s.orange_ms is Some || s.insane_ms is Some
}

/// The file's thresholds can be normalized (they are, when none is set).
pub open spec fn rtt_section_ok(section: Option<RttBarSection>) -> bool {
    rtt_thresholds_set(section) ==> rtt_raw(section).can_normalize()
}

/// The effective bar settings: normalized when a threshold is set, else
/// with only the width clamped when the width is set.
pub open spec fn rtt_effective(section: Option<RttBarSection>) -> RttBarConfig {
    let raw = rtt_raw(section);
    if rtt_thresholds_set(section) {
        raw.spec_normalized()
    } else if opt_or(section, unset_rtt_section()).max_width is Some {
        RttBarConfig { max_width: clamp_int(raw.max_width as int, 4, 40) as u16, ..raw }
    } else {
        raw
    }
}

/// The warnings that reading the bar settings adds.
pub open spec fn rtt_warnings(section: Option<RttBarSection>) -> Seq<Seq<char>> {
    if rtt_thresholds_set(section) && rtt_raw(section).spec_normalized() != rtt_raw(section) {
        seq!["warning: explore.rtt_bar thresholds adjusted to be strictly increasing"@]
    } else {
        Seq::<Seq<char>>::empty()
    }
}

/// Builds the bar settings from the file, warning when thresholds had to be raised.
pub fn parse_rtt_bar_config(section: Option<RttBarSection>, warnings: &mut Vec<String>) -> (r: RttBarConfig)
    requires
        rtt_section_ok(section),
    ensures
        r == rtt_effective(section),
        views(final(warnings)@) == views(old(warnings)@) + rtt_warnings(section),
{
    let defaults = RttBarConfig::default();
    let s = match section {
        Some(s) => s,
        None => RttBarSection { green_ms: None, yellow_ms: None, orange_ms: None, insane_ms: None, max_width: None },
    };
    let mut config = RttBarConfig {
        green_ms: match s.green_ms { Some(v) => v, None => defaults.green_ms },
        yellow_ms: match s.yellow_ms { Some(v) => v, None => defaults.yellow_ms },
        orange_ms: match s.orange_ms { Some(v) => v, None => defaults.orange_ms },
        insane_ms: match s.insane_ms { Some(v) => v, None => defaults.insane_ms },
        max_width: match s.max_width { Some(v) => v, None => defaults.max_width },
    };
    assert(config == rtt_raw(section));
    if s.green_ms.is_some() || s.yellow_ms.is_some() || s.orange_ms.is_some() || s.insane_ms.is_some() {
        let normalized = config.normalized();
        if normalized != config {
            let msg = owned("warning: explore.rtt_bar thresholds adjusted to be strictly increasing");
            proof {
                lemma_views_push(warnings@, msg);
            }
            warnings.push(msg);
        }
        config = normalized;
    } else {
        if s.max_width.is_some() {
            let w = config.max_width;
            config.max_width = if w < 4 { 4 } else if w > 40 { 40 } else { w };
        }
        assert(views(warnings@) =~= views(old(warnings)@) + rtt_warnings(section));
    }
    assert(views(warnings@) =~= views(old(warnings)@) + rtt_warnings(section));
    config
}

/// The raw retention setting: the file's value, or `never`.
pub open spec fn retention_raw(parsed: DelveConfigFile) -> Seq<char> {
    match parsed.session.retention {
        Some(s) => s@,
        None => "never"@,
    }
}

/// The effective retention: the parsed setting, or `Never` when it is invalid.
pub open spec fn retention_effective(parsed: DelveConfigFile) -> SessionRetention {
    match retention_result(retention_raw(parsed)) {
        Ok(r) => r,
        Err(_) => SessionRetention::Never,
    }
}

/// The warning for an invalid retention setting, if any.
pub open spec fn retention_warnings(parsed: DelveConfigFile) -> Seq<Seq<char>> {
    match retention_result(retention_raw(parsed)) {
        Ok(_) => Seq::<Seq<char>>::empty(),
        Err(e) => seq![
            "warning: invalid session.retention \""@ + retention_raw(parsed) + "\": "@ + e
                + "; using never"@,
        ],
    }
}

/// A positive count, or the default with a warning when the file says 0.
pub open spec fn count_effective(v: Option<usize>, default: usize) -> usize {
    match v {
        None => default,
        Some(n) => if n == 0 { default } else { n },
    }
}

/// The warning for a zero count.
pub open spec fn count_warnings(v: Option<usize>, key: Seq<char>, default: usize) -> Seq<Seq<char>> {
    if v == Some(0usize) {
        seq!["warning: invalid "@ + key + " 0; using "@ + decimal(default as nat)]
    } else {
        Seq::<Seq<char>>::empty()
    }
}

/// Every warning that `load` adds, in order.
pub open spec fn load_warnings(parsed: DelveConfigFile) -> Seq<Seq<char>> {
    retention_warnings(parsed)
        + count_warnings(parsed.trace.max_queries_per_action, "trace.max_queries_per_action"@, 64)
        + count_warnings(parsed.trace.max_parallel_queries, "trace.max_parallel_queries"@, 8)
        + rtt_warnings(parsed.explore.rtt_bar)
}

/// A count set in the file is the setting whenever it is positive; only a
/// missing key or a zero falls back to the default, and a warning is given
/// exactly when the file's value was replaced.
pub proof fn lemma_count_setting_law(v: Option<usize>, key: Seq<char>, default: usize)
    ensures
        v matches Some(n) ==> (n > 0 ==> count_effective(v, default) == n),
        v is None ==> count_effective(v, default) == default,
        v == Some(0usize) ==> count_effective(v, default) == default,
        default > 0 ==> count_effective(v, default) > 0,
        default > 0 ==> ((count_warnings(v, key, default).len() > 0) <==> (v matches Some(n) && count_effective(v, default) != n)),
{
}

/// The trace budgets `load` takes from a file: a positive
/// `max_queries_per_action` or `max_parallel_queries` set there is the
/// effective one.
pub proof fn lemma_load_keeps_positive_budgets(parsed: DelveConfigFile)
    ensures
        parsed.trace.max_queries_per_action matches Some(n) ==> (n > 0 ==> count_effective(
            parsed.trace.max_queries_per_action,
            64,
        ) == n),
        parsed.trace.max_parallel_queries matches Some(n) ==> (n > 0 ==> count_effective(
            parsed.trace.max_parallel_queries,
            8,
        ) == n),
{
    lemma_count_setting_law(parsed.trace.max_queries_per_action, "trace.max_queries_per_action"@, 64);
    lemma_count_setting_law(parsed.trace.max_parallel_queries, "trace.max_parallel_queries"@, 8);
}

fn count_setting(v: Option<usize>, key: &str, default: usize, warnings: &mut Vec<String>) -> (r: usize)
    ensures
        r == count_effective(v, default),
        views(final(warnings)@) == views(old(warnings)@) + count_warnings(v, key@, default),
{
    match v {
        None => {
            assert(views(warnings@) =~= views(old(warnings)@) + count_warnings(v, key@, default));
            default
        },
        Some(n) => {
            if n == 0 {
                let mut msg = owned("warning: invalid ");
                push_str(&mut msg, key);
                push_str(&mut msg, " 0; using ");
                let d = decimal_string(default as u64);
                push_str(&mut msg, d.as_str());
                proof {
                    lemma_views_push(warnings@, msg);
                }
                warnings.push(msg);
                assert(views(warnings@) =~= views(old(warnings)@) + count_warnings(v, key@, default));
                default
            } else {
                assert(views(warnings@) =~= views(old(warnings)@) + count_warnings(v, key@, default));
                n
            }
        },
    }
}

impl DelveConfig {
    /// The effective settings for a decoded file, and the warnings:
    /// `read_warnings` (from reading the file) followed by one warning per
    /// invalid key, each invalid key falling back to its default.
    pub fn load(parsed: DelveConfigFile, read_warnings: Vec<String>) -> (r: (Self, Vec<String>))
        requires
            rtt_section_ok(parsed.explore.rtt_bar),
        ensures
            r.0.session_retention == retention_effective(parsed),
            r.0.trace_max_queries_per_action == count_effective(parsed.trace.max_queries_per_action, 64),
            r.0.trace_max_parallel_queries == count_effective(parsed.trace.max_parallel_queries, 8),
            r.0.explore_persist_view_state == opt_or(parsed.explore.persist_view_state, true),
            r.0.explore_rtt_bar == rtt_effective(parsed.explore.rtt_bar),
            !r.0.capture_public_ip_enabled,
            r.0.capture_public_ip_provider@ == Seq::<char>::empty(),
            r.0.capture_public_ip_static_address is None,
            views(r.1@) == views(read_warnings@) + load_warnings(parsed),
    {
        let mut warnings = read_warnings;
        let ghost w0 = views(warnings@);
        let session_retention = match &parsed.session.retention {
            Some(raw) => match parse_retention(raw.as_str()) {
                Ok(retention) => {
                    assert(views(warnings@) =~= w0 + retention_warnings(parsed));
                    retention
                },
                Err(error) => {
                    let mut msg = owned("warning: invalid session.retention \"");
                    push_str(&mut msg, raw.as_str());
                    push_str(&mut msg, "\": ");
                    push_str(&mut msg, error.as_str());
                    push_str(&mut msg, "; using never");
                    proof {
                        lemma_views_push(warnings@, msg);
                    }
                    warnings.push(msg);
                    assert(views(warnings@) =~= w0 + retention_warnings(parsed));
                    SessionRetention::Never
                },
            },
            None => {
                let r = parse_retention("never");
                match r {
                    Ok(retention) => {
                        assert(views(warnings@) =~= w0 + retention_warnings(parsed));
                        retention
                    },
                    Err(error) => {
                        let mut msg = owned("warning: invalid session.retention \"");
                        push_str(&mut msg, "never");
                        push_str(&mut msg, "\": ");
                        push_str(&mut msg, error.as_str());
                        push_str(&mut msg, "; using never");
                        proof {
                            lemma_views_push(warnings@, msg);
                        }
                        warnings.push(msg);
                        assert(views(warnings@) =~= w0 + retention_warnings(parsed));
                        SessionRetention::Never
                    },
                }
            },
        };
        let ghost w1 = views(warnings@);
        let trace_max_queries_per_action = count_setting(
            parsed.trace.max_queries_per_action,
            "trace.max_queries_per_action",
            DEFAULT_MAX_QUERIES,
            &mut warnings,
        );
        let trace_max_parallel_queries = count_setting(
            parsed.trace.max_parallel_queries,
            "trace.max_parallel_queries",
            DEFAULT_MAX_PARALLEL_QUERIES,
            &mut warnings,
        );
        let explore_persist_view_state = match parsed.explore.persist_view_state {
            Some(b) => b,
            None => true,
        };
        let explore_rtt_bar = parse_rtt_bar_config(parsed.explore.rtt_bar, &mut warnings);
        assert(views(warnings@) =~= views(read_warnings@) + load_warnings(parsed));
        (DelveConfig {
            session_retention,
            trace_max_queries_per_action,
            trace_max_parallel_queries,
            explore_persist_view_state,
            explore_rtt_bar,
            capture_public_ip_enabled: false,
            capture_public_ip_provider: String::new(),
            capture_public_ip_static_address: None,
        }, warnings)
    }
}


// ---------------------------------------------------------------------------
// The commented dump of every key
// ---------------------------------------------------------------------------

/// One key of the dump: `key: value` when set, else `#key: default`, indented by `depth`.
pub open spec fn yaml_key_line(depth: nat, key: Seq<char>, value: Option<Seq<char>>, default: Seq<char>) -> Seq<char> {
    match value {
        Some(v) => indent(depth) + key + ": "@ + v + "\n"@,
        None => "#"@ + indent(depth) + key + ": "@ + default + "\n"@,
    }
}

proof fn lemma_indent_spaces(depth: nat)
    ensures
        forall|i: int| 0 <= i < indent(depth).len() ==> #[trigger] indent(depth)[i] == ' ',
    decreases depth,
{
    reveal_strlit("  ");
    if depth > 0 {
        lemma_indent_spaces((depth - 1) as nat);
        let p = indent((depth - 1) as nat);
        assert forall|i: int| 0 <= i < indent(depth).len() implies #[trigger] indent(depth)[i] == ' ' by {
            if i < p.len() {
                assert(indent(depth)[i] == p[i]);
            }
        }
    }
}

/// A key's line of the dump is commented out exactly when the file leaves
/// the key unset: it starts with `#` when unset, and when set it starts
/// with the indentation or the key itself, never with `#`.
pub proof fn lemma_key_line_commented_iff_unset(
    depth: nat,
    key: Seq<char>,
    value: Option<Seq<char>>,
    default: Seq<char>,
)
    requires
        key.len() > 0,
        key[0] != '#',
    ensures
        (yaml_key_line(depth, key, value, default)[0] == '#') <==> value is None,
{
    reveal_strlit("#");
    lemma_indent_spaces(depth);
    let line = yaml_key_line(depth, key, value, default);
    match value {
        Some(v) => {
            let ind = indent(depth);
            if ind.len() > 0 {
                assert(line[0] == ind[0]);
            } else {
                assert(line[0] == key[0]);
            }
        },
        None => {
            assert(line[0] == "#"@[0]);
        },
    }
}

/// Drops one trailing carriage return.
pub open spec fn strip_cr(c: Seq<char>) -> Seq<char> {
    if c.len() > 0 && c.last() == '\r' {
        c.drop_last()
    } else {
        c
    }
}

/// The finished lines and the pending line after reading `s`.
pub open spec fn line_split(s: Seq<char>) -> (Seq<Seq<char>>, Seq<char>)
    decreases s.len(),
{
    if s.len() == 0 {
        (Seq::<Seq<char>>::empty(), Seq::<char>::empty())
    } else {
        let (d, c) = line_split(s.drop_last());
        if s.last() == '\n' {
            (d.push(strip_cr(c)), Seq::<char>::empty())
        } else {
            (d, c.push(s.last()))
        }
    }
}

/// `str::lines`: split at `\n`, a `\r` before it dropped, no empty last line.
pub open spec fn lines(s: Seq<char>) -> Seq<Seq<char>> {
    let (d, c) = line_split(s);
    if c.len() == 0 {
        d
    } else {
        d.push(c)
    }
}

/// A line commented out: empty lines stay empty, lines already starting
/// with `#` stay, others get a leading `#`.
pub open spec fn commented_line(l: Seq<char>) -> Seq<char> {
    if l.len() == 0 {
        "\n"@
    } else if l[0] == '#' {
        l + "\n"@
    } else {
        "#"@ + l + "\n"@
    }
}

pub open spec fn commented_lines(ls: Seq<Seq<char>>) -> Seq<char>
    decreases ls.len(),
{
    if ls.len() == 0 {
        Seq::<char>::empty()
    } else {
        commented_lines(ls.drop_last()) + commented_line(ls.last())
    }
}

/// Every line of `body` commented out.
pub open spec fn comment_block_text(body: Seq<char>) -> Seq<char> {
    commented_lines(lines(body))
}

/// A line commented out, without its newline.
pub open spec fn commented_body(l: Seq<char>) -> Seq<char> {
    if l.len() == 0 {
        l
    } else if l[0] == '#' {
        l
    } else {
        "#"@ + l
    }
}

/// No line holds a newline.
pub open spec fn no_newlines(ls: Seq<Seq<char>>) -> bool {
    forall|i: int, j: int| 0 <= i < ls.len() && 0 <= j < ls[i].len() ==> ls[i][j] != '\n'
}

/// No line ends in a carriage return.
pub open spec fn no_trailing_cr(ls: Seq<Seq<char>>) -> bool {
    forall|i: int| 0 <= i < ls.len() ==> !(ls[i].len() > 0 && #[trigger] ls[i].last() == '\r')
}

proof fn lemma_split_holds_no_newline(s: Seq<char>)
    ensures
        no_newlines(line_split(s).0),
        forall|j: int| 0 <= j < line_split(s).1.len() ==> line_split(s).1[j] != '\n',
    decreases s.len(),
{
    if s.len() > 0 {
        lemma_split_holds_no_newline(s.drop_last());
        let (d, c) = line_split(s.drop_last());
        if s.last() == '\n' {
            let l = strip_cr(c);
            assert forall|j: int| 0 <= j < l.len() implies l[j] != '\n' by {
                assert(l[j] == c[j]);
            }
            let nd = d.push(l);
            assert forall|i: int, j: int| 0 <= i < nd.len() && 0 <= j < nd[i].len() implies nd[i][j] != '\n' by {
                if i < d.len() {
                    assert(nd[i] == d[i]);
                }
            }
        } else {
            let nc = c.push(s.last());
            assert forall|j: int| 0 <= j < nc.len() implies nc[j] != '\n' by {
                if j < c.len() {
                    assert(nc[j] == c[j]);
                }
            }
        }
    }
}

/// Reading a text with no newline extends the pending line.
proof fn lemma_split_append_plain(p: Seq<char>, m: Seq<char>)
    requires
        forall|j: int| 0 <= j < m.len() ==> m[j] != '\n',
    ensures
        line_split(p + m) == (line_split(p).0, line_split(p).1 + m),
    decreases m.len(),
{
    if m.len() == 0 {
        assert(p + m =~= p);
        assert(line_split(p).1 + m =~= line_split(p).1);
    } else {
        lemma_split_append_plain(p, m.drop_last());
        assert((p + m).drop_last() =~= p + m.drop_last());
        assert((p + m).last() == m.last());
        assert(line_split(p).1 + m.drop_last() + seq![m.last()] =~= line_split(p).1 + m);
    }
}

/// Reading the commented lines gives back the commented bodies, nothing
/// pending.
proof fn lemma_split_commented(ls: Seq<Seq<char>>)
    requires
        no_newlines(ls),
        no_trailing_cr(ls),
    ensures
        line_split(commented_lines(ls)) == (ls.map_values(|l: Seq<char>| commented_body(l)), Seq::<char>::empty()),
    decreases ls.len(),
{
    if ls.len() == 0 {
        assert(ls.map_values(|l: Seq<char>| commented_body(l)) =~= Seq::<Seq<char>>::empty());
    } else {
        let rest = ls.drop_last();
        assert(no_newlines(rest)) by {
            assert forall|i: int, j: int| 0 <= i < rest.len() && 0 <= j < rest[i].len() implies rest[i][j] != '\n' by {
                assert(rest[i] == ls[i]);
            }
        }
        assert(no_trailing_cr(rest)) by {
            assert forall|i: int| 0 <= i < rest.len() implies !(rest[i].len() > 0 && #[trigger] rest[i].last() == '\r') by {
                assert(rest[i] == ls[i]);
            }
        }
        lemma_split_commented(rest);
        let l = ls.last();
        let last = ls.len() - 1;
        assert(l == ls[last]);
        let b = commented_body(l);
        assert forall|j: int| 0 <= j < b.len() implies b[j] != '\n' by {
            reveal_strlit("#");
            if l.len() > 0 && l[0] != '#' {
                if j > 0 {
                    assert(b[j] == l[j - 1]);
                    assert(ls[last][j - 1] != '\n');
                } else {
                    assert(b[0] == '#');
                }
            } else {
                assert(b[j] == l[j]);
                assert(ls[last][j] != '\n');
            }
        }
        let pre = commented_lines(rest);
        assert(commented_line(l) =~= b + "\n"@) by {
            reveal_strlit("\n");
            reveal_strlit("#");
        }
        lemma_split_append_plain(pre, b);
        let whole = commented_lines(ls);
        assert(whole == pre + commented_line(l));
        assert(whole =~= (pre + b).push('\n')) by {
            reveal_strlit("\n");
        }
        assert(whole.drop_last() =~= pre + b);
        assert(line_split(pre).1 + b =~= b);
        assert(!(b.len() > 0 && b.last() == '\r')) by {
            reveal_strlit("#");
            if l.len() > 0 && l[0] != '#' {
                assert(b.last() == l.last());
            }
        }
        assert(strip_cr(b) == b);
        assert(ls.map_values(|l: Seq<char>| commented_body(l)) =~= rest.map_values(|l: Seq<char>| commented_body(l)).push(b));
    }
}

/// Commenting a commented body again changes nothing.
proof fn lemma_commented_twice(ls: Seq<Seq<char>>)
    ensures
        commented_lines(ls.map_values(|l: Seq<char>| commented_body(l))) == commented_lines(ls),
    decreases ls.len(),
{
    reveal_strlit("#");
    if ls.len() > 0 {
        let rest = ls.drop_last();
        lemma_commented_twice(rest);
        let m = ls.map_values(|l: Seq<char>| commented_body(l));
        assert(m.drop_last() =~= rest.map_values(|l: Seq<char>| commented_body(l)));
        let l = ls.last();
        assert(m.last() == commented_body(l));
        if l.len() > 0 && l[0] != '#' {
            assert(commented_body(l)[0] == '#');
            assert(commented_line(commented_body(l)) =~= commented_line(l));
        }
    }
}

/// Commenting out a block keeps its line count, starts every non-empty
/// line with `#`, and commenting the result again changes nothing (for
/// blocks whose lines do not end in a carriage return, which reading the
/// commented text would drop).
pub proof fn lemma_comment_block_law(body: Seq<char>)
    requires
        no_trailing_cr(lines(body)),
    ensures
        lines(comment_block_text(body)).len() == lines(body).len(),
        forall|i: int|
            0 <= i < lines(comment_block_text(body)).len() && lines(comment_block_text(body))[i].len() > 0
                ==> #[trigger] lines(comment_block_text(body))[i][0] == '#',
        comment_block_text(comment_block_text(body)) == comment_block_text(body),
{
    reveal_strlit("#");
    let ls = lines(body);
    lemma_split_holds_no_newline(body);
    let (d, c) = line_split(body);
    assert(no_newlines(ls)) by {
        if c.len() > 0 {
            assert forall|i: int, j: int| 0 <= i < ls.len() && 0 <= j < ls[i].len() implies ls[i][j] != '\n' by {
                if i < d.len() {
                    assert(ls[i] == d[i]);
                } else {
                    assert(ls[i] == c);
                }
            }
        }
    }
    lemma_split_commented(ls);
    let m = ls.map_values(|l: Seq<char>| commented_body(l));
    assert(lines(comment_block_text(body)) == m);
    assert forall|i: int| 0 <= i < m.len() && m[i].len() > 0 implies #[trigger] m[i][0] == '#' by {
        assert(m[i] == commented_body(ls[i]));
    }
    lemma_commented_twice(ls);
}

/// Neither a newline nor a carriage return occurs in the text.
pub open spec fn plain_text(s: Seq<char>) -> bool {
    forall|j: int| 0 <= j < s.len() ==> s[j] != '\n' && s[j] != '\r'
}

/// Every line is plain.
pub open spec fn all_plain(ls: Seq<Seq<char>>) -> bool {
    forall|i: int| 0 <= i < ls.len() ==> plain_text(#[trigger] ls[i])
}

/// The line of a key at its default, without the comment mark.
pub open spec fn default_line(depth: nat, key: Seq<char>, default: Seq<char>) -> Seq<char> {
    indent(depth) + key + ": "@ + default
}

proof fn lemma_plain_concat(a: Seq<char>, b: Seq<char>)
    requires
        plain_text(a),
        plain_text(b),
    ensures
        plain_text(a + b),
{
    assert forall|j: int| 0 <= j < (a + b).len() implies (a + b)[j] != '\n' && (a + b)[j] != '\r' by {
        if j < a.len() {
            assert((a + b)[j] == a[j]);
        } else {
            assert((a + b)[j] == b[j - a.len()]);
        }
    }
}

proof fn lemma_indent_plain(d: nat)
    ensures
        plain_text(indent(d)),
        indent(d).len() == 2 * d,
        forall|j: int| 0 <= j < indent(d).len() ==> #[trigger] indent(d)[j] == ' ',
    decreases d,
{
    reveal_strlit("  ");
    if d > 0 {
        lemma_indent_plain((d - 1) as nat);
        let a = indent((d - 1) as nat);
        assert forall|j: int| 0 <= j < indent(d).len() implies #[trigger] indent(d)[j] == ' ' by {
            if j < a.len() {
                assert(indent(d)[j] == a[j]);
            } else {
                assert(indent(d)[j] == "  "@[j - a.len()]);
            }
        }
    }
}

proof fn lemma_plain_strings_are_plain(ls: Seq<Seq<char>>)
    requires
        all_plain(ls),
    ensures
        no_newlines(ls),
        no_trailing_cr(ls),
{
    assert forall|i: int, j: int| 0 <= i < ls.len() && 0 <= j < ls[i].len() implies ls[i][j] != '\n' by {
        assert(plain_text(ls[i]));
    }
    assert forall|i: int| 0 <= i < ls.len() implies !(ls[i].len() > 0 && #[trigger] ls[i].last() == '\r') by {
        assert(plain_text(ls[i]));
        if ls[i].len() > 0 {
            assert(ls[i].last() == ls[i][ls[i].len() - 1]);
        }
    }
}

/// An unset key's line is its default line commented out.
proof fn lemma_unset_key_commented(depth: nat, key: Seq<char>, default: Seq<char>)
    requires
        depth >= 1,
        plain_text(key),
        plain_text(default),
    ensures
        yaml_key_line(depth, key, None, default) == commented_line(default_line(depth, key, default)),
        plain_text(default_line(depth, key, default)),
{
    reveal_strlit(": ");
    reveal_strlit("#");
    reveal_strlit("\n");
    lemma_indent_plain(depth);
    let l = default_line(depth, key, default);
    assert(plain_text(": "@)) by {
        assert forall|j: int| 0 <= j < ": "@.len() implies ": "@[j] != '\n' && ": "@[j] != '\r' by {
            if j == 0 { assert(": "@[0] == ':'); } else { assert(": "@[1] == ' '); }
        }
    }
    lemma_plain_concat(indent(depth), key);
    lemma_plain_concat(indent(depth) + key, ": "@);
    lemma_plain_concat(indent(depth) + key + ": "@, default);
    assert(l[0] == indent(depth)[0]);
    assert(l[0] == ' ');
    assert(yaml_key_line(depth, key, None, default) =~= commented_line(l));
}

proof fn lemma_commented_concat(a: Seq<Seq<char>>, b: Seq<Seq<char>>)
    ensures
        commented_lines(a + b) == commented_lines(a) + commented_lines(b),
    decreases b.len(),
{
    if b.len() == 0 {
        assert(a + b =~= a);
        assert(commented_lines(a) + commented_lines(b) =~= commented_lines(a));
    } else {
        lemma_commented_concat(a, b.drop_last());
        assert((a + b).drop_last() =~= a + b.drop_last());
        assert((a + b).last() == b.last());
    }
}

/// Commenting out commented plain lines changes nothing.
proof fn lemma_recomment(ls: Seq<Seq<char>>)
    requires
        all_plain(ls),
    ensures
        comment_block_text(commented_lines(ls)) == commented_lines(ls),
{
    lemma_plain_strings_are_plain(ls);
    lemma_split_commented(ls);
    lemma_commented_twice(ls);
}

/// An inactive section over commented plain lines is the commented header
/// and those lines.
proof fn lemma_inactive_section(name: Seq<char>, ls: Seq<Seq<char>>)
    requires
        plain_text(name),
        name.len() > 0,
        name[0] != '#',
        all_plain(ls),
    ensures
        dump_section(name, false, commented_lines(ls)) == commented_lines(seq![name + ":"@] + ls),
{
    reveal_strlit(":");
    reveal_strlit(":\n");
    reveal_strlit("#");
    reveal_strlit("\n");
    lemma_recomment(ls);
    let h = name + ":"@;
    lemma_commented_concat(seq![h], ls);
    assert(seq![h].drop_last() =~= Seq::<Seq<char>>::empty());
    assert(h[0] == name[0]);
    assert(seq![h].last() == h);
    assert(commented_lines(seq![h]) == commented_lines(Seq::<Seq<char>>::empty()) + commented_line(h));
    assert(commented_line(h) == "#"@ + h + "\n"@);
    assert(commented_lines(seq![h]) =~= "#"@ + name + ":\n"@);
}

/// Every line of commented plain lines starts with `#` or is empty, one
/// line for each.
pub proof fn lemma_commented_lines_marked(ls: Seq<Seq<char>>)
    requires
        all_plain(ls),
    ensures
        lines(commented_lines(ls)).len() == ls.len(),
        forall|i: int|
            0 <= i < ls.len() && lines(commented_lines(ls))[i].len() > 0 ==> #[trigger] lines(
                commented_lines(ls),
            )[i][0] == '#',
{
    reveal_strlit("#");
    lemma_plain_strings_are_plain(ls);
    lemma_split_commented(ls);
    let m = ls.map_values(|l: Seq<char>| commented_body(l));
    assert(lines(commented_lines(ls)) == m);
    assert forall|i: int| 0 <= i < ls.len() && m[i].len() > 0 implies #[trigger] m[i][0] == '#' by {
        assert(m[i] == commented_body(ls[i]));
    }
}

proof fn lemma_decimal_plain(n: nat)
    ensures
        plain_text(decimal(n)),
{
    crate::text::lemma_decimal_digits(n);
    assert forall|j: int| 0 <= j < decimal(n).len() implies decimal(n)[j] != '\n' && decimal(n)[j] != '\r' by {
        assert(crate::text::is_digit(decimal(n)[j]));
    }
}

proof fn lemma_dump_literals_plain()
    ensures
        plain_text("retention"@),
        plain_text("never"@),
        plain_text("session"@),
        plain_text("trace"@),
        plain_text("max_queries_per_action"@),
        plain_text("max_parallel_queries"@),
        plain_text("explore"@),
        plain_text("persist_view_state"@),
        plain_text("true"@),
        plain_text("  rtt_bar"@),
        plain_text("green_ms"@),
        plain_text("yellow_ms"@),
        plain_text("orange_ms"@),
        plain_text("insane_ms"@),
        plain_text("max_width"@),
{
    reveal_strlit("retention");
    reveal_strlit("never");
    reveal_strlit("session");
    reveal_strlit("trace");
    reveal_strlit("max_queries_per_action");
    reveal_strlit("max_parallel_queries");
    reveal_strlit("explore");
    reveal_strlit("persist_view_state");
    reveal_strlit("true");
    reveal_strlit("  rtt_bar");
    reveal_strlit("green_ms");
    reveal_strlit("yellow_ms");
    reveal_strlit("orange_ms");
    reveal_strlit("insane_ms");
    reveal_strlit("max_width");
}

/// The default lines of the `rtt_bar` keys.
pub open spec fn rtt_default_lines() -> Seq<Seq<char>> {
    seq![
        default_line(2, "green_ms"@, decimal(50)),
        default_line(2, "yellow_ms"@, decimal(125)),
        default_line(2, "orange_ms"@, decimal(250)),
        default_line(2, "insane_ms"@, decimal(1000)),
        default_line(2, "max_width"@, decimal(20)),
    ]
}

proof fn lemma_rtt_inactive(section: Option<RttBarSection>)
    requires
        !rtt_active(section),
    ensures
        dump_section("  rtt_bar"@, false, rtt_body(section)) == commented_lines(
            seq!["  rtt_bar:"@] + rtt_default_lines(),
        ),
        all_plain(rtt_default_lines()),
{
    lemma_dump_literals_plain();
    lemma_decimal_plain(50);
    lemma_decimal_plain(125);
    lemma_decimal_plain(250);
    lemma_decimal_plain(1000);
    lemma_decimal_plain(20);
    lemma_unset_key_commented(2, "green_ms"@, decimal(50));
    lemma_unset_key_commented(2, "yellow_ms"@, decimal(125));
    lemma_unset_key_commented(2, "orange_ms"@, decimal(250));
    lemma_unset_key_commented(2, "insane_ms"@, decimal(1000));
    lemma_unset_key_commented(2, "max_width"@, decimal(20));
    let ls = rtt_default_lines();
    assert(all_plain(ls)) by {
        assert forall|i: int| 0 <= i < ls.len() implies plain_text(#[trigger] ls[i]) by {
            if i == 0 {} else if i == 1 {} else if i == 2 {} else if i == 3 {} else {}
        }
    }
    reveal_with_fuel(commented_lines, 6);
    assert(ls.drop_last().drop_last().drop_last().drop_last().drop_last() =~= Seq::<Seq<char>>::empty());
    assert(rtt_body(section) =~= commented_lines(ls));
    reveal_strlit("  rtt_bar");
    reveal_strlit("  rtt_bar:");
    reveal_strlit(":");
    assert("  rtt_bar"@ + ":"@ =~= "  rtt_bar:"@);
    lemma_inactive_section("  rtt_bar"@, ls);
}

/// The session lines at their defaults.
pub open spec fn session_default_lines() -> Seq<Seq<char>> {
    seq!["session:"@, default_line(1, "retention"@, "never"@)]
}

/// The trace lines at their defaults.
pub open spec fn trace_default_lines() -> Seq<Seq<char>> {
    seq![
        "trace:"@,
        default_line(1, "max_queries_per_action"@, decimal(64)),
        default_line(1, "max_parallel_queries"@, decimal(8)),
    ]
}

/// The explore lines at their defaults.
pub open spec fn explore_default_lines() -> Seq<Seq<char>> {
    seq!["explore:"@, default_line(1, "persist_view_state"@, "true"@), "  rtt_bar:"@] + rtt_default_lines()
}

proof fn lemma_session_dump(p: DelveConfigFile)
    ensures
        p.session.retention is None ==> session_dump(p) == commented_lines(session_default_lines()),
        all_plain(session_default_lines()),
{
    lemma_dump_literals_plain();
    reveal_strlit("session");
    reveal_strlit("session:");
    reveal_strlit(":");
    lemma_unset_key_commented(1, "retention"@, "never"@);
    reveal_with_fuel(commented_lines, 2);
    let sl = seq![default_line(1, "retention"@, "never"@)];
    assert(sl.drop_last() =~= Seq::<Seq<char>>::empty());
    assert(all_plain(sl));
    assert("session"@ + ":"@ =~= "session:"@);
    let ss = session_default_lines();
    assert(all_plain(ss)) by {
        assert forall|i: int| 0 <= i < ss.len() implies plain_text(#[trigger] ss[i]) by {
            if i == 0 {} else {}
        }
    }
    if p.session.retention is None {
        assert(yaml_key_line(1, "retention"@, opt_string_view(p.session.retention), "never"@) =~= commented_lines(sl));
        lemma_inactive_section("session"@, sl);
        assert(seq!["session"@ + ":"@] + sl =~= ss);
    }
}

#[verifier::rlimit(30)]
proof fn lemma_trace_dump(p: DelveConfigFile)
    ensures
        (p.trace.max_queries_per_action is None && p.trace.max_parallel_queries is None) ==> trace_dump(p)
            == commented_lines(trace_default_lines()),
        all_plain(trace_default_lines()),
{
    lemma_dump_literals_plain();
    reveal_strlit("trace");
    reveal_strlit("trace:");
    reveal_strlit(":");
    lemma_decimal_plain(64);
    lemma_decimal_plain(8);
    lemma_unset_key_commented(1, "max_queries_per_action"@, decimal(64));
    lemma_unset_key_commented(1, "max_parallel_queries"@, decimal(8));
    reveal_with_fuel(commented_lines, 3);
    let tl = seq![default_line(1, "max_queries_per_action"@, decimal(64)), default_line(1, "max_parallel_queries"@, decimal(8))];
    assert(tl.drop_last().drop_last() =~= Seq::<Seq<char>>::empty());
    assert(tl.drop_last() =~= seq![default_line(1, "max_queries_per_action"@, decimal(64))]);
    assert(all_plain(tl)) by {
        assert forall|i: int| 0 <= i < tl.len() implies plain_text(#[trigger] tl[i]) by {
            if i == 0 {} else {}
        }
    }
    assert("trace"@ + ":"@ =~= "trace:"@);
    let ts = trace_default_lines();
    assert(ts =~= seq!["trace"@ + ":"@] + tl);
    assert(all_plain(ts)) by {
        assert forall|i: int| 0 <= i < ts.len() implies plain_text(#[trigger] ts[i]) by {
            if i == 0 {} else if i == 1 {} else {}
        }
    }
    if p.trace.max_queries_per_action is None && p.trace.max_parallel_queries is None {
        assert(yaml_key_line(1, "max_queries_per_action"@, opt_decimal_usize(p.trace.max_queries_per_action), decimal(64))
            + yaml_key_line(1, "max_parallel_queries"@, opt_decimal_usize(p.trace.max_parallel_queries), decimal(8))
            =~= commented_lines(tl));
        lemma_inactive_section("trace"@, tl);
    }
}

#[verifier::rlimit(30)]
proof fn lemma_explore_dump(p: DelveConfigFile)
    ensures
        (p.explore.persist_view_state is None && !rtt_active(p.explore.rtt_bar)) ==> explore_dump(p)
            == commented_lines(explore_default_lines()),
        all_plain(explore_default_lines()),
{
    lemma_dump_literals_plain();
    reveal_strlit("explore");
    reveal_strlit("explore:");
    reveal_strlit("  rtt_bar:");
    reveal_strlit(":");
    lemma_unset_key_commented(1, "persist_view_state"@, "true"@);
    let rl = rtt_default_lines();
    lemma_rtt_inactive(None);
    assert(plain_text("  rtt_bar:"@));
    let el = seq![default_line(1, "persist_view_state"@, "true"@), "  rtt_bar:"@] + rl;
    assert(all_plain(el)) by {
        assert forall|i: int| 0 <= i < el.len() implies plain_text(#[trigger] el[i]) by {
            if i >= 2 {
                assert(el[i] == rl[i - 2]);
            }
        }
    }
    assert("explore"@ + ":"@ =~= "explore:"@);
    let ex = explore_default_lines();
    assert(ex =~= seq!["explore"@ + ":"@] + el);
    assert(all_plain(ex)) by {
        assert forall|i: int| 0 <= i < ex.len() implies plain_text(#[trigger] ex[i]) by {
            if i >= 1 {
                assert(ex[i] == el[i - 1]);
            }
        }
    }
    if p.explore.persist_view_state is None && !rtt_active(p.explore.rtt_bar) {
        lemma_rtt_inactive(p.explore.rtt_bar);
        let first = seq![default_line(1, "persist_view_state"@, "true"@)];
        assert(first.drop_last() =~= Seq::<Seq<char>>::empty());
        reveal_with_fuel(commented_lines, 2);
        lemma_commented_concat(first, seq!["  rtt_bar:"@] + rl);
        assert(el =~= first + (seq!["  rtt_bar:"@] + rl));
        lemma_inactive_section("explore"@, el);
    }
}

/// The dump's sections: a section with a key set is written with its
/// header uncommented and each key as `KEY: VALUE` when set or
/// `#KEY: DEFAULT` when not (`yaml_key_line`); a section with no key set
/// is its header and every key at its default, all commented out, so each
/// of its lines starts with `#` (`lemma_commented_lines_marked`, since
/// these lines are plain). Each key's line is uncommented exactly when
/// the key is set in the file (`lemma_key_line_commented_iff_unset`).
pub proof fn lemma_dump_law(p: DelveConfigFile)
    ensures
        p.session.retention is Some ==> session_dump(p) == "session:\n"@ + yaml_key_line(
            1,
            "retention"@,
            opt_string_view(p.session.retention),
            "never"@,
        ),
        p.session.retention is None ==> session_dump(p) == commented_lines(session_default_lines()),
        (p.trace.max_queries_per_action is Some || p.trace.max_parallel_queries is Some) ==> trace_dump(p)
            == "trace:\n"@ + yaml_key_line(
            1,
            "max_queries_per_action"@,
            opt_decimal_usize(p.trace.max_queries_per_action),
            decimal(64),
        ) + yaml_key_line(1, "max_parallel_queries"@, opt_decimal_usize(p.trace.max_parallel_queries), decimal(8)),
        (p.trace.max_queries_per_action is None && p.trace.max_parallel_queries is None) ==> trace_dump(p)
            == commented_lines(trace_default_lines()),
        (p.explore.persist_view_state is Some || rtt_active(p.explore.rtt_bar)) ==> explore_dump(p)
            == "explore:\n"@ + yaml_key_line(
            1,
            "persist_view_state"@,
            opt_bool_text(p.explore.persist_view_state),
            "true"@,
        ) + dump_section("  rtt_bar"@, rtt_active(p.explore.rtt_bar), rtt_body(p.explore.rtt_bar)),
        (p.explore.persist_view_state is None && !rtt_active(p.explore.rtt_bar)) ==> explore_dump(p)
            == commented_lines(explore_default_lines()),
        all_plain(session_default_lines()),
        all_plain(trace_default_lines()),
        all_plain(explore_default_lines()),
{
    reveal_strlit(":\n");
    reveal_strlit("session");
    reveal_strlit("trace");
    reveal_strlit("explore");
    reveal_strlit("session:\n");
    reveal_strlit("trace:\n");
    reveal_strlit("explore:\n");
    assert("session"@ + ":\n"@ =~= "session:\n"@);
    assert("trace"@ + ":\n"@ =~= "trace:\n"@);
    assert("explore"@ + ":\n"@ =~= "explore:\n"@);
    lemma_session_dump(p);
    lemma_trace_dump(p);
    lemma_explore_dump(p);
}

/// A section header and its body; an inactive section is commented out whole.
pub open spec fn dump_section(name: Seq<char>, active: bool, body: Seq<char>) -> Seq<char> {
    if active {
        name + ":\n"@ + body
    } else {
        "#"@ + name + ":\n"@ + comment_block_text(body)
    }
}

pub open spec fn opt_decimal_usize(v: Option<usize>) -> Option<Seq<char>> {
    match v {
        Some(n) => Some(decimal(n as nat)),
        None => None,
    }
}

pub open spec fn opt_decimal_u32(v: Option<u32>) -> Option<Seq<char>> {
    match v {
        Some(n) => Some(decimal(n as nat)),
        None => None,
    }
}

pub open spec fn opt_decimal_u16(v: Option<u16>) -> Option<Seq<char>> {
    match v {
        Some(n) => Some(decimal(n as nat)),
        None => None,
    }
}

pub open spec fn opt_bool_text(v: Option<bool>) -> Option<Seq<char>> {
    match v {
        Some(b) => Some(bool_text(b)),
        None => None,
    }
}

pub open spec fn opt_string_view(v: Option<String>) -> Option<Seq<char>> {
    match v {
        Some(s) => Some(s@),
        None => None,
    }
}

pub open spec fn session_dump(p: DelveConfigFile) -> Seq<char> {
    dump_section(
        "session"@,
        p.session.retention is Some,
        yaml_key_line(1, "retention"@, opt_string_view(p.session.retention), "never"@),
    )
}

pub open spec fn trace_dump(p: DelveConfigFile) -> Seq<char> {
    dump_section(
        "trace"@,
        p.trace.max_queries_per_action is Some || p.trace.max_parallel_queries is Some,
        yaml_key_line(1, "max_queries_per_action"@, opt_decimal_usize(p.trace.max_queries_per_action), decimal(64))
            + yaml_key_line(1, "max_parallel_queries"@, opt_decimal_usize(p.trace.max_parallel_queries), decimal(8)),
    )
}

pub open spec fn rtt_active(section: Option<RttBarSection>) -> bool {
    let s = opt_or(section, unset_rtt_section());
    s.green_ms is Some || s.yellow_ms is Some || s.orange_ms is Some || s.insane_ms is Some || s.max_width is Some
}

pub open spec fn rtt_body(section: Option<RttBarSection>) -> Seq<char> {
    let s = opt_or(section, unset_rtt_section());
    yaml_key_line(2, "green_ms"@, opt_decimal_u32(s.green_ms), decimal(50))
        + yaml_key_line(2, "yellow_ms"@, opt_decimal_u32(s.yellow_ms), decimal(125))
        + yaml_key_line(2, "orange_ms"@, opt_decimal_u32(s.orange_ms), decimal(250))
        + yaml_key_line(2, "insane_ms"@, opt_decimal_u32(s.insane_ms), decimal(1000))
        + yaml_key_line(2, "max_width"@, opt_decimal_u16(s.max_width), decimal(20))
}

pub open spec fn explore_dump(p: DelveConfigFile) -> Seq<char> {
    dump_section(
        "explore"@,
        p.explore.persist_view_state is Some || rtt_active(p.explore.rtt_bar),
        yaml_key_line(1, "persist_view_state"@, opt_bool_text(p.explore.persist_view_state), "true"@)
            + dump_section("  rtt_bar"@, rtt_active(p.explore.rtt_bar), rtt_body(p.explore.rtt_bar)),
    )
}

pub open spec fn dump_header(config_path: Seq<char>, exists: bool) -> Seq<char> {
    "# Config file: "@ + config_path + "\n"@
        + (if exists { "# (file exists)\n"@ } else { "# (file not found; showing defaults)\n"@ })
        + "# Commented lines show default values (not set in your config file).\n# Remove the leading # to override a default.\n\n"@
}

/// The whole dump.
pub open spec fn dump_text(config_path: Seq<char>, exists: bool, p: DelveConfigFile) -> Seq<char> {
    dump_header(config_path, exists) + session_dump(p) + trace_dump(p) + explore_dump(p)
}

/// Writes one key line; returns whether the key was set.
pub fn write_yaml_key(out: &mut String, depth: usize, key: &str, value: Option<&str>, default: &str) -> (set: bool)
    ensures
        set == value is Some,
        final(out)@ == old(out)@ + yaml_key_line(
            depth as nat,
            key@,
            match value {
                Some(v) => Some(v@),
                None => None,
            },
            default@,
        ),
{
    match value {
        Some(v) => {
            push_indent(out, depth);
            push_str(out, key);
            push_str(out, ": ");
            push_str(out, v);
            push_str(out, "\n");
            assert(out@ =~= old(out)@ + indent(depth as nat) + key@ + ": "@ + v@ + "\n"@);
            true
        },
        None => {
            push_str(out, "#");
            push_indent(out, depth);
            push_str(out, key);
            push_str(out, ": ");
            push_str(out, default);
            push_str(out, "\n");
            assert(out@ =~= old(out)@ + "#"@ + indent(depth as nat) + key@ + ": "@ + default@ + "\n"@);
            false
        },
    }
}

fn push_commented_line(out: &mut String, line: &Vec<char>)
    ensures
        final(out)@ == old(out)@ + commented_line(line@),
{
    if line.len() == 0 {
        push_str(out, "\n");
    } else if line[0] == '#' {
        crate::text::push_chars(out, line);
        push_str(out, "\n");
    } else {
        push_str(out, "#");
        crate::text::push_chars(out, line);
        push_str(out, "\n");
    }
    assert(out@ =~= old(out)@ + commented_line(line@));
}

/// Every line of `lines` commented out.
pub fn comment_block(lines_text: &str) -> (out: String)
    ensures
        out@ == comment_block_text(lines_text@),
{
    let body = chars_of(lines_text);
    let mut out = String::new();
    let mut cur: Vec<char> = Vec::new();
    let ghost mut done: Seq<Seq<char>> = Seq::empty();
    let mut i: usize = 0;
    assert(body@.subrange(0, 0) =~= Seq::<char>::empty());
    while i < body.len()
        invariant
            i <= body.len(),
            line_split(body@.subrange(0, i as int)) == (done, cur@),
            out@ == commented_lines(done),
        decreases body.len() - i,
    {
        let c = body[i];
        let ghost pre = body@.subrange(0, i as int);
        assert(body@.subrange(0, i + 1).drop_last() =~= pre);
        if c == '\n' {
            let n = cur.len();
            if n > 0 && cur[n - 1] == '\r' {
                cur.pop();
            }
            assert(cur@ == strip_cr(line_split(pre).1)) by {
                if n > 0 && line_split(pre).1.last() == '\r' {
                    assert(cur@ =~= line_split(pre).1.drop_last());
                }
            }
            push_commented_line(&mut out, &cur);
            proof {
                let nd = done.push(cur@);
                assert(nd.drop_last() =~= done);
                done = nd;
            }
            cur = Vec::new();
        } else {
            cur.push(c);
        }
        i = i + 1;
    }
    assert(body@.subrange(0, body@.len() as int) =~= body@);
    if cur.len() > 0 {
        push_commented_line(&mut out, &cur);
        proof {
            let nd = done.push(cur@);
            assert(nd.drop_last() =~= done);
        }
    }
    out
}

/// Writes a section header and body, commenting out an inactive section.
pub fn write_dump_section(out: &mut String, name: &str, active: bool, body: &str)
    ensures
        final(out)@ == old(out)@ + dump_section(name@, active, body@),
{
    if active {
        push_str(out, name);
        push_str(out, ":\n");
        push_str(out, body);
    } else {
        push_char(out, '#');
        push_str(out, name);
        push_str(out, ":\n");
        let commented = comment_block(body);
        push_str(out, commented.as_str());
    }
    proof {
        crate::text::lemma_lit_hash();
    }
    assert(out@ =~= old(out)@ + dump_section(name@, active, body@));
}

fn opt_usize_text(v: Option<usize>) -> (r: Option<String>)
    ensures
        match r {
            Some(s) => opt_decimal_usize(v) == Some(s@),
            None => v is None,
        },
{
    match v {
        Some(n) => Some(decimal_string(n as u64)),
        None => None,
    }
}

fn opt_u32_text(v: Option<u32>) -> (r: Option<String>)
    ensures
        match r {
            Some(s) => opt_decimal_u32(v) == Some(s@),
            None => v is None,
        },
{
    match v {
        Some(n) => Some(decimal_string(n as u64)),
        None => None,
    }
}

fn opt_u16_text(v: Option<u16>) -> (r: Option<String>)
    ensures
        match r {
            Some(s) => opt_decimal_u16(v) == Some(s@),
            None => v is None,
        },
{
    match v {
        Some(n) => Some(decimal_string(n as u64)),
        None => None,
    }
}

fn as_opt_str(v: &Option<String>) -> (r: Option<&str>)
    ensures
        match r {
            Some(s) => *v matches Some(o) && o@ == s@,
            None => v is None,
        },
{
    match v {
        Some(s) => Some(s.as_str()),
        None => None,
    }
}

fn write_session_dump_section(out: &mut String, parsed: &DelveConfigFile)
    ensures
        final(out)@ == old(out)@ + session_dump(*parsed),
{
    let mut body = String::new();
    let value = as_opt_str(&parsed.session.retention);
    write_yaml_key(&mut body, 1, "retention", value, "never");
    assert(body@ =~= yaml_key_line(1, "retention"@, opt_string_view(parsed.session.retention), "never"@));
    write_dump_section(out, "session", parsed.session.retention.is_some(), body.as_str());
}

fn write_trace_dump_section(out: &mut String, parsed: &DelveConfigFile)
    ensures
        final(out)@ == old(out)@ + trace_dump(*parsed),
{
    let mut body = String::new();
    let d64 = decimal_string(DEFAULT_MAX_QUERIES as u64);
    let d8 = decimal_string(DEFAULT_MAX_PARALLEL_QUERIES as u64);
    let q = opt_usize_text(parsed.trace.max_queries_per_action);
    let p = opt_usize_text(parsed.trace.max_parallel_queries);
    write_yaml_key(&mut body, 1, "max_queries_per_action", as_opt_str(&q), d64.as_str());
    write_yaml_key(&mut body, 1, "max_parallel_queries", as_opt_str(&p), d8.as_str());
    assert(body@ =~= yaml_key_line(1, "max_queries_per_action"@, opt_decimal_usize(parsed.trace.max_queries_per_action), decimal(64))
        + yaml_key_line(1, "max_parallel_queries"@, opt_decimal_usize(parsed.trace.max_parallel_queries), decimal(8)));
    let active = parsed.trace.max_queries_per_action.is_some() || parsed.trace.max_parallel_queries.is_some();
    write_dump_section(out, "trace", active, body.as_str());
}

fn write_rtt_bar_dump_section(out: &mut String, section: Option<RttBarSection>) -> (active: bool)
    ensures
        active == rtt_active(section),
        final(out)@ == old(out)@ + dump_section("  rtt_bar"@, rtt_active(section), rtt_body(section)),
{
    let s = match section {
        Some(s) => s,
        None => RttBarSection { green_ms: None, yellow_ms: None, orange_ms: None, insane_ms: None, max_width: None },
    };
    let mut body = String::new();
    let g = opt_u32_text(s.green_ms);
    let y = opt_u32_text(s.yellow_ms);
    let o = opt_u32_text(s.orange_ms);
    let i = opt_u32_text(s.insane_ms);
    let w = opt_u16_text(s.max_width);
    let dg = decimal_string(DEFAULT_RTT_GREEN_MS as u64);
    let dy = decimal_string(DEFAULT_RTT_YELLOW_MS as u64);
    let d_o = decimal_string(DEFAULT_RTT_ORANGE_MS as u64);
    let di = decimal_string(DEFAULT_RTT_INSANE_MS as u64);
    let dw = decimal_string(DEFAULT_RTT_BAR_WIDTH as u64);
    let green_active = write_yaml_key(&mut body, 2, "green_ms", as_opt_str(&g), dg.as_str());
    let yellow_active = write_yaml_key(&mut body, 2, "yellow_ms", as_opt_str(&y), dy.as_str());
    let orange_active = write_yaml_key(&mut body, 2, "orange_ms", as_opt_str(&o), d_o.as_str());
    let insane_active = write_yaml_key(&mut body, 2, "insane_ms", as_opt_str(&i), di.as_str());
    let max_width_active = write_yaml_key(&mut body, 2, "max_width", as_opt_str(&w), dw.as_str());
    assert(body@ =~= rtt_body(section));
    let active = green_active || yellow_active || orange_active || insane_active || max_width_active;
    write_dump_section(out, "  rtt_bar", active, body.as_str());
    active
}

fn write_explore_dump_section(out: &mut String, parsed: &DelveConfigFile)
    ensures
        final(out)@ == old(out)@ + explore_dump(*parsed),
{
    let mut body = String::new();
    let persist = match parsed.explore.persist_view_state {
        Some(b) => Some(bool_string(b)),
        None => None,
    };
    let dtrue = bool_string(true);
    write_yaml_key(&mut body, 1, "persist_view_state", as_opt_str(&persist), dtrue.as_str());
    let ghost first = body@;
    let rtt_bar_active = write_rtt_bar_dump_section(&mut body, parsed.explore.rtt_bar);
    assert(body@ =~= yaml_key_line(1, "persist_view_state"@, opt_bool_text(parsed.explore.persist_view_state), "true"@)
        + dump_section("  rtt_bar"@, rtt_active(parsed.explore.rtt_bar), rtt_body(parsed.explore.rtt_bar)));
    let active = parsed.explore.persist_view_state.is_some() || rtt_bar_active;
    write_dump_section(out, "explore", active, body.as_str());
}

impl DelveConfig {
    /// Every configurable key in YAML form. Keys present in the config file
    /// are uncommented; unset keys are commented with their default values.
    /// Sections with no active key are commented out entirely. The warnings
    /// from reading the file are passed through.
    pub fn dump_yaml(config_path: &str, file_exists: bool, parsed: &DelveConfigFile, read_warnings: Vec<String>) -> (r: (String, Vec<String>))
        ensures
            r.0@ == dump_text(config_path@, file_exists, *parsed),
            r.1@ == read_warnings@,
    {
        let mut out = String::new();
        push_str(&mut out, "# Config file: ");
        push_str(&mut out, config_path);
        push_str(&mut out, "\n");
        if file_exists {
            push_str(&mut out, "# (file exists)\n");
        } else {
            push_str(&mut out, "# (file not found; showing defaults)\n");
        }
        push_str(
            &mut out,
            "# Commented lines show default values (not set in your config file).\n# Remove the leading # to override a default.\n\n",
        );
        assert(out@ =~= dump_header(config_path@, file_exists));
        write_session_dump_section(&mut out, parsed);
        write_trace_dump_section(&mut out, parsed);
        write_explore_dump_section(&mut out, parsed);
        assert(out@ =~= dump_text(config_path@, file_exists, *parsed));
        (out, read_warnings)
    }
}

} // verus!
