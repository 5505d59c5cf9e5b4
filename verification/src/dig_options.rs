//! Dig-style arguments of `delve trace`: a query name, `@server`, `-t TYPE`
//! or `-TYPE`, `-x`, `-4`/`-6` and the `+keyword[=value]` options.

use vstd::prelude::*;

use crate::query_option::{
    parse_timeout_value, parse_tries_value, plus_prefixed, split_option, split_query_option,
    strip_leading, strip_leading_chars, timeout_value, tries_value,
};
use crate::text::{
    chars_of, ends_with, ends_with_lit, eq_chars, eq_lit, owned, push_string, slice_chars,
    string_of, views,
};

verus! {

/// The option summary printed after `delve trace --help`.
pub const TRACE_OPTIONS_HELP: &'static str = "Query options (dig style):
  NAME                    query name (required)
  @SERVER                 start at SERVER instead of the root servers
  -t TYPE, -qtype TYPE    query type (default A)
  -TYPE                   query type shorthand, e.g. -AAAA, -NS, -TLSA
  -x                      reverse lookup: NAME is an address, the type is PTR
  -4                      use IPv4 transport only
  -6                      use IPv6 transport only
  +family=auto|v4|v6|both address family; auto probes IPv6 reachability
  +tcp, +notcp            query over TCP
  +timeout=N, +time=N     per-query timeout in seconds (at least 1)
  +tries=N                attempts per server (at least 1)
  +dnssec, +nodnssec      set the DNSSEC OK bit
  +nsid, +nonsid          request the server's NSID (default on)
  +cache, +nocache        use the response cache (default on)
  +nocache=NAME           bypass the cache for NAME only
  +save, +nosave          store the trace as a session (default on)
  +fresh, +nofresh        start a new session even when one matches
  +follow, +nofollow      follow CNAME and DNAME aliases
  +events, +noevents      print one JSON event per line
  +debug, +nodebug        print the wire exchange of every query
  +expand=last|all|none   which referrals to expand (append +force to all)
";

/// Which address families a trace may use.
#[derive(Debug, Clone, Copy, PartialEq, Eq, Structural)]
pub enum AddressFamilyRequest {
    Auto,
    V4,
    V6,
    Both,
}

/// Which referrals of a trace are followed into subtrees.
#[derive(Debug, Clone, Copy, PartialEq, Eq, Structural)]
pub enum ExpansionPolicy {
    Last,
    All,
    NoExpansion,
}

/// How the operator selected the address family (for the notice's wording).
#[derive(Debug, Clone, Copy, PartialEq, Eq, Structural)]
pub enum FamilySource {
    Default,
    Minus4,
    Minus6,
    PlusFamily(AddressFamilyRequest),
}

impl Default for FamilySource {
    fn default() -> (r: Self)
        ensures
            r == FamilySource::Default,
    {
        FamilySource::Default
    }
}

/// The settings of one `delve trace` run.
#[derive(Debug, Clone, PartialEq, Eq)]
pub struct TraceOptions {
    pub qname: String,
    pub server: Option<String>,
    pub qtype: String,
    pub reverse_lookup: bool,
    pub follow_aliases: bool,
    pub family_request: AddressFamilyRequest,
    pub family_source: FamilySource,
    pub use_tcp: bool,
    pub timeout_secs: u64,
    pub retries: u8,
    pub dnssec: bool,
    pub request_nsid: bool,
    pub use_cache: bool,
    pub cache_skip_qnames: Vec<String>,
    pub save_session: bool,
    pub events: bool,
    pub debug: bool,
    pub fresh: bool,
    pub expansion: ExpansionPolicy,
    pub expand_all_force: bool,
}

/// [`TraceOptions`] with its texts as character sequences.
pub struct TraceOptionsView {
    pub qname: Seq<char>,
    pub server: Option<Seq<char>>,
    pub qtype: Seq<char>,
    pub reverse_lookup: bool,
    pub follow_aliases: bool,
    pub family_request: AddressFamilyRequest,
    pub family_source: FamilySource,
    pub use_tcp: bool,
    pub timeout_secs: u64,
    pub retries: u8,
    pub dnssec: bool,
    pub request_nsid: bool,
    pub use_cache: bool,
    pub cache_skip_qnames: Seq<Seq<char>>,
    pub save_session: bool,
    pub events: bool,
    pub debug: bool,
    pub fresh: bool,
    pub expansion: ExpansionPolicy,
    pub expand_all_force: bool,
}

impl View for TraceOptions {
    type V = TraceOptionsView;

    open spec fn view(&self) -> TraceOptionsView {
        TraceOptionsView {
            qname: self.qname@,
            server: match self.server {
                Some(s) => Some(s@),
                None => None,
            },
            qtype: self.qtype@,
            reverse_lookup: self.reverse_lookup,
            follow_aliases: self.follow_aliases,
            family_request: self.family_request,
            family_source: self.family_source,
            use_tcp: self.use_tcp,
            timeout_secs: self.timeout_secs,
            retries: self.retries,
            dnssec: self.dnssec,
            request_nsid: self.request_nsid,
            use_cache: self.use_cache,
            cache_skip_qnames: views(self.cache_skip_qnames@),
            save_session: self.save_session,
            events: self.events,
            debug: self.debug,
            fresh: self.fresh,
            expansion: self.expansion,
            expand_all_force: self.expand_all_force,
        }
    }
}

/// The defaults: type A, five-second timeout, two tries, NSID requested,
/// cache on, session saved, last referral expanded, family chosen
/// automatically.
pub open spec fn default_trace_options() -> TraceOptionsView {
    TraceOptionsView {
        qname: Seq::empty(),
        server: None,
        qtype: "A"@,
        reverse_lookup: false,
        follow_aliases: false,
        family_request: AddressFamilyRequest::Auto,
        family_source: FamilySource::Default,
        use_tcp: false,
        timeout_secs: 5,
        retries: 2,
        dnssec: false,
        request_nsid: true,
        use_cache: true,
        cache_skip_qnames: Seq::empty(),
        save_session: true,
        events: false,
        debug: false,
        fresh: false,
        expansion: ExpansionPolicy::Last,
        expand_all_force: false,
    }
}

impl Default for TraceOptions {
    fn default() -> (r: Self)
        ensures
            r@ == default_trace_options(),
    {
        let r = TraceOptions {
            qname: String::new(),
            server: None,
            qtype: owned("A"),
            reverse_lookup: false,
            follow_aliases: false,
            family_request: AddressFamilyRequest::Auto,
            family_source: FamilySource::Default,
            use_tcp: false,
            timeout_secs: 5,
            retries: 2,
            dnssec: false,
            request_nsid: true,
            use_cache: true,
            cache_skip_qnames: Vec::new(),
            save_session: true,
            events: false,
            debug: false,
            fresh: false,
            expansion: ExpansionPolicy::Last,
            expand_all_force: false,
        };
        assert(views(r.cache_skip_qnames@) =~= Seq::<Seq<char>>::empty());
        r
    }
}

/// Why the trace arguments were refused.
#[derive(Debug, Clone, PartialEq, Eq)]
pub enum ParseError {
    MissingQname,
    Unexpected(String),
    UnknownOption(String),
    MissingValue { option: String },
    InvalidValue { option: String, value: String },
    AddressFamily,
    QueryType(String),
}

/// A [`ParseError`] with its texts as character sequences.
pub enum ParseErrorView {
    MissingQname,
    Unexpected(Seq<char>),
    UnknownOption(Seq<char>),
    MissingValue(Seq<char>),
    InvalidValue(Seq<char>, Seq<char>),
    AddressFamily,
    QueryType(Seq<char>),
}

impl View for ParseError {
    type V = ParseErrorView;

    open spec fn view(&self) -> ParseErrorView {
        match self {
            ParseError::MissingQname => ParseErrorView::MissingQname,
            ParseError::Unexpected(a) => ParseErrorView::Unexpected(a@),
            ParseError::UnknownOption(a) => ParseErrorView::UnknownOption(a@),
            ParseError::MissingValue { option } => ParseErrorView::MissingValue(option@),
            ParseError::InvalidValue { option, value } => ParseErrorView::InvalidValue(
                option@,
                value@,
            ),
            ParseError::AddressFamily => ParseErrorView::AddressFamily,
            ParseError::QueryType(a) => ParseErrorView::QueryType(a@),
        }
    }
}

impl ParseError {
    /// The message shown for the error.
    pub fn message(&self) -> (s: String)
        ensures
            s@ == match self@ {
                ParseErrorView::MissingQname => "missing query name"@,
                ParseErrorView::Unexpected(a) => "unexpected argument: "@ + a,
                ParseErrorView::UnknownOption(a) => "unknown option: "@ + a,
                ParseErrorView::MissingValue(o) => "option "@ + o + " requires a value"@,
                ParseErrorView::InvalidValue(o, v) => "invalid value for "@ + o + ": "@ + v,
                ParseErrorView::AddressFamily => "cannot use -4 and -6 together"@,
                ParseErrorView::QueryType(a) => "invalid query type: "@ + a,
            },
    {
        let mut s = String::new();
        match self {
            ParseError::MissingQname => {
                s.append("missing query name");
            },
            ParseError::Unexpected(a) => {
                s.append("unexpected argument: ");
                s.append(a.as_str());
            },
            ParseError::UnknownOption(a) => {
                s.append("unknown option: ");
                s.append(a.as_str());
            },
            ParseError::MissingValue { option } => {
                s.append("option ");
                s.append(option.as_str());
                s.append(" requires a value");
            },
            ParseError::InvalidValue { option, value } => {
                s.append("invalid value for ");
                s.append(option.as_str());
                s.append(": ");
                s.append(value.as_str());
            },
            ParseError::AddressFamily => {
                s.append("cannot use -4 and -6 together");
            },
            ParseError::QueryType(a) => {
                s.append("invalid query type: ");
                s.append(a.as_str());
            },
        }
        s
    }
}

/// `+family=` values.
pub open spec fn family_value(raw: Seq<char>) -> Option<AddressFamilyRequest> {
    if raw == "auto"@ {
        Some(AddressFamilyRequest::Auto)
    } else if raw == "v4"@ {
        Some(AddressFamilyRequest::V4)
    } else if raw == "v6"@ {
        Some(AddressFamilyRequest::V6)
    } else if raw == "both"@ {
        Some(AddressFamilyRequest::Both)
    } else {
        None
    }
}

/// The `+expand=` value without a trailing `+force`, and whether it had one.
pub open spec fn expand_stem(raw: Seq<char>) -> (Seq<char>, bool) {
    if ends_with(raw, "+force"@) {
        (raw.subrange(0, raw.len() - 6), true)
    } else {
        (raw, false)
    }
}

/// `+expand=` policies.
pub open spec fn expand_policy(stem: Seq<char>) -> Option<ExpansionPolicy> {
    if stem == "last"@ {
        Some(ExpansionPolicy::Last)
    } else if stem == "all"@ {
        Some(ExpansionPolicy::All)
    } else if stem == "none"@ {
        Some(ExpansionPolicy::NoExpansion)
    } else {
        None
    }
}

/// The keywords of the `+` options.
#[derive(Debug, Clone, Copy, PartialEq, Eq, Structural)]
pub enum OptionKeyword {
    Tcp,
    Timeout,
    Tries,
    Dnssec,
    Nsid,
    NoNsid,
    Events,
    Debug,
    Cache,
    Save,
    Fresh,
    Follow,
    Family,
    Expand,
    Unknown,
}

/// The keyword that `k` names (`time` and `timeout` are one).
#[verifier::opaque]
pub open spec fn option_keyword(k: Seq<char>) -> OptionKeyword {
    if k == "tcp"@ {
        OptionKeyword::Tcp
    } else if k == "time"@ || k == "timeout"@ {
        OptionKeyword::Timeout
    } else if k == "tries"@ {
        OptionKeyword::Tries
    } else if k == "dnssec"@ {
        OptionKeyword::Dnssec
    } else if k == "nsid"@ {
        OptionKeyword::Nsid
    } else if k == "nonsid"@ {
        OptionKeyword::NoNsid
    } else if k == "events"@ {
        OptionKeyword::Events
    } else if k == "debug"@ {
        OptionKeyword::Debug
    } else if k == "cache"@ {
        OptionKeyword::Cache
    } else if k == "save"@ {
        OptionKeyword::Save
    } else if k == "fresh"@ {
        OptionKeyword::Fresh
    } else if k == "follow"@ {
        OptionKeyword::Follow
    } else if k == "family"@ {
        OptionKeyword::Family
    } else if k == "expand"@ {
        OptionKeyword::Expand
    } else {
        OptionKeyword::Unknown
    }
}

/// `+time[out]=N`: seconds, at least one.
#[verifier::opaque]
pub open spec fn timeout_result(o: TraceOptionsView, opt: Seq<char>, v: Option<Seq<char>>) -> Result<
    TraceOptionsView,
    ParseErrorView,
> {
    match v {
        None => Err(ParseErrorView::MissingValue(opt)),
        Some(raw) => match timeout_value(raw) {
            Some(t) => Ok(TraceOptionsView { timeout_secs: t, ..o }),
            None => Err(ParseErrorView::InvalidValue(opt, raw)),
        },
    }
}

/// `+tries=N`.
#[verifier::opaque]
pub open spec fn tries_result(o: TraceOptionsView, opt: Seq<char>, v: Option<Seq<char>>) -> Result<
    TraceOptionsView,
    ParseErrorView,
> {
    match v {
        None => Err(ParseErrorView::MissingValue(opt)),
        Some(raw) => match tries_value(raw) {
            Some(n) => Ok(TraceOptionsView { retries: n, ..o }),
            None => Err(ParseErrorView::InvalidValue(opt, raw)),
        },
    }
}

/// `+[no]cache` and `+nocache=NAME`.
#[verifier::opaque]
pub open spec fn cache_result(o: TraceOptionsView, negate: bool, v: Option<Seq<char>>) -> TraceOptionsView {
    if negate {
        match v {
            Some(raw) => TraceOptionsView { cache_skip_qnames: o.cache_skip_qnames.push(raw), ..o },
            None => TraceOptionsView { use_cache: false, ..o },
        }
    } else {
        TraceOptionsView { use_cache: true, ..o }
    }
}

/// `+family=...`, refused when it contradicts a `-4` or `-6` seen before.
#[verifier::opaque]
pub open spec fn family_result(
    o: TraceOptionsView,
    opt: Seq<char>,
    v: Option<Seq<char>>,
    saw_v4: bool,
    saw_v6: bool,
) -> Result<TraceOptionsView, ParseErrorView> {
    match v {
        None => Err(ParseErrorView::MissingValue(opt)),
        Some(raw) => match family_value(raw) {
            None => Err(ParseErrorView::InvalidValue(opt, raw)),
            Some(f) => if (f == AddressFamilyRequest::V4 && saw_v6) || (f == AddressFamilyRequest::V6
                && saw_v4) {
                Err(ParseErrorView::AddressFamily)
            } else {
                Ok(
                    TraceOptionsView {
                        family_request: f,
                        family_source: FamilySource::PlusFamily(f),
                        ..o
                    },
                )
            },
        },
    }
}

/// `+expand=POLICY[+force]`; `+force` is never taken back.
#[verifier::opaque]
pub open spec fn expand_result(o: TraceOptionsView, opt: Seq<char>, v: Option<Seq<char>>) -> Result<
    TraceOptionsView,
    ParseErrorView,
> {
    match v {
        None => Err(ParseErrorView::MissingValue(opt)),
        Some(raw) => {
            let (stem, force) = expand_stem(raw);
            match expand_policy(stem) {
                None => Err(ParseErrorView::InvalidValue(opt, stem)),
                Some(p) => Ok(
                    TraceOptionsView {
                        expansion: p,
                        expand_all_force: o.expand_all_force || force,
                        ..o
                    },
                ),
            }
        },
    }
}

/// The on/off options: `+[no]tcp`, `+[no]dnssec`, `+[no]nsid`, `+nonsid`,
/// `+[no]events`, `+[no]debug`, `+[no]save`, `+[no]fresh`, `+[no]follow`.
#[verifier::opaque]
pub open spec fn flag_result(o: TraceOptionsView, kw: OptionKeyword, negate: bool) -> TraceOptionsView {
    TraceOptionsView {
        use_tcp: if kw == OptionKeyword::Tcp { !negate } else { o.use_tcp },
        dnssec: if kw == OptionKeyword::Dnssec { !negate } else { o.dnssec },
        request_nsid: if kw == OptionKeyword::Nsid {
            !negate
        } else if kw == OptionKeyword::NoNsid {
            false
        } else {
            o.request_nsid
        },
        events: if kw == OptionKeyword::Events { !negate } else { o.events },
        debug: if kw == OptionKeyword::Debug { !negate } else { o.debug },
        save_session: if kw == OptionKeyword::Save { !negate } else { o.save_session },
        fresh: if kw == OptionKeyword::Fresh { !negate } else { o.fresh },
        follow_aliases: if kw == OptionKeyword::Follow { !negate } else { o.follow_aliases },
        ..o
    }
}

/// What one `+keyword[=value]` argument does to the settings. The `-4`/`-6`
/// flags seen so far refuse a `+family` that contradicts them.
#[verifier::opaque]
pub open spec fn query_option_result(
    o: TraceOptionsView,
    arg: Seq<char>,
    saw_v4: bool,
    saw_v6: bool,
) -> Result<TraceOptionsView, ParseErrorView> {
    let (k, v, negate) = split_option(strip_leading(arg, '+'));
    let opt = seq!['+'] + k;
    match option_keyword(k) {
        OptionKeyword::Timeout => timeout_result(o, opt, v),
        OptionKeyword::Tries => tries_result(o, opt, v),
        OptionKeyword::Cache => Ok(cache_result(o, negate, v)),
        OptionKeyword::Family => family_result(o, opt, v, saw_v4, saw_v6),
        OptionKeyword::Expand => expand_result(o, opt, v),
        OptionKeyword::Unknown => Err(ParseErrorView::UnknownOption(opt)),
        kw => Ok(flag_result(o, kw, negate)),
    }
}

/// What the arguments read so far have given.
pub struct TraceScan {
    pub options: TraceOptionsView,
    pub qname: Option<Seq<char>>,
    pub saw_v4: bool,
    pub saw_v6: bool,
}

/// Nothing read yet.
pub open spec fn initial_scan() -> TraceScan {
    TraceScan { options: default_trace_options(), qname: None, saw_v4: false, saw_v6: false }
}

/// Whether `name` is one of the record types the resolver knows.
pub open spec fn known_type(types: Seq<Seq<char>>, name: Seq<char>) -> bool {
    exists|i: int| 0 <= i < types.len() && types[i] == name
}

/// The shapes an argument can have (other than `-t`/`-qtype`).
#[derive(Debug, Clone, Copy, PartialEq, Eq, Structural)]
pub enum ArgKind {
    Minus4,
    Minus6,
    Reverse,
    Server,
    Plus,
    TypeShorthand,
    Positional,
}

/// The shape of an argument: the flags `-4`, `-6`, `-x`; `@server`; a `+`
/// option; `-TYPE`; anything else is the query name.
#[verifier::opaque]
pub open spec fn arg_kind(arg: Seq<char>) -> ArgKind {
    if arg == "-4"@ {
        ArgKind::Minus4
    } else if arg == "-6"@ {
        ArgKind::Minus6
    } else if arg == "-x"@ {
        ArgKind::Reverse
    } else if arg.len() > 0 && arg[0] == '@' {
        ArgKind::Server
    } else if arg.len() > 0 && arg[0] == '+' {
        ArgKind::Plus
    } else if arg.len() > 1 && arg[0] == '-' {
        ArgKind::TypeShorthand
    } else {
        ArgKind::Positional
    }
}

/// `-4` (`six` false) or `-6` (`six` true), refused after the other one.
#[verifier::opaque]
pub open spec fn family_flag_step(st: TraceScan, six: bool) -> Result<TraceScan, ParseErrorView> {
    if (six && st.saw_v4) || (!six && st.saw_v6) {
        Err(ParseErrorView::AddressFamily)
    } else {
        Ok(
            TraceScan {
                options: TraceOptionsView {
                    family_request: if six {
                        AddressFamilyRequest::V6
                    } else {
                        AddressFamilyRequest::V4
                    },
                    family_source: if six {
                        FamilySource::Minus6
                    } else {
                        FamilySource::Minus4
                    },
                    ..st.options
                },
                saw_v4: st.saw_v4 || !six,
                saw_v6: st.saw_v6 || six,
                ..st
            },
        )
    }
}

/// `-x`: a reverse lookup, of type PTR.
#[verifier::opaque]
pub open spec fn reverse_step(st: TraceScan) -> TraceScan {
    TraceScan { options: TraceOptionsView { reverse_lookup: true, qtype: "PTR"@, ..st.options }, ..st }
}

/// `@server`: the server to start at.
#[verifier::opaque]
pub open spec fn server_step(st: TraceScan, arg: Seq<char>) -> TraceScan {
    TraceScan {
        options: TraceOptionsView { server: Some(strip_leading(arg, '@')), ..st.options },
        ..st
    }
}

/// A `+` option.
#[verifier::opaque]
pub open spec fn plus_step(st: TraceScan, arg: Seq<char>) -> Result<TraceScan, ParseErrorView> {
    match query_option_result(st.options, arg, st.saw_v4, st.saw_v6) {
        Ok(o) => Ok(TraceScan { options: o, ..st }),
        Err(e) => Err(e),
    }
}

/// The query type set to `t`.
#[verifier::opaque]
pub open spec fn with_qtype(st: TraceScan, t: Seq<char>) -> TraceScan {
    TraceScan { options: TraceOptionsView { qtype: t, ..st.options }, ..st }
}

/// `-TYPE`: accepted when the resolver knows the type.
#[verifier::opaque]
pub open spec fn type_step(st: TraceScan, arg: Seq<char>, types: Seq<Seq<char>>) -> Result<
    TraceScan,
    ParseErrorView,
> {
    let name = arg.subrange(1, arg.len() as int);
    if known_type(types, name) {
        Ok(with_qtype(st, name))
    } else {
        Err(ParseErrorView::QueryType(name))
    }
}

/// The query name; a second one is refused.
#[verifier::opaque]
pub open spec fn positional_step(st: TraceScan, arg: Seq<char>) -> Result<TraceScan, ParseErrorView> {
    match st.qname {
        Some(_) => Err(ParseErrorView::Unexpected(arg)),
        None => Ok(TraceScan { qname: Some(arg), ..st }),
    }
}

/// What one argument (other than `-t`/`-qtype`, which also takes the next
/// one) does.
#[verifier::opaque]
pub open spec fn trace_arg_step(st: TraceScan, arg: Seq<char>, types: Seq<Seq<char>>) -> Result<
    TraceScan,
    ParseErrorView,
> {
    match arg_kind(arg) {
        ArgKind::Minus4 => family_flag_step(st, false),
        ArgKind::Minus6 => family_flag_step(st, true),
        ArgKind::Reverse => Ok(reverse_step(st)),
        ArgKind::Server => Ok(server_step(st, arg)),
        ArgKind::Plus => plus_step(st, arg),
        ArgKind::TypeShorthand => type_step(st, arg, types),
        ArgKind::Positional => positional_step(st, arg),
    }
}

/// Reads the arguments from position `i` on; `-t TYPE` and `-qtype TYPE`
/// take the following argument as the type.
pub open spec fn trace_scan(
    args: Seq<Seq<char>>,
    types: Seq<Seq<char>>,
    i: int,
    st: TraceScan,
) -> Result<TraceScan, ParseErrorView>
    decreases args.len() - i,
{
    if i < 0 || i >= args.len() {
        Ok(st)
    } else if args[i] == "-t"@ || args[i] == "-qtype"@ {
        if i + 1 < args.len() {
            trace_scan(
                args,
                types,
                i + 2,
                with_qtype(st, args[i + 1]),
            )
        } else {
            Err(ParseErrorView::MissingValue(args[i]))
        }
    } else {
        match trace_arg_step(st, args[i], types) {
            Ok(next) => trace_scan(args, types, i + 1, next),
            Err(e) => Err(e),
        }
    }
}

/// The whole reading: a query name is required, `-4` with `-6` is refused,
/// and `-x` makes the type PTR whatever else was asked.
pub open spec fn trace_args_result(args: Seq<Seq<char>>, types: Seq<Seq<char>>) -> Result<
    TraceOptionsView,
    ParseErrorView,
> {
    match trace_scan(args, types, 0, initial_scan()) {
        Err(e) => Err(e),
        Ok(st) => match st.qname {
            None => Err(ParseErrorView::MissingQname),
            Some(q) => if st.saw_v4 && st.saw_v6 {
                Err(ParseErrorView::AddressFamily)
            } else {
                Ok(
                    TraceOptionsView {
                        qname: q,
                        qtype: if st.options.reverse_lookup {
                            "PTR"@
                        } else {
                            st.options.qtype
                        },
                        ..st.options
                    },
                )
            },
        },
    }
}

/// A keyword that `+` and `+no` can precede: not empty, not starting
/// with `+` or `no`, and without `=`.
pub open spec fn plain_word(w: Seq<char>) -> bool {
    &&& w.len() > 0
    &&& w[0] != '+'
    &&& !crate::text::starts_with(w, "no"@)
    &&& forall|k: int| 0 <= k < w.len() ==> w[k] != '='
}

/// The `+WORD` and `+noWORD` options read as WORD, without a value, the
/// second negated.
proof fn lemma_plus_word(w: Seq<char>)
    requires
        plain_word(w),
    ensures
        split_option(strip_leading(seq!['+'] + w, '+')) == (w, None::<Seq<char>>, false),
        split_option(strip_leading(seq!['+', 'n', 'o'] + w, '+')) == (w, None::<Seq<char>>, true),
        arg_kind(seq!['+'] + w) == ArgKind::Plus,
        arg_kind(seq!['+', 'n', 'o'] + w) == ArgKind::Plus,
        seq!['+'] + w != "-t"@ && seq!['+'] + w != "-qtype"@,
        seq!['+', 'n', 'o'] + w != "-t"@ && seq!['+', 'n', 'o'] + w != "-qtype"@,
{
    reveal_strlit("no");
    reveal_strlit("-t");
    reveal_strlit("-qtype");
    reveal_strlit("-4");
    reveal_strlit("-6");
    reveal_strlit("-x");
    let a = seq!['+'] + w;
    let b = seq!['+', 'n', 'o'] + w;
    assert(a.drop_first() =~= w);
    assert(strip_leading(w, '+') == w);
    assert(strip_leading(a, '+') == w);
    crate::query_option::lemma_index_of(w, '=', w.len() as int);
    let nw = seq!['n', 'o'] + w;
    assert(b.drop_first() =~= nw);
    assert(strip_leading(nw, '+') == nw);
    assert(strip_leading(b, '+') == nw);
    assert(nw.subrange(0, 2) =~= "no"@);
    assert(nw.subrange(2, nw.len() as int) =~= w);
    reveal(arg_kind);
    assert(a[0] == '+' && b[0] == '+');
    assert(a != "-4"@ && a != "-6"@ && a != "-x"@ && a != "-t"@ && a != "-qtype"@) by {
        assert(a[0] != "-4"@[0] && a[0] != "-6"@[0] && a[0] != "-x"@[0] && a[0] != "-t"@[0]);
        assert(a[0] != "-qtype"@[0]);
    }
    assert(b != "-4"@ && b != "-6"@ && b != "-x"@ && b != "-t"@ && b != "-qtype"@) by {
        assert(b[0] != "-4"@[0] && b[0] != "-6"@[0] && b[0] != "-x"@[0] && b[0] != "-t"@[0]);
        assert(b[0] != "-qtype"@[0]);
    }
}

/// The keywords of the on/off options, and that they read as plain words.
proof fn lemma_flag_words()
    ensures
        option_keyword("tcp"@) == OptionKeyword::Tcp,
        option_keyword("dnssec"@) == OptionKeyword::Dnssec,
        option_keyword("save"@) == OptionKeyword::Save,
        "+tcp"@ == seq!['+'] + "tcp"@,
        "+notcp"@ == seq!['+', 'n', 'o'] + "tcp"@,
        "+dnssec"@ == seq!['+'] + "dnssec"@,
        "+nodnssec"@ == seq!['+', 'n', 'o'] + "dnssec"@,
        "+save"@ == seq!['+'] + "save"@,
        "+nosave"@ == seq!['+', 'n', 'o'] + "save"@,
        plain_word("tcp"@),
        plain_word("dnssec"@),
        plain_word("save"@),
{
    reveal_strlit("+tcp");
    reveal_strlit("+notcp");
    reveal_strlit("+dnssec");
    reveal_strlit("+nodnssec");
    reveal_strlit("+save");
    reveal_strlit("+nosave");
    reveal_strlit("tcp");
    reveal_strlit("time");
    reveal_strlit("timeout");
    reveal_strlit("tries");
    reveal_strlit("dnssec");
    reveal_strlit("nsid");
    reveal_strlit("nonsid");
    reveal_strlit("events");
    reveal_strlit("debug");
    reveal_strlit("cache");
    reveal_strlit("save");
    reveal_strlit("no");
    assert("+tcp"@ =~= seq!['+'] + "tcp"@);
    assert("+notcp"@ =~= seq!['+', 'n', 'o'] + "tcp"@);
    assert("+dnssec"@ =~= seq!['+'] + "dnssec"@);
    assert("+nodnssec"@ =~= seq!['+', 'n', 'o'] + "dnssec"@);
    assert("+save"@ =~= seq!['+'] + "save"@);
    assert("+nosave"@ =~= seq!['+', 'n', 'o'] + "save"@);
    reveal(option_keyword);
    let d = "dnssec"@;
    assert(d != "tcp"@) by { assert(d.len() != "tcp"@.len()); }
    assert(d != "time"@) by { assert(d.len() != "time"@.len()); }
    assert(d != "timeout"@) by { assert(d.len() != "timeout"@.len()); }
    assert(d != "tries"@) by { assert(d.len() != "tries"@.len()); }
    let k = "save"@;
    assert(k != "tcp"@) by { assert(k.len() != "tcp"@.len()); }
    assert(k != "time"@) by { assert(k[0] != "time"@[0]); }
    assert(k != "timeout"@) by { assert(k.len() != "timeout"@.len()); }
    assert(k != "tries"@) by { assert(k.len() != "tries"@.len()); }
    assert(k != "dnssec"@) by { assert(k.len() != "dnssec"@.len()); }
    assert(k != "nsid"@) by { assert(k[0] != "nsid"@[0]); }
    assert(k != "nonsid"@) by { assert(k.len() != "nonsid"@.len()); }
    assert(k != "events"@) by { assert(k.len() != "events"@.len()); }
    assert(k != "debug"@) by { assert(k.len() != "debug"@.len()); }
    assert(k != "cache"@) by { assert(k.len() != "cache"@.len()); }
    assert forall|w: Seq<char>| w == "tcp"@ || w == "dnssec"@ || w == "save"@ implies plain_word(w) by {
        assert(w.subrange(0, 2)[0] != "no"@[0] || w.subrange(0, 2)[1] != "no"@[1]);
    }
}

/// Reading one more argument after arguments that were read without
/// refusal continues from where they left off.
proof fn lemma_scan_extend(args: Seq<Seq<char>>, x: Seq<char>, types: Seq<Seq<char>>, i: int, st: TraceScan)
    requires
        0 <= i <= args.len(),
        trace_scan(args, types, i, st) is Ok,
    ensures
        trace_scan(args.push(x), types, i, st) == trace_scan(
            args.push(x),
            types,
            args.len() as int,
            trace_scan(args, types, i, st)->Ok_0,
        ),
    decreases args.len() - i,
{
    let ext = args.push(x);
    if i < args.len() {
        assert(ext[i] == args[i]);
        if args[i] == "-t"@ || args[i] == "-qtype"@ {
            assert(i + 1 < args.len());
            assert(ext[i + 1] == args[i + 1]);
            lemma_scan_extend(args, x, types, i + 2, with_qtype(st, args[i + 1]));
        } else {
            let next = trace_arg_step(st, args[i], types)->Ok_0;
            lemma_scan_extend(args, x, types, i + 1, next);
        }
    }
}

/// An on/off option read after arguments read without refusal sets its
/// keyword's setting and nothing else.
#[verifier::spinoff_prover]
proof fn lemma_flag_appended(
    args: Seq<Seq<char>>,
    types: Seq<Seq<char>>,
    x: Seq<char>,
    w: Seq<char>,
    kw: OptionKeyword,
    negate: bool,
)
    requires
        trace_scan(args, types, 0, initial_scan()) is Ok,
        split_option(strip_leading(x, '+')) == (w, None::<Seq<char>>, negate),
        option_keyword(w) == kw,
        kw == OptionKeyword::Tcp || kw == OptionKeyword::Dnssec || kw == OptionKeyword::Save,
        arg_kind(x) == ArgKind::Plus,
        x != "-t"@ && x != "-qtype"@,
    ensures
        trace_args_result(args.push(x), types) == match trace_args_result(args, types) {
            Ok(o) => Ok(flag_result(o, kw, negate)),
            Err(e) => Err(e),
        },
{
    reveal(trace_arg_step);
    reveal(plus_step);
    reveal(query_option_result);
    reveal(flag_result);
    let st = trace_scan(args, types, 0, initial_scan())->Ok_0;
    let ext = args.push(x);
    let n = args.len() as int;
    lemma_scan_extend(args, x, types, 0, initial_scan());
    assert(ext[n] == x);
    let st3 = TraceScan { options: flag_result(st.options, kw, negate), ..st };
    assert(trace_arg_step(st, x, types) == Ok::<TraceScan, ParseErrorView>(st3));
    assert(trace_scan(ext, types, n + 1, st3) == Ok::<TraceScan, ParseErrorView>(st3));
    assert(trace_scan(ext, types, 0, initial_scan()) == Ok::<TraceScan, ParseErrorView>(st3));
}

/// The on/off options of `delve trace`: after any arguments read without
/// refusal, `+WORD` turns its setting on and `+noWORD` turns it off, and
/// nothing else changes (the reading succeeds or fails as it would
/// without the option). For `save`: `+nosave` means the trace is not kept
/// as a session, `+save` that it is; likewise `+[no]tcp` for TCP and
/// `+[no]dnssec` for the DNSSEC OK bit.
pub proof fn lemma_save_option_law(args: Seq<Seq<char>>, types: Seq<Seq<char>>)
    requires
        trace_scan(args, types, 0, initial_scan()) is Ok,
    ensures
        trace_args_result(args.push("+nosave"@), types) == match trace_args_result(args, types) {
            Ok(o) => Ok(TraceOptionsView { save_session: false, ..o }),
            Err(e) => Err(e),
        },
        trace_args_result(args.push("+save"@), types) == match trace_args_result(args, types) {
            Ok(o) => Ok(TraceOptionsView { save_session: true, ..o }),
            Err(e) => Err(e),
        },
        trace_args_result(args.push("+notcp"@), types) == match trace_args_result(args, types) {
            Ok(o) => Ok(TraceOptionsView { use_tcp: false, ..o }),
            Err(e) => Err(e),
        },
        trace_args_result(args.push("+tcp"@), types) == match trace_args_result(args, types) {
            Ok(o) => Ok(TraceOptionsView { use_tcp: true, ..o }),
            Err(e) => Err(e),
        },
        trace_args_result(args.push("+nodnssec"@), types) == match trace_args_result(args, types) {
            Ok(o) => Ok(TraceOptionsView { dnssec: false, ..o }),
            Err(e) => Err(e),
        },
        trace_args_result(args.push("+dnssec"@), types) == match trace_args_result(args, types) {
            Ok(o) => Ok(TraceOptionsView { dnssec: true, ..o }),
            Err(e) => Err(e),
        },
{
    lemma_flag_words();
    reveal(flag_result);
    lemma_plus_word("save"@);
    lemma_flag_appended(args, types, "+nosave"@, "save"@, OptionKeyword::Save, true);
    lemma_flag_appended(args, types, "+save"@, "save"@, OptionKeyword::Save, false);
    lemma_plus_word("tcp"@);
    lemma_flag_appended(args, types, "+notcp"@, "tcp"@, OptionKeyword::Tcp, true);
    lemma_flag_appended(args, types, "+tcp"@, "tcp"@, OptionKeyword::Tcp, false);
    lemma_plus_word("dnssec"@);
    lemma_flag_appended(args, types, "+nodnssec"@, "dnssec"@, OptionKeyword::Dnssec, true);
    lemma_flag_appended(args, types, "+dnssec"@, "dnssec"@, OptionKeyword::Dnssec, false);
}

fn parse_family_value(raw: &Vec<char>) -> (r: Option<AddressFamilyRequest>)
    ensures
        r == family_value(raw@),
{
    if eq_lit(raw, "auto") {
        Some(AddressFamilyRequest::Auto)
    } else if eq_lit(raw, "v4") {
        Some(AddressFamilyRequest::V4)
    } else if eq_lit(raw, "v6") {
        Some(AddressFamilyRequest::V6)
    } else if eq_lit(raw, "both") {
        Some(AddressFamilyRequest::Both)
    } else {
        None
    }
}

fn parse_expand_value(raw: &Vec<char>) -> (r: (Vec<char>, Option<ExpansionPolicy>, bool))
    ensures
        r.0@ == expand_stem(raw@).0,
        r.2 == expand_stem(raw@).1,
        r.1 == expand_policy(r.0@),
{
    let force = ends_with_lit(raw, "+force");
    let stem = if force {
        proof {
            reveal_strlit("+force");
        }
        slice_chars(raw, 0, raw.len() - 6)
    } else {
        slice_chars(raw, 0, raw.len())
    };
    assert(raw@.subrange(0, raw@.len() as int) =~= raw@);
    let policy = if eq_lit(&stem, "last") {
        Some(ExpansionPolicy::Last)
    } else if eq_lit(&stem, "all") {
        Some(ExpansionPolicy::All)
    } else if eq_lit(&stem, "none") {
        Some(ExpansionPolicy::NoExpansion)
    } else {
        None
    };
    (stem, policy, force)
}

fn option_keyword_of(k: &Vec<char>) -> (r: OptionKeyword)
    ensures
        r == option_keyword(k@),
{
    proof {
        reveal(option_keyword);
    }
    if eq_lit(k, "tcp") {
        OptionKeyword::Tcp
    } else if eq_lit(k, "time") || eq_lit(k, "timeout") {
        OptionKeyword::Timeout
    } else if eq_lit(k, "tries") {
        OptionKeyword::Tries
    } else if eq_lit(k, "dnssec") {
        OptionKeyword::Dnssec
    } else if eq_lit(k, "nsid") {
        OptionKeyword::Nsid
    } else if eq_lit(k, "nonsid") {
        OptionKeyword::NoNsid
    } else if eq_lit(k, "events") {
        OptionKeyword::Events
    } else if eq_lit(k, "debug") {
        OptionKeyword::Debug
    } else if eq_lit(k, "cache") {
        OptionKeyword::Cache
    } else if eq_lit(k, "save") {
        OptionKeyword::Save
    } else if eq_lit(k, "fresh") {
        OptionKeyword::Fresh
    } else if eq_lit(k, "follow") {
        OptionKeyword::Follow
    } else if eq_lit(k, "family") {
        OptionKeyword::Family
    } else if eq_lit(k, "expand") {
        OptionKeyword::Expand
    } else {
        OptionKeyword::Unknown
    }
}

/// The exec counterpart of an optional value.
pub open spec fn opt_view(v: Option<Vec<char>>) -> Option<Seq<char>> {
    match v {
        Some(x) => Some(x@),
        None => None,
    }
}

fn apply_timeout(options: TraceOptions, keyword: &Vec<char>, value: Option<Vec<char>>) -> (r: Result<
    TraceOptions,
    ParseError,
>)
    ensures
        match timeout_result(options@, seq!['+'] + keyword@, opt_view(value)) {
            Ok(o) => r matches Ok(x) && x@ == o,
            Err(e) => r matches Err(err) && err@ == e,
        },
{
    proof {
        reveal(timeout_result);
    }
    match value {
        None => Err(ParseError::MissingValue { option: plus_prefixed(keyword) }),
        Some(raw) => match parse_timeout_value(&raw) {
            Some(t) => Ok(TraceOptions { timeout_secs: t, ..options }),
            None => Err(ParseError::InvalidValue { option: plus_prefixed(keyword), value: string_of(&raw) }),
        },
    }
}

fn apply_tries(options: TraceOptions, keyword: &Vec<char>, value: Option<Vec<char>>) -> (r: Result<
    TraceOptions,
    ParseError,
>)
    ensures
        match tries_result(options@, seq!['+'] + keyword@, opt_view(value)) {
            Ok(o) => r matches Ok(x) && x@ == o,
            Err(e) => r matches Err(err) && err@ == e,
        },
{
    proof {
        reveal(tries_result);
    }
    match value {
        None => Err(ParseError::MissingValue { option: plus_prefixed(keyword) }),
        Some(raw) => match parse_tries_value(&raw) {
            Some(n) => Ok(TraceOptions { retries: n, ..options }),
            None => Err(ParseError::InvalidValue { option: plus_prefixed(keyword), value: string_of(&raw) }),
        },
    }
}

#[verifier::spinoff_prover]
#[verifier::rlimit(30)]
fn apply_cache(options: TraceOptions, negate: bool, value: Option<Vec<char>>) -> (r: TraceOptions)
    ensures
        r@ == cache_result(options@, negate, opt_view(value)),
{
    proof {
        reveal(cache_result);
    }
    if negate {
        match value {
            Some(raw) => {
                let name = string_of(&raw);
                let mut skip = options.cache_skip_qnames;
                proof {
                    crate::text::lemma_views_push(skip@, name);
                }
                push_string(&mut skip, name);
                TraceOptions {
                    qname: options.qname,
                    server: options.server,
                    qtype: options.qtype,
                    reverse_lookup: options.reverse_lookup,
                    follow_aliases: options.follow_aliases,
                    family_request: options.family_request,
                    family_source: options.family_source,
                    use_tcp: options.use_tcp,
                    timeout_secs: options.timeout_secs,
                    retries: options.retries,
                    dnssec: options.dnssec,
                    request_nsid: options.request_nsid,
                    use_cache: options.use_cache,
                    cache_skip_qnames: skip,
                    save_session: options.save_session,
                    events: options.events,
                    debug: options.debug,
                    fresh: options.fresh,
                    expansion: options.expansion,
                    expand_all_force: options.expand_all_force,
                }
            },
            None => TraceOptions { use_cache: false, ..options },
        }
    } else {
        TraceOptions { use_cache: true, ..options }
    }
}

fn apply_family(
    options: TraceOptions,
    keyword: &Vec<char>,
    value: Option<Vec<char>>,
    saw_v4: bool,
    saw_v6: bool,
) -> (r: Result<TraceOptions, ParseError>)
    ensures
        match family_result(options@, seq!['+'] + keyword@, opt_view(value), saw_v4, saw_v6) {
            Ok(o) => r matches Ok(x) && x@ == o,
            Err(e) => r matches Err(err) && err@ == e,
        },
{
    proof {
        reveal(family_result);
    }
    match value {
        None => Err(ParseError::MissingValue { option: plus_prefixed(keyword) }),
        Some(raw) => match parse_family_value(&raw) {
            None => Err(ParseError::InvalidValue { option: plus_prefixed(keyword), value: string_of(&raw) }),
            Some(f) => {
                let v4 = match f {
                    AddressFamilyRequest::V4 => true,
                    _ => false,
                };
                let v6 = match f {
                    AddressFamilyRequest::V6 => true,
                    _ => false,
                };
                if (v4 && saw_v6) || (v6 && saw_v4) {
                    Err(ParseError::AddressFamily)
                } else {
                    Ok(
                        TraceOptions {
                            family_request: f,
                            family_source: FamilySource::PlusFamily(f),
                            ..options
                        },
                    )
                }
            },
        },
    }
}

fn apply_expand(options: TraceOptions, keyword: &Vec<char>, value: Option<Vec<char>>) -> (r: Result<
    TraceOptions,
    ParseError,
>)
    ensures
        match expand_result(options@, seq!['+'] + keyword@, opt_view(value)) {
            Ok(o) => r matches Ok(x) && x@ == o,
            Err(e) => r matches Err(err) && err@ == e,
        },
{
    proof {
        reveal(expand_result);
    }
    match value {
        None => Err(ParseError::MissingValue { option: plus_prefixed(keyword) }),
        Some(raw) => {
            let (stem, policy, force) = parse_expand_value(&raw);
            match policy {
                None => Err(ParseError::InvalidValue { option: plus_prefixed(keyword), value: string_of(&stem) }),
                Some(p) => {
                    let keep = options.expand_all_force;
                    Ok(TraceOptions { expansion: p, expand_all_force: keep || force, ..options })
                },
            }
        },
    }
}

#[verifier::rlimit(50)]
fn apply_flag(options: TraceOptions, kw: OptionKeyword, negate: bool) -> (r: TraceOptions)
    ensures
        r@ == flag_result(options@, kw, negate),
{
    proof {
        reveal(flag_result);
    }
    let use_tcp = if kw == OptionKeyword::Tcp { !negate } else { options.use_tcp };
    let dnssec = if kw == OptionKeyword::Dnssec { !negate } else { options.dnssec };
    let request_nsid = if kw == OptionKeyword::Nsid {
        !negate
    } else if kw == OptionKeyword::NoNsid {
        false
    } else {
        options.request_nsid
    };
    let events = if kw == OptionKeyword::Events { !negate } else { options.events };
    let debug = if kw == OptionKeyword::Debug { !negate } else { options.debug };
    let save_session = if kw == OptionKeyword::Save { !negate } else { options.save_session };
    let fresh = if kw == OptionKeyword::Fresh { !negate } else { options.fresh };
    let follow_aliases = if kw == OptionKeyword::Follow { !negate } else { options.follow_aliases };
    TraceOptions {
        use_tcp,
        dnssec,
        request_nsid,
        events,
        debug,
        save_session,
        fresh,
        follow_aliases,
        ..options
    }
}

#[verifier::spinoff_prover]
fn apply_query_option(
    options: TraceOptions,
    arg: &Vec<char>,
    saw_v4: bool,
    saw_v6: bool,
) -> (r: Result<TraceOptions, ParseError>)
    ensures
        match query_option_result(options@, arg@, saw_v4, saw_v6) {
            Ok(o) => r matches Ok(x) && x@ == o,
            Err(e) => r matches Err(err) && err@ == e,
        },
{
    proof {
        reveal(query_option_result);
    }
    let body = strip_leading_chars(arg, '+');
    let (keyword, value, negate) = split_query_option(&body);
    let ghost k = keyword@;
    let ghost v = opt_view(value);
    assert(split_option(strip_leading(arg@, '+')) == (k, v, negate));
    match option_keyword_of(&keyword) {
        OptionKeyword::Timeout => apply_timeout(options, &keyword, value),
        OptionKeyword::Tries => apply_tries(options, &keyword, value),
        OptionKeyword::Cache => Ok(apply_cache(options, negate, value)),
        OptionKeyword::Family => apply_family(options, &keyword, value, saw_v4, saw_v6),
        OptionKeyword::Expand => apply_expand(options, &keyword, value),
        OptionKeyword::Unknown => Err(ParseError::UnknownOption(plus_prefixed(&keyword))),
        kw => Ok(apply_flag(options, kw, negate)),
    }
}

/// The exec state behind a [`TraceScan`].
struct ScanState {
    options: TraceOptions,
    qname: Option<String>,
    saw_v4: bool,
    saw_v6: bool,
}

impl View for ScanState {
    type V = TraceScan;

    closed spec fn view(&self) -> TraceScan {
        TraceScan {
            options: self.options@,
            qname: match self.qname {
                Some(q) => Some(q@),
                None => None,
            },
            saw_v4: self.saw_v4,
            saw_v6: self.saw_v6,
        }
    }
}

fn is_known_type(types: &Vec<String>, name: &Vec<char>) -> (r: bool)
    ensures
        r == known_type(views(types@), name@),
{
    let ghost tv = views(types@);
    let mut i: usize = 0;
    while i < types.len()
        invariant
            i <= types.len(),
            tv == views(types@),
            tv.len() == types@.len(),
            forall|k: int| 0 <= k < i ==> tv[k] != name@,
        decreases types.len() - i,
    {
        let t = chars_of(types[i].as_str());
        if eq_chars(&t, name) {
            assert(tv[i as int] == name@);
            return true;
        }
        i = i + 1;
    }
    false
}

fn arg_kind_of(arg: &Vec<char>) -> (r: ArgKind)
    ensures
        r == arg_kind(arg@),
{
    proof {
        reveal(arg_kind);
    }
    if eq_lit(arg, "-4") {
        ArgKind::Minus4
    } else if eq_lit(arg, "-6") {
        ArgKind::Minus6
    } else if eq_lit(arg, "-x") {
        ArgKind::Reverse
    } else if arg.len() > 0 && arg[0] == '@' {
        ArgKind::Server
    } else if arg.len() > 0 && arg[0] == '+' {
        ArgKind::Plus
    } else if arg.len() > 1 && arg[0] == '-' {
        ArgKind::TypeShorthand
    } else {
        ArgKind::Positional
    }
}

#[verifier::rlimit(50)]
fn family_flag(st: ScanState, six: bool) -> (r: Result<ScanState, ParseError>)
    ensures
        match family_flag_step(st@, six) {
            Ok(next) => r matches Ok(x) && x@ == next,
            Err(e) => r matches Err(err) && err@ == e,
        },
{
    proof {
        reveal(family_flag_step);
    }
    if (six && st.saw_v4) || (!six && st.saw_v6) {
        return Err(ParseError::AddressFamily);
    }
    let family_request = if six { AddressFamilyRequest::V6 } else { AddressFamilyRequest::V4 };
    let family_source = if six { FamilySource::Minus6 } else { FamilySource::Minus4 };
    let saw_v4 = st.saw_v4 || !six;
    let saw_v6 = st.saw_v6 || six;
    Ok(
        ScanState {
            options: TraceOptions { family_request, family_source, ..st.options },
            qname: st.qname,
            saw_v4,
            saw_v6,
        },
    )
}

fn reverse(st: ScanState) -> (r: ScanState)
    ensures
        r@ == reverse_step(st@),
{
    proof {
        reveal(reverse_step);
    }
    let mut st = st;
    st.options.reverse_lookup = true;
    st.options.qtype = owned("PTR");
    st
}

fn set_server(st: ScanState, arg: &Vec<char>) -> (r: ScanState)
    ensures
        r@ == server_step(st@, arg@),
{
    proof {
        reveal(server_step);
    }
    let server = strip_leading_chars(arg, '@');
    let mut st = st;
    st.options.server = Some(string_of(&server));
    st
}

fn plus(st: ScanState, arg: &Vec<char>) -> (r: Result<ScanState, ParseError>)
    ensures
        match plus_step(st@, arg@) {
            Ok(next) => r matches Ok(x) && x@ == next,
            Err(e) => r matches Err(err) && err@ == e,
        },
{
    proof {
        reveal(plus_step);
    }
    let saw_v4 = st.saw_v4;
    let saw_v6 = st.saw_v6;
    match apply_query_option(st.options, arg, saw_v4, saw_v6) {
        Ok(o) => Ok(ScanState { options: o, qname: st.qname, saw_v4, saw_v6 }),
        Err(e) => Err(e),
    }
}

fn set_qtype(st: ScanState, t: &Vec<char>) -> (r: ScanState)
    ensures
        r@ == with_qtype(st@, t@),
{
    proof {
        reveal(with_qtype);
    }
    let mut st = st;
    st.options.qtype = string_of(t);
    st
}

fn type_shorthand(st: ScanState, arg: &Vec<char>, types: &Vec<String>) -> (r: Result<
    ScanState,
    ParseError,
>)
    requires
        arg@.len() > 1,
    ensures
        match type_step(st@, arg@, views(types@)) {
            Ok(next) => r matches Ok(x) && x@ == next,
            Err(e) => r matches Err(err) && err@ == e,
        },
{
    proof {
        reveal(type_step);
    }
    let name = slice_chars(arg, 1, arg.len());
    if !is_known_type(types, &name) {
        Err(ParseError::QueryType(string_of(&name)))
    } else {
        Ok(set_qtype(st, &name))
    }
}

fn positional(st: ScanState, arg: &Vec<char>) -> (r: Result<ScanState, ParseError>)
    ensures
        match positional_step(st@, arg@) {
            Ok(next) => r matches Ok(x) && x@ == next,
            Err(e) => r matches Err(err) && err@ == e,
        },
{
    proof {
        reveal(positional_step);
    }
    if st.qname.is_some() {
        Err(ParseError::Unexpected(string_of(arg)))
    } else {
        let mut st = st;
        st.qname = Some(string_of(arg));
        Ok(st)
    }
}

fn apply_trace_arg(st: ScanState, arg: &Vec<char>, types: &Vec<String>) -> (r: Result<
    ScanState,
    ParseError,
>)
    ensures
        match trace_arg_step(st@, arg@, views(types@)) {
            Ok(next) => r matches Ok(x) && x@ == next,
            Err(e) => r matches Err(err) && err@ == e,
        },
{
    proof {
        reveal(trace_arg_step);
        reveal(arg_kind);
    }
    match arg_kind_of(arg) {
        ArgKind::Minus4 => family_flag(st, false),
        ArgKind::Minus6 => family_flag(st, true),
        ArgKind::Reverse => Ok(reverse(st)),
        ArgKind::Server => Ok(set_server(st, arg)),
        ArgKind::Plus => plus(st, arg),
        ArgKind::TypeShorthand => type_shorthand(st, arg, types),
        ArgKind::Positional => positional(st, arg),
    }
}

/// Reads the trace arguments. `types` lists the record type names that the
/// resolver accepts for the `-TYPE` shorthand.
pub fn parse_trace_args(args: &Vec<String>, types: &Vec<String>) -> (r: Result<
    TraceOptions,
    ParseError,
>)
    ensures
        match trace_args_result(views(args@), views(types@)) {
            Ok(o) => r matches Ok(opts) && opts@ == o,
            Err(e) => r matches Err(err) && err@ == e,
        },
{
    let ghost all = views(args@);
    let ghost tys = views(types@);
    let mut st = ScanState {
        options: TraceOptions::default(),
        qname: None,
        saw_v4: false,
        saw_v6: false,
    };
    let mut index: usize = 0;
    while index < args.len()
        invariant
            index <= args.len(),
            all == views(args@),
            tys == views(types@),
            all.len() == args@.len(),
            trace_scan(all, tys, 0, initial_scan()) == trace_scan(all, tys, index as int, st@),
        decreases args.len() - index,
    {
        let arg = chars_of(args[index].as_str());
        assert(all[index as int] == arg@);
        if eq_lit(&arg, "-t") || eq_lit(&arg, "-qtype") {
            if index + 1 < args.len() {
                let value = chars_of(args[index + 1].as_str());
                assert(all[index + 1] == value@);
                st = set_qtype(st, &value);
                index = index + 2;
            } else {
                return Err(ParseError::MissingValue { option: string_of(&arg) });
            }
        } else {
            st = match apply_trace_arg(st, &arg, types) {
                Ok(next) => next,
                Err(e) => {
                    return Err(e);
                },
            };
            index = index + 1;
        }
    }
    match st.qname {
        None => Err(ParseError::MissingQname),
        Some(q) => {
            if st.saw_v4 && st.saw_v6 {
                return Err(ParseError::AddressFamily);
            }
            let mut options = st.options;
            if options.reverse_lookup {
                options.qtype = owned("PTR");
            }
            options.qname = q;
            Ok(options)
        },
    }
}

} // verus!
