//! Arguments of `delve explore`: `+icmp` and the query overrides
//! `+time[out]=N`, `+tries=N` and `+[no]tcp`.

use vstd::prelude::*;

use crate::query_option::{
    parse_timeout_value, parse_tries_value, plus_prefixed, split_option, split_query_option,
    strip_leading, strip_leading_chars, timeout_value, tries_value,
};
use crate::text::{chars_of, eq_lit, string_of, views};

verus! {

/// Query settings given on the explore command line; `None` keeps the
/// stored trace's own setting.
#[derive(Debug, Clone, Copy, PartialEq, Eq, Structural)]
pub struct ExploreQueryOverrides {
    pub timeout_secs: Option<u64>,
    pub retries: Option<u8>,
    pub use_tcp: Option<bool>,
}

impl ExploreQueryOverrides {
    /// Whether no override was given.
    pub fn is_empty(&self) -> (r: bool)
        ensures
            r == (self.timeout_secs is None && self.retries is None && self.use_tcp is None),
    {
        self.timeout_secs.is_none() && self.retries.is_none() && self.use_tcp.is_none()
    }
}

/// No overrides.
pub open spec fn no_overrides() -> ExploreQueryOverrides {
    ExploreQueryOverrides { timeout_secs: None, retries: None, use_tcp: None }
}

impl Default for ExploreQueryOverrides {
    fn default() -> (r: Self)
        ensures
            r == no_overrides(),
    {
        ExploreQueryOverrides { timeout_secs: None, retries: None, use_tcp: None }
    }
}

/// What the explore command line asked for.
#[derive(Debug, Clone, Copy, PartialEq, Eq, Structural)]
pub struct ExploreOptions {
    pub plus_icmp: bool,
    pub query_overrides: ExploreQueryOverrides,
}

impl Default for ExploreOptions {
    fn default() -> (r: Self)
        ensures
            r == (ExploreOptions { plus_icmp: false, query_overrides: no_overrides() }),
    {
        ExploreOptions { plus_icmp: false, query_overrides: ExploreQueryOverrides::default() }
    }
}

/// How a stored trace sends its queries.
#[derive(Debug, Clone, Copy, PartialEq, Eq, Structural)]
pub enum Transport {
    Udp,
    Tcp,
}

/// The query settings of a trace configuration that explore may override.
#[derive(Debug, Clone, Copy, PartialEq, Eq, Structural)]
pub struct TraceSettings {
    pub timeout_secs: u64,
    pub retries: u8,
    pub transport: Transport,
}

/// Applies each given override; a timeout is raised to at least one second.
pub fn apply_explore_query_overrides(config: &mut TraceSettings, overrides: &ExploreQueryOverrides)
    ensures
        final(config).timeout_secs == match overrides.timeout_secs {
            Some(t) => if t >= 1 { t } else { 1 },
            None => old(config).timeout_secs,
        },
        final(config).retries == match overrides.retries {
            Some(n) => n,
            None => old(config).retries,
        },
        final(config).transport == match overrides.use_tcp {
            Some(tcp) => if tcp { Transport::Tcp } else { Transport::Udp },
            None => old(config).transport,
        },
{
    if let Some(timeout_secs) = overrides.timeout_secs {
        config.timeout_secs = if timeout_secs >= 1 { timeout_secs } else { 1 };
    }
    if let Some(retries) = overrides.retries {
        config.retries = retries;
    }
    if let Some(use_tcp) = overrides.use_tcp {
        config.transport = if use_tcp { Transport::Tcp } else { Transport::Udp };
    }
}

/// Why the explore arguments were refused.
#[derive(Debug, Clone, PartialEq, Eq)]
pub enum ExploreParseError {
    Unexpected(String),
    UnknownOption(String),
    MissingValue(String),
    InvalidValue { option: String, value: String },
}

/// An [`ExploreParseError`] with its texts as character sequences.
pub enum ExploreErrorView {
    Unexpected(Seq<char>),
    UnknownOption(Seq<char>),
    MissingValue(Seq<char>),
    InvalidValue(Seq<char>, Seq<char>),
}

impl View for ExploreParseError {
    type V = ExploreErrorView;

    open spec fn view(&self) -> ExploreErrorView {
        match self {
            ExploreParseError::Unexpected(a) => ExploreErrorView::Unexpected(a@),
            ExploreParseError::UnknownOption(a) => ExploreErrorView::UnknownOption(a@),
            ExploreParseError::MissingValue(a) => ExploreErrorView::MissingValue(a@),
            ExploreParseError::InvalidValue { option, value } => ExploreErrorView::InvalidValue(
                option@,
                value@,
            ),
        }
    }
}

impl ExploreParseError {
    /// The message shown for the error.
    pub fn message(&self) -> (s: String)
        ensures
            s@ == match self@ {
                ExploreErrorView::Unexpected(a) => "unexpected argument: "@ + a,
                ExploreErrorView::UnknownOption(a) => "unknown option: "@ + a,
                ExploreErrorView::MissingValue(a) => "missing value for "@ + a,
                ExploreErrorView::InvalidValue(o, v) => "invalid value for "@ + o + ": "@ + v,
            },
    {
        let mut s = String::new();
        match self {
            ExploreParseError::Unexpected(a) => {
                s.append("unexpected argument: ");
                s.append(a.as_str());
            },
            ExploreParseError::UnknownOption(a) => {
                s.append("unknown option: ");
                s.append(a.as_str());
            },
            ExploreParseError::MissingValue(a) => {
                s.append("missing value for ");
                s.append(a.as_str());
            },
            ExploreParseError::InvalidValue { option, value } => {
                s.append("invalid value for ");
                s.append(option.as_str());
                s.append(": ");
                s.append(value.as_str());
            },
        }
        s
    }
}

/// What one `+keyword[=value]` argument does to the overrides.
pub open spec fn plus_option_result(arg: Seq<char>, ov: ExploreQueryOverrides) -> Result<
    ExploreQueryOverrides,
    ExploreErrorView,
> {
    let (k, v, negate) = split_option(strip_leading(arg, '+'));
    if k == "time"@ || k == "timeout"@ {
        match v {
            None => Err(ExploreErrorView::MissingValue(seq!['+'] + k)),
            Some(raw) => match timeout_value(raw) {
                Some(t) => Ok(
                    ExploreQueryOverrides {
                        timeout_secs: Some(t),
                        retries: ov.retries,
                        use_tcp: ov.use_tcp,
                    },
                ),
                None => Err(ExploreErrorView::InvalidValue(seq!['+'] + k, raw)),
            },
        }
    } else if k == "tries"@ {
        match v {
            None => Err(ExploreErrorView::MissingValue(seq!['+'] + k)),
            Some(raw) => match tries_value(raw) {
                Some(n) => Ok(
                    ExploreQueryOverrides {
                        timeout_secs: ov.timeout_secs,
                        retries: Some(n),
                        use_tcp: ov.use_tcp,
                    },
                ),
                None => Err(ExploreErrorView::InvalidValue(seq!['+'] + k, raw)),
            },
        }
    } else if k == "tcp"@ {
        Ok(ExploreQueryOverrides { timeout_secs: ov.timeout_secs, retries: ov.retries, use_tcp: Some(!negate) })
    } else if k == "notcp"@ {
        Ok(ExploreQueryOverrides { timeout_secs: ov.timeout_secs, retries: ov.retries, use_tcp: Some(false) })
    } else {
        Err(ExploreErrorView::UnknownOption(seq!['+'] + k))
    }
}

/// What one argument does: `+icmp` asks for ICMP, another `+` argument is a
/// query override, anything else is refused.
pub open spec fn explore_arg_step(o: ExploreOptions, arg: Seq<char>) -> Result<
    ExploreOptions,
    ExploreErrorView,
> {
    if arg == "+icmp"@ {
        Ok(ExploreOptions { plus_icmp: true, query_overrides: o.query_overrides })
    } else if arg.len() > 0 && arg[0] == '+' {
        match plus_option_result(arg, o.query_overrides) {
            Ok(ov) => Ok(ExploreOptions { plus_icmp: o.plus_icmp, query_overrides: ov }),
            Err(e) => Err(e),
        }
    } else {
        Err(ExploreErrorView::Unexpected(arg))
    }
}

/// The arguments taken in order from no options; the first refused one
/// gives the error.
pub open spec fn explore_args_result(args: Seq<Seq<char>>) -> Result<ExploreOptions, ExploreErrorView>
    decreases args.len(),
{
    if args.len() == 0 {
        Ok(ExploreOptions { plus_icmp: false, query_overrides: no_overrides() })
    } else {
        match explore_args_result(args.drop_last()) {
            Ok(o) => explore_arg_step(o, args.last()),
            Err(e) => Err(e),
        }
    }
}

/// Once a prefix of the arguments is refused, so are all of them, with the
/// same error.
pub proof fn lemma_explore_error_extends(args: Seq<Seq<char>>, i: int)
    requires
        0 <= i <= args.len(),
        explore_args_result(args.subrange(0, i)) is Err,
    ensures
        explore_args_result(args) == explore_args_result(args.subrange(0, i)),
    decreases args.len() - i,
{
    if i == args.len() {
        assert(args.subrange(0, i) =~= args);
    } else {
        let next = args.subrange(0, i + 1);
        assert(next.drop_last() =~= args.subrange(0, i));
        lemma_explore_error_extends(args, i + 1);
    }
}

proof fn lemma_tcp_words()
    ensures
        split_option(strip_leading("+tcp"@, '+')) == ("tcp"@, None::<Seq<char>>, false),
        split_option(strip_leading("+notcp"@, '+')) == ("tcp"@, None::<Seq<char>>, true),
        "+tcp"@ != "+icmp"@,
        "+notcp"@ != "+icmp"@,
        "+tcp"@.len() > 0 && "+tcp"@[0] == '+',
        "+notcp"@.len() > 0 && "+notcp"@[0] == '+',
        "tcp"@ != "time"@ && "tcp"@ != "timeout"@ && "tcp"@ != "tries"@,
{
    reveal_strlit("+tcp");
    reveal_strlit("+notcp");
    reveal_strlit("notcp");
    reveal_strlit("+icmp");
    reveal_strlit("tcp");
    reveal_strlit("time");
    reveal_strlit("timeout");
    reveal_strlit("tries");
    reveal_strlit("no");
    let a = "+tcp"@;
    assert(a.drop_first() =~= "tcp"@);
    assert(strip_leading(a.drop_first(), '+') == a.drop_first());
    assert(strip_leading(a, '+') == "tcp"@);
    assert(!crate::text::starts_with("tcp"@, "no"@)) by {
        assert("tcp"@.subrange(0, 2) != "no"@) by {
            assert("tcp"@.subrange(0, 2)[0] != "no"@[0]);
        }
    }
    crate::query_option::lemma_index_of("tcp"@, '=', 3);
    let b = "+notcp"@;
    assert(b.drop_first() =~= "notcp"@);
    assert(strip_leading(b.drop_first(), '+') == b.drop_first());
    assert(strip_leading(b, '+') == "notcp"@);
    assert("notcp"@.subrange(0, 2) =~= "no"@);
    assert("notcp"@.subrange(2, 5) =~= "tcp"@);
    assert(a != "+icmp"@) by {
        assert(a[1] != "+icmp"@[1]);
    }
    assert(b != "+icmp"@) by {
        assert(b.len() != "+icmp"@.len());
    }
    assert("tcp"@ != "time"@) by {
        assert("tcp"@.len() != "time"@.len());
    }
    assert("tcp"@ != "tries"@) by {
        assert("tcp"@.len() != "tries"@.len());
    }
}

/// `+tcp` and `+notcp` decide the transport: after any arguments that are
/// accepted, `+tcp` asks for TCP and `+notcp` for UDP, keeping every other
/// setting; after a refused argument the refusal stands. So the last
/// `+[no]tcp` decides.
pub proof fn lemma_tcp_option_law(args: Seq<Seq<char>>)
    ensures
        explore_args_result(args) matches Ok(o) ==> explore_args_result(args.push("+tcp"@)) == Ok::<
            ExploreOptions,
            ExploreErrorView,
        >(
            ExploreOptions {
                plus_icmp: o.plus_icmp,
                query_overrides: ExploreQueryOverrides {
                    timeout_secs: o.query_overrides.timeout_secs,
                    retries: o.query_overrides.retries,
                    use_tcp: Some(true),
                },
            },
        ),
        explore_args_result(args) matches Ok(o) ==> explore_args_result(args.push("+notcp"@)) == Ok::<
            ExploreOptions,
            ExploreErrorView,
        >(
            ExploreOptions {
                plus_icmp: o.plus_icmp,
                query_overrides: ExploreQueryOverrides {
                    timeout_secs: o.query_overrides.timeout_secs,
                    retries: o.query_overrides.retries,
                    use_tcp: Some(false),
                },
            },
        ),
        explore_args_result(args) is Err ==> explore_args_result(args.push("+tcp"@)) == explore_args_result(
            args,
        ) && explore_args_result(args.push("+notcp"@)) == explore_args_result(args),
{
    lemma_tcp_words();
    assert(args.push("+tcp"@).drop_last() =~= args);
    assert(args.push("+notcp"@).drop_last() =~= args);
}

/// `+icmp` after accepted arguments asks for ICMP probes and keeps the
/// query overrides.
pub proof fn lemma_icmp_option_law(args: Seq<Seq<char>>)
    ensures
        explore_args_result(args) matches Ok(o) ==> explore_args_result(args.push("+icmp"@)) == Ok::<
            ExploreOptions,
            ExploreErrorView,
        >(ExploreOptions { plus_icmp: true, query_overrides: o.query_overrides }),
{
    assert(args.push("+icmp"@).drop_last() =~= args);
}

fn apply_explore_plus_option(arg: &Vec<char>, overrides: &mut ExploreQueryOverrides) -> (r: Result<
    (),
    ExploreParseError,
>)
    ensures
        match plus_option_result(arg@, *old(overrides)) {
            Ok(ov) => r is Ok && *final(overrides) == ov,
            Err(e) => r matches Err(err) && err@ == e,
        },
{
    let body = strip_leading_chars(arg, '+');
    let (keyword, value, negate) = split_query_option(&body);
    if eq_lit(&keyword, "time") || eq_lit(&keyword, "timeout") {
        match value {
            None => Err(ExploreParseError::MissingValue(plus_prefixed(&keyword))),
            Some(raw) => match parse_timeout_value(&raw) {
                Some(t) => {
                    overrides.timeout_secs = Some(t);
                    Ok(())
                },
                None => Err(
                    ExploreParseError::InvalidValue {
                        option: plus_prefixed(&keyword),
                        value: string_of(&raw),
                    },
                ),
            },
        }
    } else if eq_lit(&keyword, "tries") {
        match value {
            None => Err(ExploreParseError::MissingValue(plus_prefixed(&keyword))),
            Some(raw) => match parse_tries_value(&raw) {
                Some(n) => {
                    overrides.retries = Some(n);
                    Ok(())
                },
                None => Err(
                    ExploreParseError::InvalidValue {
                        option: plus_prefixed(&keyword),
                        value: string_of(&raw),
                    },
                ),
            },
        }
    } else if eq_lit(&keyword, "tcp") {
        overrides.use_tcp = Some(!negate);
        Ok(())
    } else if eq_lit(&keyword, "notcp") {
        overrides.use_tcp = Some(false);
        Ok(())
    } else {
        Err(ExploreParseError::UnknownOption(plus_prefixed(&keyword)))
    }
}

fn apply_explore_arg(options: &mut ExploreOptions, arg: &Vec<char>) -> (r: Result<(), ExploreParseError>)
    ensures
        match explore_arg_step(*old(options), arg@) {
            Ok(o) => r is Ok && *final(options) == o,
            Err(e) => r matches Err(err) && err@ == e,
        },
{
    if eq_lit(arg, "+icmp") {
        options.plus_icmp = true;
        Ok(())
    } else if arg.len() > 0 && arg[0] == '+' {
        let mut ov = options.query_overrides;
        match apply_explore_plus_option(arg, &mut ov) {
            Ok(()) => {
                options.query_overrides = ov;
                Ok(())
            },
            Err(e) => Err(e),
        }
    } else {
        Err(ExploreParseError::Unexpected(string_of(arg)))
    }
}

/// Reads the explore arguments.
pub fn parse_explore_args(args: &Vec<String>) -> (r: Result<ExploreOptions, ExploreParseError>)
    ensures
        match explore_args_result(views(args@)) {
            Ok(o) => r == Ok::<ExploreOptions, ExploreParseError>(o),
            Err(e) => r matches Err(err) && err@ == e,
        },
{
    let ghost all = views(args@);
    let mut options = ExploreOptions::default();
    let mut i: usize = 0;
    assert(all.subrange(0, 0) =~= Seq::<Seq<char>>::empty());
    while i < args.len()
        invariant
            i <= args.len(),
            all == views(args@),
            all.len() == args@.len(),
            explore_args_result(all.subrange(0, i as int)) == Ok::<ExploreOptions, ExploreErrorView>(options),
        decreases args.len() - i,
    {
        let arg = chars_of(args[i].as_str());
        let ghost next = all.subrange(0, i + 1);
        assert(next.drop_last() =~= all.subrange(0, i as int));
        assert(next.last() == arg@);
        match apply_explore_arg(&mut options, &arg) {
            Ok(()) => {},
            Err(e) => {
                proof {
                    lemma_explore_error_extends(all, i + 1);
                }
                return Err(e);
            },
        }
        i = i + 1;
    }
    assert(all.subrange(0, all.len() as int) =~= all);
    Ok(options)
}

} // verus!
