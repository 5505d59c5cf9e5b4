use delve::dig_options::{
    parse_trace_args, AddressFamilyRequest, ExpansionPolicy, FamilySource, ParseError,
    TRACE_OPTIONS_HELP,
};
use delve::expand_confirm::{expand_all_warning, expand_confirm_outcome, ExpandConfirmOutcome};
use delve::family_notice::{format_family_notice, ResolvedAddressFamily};

fn args(values: &[&str]) -> Vec<String> {
    values.iter().map(|value| (*value).to_string()).collect()
}

fn record_types() -> Vec<String> {
    args(&[
        "A", "AAAA", "NS", "MX", "TXT", "CNAME", "DNAME", "SOA", "PTR", "SRV", "CAA", "DS",
        "DNSKEY", "RRSIG", "NSEC", "NSEC3", "TLSA", "SVCB", "HTTPS", "ANY",
    ])
}

fn parse(values: &[&str]) -> Result<delve::dig_options::TraceOptions, ParseError> {
    parse_trace_args(&args(values), &record_types())
}

#[test]
fn trace_options_help_documents_key_flags() {
    assert!(TRACE_OPTIONS_HELP.contains("+follow"));
    assert!(TRACE_OPTIONS_HELP.contains("+debug"));
    assert!(TRACE_OPTIONS_HELP.contains("+events"));
    assert!(TRACE_OPTIONS_HELP.contains("+timeout=N"));
    assert!(TRACE_OPTIONS_HELP.contains("-x"));
}

#[test]
fn trace_options_help_documents_family_flags() {
    assert!(TRACE_OPTIONS_HELP.contains("+family=auto|v4|v6|both"));
    assert!(TRACE_OPTIONS_HELP.contains("-4"));
    assert!(TRACE_OPTIONS_HELP.contains("-6"));
}

#[test]
fn parses_qname_and_dig_style_options() {
    let options = parse(&["example.com", "@1.1.1.1", "+tcp", "+timeout=3", "-t", "MX"]).expect("parse");
    assert_eq!(options.qname, "example.com");
    assert_eq!(options.server.as_deref(), Some("1.1.1.1"));
    assert!(options.use_tcp);
    assert_eq!(options.timeout_secs, 3);
    assert_eq!(options.qtype, "MX");
}

#[test]
fn accepts_time_alias_for_timeout() {
    let options = parse(&["example.com", "+time=7"]).expect("parse");
    assert_eq!(options.timeout_secs, 7);
}

#[test]
fn clamps_timeout_to_one_second() {
    let options = parse(&["example.com", "+timeout=0"]).expect("parse");
    assert_eq!(options.timeout_secs, 1);
}

#[test]
fn supports_type_shorthand_and_nonsid() {
    let options = parse(&["example.com", "-NS", "+nonsid", "+events"]).expect("parse");
    assert_eq!(options.qtype, "NS");
    assert!(!options.request_nsid);
    assert!(options.events);
}

#[test]
fn supports_dnssec_type_shorthand() {
    let options = parse(&["example.com", "-TLSA"]).expect("parse");
    assert_eq!(options.qtype, "TLSA");
}

#[test]
fn supports_nocache_for_specific_qname() {
    let options = parse(&["example.com", "+nocache=ns.example.com"]).expect("parse");
    assert!(options.use_cache);
    assert_eq!(options.cache_skip_qnames, vec!["ns.example.com".to_string()]);
}

#[test]
fn supports_negated_options() {
    let options = parse(&["example.com", "+notcp", "+nodnssec"]).expect("parse");
    assert!(!options.use_tcp);
    assert!(!options.dnssec);
}

#[test]
fn supports_debug_flag() {
    let options = parse(&["example.com", "+debug"]).expect("parse");
    assert!(options.debug);
    let options = parse(&["example.com", "+nodebug"]).expect("parse");
    assert!(!options.debug);
}

#[test]
fn supports_fresh_flag() {
    let options = parse(&["example.com", "+fresh"]).expect("parse");
    assert!(options.fresh);
}

#[test]
fn supports_reverse_lookup_flag() {
    let options = parse(&["192.0.2.1", "-x"]).expect("parse");
    assert!(options.reverse_lookup);
    assert_eq!(options.qtype, "PTR");
    assert_eq!(options.qname, "192.0.2.1");
}

#[test]
fn supports_alias_following_flag() {
    let options = parse(&["example.com", "+follow", "+nofollow"]).expect("parse");
    assert!(!options.follow_aliases);
    let options = parse(&["example.com", "+follow"]).expect("parse");
    assert!(options.follow_aliases);
}

#[test]
fn parses_expand_policy_default() {
    let options = parse(&["example.com"]).expect("parse");
    assert_eq!(options.expansion, ExpansionPolicy::Last);
    assert!(!options.expand_all_force);
}

#[test]
fn parses_expand_values() {
    let none = parse(&["example.com", "+expand=none"]).expect("parse");
    assert_eq!(none.expansion, ExpansionPolicy::NoExpansion);
    let all = parse(&["example.com", "+expand=all"]).expect("parse");
    assert_eq!(all.expansion, ExpansionPolicy::All);
    assert!(!all.expand_all_force);
    let forced = parse(&["example.com", "+expand=all+force"]).expect("parse");
    assert_eq!(forced.expansion, ExpansionPolicy::All);
    assert!(forced.expand_all_force);
}

#[test]
fn rejects_invalid_expand_value() {
    let error = parse(&["example.com", "+expand=wide"]).expect_err("invalid expand");
    assert!(matches!(error, ParseError::InvalidValue { option, .. } if option == "+expand"));
}

#[test]
fn plain_expand_all_is_not_forced() {
    let options = parse(&["example.com", "+expand=all"]).expect("parse");
    assert!(!options.expand_all_force);
}

#[test]
fn default_family_is_auto() {
    let options = parse(&["example.com"]).expect("parse");
    assert_eq!(options.family_request, AddressFamilyRequest::Auto);
    assert_eq!(options.family_source, FamilySource::Default);
}

#[test]
fn parses_plus_family_values() {
    let v6 = parse(&["example.com", "+family=v6"]).expect("parse");
    assert_eq!(v6.family_request, AddressFamilyRequest::V6);
    assert_eq!(v6.family_source, FamilySource::PlusFamily(AddressFamilyRequest::V6));
    let both = parse(&["example.com", "+family=both"]).expect("parse");
    assert_eq!(both.family_request, AddressFamilyRequest::Both);
}

#[test]
fn rejects_conflicting_family_flags() {
    let error = parse(&["example.com", "-4", "-6"]).expect_err("conflict");
    assert!(matches!(error, ParseError::AddressFamily));
}

#[test]
fn rejects_invalid_family_value() {
    let error = parse(&["example.com", "+family=dual"]).expect_err("invalid");
    assert!(matches!(error, ParseError::InvalidValue { option, .. } if option == "+family"));
}

#[test]
fn trace_defaults_and_errors() {
    let options = parse(&["example.com"]).expect("parse");
    assert_eq!(options.qtype, "A");
    assert_eq!(options.timeout_secs, 5);
    assert_eq!(options.retries, 2);
    assert!(options.request_nsid && options.use_cache && options.save_session);
    assert!(matches!(parse(&[]).expect_err("no name"), ParseError::MissingQname));
    assert!(matches!(
        parse(&["a.example", "b.example"]).expect_err("two names"),
        ParseError::Unexpected(arg) if arg == "b.example"
    ));
    assert!(matches!(
        parse(&["example.com", "+bogus"]).expect_err("unknown"),
        ParseError::UnknownOption(opt) if opt == "+bogus"
    ));
    assert!(matches!(
        parse(&["example.com", "-t"]).expect_err("missing type"),
        ParseError::MissingValue { option } if option == "-t"
    ));
    assert!(matches!(
        parse(&["example.com", "+timeout"]).expect_err("missing timeout"),
        ParseError::MissingValue { option } if option == "+timeout"
    ));
    assert!(matches!(
        parse(&["example.com", "+tries=x"]).expect_err("bad tries"),
        ParseError::InvalidValue { option, value } if option == "+tries" && value == "x"
    ));
    assert!(matches!(
        parse(&["example.com", "-BOGUS"]).expect_err("bad type"),
        ParseError::QueryType(t) if t == "BOGUS"
    ));
    assert!(matches!(
        parse(&["example.com", "-4", "+family=v6"]).expect_err("family conflict"),
        ParseError::AddressFamily
    ));
}

#[test]
fn tries_keep_the_low_byte_and_minimum() {
    assert_eq!(parse(&["example.com", "+tries=0"]).expect("parse").retries, 1);
    assert_eq!(parse(&["example.com", "+tries=300"]).expect("parse").retries, 44);
    assert!(parse(&["example.com", "+tries=70000"]).is_err());
}

#[test]
fn reverse_lookup_wins_over_later_type() {
    let options = parse(&["192.0.2.1", "-x", "-t", "MX"]).expect("parse");
    assert_eq!(options.qtype, "PTR");
}

#[test]
fn parse_error_messages() {
    assert_eq!(ParseError::MissingQname.message(), "missing query name");
    assert_eq!(ParseError::AddressFamily.message(), "cannot use -4 and -6 together");
    assert_eq!(
        ParseError::MissingValue { option: "+tries".into() }.message(),
        "option +tries requires a value"
    );
}

#[test]
fn force_not_implied_by_plain_all() {
    assert_ne!(ExpandConfirmOutcome::Confirmed, ExpandConfirmOutcome::NoTerminal);
}

#[test]
fn confirm_outcome_follows_answer() {
    assert_eq!(expand_confirm_outcome(true, Some("y")), ExpandConfirmOutcome::Confirmed);
    assert_eq!(expand_confirm_outcome(true, Some(" Y \n")), ExpandConfirmOutcome::Confirmed);
    assert_eq!(expand_confirm_outcome(true, Some("n")), ExpandConfirmOutcome::Declined);
    assert_eq!(expand_confirm_outcome(true, Some("yes")), ExpandConfirmOutcome::Declined);
    assert_eq!(expand_confirm_outcome(true, None), ExpandConfirmOutcome::Declined);
    assert_eq!(expand_confirm_outcome(false, Some("y")), ExpandConfirmOutcome::NoTerminal);
    assert_eq!(
        expand_all_warning(4, 64),
        "warning: +expand=all may query every nameserver at every zone cut (starting with 4 server(s) at the first cut, budget 64 queries per action)"
    );
}

#[test]
fn auto_v4_only_uses_unreachable_wording() {
    let notice = format_family_notice(FamilySource::Default, AddressFamilyRequest::Auto, ResolvedAddressFamily::V4);
    assert_eq!(notice, "address family: v4-only (ipv6 unreachable)");
}

#[test]
fn auto_dual_stack_uses_probe_ok_wording() {
    let notice = format_family_notice(FamilySource::Default, AddressFamilyRequest::Auto, ResolvedAddressFamily::Both);
    assert_eq!(notice, "address family: dual-stack (ipv6 probe ok)");
}

#[test]
fn explicit_flags_use_flag_labels() {
    assert_eq!(
        format_family_notice(FamilySource::Minus4, AddressFamilyRequest::V4, ResolvedAddressFamily::V4),
        "address family: v4-only (-4)"
    );
    assert_eq!(
        format_family_notice(FamilySource::Minus6, AddressFamilyRequest::V6, ResolvedAddressFamily::V6),
        "address family: v6-only (-6)"
    );
}

#[test]
fn plus_family_uses_option_label() {
    assert_eq!(
        format_family_notice(
            FamilySource::PlusFamily(AddressFamilyRequest::Both),
            AddressFamilyRequest::Both,
            ResolvedAddressFamily::Both,
        ),
        "address family: dual-stack (+family=both)"
    );
}
