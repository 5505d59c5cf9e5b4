use delve::branch::{format_branch_report, parse_node_path, BranchError, BranchPlan, BranchReport};
use delve::cdt::{cdt_output, list_lines, version_lines, Bundle, CdtOutput, Command, Component, Manifest};
use delve::explore::path_summary::{
    format_hop_timing, format_referral_delta_column, format_referral_diff, referral_header_line,
    HopTiming, ReferralDiff, ReferralSummary,
};
use delve::explore::hop_identity::{
    display_width, format_hop_identity, pad_left_display, pad_right_display, truncate_identity_parts,
    truncate_to_display_width,
};
use delve::explore::terminal::unicode_symbols;
use delve::hop_display::{format_hop_human, HopDisplayState, HopSummary};
use delve::icmp_notice::{format_comparison_icmp_notice, ping_group_gid, IcmpProbeCapability};
use delve::last_session::{default_session_choice, last_session_contents, session_id_from_text};
use delve::node_path::NodePath;
use delve::paths::DelvePaths;
use delve::progress::{budget_message, message_line, StderrProgress};

#[test]
fn format_branch_report_states_when_nothing_added() {
    let report = BranchReport {
        nodes_added: 0,
        updated_at: None,
        warnings: vec!["server ns1.example. was already queried at this zone cut".into()],
        budget_truncated: false,
        dry_run: false,
        plan: Some(BranchPlan {
            zone: "com.".into(),
            server: "192.0.0.1".into(),
            qname: "example.com.".into(),
            targets: vec![],
        }),
    };
    let text = format_branch_report(&report);
    assert!(text.contains("no nodes added"));
    assert!(text.contains("already queried"));
}

#[test]
fn parse_node_path_accepts_tree_and_segments() {
    let path = parse_node_path("0.1.2").expect("path");
    assert_eq!(path, NodePath { tree: 0, path: vec![1, 2] });
    assert!(matches!(parse_node_path("0.x"), Err(BranchError::InvalidPath { value }) if value == "0.x"));
    assert!(parse_node_path("").is_err());
}

#[test]
fn from_root_layout() {
    let paths = DelvePaths::from_root("/tmp/delve-test-root");
    assert_eq!(paths.cache_db, "/tmp/delve-test-root/cache/cache.sqlite");
    assert_eq!(paths.sessions_dir, "/tmp/delve-test-root/data/sessions");
    assert_eq!(paths.sessions_db, "/tmp/delve-test-root/data/sessions.sqlite");
    assert_eq!(paths.config_file(), "/tmp/delve-test-root/config/delve.yaml");
    let slash = DelvePaths::from_root("/srv/");
    assert_eq!(slash.cache_dir, "/srv/cache");
}

fn sample_hop(qname: &str, qtype: &str, zone: &str) -> HopSummary {
    HopSummary {
        zone: zone.into(),
        server: "1.1.1.1".into(),
        qname: qname.into(),
        qtype: qtype.into(),
        transport: "udp".into(),
        rtt_ms: 12,
        rcode: "NOERROR".into(),
        nsid: None,
        ede_code: None,
        ede_text: None,
        referral_ns: vec!["ns.example.com.".into()],
        glue: vec![],
        from_cache: false,
    }
}

#[test]
fn first_hop_shows_query_and_path() {
    let mut state = HopDisplayState::new();
    let text = format_hop_human(
        &mut state,
        &sample_hop("example.com.", "A", "com."),
        &NodePath { tree: 0, path: vec![0] },
        unicode_symbols(),
    );
    assert!(text.starts_with("  query 1 at-path 0.0"));
    assert!(text.contains("example.com. A"));
    assert!(!text.starts_with('\n'));
    assert_eq!(
        text,
        "  query 1 at-path 0.0  [com.] example.com. A  1.1.1.1 via udp in 12ms (NOERROR) ◇\n    referral NS: ns.example.com.\n"
    );
}

#[test]
fn printed_path_uses_the_at_path_syntax() {
    let mut state = HopDisplayState::new();
    let root = format_hop_human(&mut state, &sample_hop("example.com.", "A", "."), &NodePath::root(0), unicode_symbols());
    let deep = format_hop_human(
        &mut state,
        &sample_hop("example.com.", "A", "com."),
        &NodePath { tree: 0, path: vec![1, 2] },
        unicode_symbols(),
    );
    assert!(root.contains("at-path 0 "), "{root}");
    assert!(deep.contains("at-path 0.1.2 "), "{deep}");
    assert!(!root.contains("path []"));
    assert!(!deep.contains("[1,2]"));
}

#[test]
fn repeated_query_is_suppressed_with_dot() {
    let mut state = HopDisplayState::new();
    format_hop_human(&mut state, &sample_hop("example.com.", "A", "."), &NodePath::root(0), unicode_symbols());
    let second = format_hop_human(
        &mut state,
        &sample_hop("example.com.", "A", "com."),
        &NodePath { tree: 0, path: vec![0] },
        unicode_symbols(),
    );
    assert!(second.starts_with('\n'));
    assert!(second.contains("query 2 at-path 0.0"));
    assert!(second.contains("] ·  1.1.1.1"));
    assert!(!second.contains("example.com. A  1.1.1.1"));
}

#[test]
fn changed_qname_is_shown_again() {
    let mut state = HopDisplayState::new();
    format_hop_human(&mut state, &sample_hop("example.com.", "A", "."), &NodePath::root(0), unicode_symbols());
    let second = format_hop_human(
        &mut state,
        &sample_hop("cdn.example.com.", "A", "com."),
        &NodePath { tree: 0, path: vec![0] },
        unicode_symbols(),
    );
    assert!(second.contains("cdn.example.com. A"));
}

#[test]
fn hop_tags_and_lists() {
    let mut state = HopDisplayState::new();
    let mut hop = sample_hop("example.com.", "AAAA", ".");
    hop.nsid = Some("b1.lax".into());
    hop.ede_code = Some(18);
    hop.ede_text = Some("prohibited".into());
    hop.glue = vec!["a.gtld. 192.0.2.1".into(), "b.gtld. 192.0.2.2".into()];
    hop.from_cache = true;
    let text = format_hop_human(&mut state, &hop, &NodePath::root(0), unicode_symbols());
    assert_eq!(
        text,
        "query 1 at-path 0  [.] example.com. AAAA  1.1.1.1 via udp in 12ms (NOERROR) ◆ NSID=b1.lax EDE=18:prohibited\n  referral NS: ns.example.com.\n  glue: a.gtld. 192.0.2.1, b.gtld. 192.0.2.2\n"
    );
}

#[test]
fn datagram_capability_emits_no_notice() {
    assert!(format_comparison_icmp_notice(IcmpProbeCapability::Datagram, Some("1000")).is_none());
}

#[test]
fn fallback_notice_mentions_ping() {
    let notice = format_comparison_icmp_notice(IcmpProbeCapability::PingCommand, None).expect("notice");
    assert!(notice.contains("/bin/ping"));
    assert!(notice.contains("enrichment.icmp.enabled: false"));
    assert!(notice.contains("delve.yaml"));
    assert!(!notice.contains("delve.toml"));
}

#[test]
fn unavailable_notice_mentions_icmp() {
    let notice = format_comparison_icmp_notice(IcmpProbeCapability::Unavailable, None).expect("notice");
    assert!(notice.contains("icmp: unavailable"));
    assert!(notice.contains("enrichment.icmp.enabled: false"));
}

#[test]
fn linux_notice_includes_sysctl_hint() {
    let gid = ping_group_gid(Some("1234\n"));
    assert_eq!(gid, "1234");
    assert_eq!(ping_group_gid(Some("  ")), "1000");
    assert_eq!(ping_group_gid(None), "1000");
    let notice = format_comparison_icmp_notice(IcmpProbeCapability::PingCommand, Some(&gid)).expect("notice");
    assert!(notice.contains("ping_group_range=\"0 1234\""));
}

#[test]
fn default_session_env_resolution() {
    assert_eq!(default_session_choice(Some("01JFROMENV"), Some("01JFROMFILE\n")).as_deref(), Some("01JFROMENV"));
    assert_eq!(default_session_choice(Some("   "), Some("01JFROMFILE\n")).as_deref(), Some("01JFROMFILE"));
    assert_eq!(default_session_choice(Some("  01JTRIMMED  "), None).as_deref(), Some("01JTRIMMED"));
    assert_eq!(default_session_choice(None, Some("\n")), None);
    assert_eq!(session_id_from_text(" x "), Some("x".to_string()));
    assert_eq!(last_session_contents("01JTESTSESSION"), "01JTESTSESSION\n");
    assert_eq!(
        session_id_from_text(&last_session_contents("01JTESTSESSION")).as_deref(),
        Some("01JTESTSESSION")
    );
}

#[test]
fn progress_messages() {
    assert!(StderrProgress::new(true).events);
    assert_eq!(budget_message(64), "query budget of 64 exhausted; trace truncated");
    assert_eq!(message_line("retrying"), "  -> retrying");
}

#[test]
fn referral_text_formats() {
    let diff = ReferralDiff { only_here: vec!["a.ns.".into()], missing: vec!["b.ns.".into(), "c.ns.".into()] };
    assert_eq!(format_referral_diff(&diff), "+a.ns. -b.ns. -c.ns.");
    assert_eq!(format_referral_delta_column(&diff, false), "+a.ns. -b.ns. -c.ns.");
    assert_eq!(format_referral_delta_column(&diff, true), "—");
    let empty = ReferralDiff { only_here: vec![], missing: vec![] };
    assert_eq!(format_referral_delta_column(&empty, false), "—");
    let agree = ReferralSummary { agree: true, comparable_count: 2, shared: vec!["a.".into(), "b.".into()], union: vec![] };
    assert_eq!(referral_header_line(&agree).as_deref(), Some("referral NS (all paths): a., b."));
    let differ = ReferralSummary { agree: false, comparable_count: 2, shared: vec![], union: vec!["a.".into()] };
    assert_eq!(referral_header_line(&differ).as_deref(), Some("referral NS (differ): a."));
    let none = ReferralSummary { agree: false, comparable_count: 0, shared: vec![], union: vec![] };
    assert_eq!(referral_header_line(&none), None);
    let hop = HopTiming { zone: "com.".into(), rtt_ms: 30, from_cache: true };
    assert_eq!(format_hop_timing(&hop), "com. 30ms (cache)");
}

#[test]
fn cdt_prints_versions_and_components() {
    let manifest = Manifest {
        bundle: Bundle { name: "cdt".into(), version: "1.2.0".into() },
        components: vec![Component {
            name: "delve".into(),
            crate_name: "delve".into(),
            binary: "delve".into(),
            version: "0.9.0".into(),
            description: "DNS delegation-path tracer".into(),
        }],
    };
    assert_eq!(version_lines(&manifest), vec!["cdt 1.2.0".to_string(), "  delve 0.9.0 — DNS delegation-path tracer".to_string()]);
    assert_eq!(list_lines(&manifest), vec!["delve 0.9.0 — DNS delegation-path tracer".to_string()]);
    assert_eq!(cdt_output(None), CdtOutput::VersionText);
    assert_eq!(cdt_output(Some(Command::List { json: true })), CdtOutput::ListJson);
}

#[test]
fn identity_includes_zone_hostname_and_ip() {
    let text = format_hop_identity(".", "198.41.0.4", None, Some("a.root-servers.net."), None);
    assert_eq!(text, "[.] a.root-servers.net. (198.41.0.4)");
}

#[test]
fn identity_omits_hostname_when_unknown() {
    let text = format_hop_identity("com.", "192.41.162.30", None, None, None);
    assert_eq!(text, "[com.] (192.41.162.30)");
}

#[test]
fn identity_uses_explicit_server_name() {
    let text = format_hop_identity("tuininga.org.", "193.47.99.5", Some("ns1.example.net."), None, None);
    assert_eq!(text, "[tuininga.org.] ns1.example.net. (193.47.99.5)");
}

#[test]
fn identity_truncates_when_max_width_set() {
    let text = format_hop_identity("com.", "192.41.162.30", Some("a.gtld-servers.net."), None, Some(24));
    assert!(display_width(text.as_str()) <= 24);
    assert!(text.starts_with("[com.]"));
    assert!(text.ends_with('…'));
    assert_eq!(text, "[com.] a.gtld-servers.n…");
}

#[test]
fn display_width_counts_columns() {
    assert_eq!(display_width("abc"), 3);
    assert_eq!(display_width("日本"), 4);
    assert_eq!(pad_left_display("ab", 4), "  ab");
    assert_eq!(pad_right_display("日本", 6), "日本  ");
    assert_eq!(pad_right_display("abcdef", 3), "abcdef");
    assert_eq!(truncate_to_display_width("日本語です", 5), "日本…");
    assert_eq!(truncate_to_display_width("short", 10), "short");
    assert_eq!(
        truncate_identity_parts("[com.] ", "a.gtld-servers.net. (192.41.162.30)", 12),
        ("[com.] ".to_string(), "a.gt…".to_string())
    );
    assert_eq!(truncate_identity_parts("[very-long-zone.] ", "x", 5), ("[ver…".to_string(), String::new()));
}
