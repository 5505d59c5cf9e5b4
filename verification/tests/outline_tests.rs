use delve::explore::detail::{hop_detail_lines, hop_summary_line};
use delve::explore::fork_summary::{HopOutcome, NodeOrigin, TraceHop, TraceNode, TraceTree};
use delve::explore::outline::render_trace_outline;
use delve::explore::terminal::{ascii_symbols, unicode_symbols};

fn hop(zone: &str, server: &str, referral_ns: Vec<String>, glue: Vec<String>) -> TraceHop {
    TraceHop {
        zone: zone.into(),
        server: server.into(),
        server_name: None,
        root_name: None,
        qname: "example.com.".into(),
        qtype: "A".into(),
        transport: "udp".into(),
        rtt_ms: 11,
        rcode: "NOERROR".into(),
        nsid: None,
        ede_code: None,
        ede_text: None,
        referral_ns,
        glue,
        answers: vec![],
        from_cache: false,
        outcome: HopOutcome::Referral,
    }
}

fn sample_trace() -> TraceTree {
    TraceTree {
        qname: "example.com.".into(),
        qtype: "A".into(),
        root: TraceNode {
            hop: hop(
                ".",
                "198.41.0.4",
                vec!["a.gtld-servers.net.".into(), "b.gtld-servers.net.".into()],
                vec![],
            ),
            origin: NodeOrigin::Trace,
            children: vec![],
        },
    }
}

#[test]
fn outline_uses_yaml_style_lists() {
    let outline = render_trace_outline(&sample_trace(), unicode_symbols());
    assert!(outline.starts_with("example.com. A\n"));
    assert!(outline.contains("referral NS:\n"));
    assert!(outline.contains("  - a.gtld-servers.net."));
}

#[test]
fn outline_prints_display_indices() {
    let outline = render_trace_outline(&sample_trace(), unicode_symbols());
    assert!(outline.contains("[0]"));
}

#[test]
fn formats_multi_value_fields_as_yaml_lists() {
    let hop = hop(
        ".",
        "1.1.1.1",
        vec!["ns1.example.com.".into(), "ns2.example.com.".into()],
        vec!["93.184.216.34".into()],
    );
    let detail = hop_detail_lines(&hop, unicode_symbols()).join("\n");
    assert!(detail.contains("referral NS:\n  - ns1.example.com.\n  - ns2.example.com."));
    assert!(detail.contains("glue:\n  - 93.184.216.34"));
}

#[test]
fn failed_hop_summary_and_detail_include_failure_reason() {
    let mut hop = hop("com.", "192.0.2.1", vec![], vec![]);
    hop.rtt_ms = 0;
    hop.rcode = "SERVFAIL".into();
    hop.outcome = HopOutcome::Failed { kind: "timeout".into(), detail: "no response".into() };
    let summary = hop_summary_line(&hop, unicode_symbols());
    assert!(summary.starts_with("✗ "));
    let detail = hop_detail_lines(&hop, unicode_symbols()).join("\n");
    assert!(detail.contains("failure: timeout: no response"));
}

#[test]
fn outline_draws_branches_in_display_order() {
    let leaf = |zone: &str, server: &str| TraceNode { hop: hop(zone, server, vec![], vec![]), origin: NodeOrigin::Trace, children: vec![] };
    let tree = TraceTree {
        qname: "example.com.".into(),
        qtype: "A".into(),
        root: TraceNode {
            hop: hop(".", "198.41.0.4", vec![], vec![]),
            origin: NodeOrigin::Trace,
            children: vec![
                TraceNode {
                    hop: hop("com.", "192.5.6.30", vec![], vec![]),
                    origin: NodeOrigin::Trace,
                    children: vec![leaf("example.com.", "192.0.2.1")],
                },
                leaf("com.", "192.12.94.30"),
            ],
        },
    };
    let outline = render_trace_outline(&tree, ascii_symbols());
    let heads: Vec<&str> = outline.lines().filter(|l| l.contains("] [")).collect();
    assert_eq!(heads.len(), 4);
    assert!(heads[0].starts_with("`-- [0] [.] example.com. A  NOERROR"));
    assert!(heads[1].starts_with("   |-- [1] [com.]"));
    assert!(heads[2].starts_with("   |  `-- [2] [example.com.]"));
    assert!(heads[3].starts_with("   `-- [3] [com.]"));
    assert!(outline.contains("\n      zone: .\n"));
    assert!(outline.contains("\n         server: 192.12.94.30 (udp)\n"));
    assert!(outline.contains("\n   |     zone: com.\n"));
}
