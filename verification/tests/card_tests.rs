use delve::export::card::{build_cards, card_rows, RowKind};
use delve::explore::fork_summary::{
    AnswerRecord, BranchIntent, HopOutcome, NodeOrigin, TraceHop, TraceNode, TraceTree,
};
use delve::node_path::NodePath;

fn sample_hop(zone: &str, server: &str) -> TraceHop {
    TraceHop {
        zone: zone.into(),
        server: server.into(),
        server_name: Some(format!("{server}.example.net")),
        root_name: None,
        qname: "example.com.".into(),
        qtype: "A".into(),
        transport: "udp".into(),
        rtt_ms: 11,
        rcode: "NOERROR".into(),
        nsid: None,
        ede_code: None,
        ede_text: None,
        referral_ns: vec!["ns.example.com.".into()],
        glue: vec![],
        answers: vec![],
        from_cache: false,
        outcome: HopOutcome::Referral,
    }
}

#[test]
fn build_cards_maps_paths_and_branch_origin() {
    let tree = TraceTree {
        qname: "example.com.".into(),
        qtype: "A".into(),
        root: TraceNode {
            hop: sample_hop(".", "198.41.0.4"),
            origin: NodeOrigin::Trace,
            children: vec![TraceNode {
                hop: {
                    let mut hop = sample_hop("com.", "192.41.162.30");
                    hop.outcome = HopOutcome::Answered;
                    hop
                },
                origin: NodeOrigin::Branch {
                    at: NodePath::root(0),
                    intent: BranchIntent::ExpandCut,
                    at_time: "2026-01-01T00:00:00Z".into(),
                },
                children: vec![],
            }],
        },
    };
    let cards = build_cards(&tree, 0);
    assert_eq!(cards.len(), 2);
    assert_eq!(cards[0].path_attr, "0");
    assert_eq!(cards[1].path_attr, "0.0");
    assert!(cards[1].is_branch);
    assert_eq!(cards[1].branch_label.as_deref(), Some("expand_cut"));
}

#[test]
fn card_rows_of_an_answered_cached_query() {
    let mut hop = sample_hop("example.com.", "192.0.2.1");
    hop.outcome = HopOutcome::Answered;
    hop.from_cache = true;
    hop.nsid = Some("ns-7".into());
    hop.answers = vec![AnswerRecord { name: "example.com.".into(), rtype: "A".into(), rdata: "192.0.2.80".into() }];
    let rows = card_rows(&hop);
    let labels: Vec<&str> = rows.iter().map(|r| r.label.as_str()).collect();
    assert_eq!(labels, vec!["server", "", "query", "proto", "rcode", "nsid", "answer", "referral", "rtt"]);
    assert_eq!(rows[0].value.as_deref(), Some("192.0.2.1.example.net"));
    assert_eq!(rows[2].value.as_deref(), Some("example.com.  A"));
    assert_eq!(rows[3].value.as_deref(), Some("udp   [cache]"));
    assert_eq!(rows[6].value.as_deref(), Some("example.com. 192.0.2.80"));
    assert_eq!(rows[7].value.as_deref(), Some("1 NS"));
    assert_eq!(rows[8].kind, RowKind::Rtt);
    assert!(rows[8].value.is_none());
}

#[test]
fn card_rows_of_a_failed_query_show_the_error() {
    let mut hop = sample_hop("com.", "192.0.2.53");
    hop.server_name = None;
    hop.referral_ns = vec![];
    hop.outcome = HopOutcome::Failed { kind: "timeout".into(), detail: "no response".into() };
    let rows = card_rows(&hop);
    assert_eq!(rows[0].value.as_deref(), Some("-"));
    assert_eq!(rows[4].label, "error");
    assert_eq!(rows[4].value.as_deref(), Some("timeout: no response"));
    assert_eq!(rows[4].kind, RowKind::Bad);
    assert_eq!(rows.len(), 6);
}

#[test]
fn build_cards_numbers_nodes_in_display_order() {
    let leaf = |zone: &str| TraceNode { hop: sample_hop(zone, "192.0.2.1"), origin: NodeOrigin::Trace, children: vec![] };
    let tree = TraceTree {
        qname: "example.com.".into(),
        qtype: "A".into(),
        root: TraceNode {
            hop: sample_hop(".", "198.41.0.4"),
            origin: NodeOrigin::Trace,
            children: vec![
                TraceNode { hop: sample_hop("com.", "192.5.6.30"), origin: NodeOrigin::Trace, children: vec![leaf("a.")] },
                leaf("b."),
            ],
        },
    };
    let cards = build_cards(&tree, 3);
    let attrs: Vec<&str> = cards.iter().map(|c| c.path_attr.as_str()).collect();
    assert_eq!(attrs, vec!["3", "3.0", "3.0.0", "3.1"]);
    let depths: Vec<usize> = cards.iter().map(|c| c.depth).collect();
    assert_eq!(depths, vec![0, 1, 2, 1]);
    assert_eq!(cards[2].hop.zone, "a.");
    assert_eq!(cards[3].display_index, 3);
}
