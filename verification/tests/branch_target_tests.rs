use delve::branch::{cut_context, normalize_expand_cut_attachments, resolve_branch_target, BranchError};
use delve::explore::fork_summary::{
    BranchIntent, HopOutcome, NodeOrigin, TraceHop, TraceNode, TraceTree,
};
use delve::node_path::NodePath;

fn hop(zone: &str, server: &str, server_name: Option<&str>, rtt_ms: u64, referral_ns: &[&str]) -> TraceHop {
    TraceHop {
        zone: zone.into(),
        server: server.into(),
        server_name: server_name.map(|n| n.to_string()),
        root_name: None,
        qname: "example.com.".into(),
        qtype: "A".into(),
        transport: "tcp".into(),
        rtt_ms,
        rcode: "NOERROR".into(),
        nsid: None,
        ede_code: None,
        ede_text: None,
        referral_ns: referral_ns.iter().map(|n| n.to_string()).collect(),
        glue: vec![],
        answers: vec![],
        from_cache: false,
        outcome: HopOutcome::Referral,
    }
}

fn branched_tree() -> TraceTree {
    TraceTree {
        qname: "example.com.".into(),
        qtype: "A".into(),
        root: TraceNode {
            hop: hop(".", "198.41.0.4", None, 1, &["a.gtld-servers.net."]),
            origin: NodeOrigin::Trace,
            children: vec![TraceNode {
                hop: hop("com.", "192.0.0.1", Some("ns1.com."), 5, &["ns1.com.", "ns2.com.", "ns3.com.", "ns4.com."]),
                origin: NodeOrigin::Trace,
                children: vec![TraceNode {
                    hop: hop("com.", "192.0.0.1", Some("ns1.com."), 2, &[]),
                    origin: NodeOrigin::Trace,
                    children: vec![],
                }],
            }],
        },
    }
}

#[test]
fn resolve_target_by_display_index_and_path_agree() {
    let tree = branched_tree();
    let by_hop = resolve_branch_target(Some(&tree), Some(2), None).expect("hop");
    let by_path = resolve_branch_target(Some(&tree), None, Some("0.0.0")).expect("path");
    assert_eq!(by_hop, by_path);
    assert_eq!(by_hop, NodePath { tree: 0, path: vec![0, 0] });
}

#[test]
fn resolve_target_reports_each_failure() {
    let tree = branched_tree();
    assert!(matches!(resolve_branch_target(None, Some(0), None), Err(BranchError::NoTree)));
    assert!(matches!(
        resolve_branch_target(Some(&tree), Some(3), None),
        Err(BranchError::OutOfRangeHop { index: 3 })
    ));
    assert!(matches!(
        resolve_branch_target(Some(&tree), None, Some("0.1")),
        Err(BranchError::UnresolvedPath { ref path }) if path == "0.1"
    ));
    assert!(matches!(
        resolve_branch_target(Some(&tree), None, Some("0.x")),
        Err(BranchError::InvalidPath { ref value }) if value == "0.x"
    ));
    assert!(matches!(resolve_branch_target(Some(&tree), None, None), Err(BranchError::MissingTarget)));
    assert_eq!(
        resolve_branch_target(Some(&tree), Some(9), Some("0")).expect("path wins"),
        NodePath { tree: 0, path: vec![] }
    );
}

fn tuininga_hop(zone: &str, server: &str, server_name: Option<&str>, outcome: HopOutcome) -> TraceHop {
    let mut h = hop(zone, server, server_name, 2, &[]);
    h.qname = "tuininga.org.".into();
    h.transport = "udp".into();
    h.outcome = outcome;
    h
}

fn expand_origin() -> NodeOrigin {
    NodeOrigin::Branch { at: NodePath::root(0), intent: BranchIntent::ExpandCut, at_time: "now".into() }
}

#[test]
fn normalize_expand_cut_attachment_peels_redundant_root_hop() {
    let cut = tuininga_hop(".", "198.41.0.4", None, HopOutcome::Referral);
    let org = || TraceNode {
        hop: tuininga_hop("org.", "199.249.120.1", Some("b2.org.afilias-nst.org."), HopOutcome::Referral),
        origin: expand_origin(),
        children: vec![],
    };
    let branch = TraceNode {
        hop: tuininga_hop(".", "199.249.120.1", Some("b2.org.afilias-nst.org."), HopOutcome::Referral),
        origin: expand_origin(),
        children: vec![org()],
    };
    let template = org();
    let normalized = normalize_expand_cut_attachments(&cut, true, Some(&template), vec![branch]);
    assert_eq!(normalized.len(), 1);
    assert_eq!(normalized[0].hop.zone, "org.");
    assert_eq!(normalized[0].hop.server, "199.249.120.1");
    assert!(matches!(normalized[0].origin, NodeOrigin::Branch { intent: BranchIntent::ExpandCut, .. }));

    let unchanged = normalize_expand_cut_attachments(&cut, false, None, vec![org()]);
    assert_eq!(unchanged.len(), 1);
    assert_eq!(unchanged[0].hop.zone, "org.");
}

#[test]
fn normalize_skips_shallow_tuininga_branch_below_root() {
    let cut = tuininga_hop(".", "198.41.0.4", None, HopOutcome::Referral);
    let org_template = TraceNode {
        hop: tuininga_hop("org.", "199.249.112.1", Some("a0.org.afilias-nst.info."), HopOutcome::Referral),
        origin: NodeOrigin::Trace,
        children: vec![],
    };
    let tuininga_leaf = TraceNode {
        hop: tuininga_hop("tuininga.org.", "193.47.99.5", Some("helium.ns.hetzner.de."), HopOutcome::Answered),
        origin: expand_origin(),
        children: vec![],
    };
    let normalized = normalize_expand_cut_attachments(&cut, true, Some(&org_template), vec![tuininga_leaf]);
    assert!(normalized.is_empty());
}

#[test]
fn normalize_promotes_forking_cut_hop_children() {
    let cut = tuininga_hop(".", "198.41.0.4", None, HopOutcome::Referral);
    let child = |server: &str| TraceNode {
        hop: tuininga_hop("org.", server, None, HopOutcome::Referral),
        origin: NodeOrigin::Trace,
        children: vec![],
    };
    let branch = TraceNode {
        hop: tuininga_hop(".", "199.249.120.1", None, HopOutcome::Referral),
        origin: expand_origin(),
        children: vec![child("192.0.2.1"), child("192.0.2.2")],
    };
    let normalized = normalize_expand_cut_attachments(&cut, true, None, vec![branch]);
    assert_eq!(normalized.len(), 2);
    assert!(normalized.iter().all(|n| matches!(n.origin, NodeOrigin::Branch { .. })));
    assert_eq!(normalized[1].hop.server, "192.0.2.2");
}

#[test]
fn cut_context_moves_to_the_parent_of_a_plain_node() {
    let tree = branched_tree();
    let (cut, selected) = cut_context(&NodePath { tree: 0, path: vec![0, 0] }, &tree.root).expect("cut");
    assert_eq!(cut, NodePath { tree: 0, path: vec![0] });
    assert_eq!(selected, NodePath { tree: 0, path: vec![0, 0] });
    let (cut, _) = cut_context(&NodePath { tree: 0, path: vec![0] }, &tree.root).expect("referral");
    assert_eq!(cut, NodePath { tree: 0, path: vec![0] });
    assert!(matches!(
        cut_context(&NodePath { tree: 0, path: vec![5] }, &tree.root),
        Err(BranchError::UnresolvedPath { ref path }) if path == "0.5"
    ));
}
