use delve::branch::{BranchError, BranchPlan};
use delve::branch_run::{
    branch_cut, complete_branch, parse_server_target,
    parse_server_target_input, plan_branch, server_address_text, server_label, BranchStage,
    ServerTargetInput,
};
use delve::explore::fork_summary::{BranchIntent, HopOutcome, NodeOrigin, TraceHop, TraceNode, TraceTree};
use delve::args::SessionBranchArgs;
use delve::branch_run::{branch_intent, check_branch_args};
use delve::branch_targets::{
    choose_alternate, expand_cut_start, finish_expand_targets, ExpandStart, NsOutcome, NsStep,
    ServerTarget, TargetPlan,
};
use delve::node_path::NodePath;

fn hop(zone: &str, server: &str, referral_ns: &[&str]) -> TraceHop {
    TraceHop {
        zone: zone.into(),
        server: server.into(),
        server_name: None,
        root_name: None,
        qname: "example.com.".into(),
        qtype: "A".into(),
        transport: "udp".into(),
        rtt_ms: 3,
        rcode: "NOERROR".into(),
        nsid: None,
        ede_code: None,
        ede_text: None,
        referral_ns: referral_ns.iter().map(|n| n.to_string()).collect(),
        glue: vec![],
        answers: vec![],
        from_cache: false,
        outcome: HopOutcome::Referral,
    }
}

fn leaf(zone: &str, server: &str) -> TraceNode {
    TraceNode { hop: hop(zone, server, &[]), origin: NodeOrigin::Trace, children: vec![] }
}

fn tree() -> TraceTree {
    TraceTree {
        qname: "example.com.".into(),
        qtype: "A".into(),
        root: TraceNode {
            hop: hop(".", "198.41.0.4", &["a.gtld-servers.net."]),
            origin: NodeOrigin::Trace,
            children: vec![TraceNode {
                hop: hop("com.", "192.0.0.1", &["ns1.com.", "ns2.com."]),
                origin: NodeOrigin::Trace,
                children: vec![leaf("example.com.", "192.0.2.1")],
            }],
        },
    }
}

fn branch_node(server: &str) -> TraceNode {
    leaf("example.com.", server)
}

#[test]
fn branch_cut_moves_to_parent_of_plain_node() {
    let trees = vec![tree()];
    let (cut, selected) = branch_cut(&trees, &NodePath { tree: 0, path: vec![0, 0] }).expect("cut");
    assert_eq!(cut, NodePath { tree: 0, path: vec![0] });
    assert_eq!(selected, NodePath { tree: 0, path: vec![0, 0] });
    let (cut, _) = branch_cut(&trees, &NodePath { tree: 0, path: vec![0] }).expect("referral");
    assert_eq!(cut, NodePath { tree: 0, path: vec![0] });
    assert!(matches!(
        branch_cut(&trees, &NodePath { tree: 1, path: vec![] }),
        Err(BranchError::UnresolvedPath { ref path }) if path == "1"
    ));
    assert!(matches!(
        branch_cut(&trees, &NodePath { tree: 0, path: vec![3] }),
        Err(BranchError::UnresolvedPath { ref path }) if path == "0.3"
    ));
}

#[test]
fn expand_cut_dry_run_lists_unqueried_servers() {
    let t = tree();
    let cut = NodePath { tree: 0, path: vec![0] };
    let stage = plan_branch(
        &t.root,
        &cut,
        &cut,
        BranchIntent::ExpandCut,
        TargetPlan {
            targets: vec![ServerTarget { name: Some("ns2.com.".into()), address: "192.0.0.2".into() }],
            warnings: vec![],
        },
        true,
    );
    match stage {
        BranchStage::Done(report) => {
            assert!(report.dry_run);
            assert_eq!(report.nodes_added, 0);
            let plan = report.plan.expect("plan");
            assert_eq!(plan.zone, "com.");
            assert_eq!(plan.server, "192.0.0.1");
            assert_eq!(plan.targets, vec!["ns2.com. (192.0.0.2)".to_string()]);
        }
        other => panic!("expected a finished dry run, got {other:?}"),
    }
}

#[test]
fn plan_branch_runs_with_attach_paths() {
    let t = tree();
    let cut = NodePath { tree: 0, path: vec![0] };
    let selected = NodePath { tree: 0, path: vec![0, 0] };
    match plan_branch(&t.root, &cut, &selected, BranchIntent::AlternateServer, one("192.0.2.9"), false) {
        BranchStage::Run { attach_path, plan, .. } => {
            assert_eq!(attach_path, vec![0, 1]);
            assert_eq!(plan.targets, vec!["192.0.2.9".to_string()]);
        }
        other => panic!("expected a run, got {other:?}"),
    }
    match plan_branch(&t.root, &cut, &cut, BranchIntent::ExpandCut, one("192.0.2.8"), false) {
        BranchStage::Run { attach_path, .. } => assert_eq!(attach_path, vec![0]),
        other => panic!("expected a run, got {other:?}"),
    }
}

fn one(address: &str) -> TargetPlan {
    TargetPlan { targets: vec![ServerTarget { name: None, address: address.into() }], warnings: vec![] }
}

fn named_leaf(zone: &str, server: &str, name: &str) -> TraceNode {
    let mut node = leaf(zone, server);
    node.hop.server_name = Some(name.into());
    node
}

/// The cut `com.` names four nameservers, and the trace reached each.
fn fully_queried_tree() -> TraceTree {
    let names = ["ns1.com.", "ns2.com.", "ns3.com.", "ns4.com."];
    TraceTree {
        qname: "example.com.".into(),
        qtype: "A".into(),
        root: TraceNode {
            hop: hop(".", "198.41.0.4", &["a.gtld-servers.net."]),
            origin: NodeOrigin::Trace,
            children: vec![TraceNode {
                hop: hop("com.", "192.0.0.1", &names),
                origin: NodeOrigin::Trace,
                children: (1..=4)
                    .map(|i| named_leaf("com.", &format!("192.0.0.{i}"), &format!("ns{i}.com.")))
                    .collect(),
            }],
        },
    }
}

#[test]
fn fully_queried_cut_is_noop() {
    let mut t = fully_queried_tree();
    let cut = NodePath { tree: 0, path: vec![0] };
    let cut_node = &t.root.children[0];
    let names: Vec<String> = cut_node.hop.referral_ns.clone();
    let outcomes: Vec<NsOutcome> = match expand_cut_start(&cut_node.hop, &cut_node.children, &names) {
        ExpandStart::PerName(steps) => steps
            .into_iter()
            .map(|step| match step {
                NsStep::Covered => NsOutcome::Covered,
                NsStep::Found(target) => NsOutcome::Found(target),
                NsStep::Resolve => panic!("every nameserver was reached"),
            })
            .collect(),
        other => panic!("expected one step per nameserver, got {other:?}"),
    };
    let planned = finish_expand_targets(outcomes, &cut_node.children).expect("plan");
    let stage = plan_branch(&t.root, &cut, &cut, BranchIntent::ExpandCut, planned, false);
    let report = match stage {
        BranchStage::Done(report) => report,
        other => panic!("expected nothing to do, got {other:?}"),
    };
    assert_eq!(report.nodes_added, 0);
    assert!(report
        .warnings
        .iter()
        .any(|warning| warning.contains("all nameservers at this zone cut already queried")));
    let before = t.root.children[0].children.len();
    let plan = report.plan.clone().expect("plan");
    let done = complete_branch(&mut t.root, &cut, &cut, BranchIntent::ExpandCut, vec![], plan, vec![], "later".into(), false);
    assert_eq!(done.updated_at, None);
    assert_eq!(t.root.children[0].children.len(), before);
}

#[test]
fn expand_cut_plans_unreached_nameservers_once() {
    let t = tree();
    let cut_node = &t.root.children[0];
    let names = vec!["ns1.com.".to_string(), "ns2.com.".to_string()];
    let steps = match expand_cut_start(&cut_node.hop, &cut_node.children, &names) {
        ExpandStart::PerName(steps) => steps,
        other => panic!("expected steps, got {other:?}"),
    };
    assert!(steps.iter().all(|s| matches!(s, NsStep::Resolve)));
    let found = ServerTarget { name: Some("ns2.com.".into()), address: "192.0.0.2".into() };
    let outcomes = vec![
        NsOutcome::Looked(Ok(Some(found.clone()))),
        NsOutcome::Looked(Ok(Some(found.clone()))),
    ];
    let planned = finish_expand_targets(outcomes, &cut_node.children).expect("plan");
    assert_eq!(planned.targets, vec![found]);
    assert!(planned.warnings.is_empty());
    let queried = ServerTarget { name: None, address: "192.0.2.1".into() };
    let failed = vec![NsOutcome::Looked(Ok(Some(queried))), NsOutcome::Looked(Err("timeout".into()))];
    assert_eq!(finish_expand_targets(failed, &cut_node.children).expect_err("error"), "timeout");
}

#[test]
fn expand_root_cut_with_every_delegation_is_noop() {
    let mut root_hop = hop(".", "198.41.0.4", &["a.gtld-servers.net."]);
    root_hop.referral_ns = vec!["a.gtld-servers.net.".into()];
    let children = vec![leaf("com.", "192.0.0.1")];
    match expand_cut_start(&root_hop, &children, &vec!["a.gtld-servers.net.".to_string()]) {
        ExpandStart::Planned(plan) => {
            assert!(plan.targets.is_empty());
            assert_eq!(plan.warnings, vec!["all nameservers at this zone cut already queried".to_string()]);
        }
        other => panic!("expected the root to be satisfied, got {other:?}"),
    }
    match expand_cut_start(&root_hop, &children, &vec![]) {
        ExpandStart::Planned(plan) => assert!(plan.targets.is_empty()),
        other => panic!("expected the fallback, got {other:?}"),
    }
}

#[test]
fn already_queried_server_warns_and_skips() {
    let t = tree();
    let cut_node = &t.root.children[0];
    let candidates = vec![
        ServerTarget { name: Some("ns9.com.".into()), address: "192.0.0.9".into() },
        ServerTarget { name: Some("NS1.com".into()), address: "192.0.2.1".into() },
    ];
    let planned = choose_alternate(&candidates, &Some("ns1.com.".into()), &cut_node.children);
    assert!(planned.targets.is_empty());
    assert!(planned.warnings.iter().any(|w| w.contains("already queried")));
    assert_eq!(planned.warnings, vec!["server NS1.com (192.0.2.1) was already queried at this zone cut".to_string()]);
    let fresh = choose_alternate(&candidates, &Some("ns9.com".into()), &cut_node.children);
    assert_eq!(fresh.targets, vec![candidates[0].clone()]);
    let none = choose_alternate(&candidates, &Some("ns5.com".into()), &cut_node.children);
    assert!(none.targets.is_empty() && none.warnings.is_empty());
}

#[test]
fn expand_cut_adds_nodes_for_unqueried_servers() {
    let mut t = tree();
    let cut = NodePath { tree: 0, path: vec![0] };
    let plan = BranchPlan {
        zone: "com.".into(),
        server: "192.0.0.1".into(),
        qname: "example.com.".into(),
        targets: vec!["192.0.0.2".into()],
    };
    let report = complete_branch(
        &mut t.root,
        &cut,
        &cut,
        BranchIntent::ExpandCut,
        vec![branch_node("192.0.0.2")],
        plan.clone(),
        vec![],
        "2026-08-25T00:00:01Z".into(),
        true,
    );
    assert_eq!(report.nodes_added, 1);
    assert_eq!(report.updated_at.as_deref(), Some("2026-08-25T00:00:01Z"));
    assert!(report.budget_truncated);
    assert_eq!(report.plan, Some(plan));
    let cut_node = &t.root.children[0];
    assert_eq!(cut_node.children.len(), 2);
    assert_eq!(cut_node.children[0].hop.server, "192.0.2.1");
    assert_eq!(cut_node.children[1].hop.server, "192.0.0.2");
}

#[test]
fn alternate_server_attaches_below_parent() {
    let mut t = tree();
    let cut = NodePath { tree: 0, path: vec![0] };
    let selected = NodePath { tree: 0, path: vec![0, 0] };
    let plan = BranchPlan {
        zone: "com.".into(),
        server: "192.0.0.1".into(),
        qname: "example.com.".into(),
        targets: vec!["192.0.2.9".into()],
    };
    let report = complete_branch(
        &mut t.root,
        &cut,
        &selected,
        BranchIntent::AlternateServer,
        vec![branch_node("192.0.2.9")],
        plan,
        vec![],
        "now".into(),
        false,
    );
    assert_eq!(report.nodes_added, 1);
    assert_eq!(t.root.children[0].children.len(), 2);
    assert_eq!(t.root.children[0].children[1].hop.server, "192.0.2.9");
}

#[test]
fn complete_branch_without_nodes_leaves_tree() {
    let mut t = tree();
    let cut = NodePath { tree: 0, path: vec![0] };
    let plan = BranchPlan {
        zone: "com.".into(),
        server: "192.0.0.1".into(),
        qname: "example.com.".into(),
        targets: vec!["192.0.0.2".into()],
    };
    let report = complete_branch(&mut t.root, &cut, &cut, BranchIntent::ExpandCut, vec![], plan, vec![], "now".into(), true);
    assert_eq!(report.nodes_added, 0);
    assert_eq!(report.updated_at, None);
    assert!(!report.budget_truncated);
    assert!(report.plan.expect("plan").targets.is_empty());
    assert_eq!(t.root.children[0].children.len(), 1);
}

#[test]
fn server_labels_and_warnings() {
    assert_eq!(server_label(&Some("ns1.com.".into()), "192.0.0.1"), "ns1.com. (192.0.0.1)");
    assert_eq!(server_label(&Some(String::new()), "192.0.0.1"), "192.0.0.1");
    assert_eq!(server_label(&None, "2001:db8::1"), "2001:db8::1");
}

/// Whether a text is one of the addresses these tests use (what parsing it
/// as an IP address answers for them).
fn parses(text: &str) -> bool {
    ["192.0.2.1", "2001:db8::1"].contains(&text)
}

fn read_server(value: &str) -> Result<ServerTargetInput, BranchError> {
    let (text, _) = server_address_text(value);
    parse_server_target(value, parses(&text))
}

#[test]
fn server_arguments_read_as_address_or_name() {
    assert_eq!(read_server(" @192.0.2.1 ").expect("addr"), ServerTargetInput::Address("192.0.2.1".into()));
    assert_eq!(read_server("2001:db8::1").expect("addr"), ServerTargetInput::Address("2001:db8::1".into()));
    assert_eq!(read_server(" ns1.example. ").expect("name"), ServerTargetInput::Name("ns1.example.".into()));
    assert!(matches!(
        read_server("@ns1.example."),
        Err(BranchError::InvalidServer { ref value }) if value == "@ns1.example."
    ));
}

#[test]
fn server_prompt_reads_address_or_name() {
    let read = |v: &str| {
        let after = v.strip_prefix('@').map(parses).unwrap_or(false);
        parse_server_target_input(v, after, parses(v))
    };
    assert_eq!(read("@192.0.2.1"), ServerTargetInput::Address("192.0.2.1".into()));
    assert_eq!(read("192.0.2.1"), ServerTargetInput::Address("192.0.2.1".into()));
    assert_eq!(read("@ns1"), ServerTargetInput::Name("@ns1".into()));
    assert_eq!(read("ns1.com."), ServerTargetInput::Name("ns1.com.".into()));
}

#[test]
fn branch_arguments_are_checked_before_the_session_opens() {
    use_args_checks();
}

fn use_args_checks() {
    use_check(None, None, None, false, false, Some("node path missing --at-hop or --at-path does not resolve in session"));
    use_check(Some(1), None, None, false, false, Some("branch requires --server or --expand"));
    use_check(Some(1), None, None, false, true, None);
    use_check(None, Some("0.1"), Some("ns1"), false, false, None);
}

fn use_check(at_hop: Option<usize>, at_path: Option<&str>, server: Option<&str>, expand: bool, dry_run: bool, error: Option<&str>) {
    let args = SessionBranchArgs {
        id: None,
        at_hop,
        at_path: at_path.map(|p| p.to_string()),
        server: server.map(|s| s.to_string()),
        expand,
        dry_run,
    };
    match (check_branch_args(&args), error) {
        (Ok(()), None) => {}
        (Err(e), Some(m)) => assert_eq!(e.message(), m),
        (other, expected) => panic!("unexpected {other:?} for {expected:?}"),
    }
    let intent = branch_intent(&args);
    if expand || server.is_none() {
        assert_eq!(intent, BranchIntent::ExpandCut);
    } else {
        assert_eq!(intent, BranchIntent::AlternateServer);
    }
}

#[test]
fn branch_error_messages() {
    assert_eq!(BranchError::OutOfRangeHop { index: 7 }.message(), "display index 7 is out of range");
    assert_eq!(BranchError::InvalidServer { value: "@x".into() }.message(), "invalid server argument: @x");
    assert_eq!(BranchError::NoTree.message(), "session has no trace tree");
}
