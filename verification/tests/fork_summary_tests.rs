use delve::explore::fork_summary::{
    comparison_at, render_comparison_text, summarize_fork, AnswerRecord, HopOutcome, TraceHop,
    NodeOrigin, TraceNode,
};
use delve::explore::compare_screen::{hop_scale_ms, CompareScreenModel};
use delve::node_path::NodePath;

fn hop(
    zone: &str,
    server: &str,
    rtt_ms: u64,
    failure: Option<(&str, &str)>,
    referral_ns: &[&str],
    from_cache: bool,
    answers: Vec<AnswerRecord>,
) -> TraceHop {
    TraceHop {
        zone: zone.into(),
        server: server.into(),
        server_name: None,
        root_name: None,
        qname: "example.com.".into(),
        qtype: "A".into(),
        transport: "udp".into(),
        rtt_ms,
        rcode: if failure.is_some() { "SERVFAIL".into() } else { "NOERROR".into() },
        nsid: None,
        ede_code: None,
        ede_text: None,
        referral_ns: referral_ns.iter().map(|name| (*name).to_string()).collect(),
        glue: vec![],
        answers,
        from_cache,
        outcome: match failure {
            Some((kind, detail)) => HopOutcome::Failed { kind: kind.into(), detail: detail.into() },
            None if referral_ns.is_empty() => HopOutcome::Answered,
            None => HopOutcome::Referral,
        },
    }
}

fn a_record(ip: &str) -> AnswerRecord {
    AnswerRecord { name: "example.com.".into(), rtype: "A".into(), rdata: ip.into() }
}

fn node(hop: TraceHop, children: Vec<TraceNode>) -> TraceNode {
    TraceNode { hop, origin: NodeOrigin::Trace, children }
}

fn leaf(
    zone: &str,
    server: &str,
    rtt_ms: u64,
    failure: Option<(&str, &str)>,
    from_cache: bool,
    answers: Vec<AnswerRecord>,
) -> TraceNode {
    node(hop(zone, server, rtt_ms, failure, &[], from_cache, answers), vec![])
}

/// Root fork with three sibling paths of different lengths and timings.
fn differing_length_tree() -> TraceNode {
    node(
        hop(".", "198.41.0.4", 10, None, &[], false, vec![]),
        vec![
            node(
                hop(
                    "com.",
                    "192.5.6.30",
                    20,
                    None,
                    &["a.gtld-servers.net.", "b.gtld-servers.net."],
                    false,
                    vec![],
                ),
                vec![leaf(
                    "example.com.",
                    "93.184.216.34",
                    5,
                    None,
                    false,
                    vec![a_record("93.184.216.34")],
                )],
            ),
            node(
                hop(
                    "com.",
                    "192.12.94.30",
                    40,
                    None,
                    &["a.gtld-servers.net.", "c.gtld-servers.net."],
                    false,
                    vec![],
                ),
                vec![node(
                    hop("example.net.", "192.0.2.1", 15, None, &[], false, vec![]),
                    vec![leaf(
                        "example.com.",
                        "93.184.216.34",
                        8,
                        None,
                        false,
                        vec![a_record("93.184.216.34")],
                    )],
                )],
            ),
            leaf("com.", "192.0.2.53", 0, Some(("timeout", "no response")), false, vec![]),
        ],
    )
}

fn agreeing_tree() -> TraceNode {
    node(
        hop("org.", "199.19.56.1", 12, None, &[], false, vec![]),
        vec![
            leaf("example.com.", "192.0.2.10", 30, None, true, vec![a_record("93.184.216.34")]),
            leaf("example.com.", "192.0.2.11", 32, None, false, vec![a_record("93.184.216.34")]),
        ],
    )
}

#[test]
fn differing_path_lengths_are_visible() {
    let tree = differing_length_tree();
    let comparison = summarize_fork(&tree, &NodePath::root(0)).expect("fork");
    assert_eq!(comparison.paths.len(), 3);
    assert_eq!(comparison.paths[0].hop_count, 2);
    assert_eq!(comparison.paths[1].hop_count, 3);
    assert_eq!(comparison.paths[2].hop_count, 1);
    assert_ne!(comparison.paths[0].hop_count, comparison.paths[1].hop_count);
}

#[test]
fn timing_delta_uses_fastest_successful_sibling() {
    let tree = differing_length_tree();
    let comparison = summarize_fork(&tree, &NodePath::root(0)).expect("fork");
    // 20+5=25 vs 40+15+8=63 vs failed 0
    assert_eq!(comparison.paths[0].dns_rtt_total_ms, 25);
    assert_eq!(comparison.paths[1].dns_rtt_total_ms, 63);
    assert_eq!(comparison.paths[0].dns_rtt_delta_ms, Some(0));
    assert_eq!(comparison.paths[1].dns_rtt_delta_ms, Some(38));
    assert_eq!(comparison.paths[2].dns_rtt_delta_ms, None);
    assert!(comparison.paths[2].outcome.contains("timeout"));
}

#[test]
fn failed_sibling_is_excluded_from_baseline() {
    let tree = differing_length_tree();
    let comparison = summarize_fork(&tree, &NodePath::root(0)).expect("fork");
    let successful_min = comparison
        .paths
        .iter()
        .filter(|path| path.dns_rtt_delta_ms == Some(0))
        .map(|path| path.dns_rtt_total_ms)
        .next()
        .expect("baseline");
    assert_eq!(successful_min, 25);
    assert_ne!(successful_min, 0);
}

#[test]
fn referral_differences_are_surfaced() {
    let tree = differing_length_tree();
    let comparison = summarize_fork(&tree, &NodePath::root(0)).expect("fork");
    assert!(!comparison.referral.agree);
    assert!(comparison.referral.union.iter().any(|name| name == "b.gtld-servers.net."));
    assert!(comparison.referral.union.iter().any(|name| name == "c.gtld-servers.net."));
    assert!(comparison.paths[0].referral_diff.only_here.iter().any(|name| name == "b.gtld-servers.net."));
    assert!(comparison.paths[1].referral_diff.only_here.iter().any(|name| name == "c.gtld-servers.net."));
    assert!(comparison.paths[0].referral_diff.missing.iter().any(|name| name == "c.gtld-servers.net."));
    let text = render_comparison_text(&comparison);
    assert!(text.contains("referral NS (differ):"));
    assert!(text.contains("+b.gtld-servers.net."));
}

#[test]
fn matching_referral_sets_report_no_difference() {
    let mut tree = differing_length_tree();
    // Make the two answered siblings agree on the referral set; the failed
    // sibling still has none of its own.
    tree.children[1].hop.referral_ns = tree.children[0].hop.referral_ns.clone();
    let comparison = summarize_fork(&tree, &NodePath::root(0)).expect("fork");
    assert!(comparison.referral.agree);
    assert_eq!(
        comparison.referral.shared,
        vec!["a.gtld-servers.net.".to_string(), "b.gtld-servers.net.".to_string()]
    );
    for path in &comparison.paths {
        assert!(path.referral_diff.only_here.is_empty());
        assert!(path.referral_diff.missing.is_empty());
    }
    let text = render_comparison_text(&comparison);
    assert!(text.contains("referral NS (all paths):"));
    assert!(text.contains("a.gtld-servers.net., b.gtld-servers.net."));
    assert!(text.contains("referral Δ"));
    assert!(text.contains("—"));
    assert!(!text.contains("+a.gtld-servers.net."));
    assert!(!text.contains("-a.gtld-servers.net."));
}

#[test]
fn answers_agree_case_is_flagged() {
    let tree = agreeing_tree();
    let comparison = summarize_fork(&tree, &NodePath::root(0)).expect("fork");
    assert!(comparison.answers.agree);
    assert_eq!(comparison.paths[0].outcome, "NOERROR");
    assert_eq!(comparison.paths[1].outcome, "NOERROR");
    let text = render_comparison_text(&comparison);
    assert!(text.contains("Answers agree"));
    assert!(!text.contains("All paths agree"));
}

#[test]
fn cache_served_hops_are_recorded() {
    let tree = agreeing_tree();
    let comparison = summarize_fork(&tree, &NodePath::root(0)).expect("fork");
    assert_eq!(comparison.paths[0].cache_served_hops, vec![0]);
    assert!(comparison.paths[1].cache_served_hops.is_empty());
    let text = render_comparison_text(&comparison);
    assert!(text.contains("(cache)"));
}

#[test]
fn summarize_does_not_probe() {
    let tree = agreeing_tree();
    let comparison = summarize_fork(&tree, &NodePath::root(0)).expect("fork");
    assert!(comparison.paths.iter().all(|path| path.icmp_rtt_ms.is_none()));
}

#[test]
fn comparison_at_root_uses_nearest_fork_below() {
    let tree = node(
        hop(".", "198.41.0.4", 10, None, &[], false, vec![]),
        vec![node(
            hop("org.", "199.249.112.1", 8, None, &[], false, vec![]),
            vec![
                leaf("tuininga.org.", "193.47.99.5", 12, None, false, vec![]),
                leaf("tuininga.org.", "88.198.229.192", 14, None, false, vec![]),
            ],
        )],
    );
    let comparison = comparison_at(&tree, &NodePath::root(0)).expect("fork below root");
    assert_eq!(comparison.fork.path, vec![0]);
    assert_eq!(comparison.paths.len(), 2);
}

#[test]
fn comparison_at_walks_up_to_parent_fork() {
    let tree = agreeing_tree();
    let comparison =
        comparison_at(&tree, &NodePath { tree: 0, path: vec![1] }).expect("parent fork");
    assert!(comparison.fork.path.is_empty());
    assert_eq!(comparison.paths.len(), 2);
}

#[test]
fn linear_tree_has_nothing_to_compare() {
    let tree = node(
        hop(".", "198.41.0.4", 10, None, &[], false, vec![]),
        vec![leaf("com.", "192.5.6.30", 8, None, false, vec![])],
    );
    assert!(comparison_at(&tree, &NodePath::root(0)).is_none());
}

#[test]
fn newly_branched_child_appears_as_row() {
    let mut tree = agreeing_tree();
    let before = summarize_fork(&tree, &NodePath::root(0)).expect("before");
    assert_eq!(before.paths.len(), 2);
    tree.children.push(leaf(
        "example.com.",
        "192.0.2.12",
        40,
        None,
        false,
        vec![a_record("93.184.216.34")],
    ));
    let after = summarize_fork(&tree, &NodePath::root(0)).expect("after");
    assert_eq!(after.paths.len(), 3);
    assert_eq!(after.paths[2].label, "192.0.2.12");
}

#[test]
fn comparison_text_lays_out_the_table() {
    let tree = agreeing_tree();
    let comparison = summarize_fork(&tree, &NodePath::root(0)).expect("fork");
    let text = render_comparison_text(&comparison);
    let expected = [
        "Compare fork org. (example.com.)  at-path 0",
        "Answers agree (same response code and answer records)",
        "server                 hops      dns      Δ   icmp  outcome          referral Δ",
        "192.0.2.10                1     30ms      0    n/a  NOERROR          —",
        "  hops: example.com. 30ms (cache)",
        "192.0.2.11                1     32ms     +2    n/a  NOERROR          —",
        "  hops: example.com. 32ms",
    ]
    .join("\n")
        + "\n";
    assert_eq!(text, expected);
}

#[test]
fn answers_in_another_order_still_agree() {
    let tree = node(
        hop("org.", "199.19.56.1", 12, None, &[], false, vec![]),
        vec![
            leaf("example.com.", "192.0.2.10", 30, None, false, vec![a_record("192.0.2.1"), a_record("192.0.2.2")]),
            leaf("example.com.", "192.0.2.11", 32, None, false, vec![a_record("192.0.2.2"), a_record("192.0.2.1")]),
        ],
    );
    let comparison = summarize_fork(&tree, &NodePath::root(0)).expect("fork");
    assert!(comparison.answers.agree);
}

#[test]
fn failures_with_detail_never_agree() {
    let tree = node(
        hop("org.", "199.19.56.1", 12, None, &[], false, vec![]),
        vec![
            leaf("example.com.", "192.0.2.10", 30, Some(("timeout", "no response")), false, vec![]),
            leaf("example.com.", "192.0.2.11", 32, Some(("timeout", "no response")), false, vec![]),
        ],
    );
    let comparison = summarize_fork(&tree, &NodePath::root(0)).expect("fork");
    assert!(!comparison.answers.agree);
    assert_eq!(comparison.paths[0].outcome, "timeout: no response");
    assert_eq!(comparison.paths[0].dns_rtt_delta_ms, None);
    assert_eq!(comparison.referral.comparable_count, 0);
}

#[test]
fn single_referral_set_is_shared() {
    let tree = node(
        hop(".", "198.41.0.4", 10, None, &[], false, vec![]),
        vec![
            node(hop("com.", "192.5.6.30", 20, None, &["b.ns.", "a.ns.", "b.ns."], false, vec![]), vec![]),
            leaf("com.", "192.0.2.53", 0, Some(("timeout", "")), false, vec![]),
        ],
    );
    let comparison = summarize_fork(&tree, &NodePath::root(0)).expect("fork");
    assert!(comparison.referral.agree);
    assert_eq!(comparison.referral.comparable_count, 1);
    assert_eq!(comparison.referral.shared, vec!["a.ns.".to_string(), "b.ns.".to_string()]);
    assert_eq!(comparison.paths[0].referral_diff.only_here, vec!["a.ns.".to_string(), "b.ns.".to_string()]);
    assert_eq!(comparison.paths[1].outcome, "timeout");
}

fn fork_tree(child_count: usize) -> TraceNode {
    let children = (0..child_count)
        .map(|index| leaf("example.com.", &format!("192.0.2.{}", index + 1), 10 + index as u64, None, false, vec![]))
        .collect();
    node(hop("org.", "199.19.56.1", 12, None, &["a.example."], false, vec![]), children)
}

#[test]
fn compare_is_scoped_to_fork_children() {
    let tree = fork_tree(3);
    let model = CompareScreenModel::from_tree(&tree, &NodePath::root(0)).expect("model");
    assert_eq!(model.rows().len(), 3);
    assert!(model.rows().iter().all(|row| row.path.path.len() == 1 && row.path.tree == 0));
    assert_eq!(model.comparison.fork_zone, "org.");
}

#[test]
fn selected_row_maps_back_to_node_path() {
    let tree = fork_tree(3);
    let mut model =
        CompareScreenModel::from_tree(&tree, &NodePath { tree: 0, path: vec![2] }).expect("model");
    assert_eq!(model.row, 2);
    assert_eq!(model.selected_path().cloned(), Some(NodePath { tree: 0, path: vec![2] }));
    model.move_row(-1);
    assert_eq!(model.selected_path().cloned(), Some(NodePath { tree: 0, path: vec![1] }));
}

#[test]
fn unavailable_without_sibling_paths() {
    let tree = fork_tree(1);
    assert!(CompareScreenModel::from_tree(&tree, &NodePath::root(0)).is_none());
}

#[test]
fn rows_include_new_branch_child() {
    let tree = fork_tree(2);
    let before = CompareScreenModel::from_tree(&tree, &NodePath::root(0)).expect("before");
    assert_eq!(before.rows().len(), 2);
    let tree = fork_tree(4);
    let after = CompareScreenModel::from_tree(&tree, &NodePath::root(0)).expect("after");
    assert_eq!(after.rows().len(), 4);
}

#[test]
fn move_row_stops_at_the_ends() {
    let tree = fork_tree(3);
    let mut model = CompareScreenModel::from_tree(&tree, &NodePath::root(0)).expect("model");
    assert_eq!(model.row, 0);
    model.move_row(-5);
    assert_eq!(model.row, 0);
    model.move_row(isize::MAX);
    assert_eq!(model.row, 2);
    model.move_row(isize::MIN);
    assert_eq!(model.row, 0);
}

#[test]
fn hop_scale_is_the_slowest_hop() {
    let mut tree = fork_tree(2);
    tree.children[0].hop.from_cache = true;
    tree.children[1].hop.rtt_ms = 400;
    let model = CompareScreenModel::from_tree(&tree, &NodePath::root(0)).expect("model");
    assert_eq!(hop_scale_ms(&model.comparison), 400);
    let flat = fork_tree(2);
    let mut zero = CompareScreenModel::from_tree(&flat, &NodePath::root(0)).expect("model");
    for path in zero.comparison.paths.iter_mut() {
        for hop in path.dns_rtt_per_hop.iter_mut() {
            hop.rtt_ms = 0;
        }
    }
    assert_eq!(hop_scale_ms(&zero.comparison), 1);
    let text = render_comparison_text(&model.comparison);
    assert!(text.contains("(cache)"));
    assert!(text.contains("400ms"));
}
