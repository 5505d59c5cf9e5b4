use delve::explore::path_summary::{fork_for_compare, fork_for_selection, nearest_fork};
use delve::explore::tree::{build_explore_tree, build_explore_tree_with_qname, ExploreTree, TraceShape};
use delve::explore::view_state::{
    restore_from_state, ActiveScreen, BrowsePane, ExploreViewState, ViewStateController,
};
use delve::node_path::NodePath;

fn leaf() -> TraceShape {
    TraceShape { children: Vec::new() }
}

fn node(children: Vec<TraceShape>) -> TraceShape {
    TraceShape { children }
}

/// A delegation chain of `hops` nodes, each the only child of the one before.
fn linear(hops: usize) -> TraceShape {
    let mut shape = leaf();
    for _ in 1..hops {
        shape = node(vec![shape]);
    }
    shape
}

/// Root, one child, and two answered leaves under it.
fn forked() -> TraceShape {
    node(vec![node(vec![leaf(), leaf()])])
}

fn tree(shape: TraceShape) -> ExploreTree {
    build_explore_tree(shape, "example.com.", "A")
}

fn path(indices: &[usize]) -> NodePath {
    NodePath { tree: 0, path: indices.to_vec() }
}

#[test]
fn visible_nodes_follow_expansion() {
    let tree = tree(linear(2));
    let visible = tree.visible_nodes(&vec![NodePath::root(0)]);
    assert_eq!(visible.len(), 2);
    assert_eq!(visible[0].path, NodePath::root(0));
    assert_eq!(visible[1].path.path, vec![0]);
    assert_eq!(visible[1].depth, 1);
    assert_eq!(tree.visible_nodes(&Vec::new()).len(), 1);
}

#[test]
fn renders_terminal_siblings_from_trace_tree() {
    let tree = tree(forked());
    let fork = tree.compare_fork(&path(&[0, 0]));
    assert!(fork.is_some());
    let fork = fork.unwrap();
    assert_eq!(fork.at.path, vec![0]);
    assert_eq!(fork.row, 0);
    assert_eq!(tree.compare_fork(&path(&[0, 1])).unwrap().row, 1);
    let visible = tree.visible_nodes(&vec![NodePath::root(0), path(&[0])]);
    assert_eq!(
        visible.iter().filter(|node| node.path.path == vec![0, 0] || node.path.path == vec![0, 1]).count(),
        2
    );
}

#[test]
fn compare_unavailable_reason_points_at_the_nearest_fork() {
    let tree = tree(forked());
    let root = NodePath::root(0);
    assert!(!tree.compare_available(&root));
    assert_eq!(tree.nearest_fork(), Some(path(&[0])));
    let reason = tree.compare_unavailable_reason(&root);
    assert!(reason.contains("select hop 1"), "{reason}");
    assert!(reason.contains("at-path 0.0"), "{reason}");
    assert_eq!(
        tree.compare_unavailable_reason(&path(&[0])),
        "no sibling paths at this node yet; branch it to compare alternatives"
    );
}

#[test]
fn compare_unavailable_reason_states_a_single_path_trace() {
    let tree = tree(linear(2));
    assert_eq!(tree.nearest_fork(), None);
    let reason = tree.compare_unavailable_reason(&NodePath::root(0));
    assert!(reason.contains("single path"), "{reason}");
    assert!(!reason.contains("at-path"), "{reason}");
}

#[test]
fn uses_display_qname_override() {
    let tree = build_explore_tree_with_qname(linear(1), "cdn.example.com.", "A", 0, Some("www.example.com."));
    assert_eq!(tree.qname, "www.example.com.");
}

#[test]
fn default_expanded_paths_show_delegation_structure() {
    let tree = tree(linear(2));
    let paths = tree.default_expanded_paths();
    assert!(paths.contains(&NodePath::root(0)));
    let visible = tree.visible_nodes(&paths);
    assert_eq!(visible.len(), 2);
}

#[test]
fn nearest_fork_is_the_shallowest() {
    let shape = node(vec![node(vec![leaf(), leaf(), leaf()]), node(vec![node(vec![leaf(), leaf()])])]);
    assert_eq!(tree(shape).nearest_fork(), Some(NodePath::root(0)));
    let shape = node(vec![node(vec![node(vec![node(vec![leaf(), leaf()]), leaf()])])]);
    let tree = build_explore_tree_with_qname(shape, "example.com.", "A", 2, None);
    assert_eq!(tree.nearest_fork(), Some(NodePath { tree: 2, path: vec![0, 0] }));
    assert_eq!(tree.display_index_for_path(&NodePath { tree: 2, path: vec![0, 0] }), Some(2));
    assert_eq!(tree.display_index_for_path(&NodePath { tree: 2, path: vec![0, 0, 1] }), Some(6));
    assert_eq!(tree.display_index_for_path(&NodePath { tree: 2, path: vec![7] }), None);
}

#[test]
fn visible_selection_lookup() {
    let tree = tree(forked());
    let expanded = vec![NodePath::root(0), path(&[0])];
    assert_eq!(tree.selection_for_visible_index(3, &expanded), Some(path(&[0, 1])));
    assert_eq!(tree.selection_for_visible_index(4, &expanded), None);
    assert_eq!(tree.visible_index_for_selection(&path(&[0, 1]), &expanded), Some(3));
    assert_eq!(tree.visible_index_for_selection(&path(&[0, 1]), &vec![NodePath::root(0)]), None);
    assert_eq!(tree.nearest_visible_ancestor(&path(&[0, 1]), &vec![NodePath::root(0)]), path(&[0]));
    assert_eq!(tree.nearest_visible_ancestor(&path(&[0, 1]), &Vec::new()), NodePath::root(0));
}

#[test]
fn fork_scopes_for_selection_and_compare() {
    let shape = forked();
    assert_eq!(fork_for_selection(&shape, &path(&[0, 1])), Some(path(&[0])));
    assert_eq!(fork_for_selection(&shape, &path(&[0])), Some(path(&[0])));
    assert_eq!(fork_for_selection(&shape, &NodePath::root(0)), None);
    assert_eq!(fork_for_selection(&shape, &path(&[5])), None);
    assert_eq!(fork_for_compare(&shape, &NodePath::root(0)), Some(path(&[0])));
    assert_eq!(nearest_fork(&shape, 0), Some(path(&[0])));
    let deeper = node(vec![node(vec![leaf()]), node(vec![node(vec![leaf(), leaf()])])]);
    assert_eq!(fork_for_compare(&deeper, &path(&[0])), Some(NodePath::root(0)));
    assert_eq!(fork_for_compare(&linear(3), &path(&[0])), None);
}

fn sample_tree() -> ExploreTree {
    tree(linear(2))
}

#[test]
fn restores_expansion_and_selection() {
    let tree = sample_tree();
    let mut controller = ViewStateController::default_for_tree(&tree);
    controller.expanded_paths = vec![NodePath::root(0)];
    controller.selection = path(&[0]);
    controller.active_screen = ActiveScreen::Compare;
    controller.compare_row = 1;
    let restored = restore_from_state(&tree, &controller.to_view_state());
    assert_eq!(restored.active_screen, ActiveScreen::Compare);
    assert_eq!(restored.selection.path, vec![0]);
    assert!(restored.expanded_paths.contains(&NodePath::root(0)));
    assert_eq!(restored.compare_row, 1);
}

#[test]
fn drops_stale_paths_on_restore() {
    let tree = sample_tree();
    let state = ExploreViewState {
        active_screen: "browse".into(),
        expanded_paths: vec![vec![99]],
        selection: vec![99],
        pane: "tree".into(),
        compare_focus_row: 0,
    };
    let restored = restore_from_state(&tree, &state);
    assert_eq!(restored.selection, NodePath::root(0));
    assert!(!restored.expanded_paths.iter().any(|path| path.path == vec![99]));
    assert_eq!(restored.browse_pane, BrowsePane::Tree);
}

#[test]
fn collapse_all_moves_selection_to_visible_ancestor() {
    let tree = sample_tree();
    let mut controller = ViewStateController::default_for_tree(&tree);
    controller.selection = path(&[0]);
    controller.expand_all(&tree, 10);
    controller.collapse_all(&tree, 20);
    assert_eq!(controller.selection, NodePath::root(0));
    assert!(controller.expanded_paths.is_empty());
}

#[test]
fn debounce_blocks_immediate_persist() {
    let tree = sample_tree();
    let mut controller = ViewStateController::default_for_tree(&tree);
    assert!(!controller.should_persist_now(true, 0));
    controller.mark_dirty(1_000);
    assert!(!controller.should_persist_now(false, 1_000));
    assert!(controller.should_persist_now(true, 1_000));
    assert!(!controller.should_persist_now(false, 1_249));
    assert!(controller.should_persist_now(false, 1_250));
    controller.persisted();
    assert!(!controller.should_persist_now(true, 2_000));
}

#[test]
fn toggling_twice_restores_expansion() {
    let tree = tree(forked());
    let mut controller = ViewStateController::default_for_tree(&tree);
    let before = controller.expanded_paths.clone();
    controller.toggle_expansion(&path(&[0, 1]), 5);
    assert_eq!(controller.expanded_paths.len(), before.len() + 1);
    controller.toggle_expansion(&path(&[0, 1]), 6);
    assert_eq!(controller.expanded_paths, before);
    controller.toggle_expansion(&NodePath::root(0), 7);
    assert!(!controller.expanded_paths.contains(&NodePath::root(0)));
    controller.set_selection_visible_index(&tree, 0, 8);
    assert_eq!(controller.selection, NodePath::root(0));
    assert_eq!(controller.selected_visible_index(&tree), 0);
}
