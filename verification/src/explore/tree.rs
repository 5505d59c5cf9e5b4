//! The explore tree: which nodes of a trace are visible under the current
//! expansion, where comparison is possible, and how a selection survives a
//! change of expansion.

use vstd::prelude::*;

use crate::node_path::{contains_path, copy_indices, listed, NodePath};

verus! {

/// The shape of a trace tree: each node's children, in order.
#[derive(Debug)]
pub struct TraceShape {
    pub children: Vec<TraceShape>,
}

/// The node reached from `n` by taking the child indices of `path` in turn.
pub open spec fn subtree(n: TraceShape, path: Seq<usize>) -> Option<TraceShape>
    decreases path.len(),
{
    if path.len() == 0 {
        Some(n)
    } else if path[0] < n.children@.len() {
        subtree(n.children@[path[0] as int], path.drop_first())
    } else {
        None
    }
}

/// A trace as explore shows it.
#[derive(Debug)]
pub struct ExploreTree {
    pub qname: String,
    pub qtype: String,
    pub tree_index: usize,
    pub root: TraceShape,
}

/// A row of the browse tree.
#[derive(Debug, Clone, PartialEq, Eq)]
pub struct VisibleNode {
    pub path: NodePath,
    pub depth: usize,
    pub expandable: bool,
    pub expanded: bool,
}

/// Where comparison happens for a selection: the fork and the row of the
/// selection among its children.
#[derive(Debug, Clone, PartialEq, Eq)]
pub struct CompareFork {
    pub at: NodePath,
    pub row: usize,
}

/// A row by its view: the node's child indices, whether it has children,
/// and whether it is shown expanded.
pub type RowView = (Seq<usize>, bool, bool);

/// The rows of the subtree `n` at `path`: the node, then, when it has
/// children and its path is listed as expanded, the rows of each child.
pub open spec fn visible_node(n: TraceShape, tree: usize, path: Seq<usize>, expanded: Seq<NodePath>) -> Seq<
    RowView,
>
    decreases n, 0nat,
{
    let expandable = n.children@.len() > 0;
    let open = expandable && listed(expanded, tree, path);
    seq![(path, expandable, open)] + if open {
        visible_list(n.children@, 0, tree, path, expanded)
    } else {
        Seq::empty()
    }
}

/// The rows of children `i..` of the node at `path`.
pub open spec fn visible_list(
    cs: Seq<TraceShape>,
    i: int,
    tree: usize,
    path: Seq<usize>,
    expanded: Seq<NodePath>,
) -> Seq<RowView>
    decreases cs, if 0 <= i < cs.len() { (cs.len() - i) as nat } else { 0 },
{
    if 0 <= i < cs.len() {
        visible_node(cs[i], tree, path.push(i as usize), expanded) + visible_list(
            cs,
            i + 1,
            tree,
            path,
            expanded,
        )
    } else {
        Seq::empty()
    }
}

/// The paths of the nodes with children, parents before children, in
/// child order.
pub open spec fn inner_node_paths(n: TraceShape, path: Seq<usize>) -> Seq<Seq<usize>>
    decreases n, 0nat,
{
    if n.children@.len() == 0 {
        Seq::empty()
    } else {
        seq![path] + inner_list_paths(n.children@, 0, path)
    }
}

/// The inner-node paths of children `i..` of the node at `path`.
pub open spec fn inner_list_paths(cs: Seq<TraceShape>, i: int, path: Seq<usize>) -> Seq<Seq<usize>>
    decreases cs, if 0 <= i < cs.len() { (cs.len() - i) as nat } else { 0 },
{
    if 0 <= i < cs.len() {
        inner_node_paths(cs[i], path.push(i as usize)) + inner_list_paths(cs, i + 1, path)
    } else {
        Seq::empty()
    }
}

/// The views of rows.
pub open spec fn row_views(rows: Seq<VisibleNode>) -> Seq<RowView> {
    rows.map_values(|r: VisibleNode| (r.path.path@, r.expandable, r.expanded))
}

/// Every row belongs to tree `tree` and has the depth of its path.
pub open spec fn rows_ok(tree: usize, rows: Seq<VisibleNode>) -> bool {
    forall|i: int|
        0 <= i < rows.len() ==> #[trigger] rows[i].path.tree == tree && rows[i].depth
            == rows[i].path.path@.len()
}

/// The child-index sequences of node paths.
pub open spec fn path_views(paths: Seq<NodePath>) -> Seq<Seq<usize>> {
    paths.map_values(|p: NodePath| p.path@)
}

/// Every path belongs to tree `tree`.
pub open spec fn paths_in_tree(tree: usize, paths: Seq<NodePath>) -> bool {
    forall|i: int| 0 <= i < paths.len() ==> #[trigger] paths[i].tree == tree
}

proof fn lemma_rows_push(rows: Seq<VisibleNode>, r: VisibleNode)
    ensures
        row_views(rows.push(r)) == row_views(rows).push((r.path.path@, r.expandable, r.expanded)),
{
    assert(row_views(rows.push(r)) =~= row_views(rows).push((r.path.path@, r.expandable, r.expanded)));
}

proof fn lemma_paths_push(paths: Seq<NodePath>, p: NodePath)
    ensures
        path_views(paths.push(p)) == path_views(paths).push(p.path@),
{
    assert(path_views(paths.push(p)) =~= path_views(paths).push(p.path@));
}

fn child_path(path: &Vec<usize>, i: usize) -> (r: Vec<usize>)
    ensures
        r@ == path@.push(i),
{
    let mut r = copy_indices(path);
    r.push(i);
    r
}

fn append_visible(
    node: &TraceShape,
    tree: usize,
    path: &Vec<usize>,
    expanded: &Vec<NodePath>,
    visible: &mut Vec<VisibleNode>,
)
    requires
        rows_ok(tree, old(visible)@),
    ensures
        rows_ok(tree, final(visible)@),
        row_views(final(visible)@) == row_views(old(visible)@) + visible_node(
            *node,
            tree,
            path@,
            expanded@,
        ),
    decreases node,
{
    let expandable = node.children.len() > 0;
    let open = expandable && contains_path(expanded, tree, path);
    let row = VisibleNode {
        path: NodePath { tree, path: copy_indices(path) },
        depth: path.len(),
        expandable,
        expanded: open,
    };
    proof {
        lemma_rows_push(visible@, row);
    }
    visible.push(row);
    let ghost after_row = row_views(visible@);
    assert(after_row == row_views(old(visible)@) + seq![(path@, expandable, open)]);
    if open {
        let mut i: usize = 0;
        while i < node.children.len()
            invariant
                i <= node.children.len(),
                rows_ok(tree, visible@),
                row_views(visible@) + visible_list(node.children@, i as int, tree, path@, expanded@)
                    == after_row + visible_list(node.children@, 0, tree, path@, expanded@),
            decreases node.children.len() - i,
        {
            let cp = child_path(path, i);
            let ghost before = row_views(visible@);
            append_visible(&node.children[i], tree, &cp, expanded, visible);
            assert(before + visible_list(node.children@, i as int, tree, path@, expanded@) =~= row_views(
                visible@,
            ) + visible_list(node.children@, i + 1, tree, path@, expanded@));
            i = i + 1;
        }
        assert(row_views(visible@) =~= after_row + visible_list(
            node.children@,
            0,
            tree,
            path@,
            expanded@,
        ));
    }
    assert(row_views(visible@) =~= row_views(old(visible)@) + visible_node(
        *node,
        tree,
        path@,
        expanded@,
    ));
}

fn collect_inner_paths(node: &TraceShape, tree: usize, path: &Vec<usize>, paths: &mut Vec<NodePath>)
    requires
        paths_in_tree(tree, old(paths)@),
    ensures
        paths_in_tree(tree, final(paths)@),
        path_views(final(paths)@) == path_views(old(paths)@) + inner_node_paths(*node, path@),
    decreases node,
{
    if node.children.len() == 0 {
        assert(path_views(paths@) =~= path_views(old(paths)@) + inner_node_paths(*node, path@));
        return;
    }
    let p = NodePath { tree, path: copy_indices(path) };
    proof {
        lemma_paths_push(paths@, p);
    }
    paths.push(p);
    let ghost after = path_views(paths@);
    let mut i: usize = 0;
    while i < node.children.len()
        invariant
            i <= node.children.len(),
            paths_in_tree(tree, paths@),
            path_views(paths@) + inner_list_paths(node.children@, i as int, path@) == after
                + inner_list_paths(node.children@, 0, path@),
        decreases node.children.len() - i,
    {
        let cp = child_path(path, i);
        let ghost before = path_views(paths@);
        collect_inner_paths(&node.children[i], tree, &cp, paths);
        assert(before + inner_list_paths(node.children@, i as int, path@) =~= path_views(paths@)
            + inner_list_paths(node.children@, i + 1, path@));
        i = i + 1;
    }
    assert(path_views(paths@) =~= path_views(old(paths)@) + inner_node_paths(*node, path@));
}

/// The comparison for a selection: at the selected node when it forks, else
/// at its parent when the parent forks (the row is then the selection's
/// index among the siblings); none otherwise or when the selection names
/// no node.
pub open spec fn compare_fork_of(root: TraceShape, tree: usize, sel: Seq<usize>) -> Option<
    (Seq<usize>, usize),
> {
    match subtree(root, sel) {
        None => None,
        Some(n) => if n.children@.len() >= 2 {
            Some((sel, 0))
        } else if sel.len() == 0 {
            None
        } else {
            match subtree(root, sel.drop_last()) {
                Some(parent) => if parent.children@.len() >= 2 {
                    Some((sel.drop_last(), sel.last()))
                } else {
                    None
                },
                None => None,
            }
        },
    }
}

/// Where a node is among the rows, if it is there.
pub open spec fn row_index_of(rows: Seq<RowView>, path: Seq<usize>) -> Option<int>
    decreases rows.len(),
{
    if rows.len() == 0 {
        None
    } else {
        match row_index_of(rows.drop_last(), path) {
            Some(i) => Some(i),
            None => if rows.last().0 == path {
                Some(rows.len() - 1)
            } else {
                None
            },
        }
    }
}

/// Whether a path is among the rows.
pub open spec fn row_shows(rows: Seq<RowView>, path: Seq<usize>) -> bool {
    exists|i: int| 0 <= i < rows.len() && rows[i].0 == path
}

/// The longest prefix of `path`, of at most `k` indices, that the rows show
/// (the empty path when none does).
pub open spec fn shown_prefix(rows: Seq<RowView>, path: Seq<usize>, k: int) -> Seq<usize>
    decreases k,
{
    if k <= 0 {
        Seq::empty()
    } else if row_shows(rows, path.subrange(0, k)) {
        path.subrange(0, k)
    } else {
        shown_prefix(rows, path, k - 1)
    }
}

/// The depth of the deepest node below `n` (a leaf has height 0).
pub open spec fn height(n: TraceShape) -> nat
    decreases n, 0nat,
{
    height_list(n.children@, 0)
}

/// The greatest `1 + height` of children `i..`.
pub open spec fn height_list(cs: Seq<TraceShape>, i: int) -> nat
    decreases cs, if 0 <= i < cs.len() { (cs.len() - i) as nat } else { 0 },
{
    if 0 <= i < cs.len() {
        let here = 1 + height(cs[i]);
        let rest = height_list(cs, i + 1);
        if here >= rest {
            here
        } else {
            rest
        }
    } else {
        0
    }
}

/// Whether some node lies `d` levels below `n`.
pub open spec fn reaches(n: TraceShape, d: nat) -> bool
    decreases n, 0nat,
{
    d == 0 || reaches_list(n.children@, 0, (d - 1) as nat)
}

/// Whether some node lies `d` levels below one of children `i..`.
pub open spec fn reaches_list(cs: Seq<TraceShape>, i: int, d: nat) -> bool
    decreases cs, if 0 <= i < cs.len() { (cs.len() - i) as nat } else { 0 },
{
    0 <= i < cs.len() && (reaches(cs[i], d) || reaches_list(cs, i + 1, d))
}

/// A node reached below `n` is no deeper than its height.
pub proof fn lemma_reaches_height(n: TraceShape, d: nat)
    requires
        reaches(n, d),
    ensures
        d <= height(n),
    decreases n, 0nat,
{
    if d > 0 {
        lemma_reaches_height_list(n.children@, 0, (d - 1) as nat);
    }
}

proof fn lemma_reaches_height_list(cs: Seq<TraceShape>, i: int, d: nat)
    requires
        reaches_list(cs, i, d),
    ensures
        d + 1 <= height_list(cs, i),
    decreases cs, if 0 <= i < cs.len() { (cs.len() - i) as nat } else { 0 },
{
    if reaches(cs[i], d) {
        lemma_reaches_height(cs[i], d);
    } else {
        lemma_reaches_height_list(cs, i + 1, d);
    }
}

/// The first fork (a node with two or more children) exactly `d` levels
/// below `n`, children taken in order.
pub open spec fn fork_at_depth(n: TraceShape, path: Seq<usize>, d: nat) -> Option<Seq<usize>>
    decreases n, 0nat,
{
    if d == 0 {
        if n.children@.len() >= 2 {
            Some(path)
        } else {
            None
        }
    } else {
        fork_in_list(n.children@, 0, path, (d - 1) as nat)
    }
}

/// The first fork `d` levels below one of children `i..`.
pub open spec fn fork_in_list(cs: Seq<TraceShape>, i: int, path: Seq<usize>, d: nat) -> Option<
    Seq<usize>,
>
    decreases cs, if 0 <= i < cs.len() { (cs.len() - i) as nat } else { 0 },
{
    if 0 <= i < cs.len() {
        match fork_at_depth(cs[i], path.push(i as usize), d) {
            Some(p) => Some(p),
            None => fork_in_list(cs, i + 1, path, d),
        }
    } else {
        None
    }
}

/// The shallowest fork at depth `d` or below, leftmost within its level.
pub open spec fn nearest_from(root: TraceShape, d: nat) -> Option<Seq<usize>>
    decreases height(root) + 1 - d,
{
    if !reaches(root, d) {
        None
    } else {
        match fork_at_depth(root, Seq::empty(), d) {
            Some(p) => Some(p),
            None => {
                proof {
                    lemma_reaches_height(root, d);
                }
                nearest_from(root, d + 1)
            },
        }
    }
}

/// Every node below `n` in display order: a node before its children,
/// children in order.
pub open spec fn display_paths(n: TraceShape, path: Seq<usize>) -> Seq<Seq<usize>>
    decreases n, 0nat,
{
    seq![path] + display_list(n.children@, 0, path)
}

/// The display order of children `i..`.
pub open spec fn display_list(cs: Seq<TraceShape>, i: int, path: Seq<usize>) -> Seq<Seq<usize>>
    decreases cs, if 0 <= i < cs.len() { (cs.len() - i) as nat } else { 0 },
{
    if 0 <= i < cs.len() {
        display_paths(cs[i], path.push(i as usize)) + display_list(cs, i + 1, path)
    } else {
        Seq::empty()
    }
}

/// The first position of `p` in `paths`.
pub open spec fn first_index(paths: Seq<Seq<usize>>, p: Seq<usize>) -> Option<int>
    decreases paths.len(),
{
    if paths.len() == 0 {
        None
    } else {
        match first_index(paths.drop_last(), p) {
            Some(i) => Some(i),
            None => if paths.last() == p {
                Some(paths.len() - 1)
            } else {
                None
            },
        }
    }
}

/// The text of `compare_unavailable_reason` for the nearest fork (tree and
/// path) and its display index.
pub open spec fn unavailable_text(
    fork: Option<(usize, Seq<usize>)>,
    selection: NodePath,
    index: Option<usize>,
) -> Seq<char> {
    match fork {
        None => "this trace has a single path, so there is nothing to compare"@,
        Some((t, p)) => if t == selection.tree && p == selection.path@ {
            "no sibling paths at this node yet; branch it to compare alternatives"@
        } else {
            match index {
                Some(i) => "no sibling paths at this node; select hop "@ + crate::text::decimal(
                    i as nat,
                ) + " (at-path "@ + crate::node_path::dotted(t, p) + ") to compare"@,
                None => "no sibling paths at this node; select at-path "@ + crate::node_path::dotted(
                    t,
                    p,
                ) + " to compare"@,
            }
        },
    }
}

proof fn lemma_first_index_prefix(all: Seq<Seq<usize>>, k: int, p: Seq<usize>)
    requires
        0 < k <= all.len(),
        first_index(all.subrange(0, k - 1), p) is None,
        all[k - 1] == p,
    ensures
        first_index(all, p) == Some(k - 1),
    decreases all.len() - k,
{
    let s = all.subrange(0, k);
    assert(s.drop_last() =~= all.subrange(0, k - 1));
    assert(first_index(s, p) == Some(k - 1));
    if k < all.len() {
        lemma_first_index_extends(all, k, p);
    } else {
        assert(s =~= all);
    }
}

proof fn lemma_first_index_extends(all: Seq<Seq<usize>>, k: int, p: Seq<usize>)
    requires
        0 <= k <= all.len(),
        first_index(all.subrange(0, k), p) is Some,
    ensures
        first_index(all, p) == first_index(all.subrange(0, k), p),
    decreases all.len() - k,
{
    if k == all.len() {
        assert(all.subrange(0, k) =~= all);
    } else {
        let s = all.subrange(0, k + 1);
        assert(s.drop_last() =~= all.subrange(0, k));
        lemma_first_index_extends(all, k + 1, p);
    }
}

impl ExploreTree {
    /// The rows of the browse tree, in display order.
    pub open spec fn rows(&self, expanded: Seq<NodePath>) -> Seq<RowView> {
        visible_node(self.root, self.tree_index, Seq::empty(), expanded)
    }

    /// The node at a path (the tree index of the path is not consulted).
    pub open spec fn node(&self, path: NodePath) -> Option<TraceShape> {
        subtree(self.root, path.path@)
    }

    /// Whether the path names a node.
    pub fn node_exists(&self, path: &NodePath) -> (r: bool)
        ensures
            r == self.node(*path) is Some,
    {
        self.node_at_indices(&path.path).is_some()
    }

    fn node_at_indices(&self, path: &Vec<usize>) -> (r: Option<&TraceShape>)
        ensures
            match subtree(self.root, path@) {
                Some(n) => r == Some(&n),
                None => r is None,
            },
    {
        node_at_path(&self.root, path)
    }

    /// The shallowest fork of the tree, the leftmost one within its level;
    /// none when the trace is a single path. (The tree is taken to be less
    /// than `usize::MAX` levels deep, which any tree in memory is.)
    pub fn nearest_fork(&self) -> (r: Option<NodePath>)
        requires
            height(self.root) < usize::MAX,
        ensures
            match nearest_from(self.root, 0) {
                Some(p) => r matches Some(f) && f.tree == self.tree_index && f.path@ == p,
                None => r is None,
            },
    {
        nearest_fork_in(&self.root, self.tree_index)
    }

    /// Where a node comes in display order (a node before its children),
    /// if it is in the tree.
    pub fn display_index_for_path(&self, path: &NodePath) -> (r: Option<usize>)
        ensures
            match first_index(display_paths(self.root, Seq::empty()), path.path@) {
                Some(i) => r matches Some(x) && x as int == i,
                None => r is None,
            },
    {
        let mut order: Vec<Vec<usize>> = Vec::new();
        let root_path: Vec<usize> = Vec::new();
        assert(index_views(order@) =~= Seq::<Seq<usize>>::empty());
        display_order_exec(&self.root, &root_path, &mut order);
        let ghost all = index_views(order@);
        assert(all =~= display_paths(self.root, Seq::empty()));
        let mut i: usize = 0;
        while i < order.len()
            invariant
                i <= order.len(),
                all == index_views(order@),
                all == display_paths(self.root, Seq::empty()),
                first_index(all.subrange(0, i as int), path.path@) is None,
            decreases order.len() - i,
        {
            let hit = crate::node_path::same_indices(&order[i], &path.path);
            proof {
                let s = all.subrange(0, i + 1);
                assert(s.drop_last() =~= all.subrange(0, i as int));
            }
            if hit {
                proof {
                    lemma_first_index_prefix(all, (i + 1) as int, path.path@);
                }
                return Some(i);
            }
            i = i + 1;
        }
        assert(all.subrange(0, all.len() as int) =~= all);
        None
    }

    /// Why Compare cannot open at `selection`: the selection is the fork
    /// but has no branches yet; or where the nearest fork is (by display
    /// index and `at-path`); or that the trace is a single path.
    pub fn compare_unavailable_reason(&self, selection: &NodePath) -> (s: String)
        requires
            height(self.root) < usize::MAX,
        ensures
            s@ == unavailable_text(
                match nearest_from(self.root, 0) {
                    Some(p) => Some((self.tree_index, p)),
                    None => None,
                },
                *selection,
                match nearest_from(self.root, 0) {
                    Some(p) => match first_index(display_paths(self.root, Seq::empty()), p) {
                        Some(i) => Some(i as usize),
                        None => None,
                    },
                    None => None,
                },
            ),
    {
        match self.nearest_fork() {
            Some(fork) => {
                if crate::node_path::same_path(&fork, selection) {
                    return String::from_str("no sibling paths at this node yet; branch it to compare alternatives");
                }
                let path = crate::node_path::format_path(&fork);
                let mut s = String::new();
                match self.display_index_for_path(&fork) {
                    Some(index) => {
                        s.append("no sibling paths at this node; select hop ");
                        crate::text::push_decimal(&mut s, index as u64);
                        s.append(" (at-path ");
                        s.append(path.as_str());
                        s.append(") to compare");
                    },
                    None => {
                        s.append("no sibling paths at this node; select at-path ");
                        s.append(path.as_str());
                        s.append(" to compare");
                    },
                }
                s
            },
            None => String::from_str("this trace has a single path, so there is nothing to compare"),
        }
    }

    /// Whether the path names a node with children.
    pub fn has_children(&self, path: &NodePath) -> (r: bool)
        ensures
            r == (self.node(*path) matches Some(n) && n.children@.len() > 0),
    {
        match self.node_at_indices(&path.path) {
            Some(n) => n.children.len() > 0,
            None => false,
        }
    }

    /// The rows shown under the given expansion.
    pub fn visible_nodes(&self, expanded: &Vec<NodePath>) -> (r: Vec<VisibleNode>)
        ensures
            rows_ok(self.tree_index, r@),
            row_views(r@) == self.rows(expanded@),
    {
        let mut visible: Vec<VisibleNode> = Vec::new();
        let root_path: Vec<usize> = Vec::new();
        assert(row_views(visible@) =~= Seq::<RowView>::empty());
        append_visible(&self.root, self.tree_index, &root_path, expanded, &mut visible);
        assert(row_views(visible@) =~= self.rows(expanded@));
        visible
    }

    /// Every node with children, parents first: the default expansion.
    pub fn default_expanded_paths(&self) -> (r: Vec<NodePath>)
        ensures
            paths_in_tree(self.tree_index, r@),
            path_views(r@) == inner_node_paths(self.root, Seq::empty()),
    {
        let mut paths: Vec<NodePath> = Vec::new();
        let root_path: Vec<usize> = Vec::new();
        assert(path_views(paths@) =~= Seq::<Seq<usize>>::empty());
        collect_inner_paths(&self.root, self.tree_index, &root_path, &mut paths);
        assert(path_views(paths@) =~= inner_node_paths(self.root, Seq::empty()));
        paths
    }

    /// Where comparison happens for a selection.
    pub fn compare_fork(&self, selection: &NodePath) -> (r: Option<CompareFork>)
        ensures
            match compare_fork_of(self.root, self.tree_index, selection.path@) {
                Some((at, row)) => r matches Some(f) && f.at.tree == selection.tree && f.at.path@ == at
                    && f.row == row,
                None => r is None,
            },
    {
        let node = match self.node_at_indices(&selection.path) {
            Some(n) => n,
            None => {
                return None;
            },
        };
        if node.children.len() >= 2 {
            return Some(CompareFork { at: NodePath { tree: selection.tree, path: copy_indices(&selection.path) }, row: 0 });
        }
        if selection.path.len() == 0 {
            return None;
        }
        let mut parent_path = copy_indices(&selection.path);
        let row = parent_path.pop().unwrap();
        assert(parent_path@ =~= selection.path@.drop_last());
        let parent = match self.node_at_indices(&parent_path) {
            Some(p) => p,
            None => {
                return None;
            },
        };
        if parent.children.len() < 2 {
            return None;
        }
        Some(CompareFork { at: NodePath { tree: selection.tree, path: parent_path }, row })
    }

    /// Whether comparison is available for a selection.
    pub fn compare_available(&self, selection: &NodePath) -> (r: bool)
        ensures
            r == compare_fork_of(self.root, self.tree_index, selection.path@) is Some,
    {
        self.compare_fork(selection).is_some()
    }

    /// The node shown on row `index`, if there is such a row.
    pub fn selection_for_visible_index(&self, index: usize, expanded: &Vec<NodePath>) -> (r: Option<
        NodePath,
    >)
        ensures
            index < self.rows(expanded@).len() ==> (r matches Some(p) && p.tree == self.tree_index
                && p.path@ == self.rows(expanded@)[index as int].0),
            index >= self.rows(expanded@).len() ==> r is None,
    {
        let visible = self.visible_nodes(expanded);
        if index < visible.len() {
            assert(row_views(visible@)[index as int] == (visible@[index as int].path.path@, visible@[index as int].expandable, visible@[index as int].expanded));
            Some(NodePath { tree: visible[index].path.tree, path: copy_indices(&visible[index].path.path) })
        } else {
            None
        }
    }

    /// The row that shows the selection, if any: the selection must be of
    /// this tree.
    pub fn visible_index_for_selection(&self, selection: &NodePath, expanded: &Vec<NodePath>) -> (r:
        Option<usize>)
        ensures
            selection.tree == self.tree_index ==> match row_index_of(
                self.rows(expanded@),
                selection.path@,
            ) {
                Some(i) => r matches Some(x) && x as int == i,
                None => r is None,
            },
            selection.tree != self.tree_index ==> r is None,
    {
        let visible = self.visible_nodes(expanded);
        let ghost rows = row_views(visible@);
        if selection.tree != self.tree_index {
            return None;
        }
        let mut i: usize = 0;
        while i < visible.len()
            invariant
                i <= visible.len(),
                rows == row_views(visible@),
                rows == self.rows(expanded@),
                rows_ok(self.tree_index, visible@),
                selection.tree == self.tree_index,
                row_index_of(rows.subrange(0, i as int), selection.path@) is None,
            decreases visible.len() - i,
        {
            let hit = crate::node_path::same_indices(&visible[i].path.path, &selection.path);
            proof {
                let s = rows.subrange(0, i + 1);
                assert(s.drop_last() =~= rows.subrange(0, i as int));
                assert(s.last() == rows[i as int]);
                assert(rows[i as int].0 == visible@[i as int].path.path@);
            }
            if hit {
                proof {
                    lemma_row_index_prefix(rows, (i + 1) as int, selection.path@);
                }
                return Some(i);
            }
            i = i + 1;
        }
        assert(rows.subrange(0, rows.len() as int) =~= rows);
        None
    }

    /// The selection itself when it is shown; else its longest shown
    /// ancestor; the root of this tree when the selection is of another
    /// tree.
    pub fn nearest_visible_ancestor(&self, selection: &NodePath, expanded: &Vec<NodePath>) -> (r:
        NodePath)
        ensures
            r.tree == self.tree_index,
            selection.tree == self.tree_index ==> r.path@ == shown_prefix(
                self.rows(expanded@),
                selection.path@,
                selection.path@.len() as int,
            ),
            selection.tree != self.tree_index ==> r.path@ == Seq::<usize>::empty(),
    {
        let visible = self.visible_nodes(expanded);
        let ghost rows = row_views(visible@);
        if selection.tree != self.tree_index {
            return NodePath::root(self.tree_index);
        }
        let mut k: usize = selection.path.len();
        while k > 0
            invariant
                k <= selection.path@.len(),
                rows == row_views(visible@),
                rows == self.rows(expanded@),
                selection.tree == self.tree_index,
                shown_prefix(rows, selection.path@, selection.path@.len() as int) == shown_prefix(
                    rows,
                    selection.path@,
                    k as int,
                ),
            decreases k,
        {
            let candidate = prefix_of(&selection.path, k);
            if shows_path(&visible, &candidate) {
                return NodePath { tree: self.tree_index, path: candidate };
            }
            k = k - 1;
        }
        NodePath::root(self.tree_index)
    }
}

fn fork_at_depth_exec(node: &TraceShape, path: &Vec<usize>, d: usize) -> (r: (Option<Vec<usize>>, bool))
    ensures
        match fork_at_depth(*node, path@, d as nat) {
            Some(p) => r.0 matches Some(v) && v@ == p,
            None => r.0 is None,
        },
        r.0 is None ==> r.1 == reaches(*node, d as nat),
        r.0 is Some ==> reaches(*node, d as nat),
    decreases node,
{
    if d == 0 {
        if node.children.len() >= 2 {
            return (Some(copy_indices(path)), true);
        } else {
            return (None, true);
        }
    }
    let mut i: usize = 0;
    let mut reached = false;
    while i < node.children.len()
        invariant
            i <= node.children.len(),
            d > 0,
            fork_at_depth(*node, path@, d as nat) == fork_in_list(node.children@, i as int, path@, (d - 1) as nat),
            reaches(*node, d as nat) == (reached || reaches_list(node.children@, i as int, (d - 1) as nat)),
        decreases node.children.len() - i,
    {
        let cp = child_path(path, i);
        let (found, here) = fork_at_depth_exec(&node.children[i], &cp, d - 1);
        match found {
            Some(p) => {
                return (Some(p), true);
            },
            None => {},
        }
        reached = reached || here;
        i = i + 1;
    }
    (None, reached)
}

/// The views of index vectors.
pub open spec fn index_views(v: Seq<Vec<usize>>) -> Seq<Seq<usize>> {
    v.map_values(|x: Vec<usize>| x@)
}

fn display_order_exec(node: &TraceShape, path: &Vec<usize>, out: &mut Vec<Vec<usize>>)
    ensures
        index_views(final(out)@) == index_views(old(out)@) + display_paths(*node, path@),
    decreases node,
{
    let p = copy_indices(path);
    let ghost before_push = out@;
    out.push(p);
    assert(index_views(out@) =~= index_views(before_push).push(path@));
    let ghost after = index_views(out@);
    let mut i: usize = 0;
    while i < node.children.len()
        invariant
            i <= node.children.len(),
            index_views(out@) + display_list(node.children@, i as int, path@) == after
                + display_list(node.children@, 0, path@),
        decreases node.children.len() - i,
    {
        let cp = child_path(path, i);
        let ghost before = index_views(out@);
        display_order_exec(&node.children[i], &cp, out);
        assert(before + display_list(node.children@, i as int, path@) =~= index_views(out@)
            + display_list(node.children@, i + 1, path@));
        i = i + 1;
    }
    assert(index_views(out@) =~= index_views(old(out)@) + display_paths(*node, path@));
}

/// The shallowest fork below `root`, leftmost within its level, as a node
/// of tree `tree_index`.
pub fn nearest_fork_in(root: &TraceShape, tree_index: usize) -> (r: Option<NodePath>)
    requires
        height(*root) < usize::MAX,
    ensures
        match nearest_from(*root, 0) {
            Some(p) => r matches Some(f) && f.tree == tree_index && f.path@ == p,
            None => r is None,
        },
{
    let root_path: Vec<usize> = Vec::new();
    let mut d: usize = 0;
    while true
        invariant
            height(*root) < usize::MAX,
            d <= height(*root) + 1,
            nearest_from(*root, 0) == nearest_from(*root, d as nat),
            root_path@ == Seq::<usize>::empty(),
        decreases height(*root) + 1 - d,
    {
        let (found, reached) = fork_at_depth_exec(root, &root_path, d);
        match found {
            Some(p) => {
                return Some(NodePath { tree: tree_index, path: p });
            },
            None => {},
        }
        if !reached {
            return None;
        }
        proof {
            lemma_reaches_height(*root, d as nat);
        }
        d = d + 1;
    }
    None
}

/// The node at `path` below `root`.
pub fn node_at_path<'a>(root: &'a TraceShape, path: &Vec<usize>) -> (r: Option<&'a TraceShape>)
    ensures
        match subtree(*root, path@) {
            Some(n) => r == Some(&n),
            None => r is None,
        },
{
    let mut node = root;
    let mut k: usize = 0;
    assert(path@.subrange(0, path@.len() as int) =~= path@);
    while k < path.len()
        invariant
            k <= path.len(),
            subtree(*root, path@) == subtree(*node, path@.subrange(k as int, path@.len() as int)),
        decreases path.len() - k,
    {
        let idx = path[k];
        let ghost rest = path@.subrange(k as int, path@.len() as int);
        if idx >= node.children.len() {
            return None;
        }
        assert(rest.drop_first() =~= path@.subrange(k + 1, path@.len() as int));
        node = &node.children[idx];
        k = k + 1;
    }
    assert(path@.subrange(path@.len() as int, path@.len() as int) =~= Seq::<usize>::empty());
    Some(node)
}

/// The explore tree of a trace: the displayed query name is the override
/// when one is given, else the trace's own.
pub fn build_explore_tree_with_qname(
    root: TraceShape,
    trace_qname: &str,
    qtype: &str,
    tree_index: usize,
    display_qname: Option<&str>,
) -> (t: ExploreTree)
    ensures
        t.qname@ == match display_qname {
            Some(q) => q@,
            None => trace_qname@,
        },
        t.qtype@ == qtype@,
        t.tree_index == tree_index,
        t.root == root,
{
    let qname = match display_qname {
        Some(q) => q,
        None => trace_qname,
    };
    ExploreTree { qname: String::from_str(qname), qtype: String::from_str(qtype), tree_index, root }
}

/// The explore tree of a trace as the session's first tree, under its own
/// query name.
pub fn build_explore_tree(root: TraceShape, trace_qname: &str, qtype: &str) -> (t: ExploreTree)
    ensures
        t.qname@ == trace_qname@,
        t.qtype@ == qtype@,
        t.tree_index == 0,
        t.root == root,
{
    build_explore_tree_with_qname(root, trace_qname, qtype, 0, None)
}

proof fn lemma_row_index_prefix(rows: Seq<RowView>, k: int, path: Seq<usize>)
    requires
        0 < k <= rows.len(),
        row_index_of(rows.subrange(0, k - 1), path) is None,
        rows[k - 1].0 == path,
    ensures
        row_index_of(rows, path) == Some(k - 1),
    decreases rows.len() - k,
{
    let s = rows.subrange(0, k);
    assert(s.drop_last() =~= rows.subrange(0, k - 1));
    assert(row_index_of(s, path) == Some(k - 1));
    if k < rows.len() {
        lemma_row_index_extends(rows, k, path);
    } else {
        assert(s =~= rows);
    }
}

proof fn lemma_row_index_extends(rows: Seq<RowView>, k: int, path: Seq<usize>)
    requires
        0 <= k <= rows.len(),
        row_index_of(rows.subrange(0, k), path) is Some,
    ensures
        row_index_of(rows, path) == row_index_of(rows.subrange(0, k), path),
    decreases rows.len() - k,
{
    if k == rows.len() {
        assert(rows.subrange(0, k) =~= rows);
    } else {
        let s = rows.subrange(0, k + 1);
        assert(s.drop_last() =~= rows.subrange(0, k));
        lemma_row_index_extends(rows, k + 1, path);
    }
}

fn prefix_of(path: &Vec<usize>, k: usize) -> (r: Vec<usize>)
    requires
        k <= path@.len(),
    ensures
        r@ == path@.subrange(0, k as int),
{
    let mut r: Vec<usize> = Vec::new();
    let mut i: usize = 0;
    while i < k
        invariant
            i <= k,
            k <= path@.len(),
            r@ == path@.subrange(0, i as int),
        decreases k - i,
    {
        r.push(path[i]);
        i = i + 1;
        assert(r@ =~= path@.subrange(0, i as int));
    }
    r
}

fn shows_path(visible: &Vec<VisibleNode>, path: &Vec<usize>) -> (r: bool)
    ensures
        r == row_shows(row_views(visible@), path@),
{
    let ghost rows = row_views(visible@);
    let mut i: usize = 0;
    while i < visible.len()
        invariant
            i <= visible.len(),
            rows == row_views(visible@),
            forall|j: int| 0 <= j < i ==> rows[j].0 != path@,
        decreases visible.len() - i,
    {
        if crate::node_path::same_indices(&visible[i].path.path, path) {
            assert(rows[i as int].0 == path@);
            return true;
        }
        i = i + 1;
    }
    false
}

} // verus!
