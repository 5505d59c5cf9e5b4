//! Which screen and pane of explore has focus, and their stored names.

use vstd::prelude::*;

use crate::explore::tree::{
    inner_list_paths, inner_node_paths, path_views, paths_in_tree, shown_prefix, subtree, ExploreTree, TraceShape,
};
use crate::node_path::{copy_indices, copy_path, listed, same_path, NodePath};
use crate::text::{chars_of, eq_lit, owned};

verus! {

/// The screen explore shows.
#[derive(Debug, Clone, Copy, PartialEq, Eq, Structural)]
pub enum ActiveScreen {
    Browse,
    Compare,
}

/// The stored name of a screen.
pub open spec fn screen_name(s: ActiveScreen) -> Seq<char> {
    match s {
        ActiveScreen::Browse => "browse"@,
        ActiveScreen::Compare => "compare"@,
    }
}

impl ActiveScreen {
    /// The screen named `compare`; every other name means Browse.
    pub fn from_str(value: &str) -> (r: Self)
        ensures
            r == (if value@ == "compare"@ { ActiveScreen::Compare } else { ActiveScreen::Browse }),
    {
        let v = chars_of(value);
        if eq_lit(&v, "compare") {
            ActiveScreen::Compare
        } else {
            ActiveScreen::Browse
        }
    }

    /// The stored name.
    pub fn as_str(self) -> (s: &'static str)
        ensures
            s@ == screen_name(self),
    {
        match self {
            ActiveScreen::Browse => "browse",
            ActiveScreen::Compare => "compare",
        }
    }
}

/// The Browse pane that has focus.
#[derive(Debug, Clone, Copy, PartialEq, Eq, Structural)]
pub enum BrowsePane {
    Tree,
    Detail,
}

/// The stored name of a pane.
pub open spec fn pane_name(p: BrowsePane) -> Seq<char> {
    match p {
        BrowsePane::Tree => "tree"@,
        BrowsePane::Detail => "detail"@,
    }
}

/// The other pane.
pub open spec fn other_pane(p: BrowsePane) -> BrowsePane {
    match p {
        BrowsePane::Tree => BrowsePane::Detail,
        BrowsePane::Detail => BrowsePane::Tree,
    }
}

impl BrowsePane {
    /// The pane named `detail`; every other name means the tree.
    pub fn from_str(value: &str) -> (r: Self)
        ensures
            r == (if value@ == "detail"@ { BrowsePane::Detail } else { BrowsePane::Tree }),
    {
        let v = chars_of(value);
        if eq_lit(&v, "detail") {
            BrowsePane::Detail
        } else {
            BrowsePane::Tree
        }
    }

    /// The stored name.
    pub fn as_str(self) -> (s: &'static str)
        ensures
            s@ == pane_name(self),
    {
        match self {
            BrowsePane::Tree => "tree",
            BrowsePane::Detail => "detail",
        }
    }

    /// Focus moves to the next pane.
    pub fn cycle_forward(self) -> (r: Self)
        ensures
            r == other_pane(self),
    {
        match self {
            BrowsePane::Tree => BrowsePane::Detail,
            BrowsePane::Detail => BrowsePane::Tree,
        }
    }

    /// Focus moves to the previous pane.
    pub fn cycle_backward(self) -> (r: Self)
        ensures
            r == other_pane(self),
    {
        match self {
            BrowsePane::Tree => BrowsePane::Detail,
            BrowsePane::Detail => BrowsePane::Tree,
        }
    }
}

/// A stored screen name reads back as the screen.
pub proof fn lemma_screen_name_round_trip(s: ActiveScreen)
    ensures
        (if screen_name(s) == "compare"@ { ActiveScreen::Compare } else { ActiveScreen::Browse }) == s,
{
    reveal_strlit("browse");
    reveal_strlit("compare");
    if s == ActiveScreen::Browse {
        assert("browse"@[0] != "compare"@[0]);
    }
}

/// A stored pane name reads back as the pane.
pub proof fn lemma_pane_name_round_trip(p: BrowsePane)
    ensures
        (if pane_name(p) == "detail"@ { BrowsePane::Detail } else { BrowsePane::Tree }) == p,
{
    reveal_strlit("tree");
    reveal_strlit("detail");
    if p == BrowsePane::Tree {
        assert("tree"@[0] != "detail"@[0]);
    }
}

/// Cycling forward and then backward (or the other way) returns to the
/// pane one started from.
pub proof fn lemma_pane_cycle_round_trip(p: BrowsePane)
    ensures
        other_pane(other_pane(p)) == p,
{
}

/// How long a change waits before it is saved, in milliseconds.
pub const PERSIST_DEBOUNCE_MS: u64 = 250;

/// The explore view as stored with a session.
#[derive(Debug, Clone, PartialEq, Eq)]
pub struct ExploreViewState {
    pub active_screen: String,
    pub expanded_paths: Vec<Vec<usize>>,
    pub selection: Vec<usize>,
    pub pane: String,
    pub compare_focus_row: usize,
}

/// The explore view: screen, expansion, selection and focus, and whether a
/// change waits to be saved. Times are milliseconds of a monotonic clock.
#[derive(Debug)]
pub struct ViewStateController {
    pub active_screen: ActiveScreen,
    pub expanded_paths: Vec<NodePath>,
    pub selection: NodePath,
    pub browse_pane: BrowsePane,
    pub compare_fork: Option<NodePath>,
    pub compare_row: usize,
    pub dirty: bool,
    pub last_change_ms: Option<u64>,
}

impl ViewStateController {
    /// Whether a change waits to be saved.
    pub open spec fn is_dirty(&self) -> bool {
        self.dirty
    }

    /// When the last change happened.
    pub open spec fn last_change(&self) -> Option<u64> {
        self.last_change_ms
    }

    /// The view of a tree opened for the first time: Browse, the tree pane,
    /// every node with children expanded, the root selected.
    pub fn default_for_tree(tree: &ExploreTree) -> (c: Self)
        ensures
            c.active_screen == ActiveScreen::Browse,
            paths_in_tree(tree.tree_index, c.expanded_paths@),
            path_views(c.expanded_paths@) == inner_node_paths(tree.root, Seq::empty()),
            c.selection.tree == tree.tree_index,
            c.selection.path@ == Seq::<usize>::empty(),
            c.browse_pane == BrowsePane::Tree,
            c.compare_fork is None,
            c.compare_row == 0,
            !c.is_dirty(),
            c.last_change() is None,
    {
        ViewStateController {
            active_screen: ActiveScreen::Browse,
            expanded_paths: tree.default_expanded_paths(),
            selection: NodePath::root(tree.tree_index),
            browse_pane: BrowsePane::Tree,
            compare_fork: None,
            compare_row: 0,
            dirty: false,
            last_change_ms: None,
        }
    }

    /// Records a change at `now_ms`.
    pub fn mark_dirty(&mut self, now_ms: u64)
        ensures
            final(self).is_dirty(),
            final(self).last_change() == Some(now_ms),
            final(self).active_screen == old(self).active_screen,
            final(self).expanded_paths == old(self).expanded_paths,
            final(self).selection == old(self).selection,
            final(self).browse_pane == old(self).browse_pane,
            final(self).compare_fork == old(self).compare_fork,
            final(self).compare_row == old(self).compare_row,
    {
        self.dirty = true;
        self.last_change_ms = Some(now_ms);
    }

    /// Whether to save now: only with a pending change, at once when forced,
    /// else once the change is at least the debounce interval old.
    pub fn should_persist_now(&self, force: bool, now_ms: u64) -> (r: bool)
        ensures
            r == (self.is_dirty() && (force || (self.last_change() matches Some(t) && now_ms >= t
                && now_ms - t >= PERSIST_DEBOUNCE_MS))),
    {
        if !self.dirty {
            return false;
        }
        if force {
            return true;
        }
        match self.last_change_ms {
            Some(t) => now_ms >= t && now_ms - t >= PERSIST_DEBOUNCE_MS,
            None => false,
        }
    }

    /// Records that the view was saved.
    pub fn persisted(&mut self)
        ensures
            !final(self).is_dirty(),
            final(self).last_change() is None,
            final(self).expanded_paths == old(self).expanded_paths,
            final(self).selection == old(self).selection,
    {
        self.dirty = false;
        self.last_change_ms = None;
    }

    /// The view as stored: the screen and pane by name, the expanded paths
    /// and the selection by their child indices, the compare row.
    pub fn to_view_state(&self) -> (v: ExploreViewState)
        ensures
            v.active_screen@ == screen_name(self.active_screen),
            v.pane@ == pane_name(self.browse_pane),
            v.selection@ == self.selection.path@,
            v.compare_focus_row == self.compare_row,
            crate::explore::tree::index_views(v.expanded_paths@) == path_views(self.expanded_paths@),
    {
        let mut expanded: Vec<Vec<usize>> = Vec::new();
        let mut i: usize = 0;
        while i < self.expanded_paths.len()
            invariant
                i <= self.expanded_paths.len(),
                crate::explore::tree::index_views(expanded@) == path_views(self.expanded_paths@).subrange(
                    0,
                    i as int,
                ),
            decreases self.expanded_paths.len() - i,
        {
            let p = copy_indices(&self.expanded_paths[i].path);
            let ghost before = expanded@;
            expanded.push(p);
            assert(crate::explore::tree::index_views(expanded@) =~= crate::explore::tree::index_views(before).push(
                self.expanded_paths@[i as int].path@,
            ));
            assert(path_views(self.expanded_paths@).subrange(0, i + 1) =~= path_views(
                self.expanded_paths@,
            ).subrange(0, i as int).push(self.expanded_paths@[i as int].path@));
            i = i + 1;
        }
        assert(path_views(self.expanded_paths@).subrange(0, self.expanded_paths@.len() as int)
            =~= path_views(self.expanded_paths@));
        ExploreViewState {
            active_screen: owned(self.active_screen.as_str()),
            expanded_paths: expanded,
            selection: copy_indices(&self.selection.path),
            pane: owned(self.browse_pane.as_str()),
            compare_focus_row: self.compare_row,
        }
    }

    /// The row of the selection, or the first row when it is not shown.
    pub fn selected_visible_index(&self, tree: &ExploreTree) -> (r: usize)
        ensures
            self.selection.tree == tree.tree_index ==> match crate::explore::tree::row_index_of(
                tree.rows(self.expanded_paths@),
                self.selection.path@,
            ) {
                Some(i) => r as int == i,
                None => r == 0,
            },
            self.selection.tree != tree.tree_index ==> r == 0,
    {
        match tree.visible_index_for_selection(&self.selection, &self.expanded_paths) {
            Some(i) => i,
            None => 0,
        }
    }

    /// Selects row `index` when there is such a row (a change).
    pub fn set_selection_visible_index(&mut self, tree: &ExploreTree, index: usize, now_ms: u64)
        ensures
            index < tree.rows(old(self).expanded_paths@).len() ==> final(self).selection.tree
                == tree.tree_index && final(self).selection.path@ == tree.rows(
                old(self).expanded_paths@,
            )[index as int].0 && final(self).is_dirty(),
            index >= tree.rows(old(self).expanded_paths@).len() ==> final(self).selection == old(
                self,
            ).selection && final(self).is_dirty() == old(self).is_dirty(),
            final(self).expanded_paths == old(self).expanded_paths,
    {
        match tree.selection_for_visible_index(index, &self.expanded_paths) {
            Some(path) => {
                self.selection = path;
                self.mark_dirty(now_ms);
            },
            None => {},
        }
    }

    /// Collapses the node when it is expanded (its first entry goes), else
    /// expands it (appended); either way a change.
    pub fn toggle_expansion(&mut self, path: &NodePath, now_ms: u64)
        ensures
            final(self).is_dirty(),
            final(self).selection == old(self).selection,
            toggled(old(self).expanded_paths@, *path, final(self).expanded_paths@),
    {
        let ghost before = self.expanded_paths@;
        match position_of(&self.expanded_paths, path) {
            Some(index) => {
                self.expanded_paths.remove(index);
                assert(crate::node_path::same_node(before[index as int], *path));
                assert(toggled(before, *path, self.expanded_paths@));
            },
            None => {
                let p = copy_path(path);
                self.expanded_paths.push(p);
                assert(self.expanded_paths@.subrange(0, before.len() as int) =~= before);
                assert(toggled(before, *path, self.expanded_paths@));
            },
        }
        self.mark_dirty(now_ms);
    }

    /// Expands every node with children (a change).
    pub fn expand_all(&mut self, tree: &ExploreTree, now_ms: u64)
        ensures
            final(self).is_dirty(),
            final(self).selection == old(self).selection,
            paths_in_tree(tree.tree_index, final(self).expanded_paths@),
            path_views(final(self).expanded_paths@) == inner_node_paths(tree.root, Seq::empty()),
    {
        self.expanded_paths = tree.default_expanded_paths();
        self.mark_dirty(now_ms);
    }

    /// Collapses everything and moves the selection to its nearest shown
    /// ancestor, which is the root (a change).
    pub fn collapse_all(&mut self, tree: &ExploreTree, now_ms: u64)
        ensures
            final(self).is_dirty(),
            final(self).expanded_paths@.len() == 0,
            final(self).selection.tree == tree.tree_index,
            final(self).selection.path@ == Seq::<usize>::empty(),
    {
        self.expanded_paths = Vec::new();
        let sel = tree.nearest_visible_ancestor(&self.selection, &self.expanded_paths);
        proof {
            lemma_collapsed_prefix(tree, self.selection.path@, self.selection.path@.len() as int);
        }
        self.selection = sel;
        self.mark_dirty(now_ms);
    }
}

fn position_of(list: &Vec<NodePath>, path: &NodePath) -> (r: Option<usize>)
    ensures
        match r {
            Some(k) => k < list@.len() && crate::node_path::same_node(list@[k as int], *path) && forall|j: int|
                0 <= j < k ==> !crate::node_path::same_node(#[trigger] list@[j], *path),
            None => forall|j: int|
                0 <= j < list@.len() ==> !crate::node_path::same_node(#[trigger] list@[j], *path),
        },
{
    let mut i: usize = 0;
    while i < list.len()
        invariant
            i <= list.len(),
            forall|j: int| 0 <= j < i ==> !crate::node_path::same_node(#[trigger] list@[j], *path),
        decreases list.len() - i,
    {
        if same_path(&list[i], path) {
            return Some(i);
        }
        i = i + 1;
    }
    None
}

/// The stored paths that still name nodes of the tree, in order.
pub open spec fn kept_paths(root: TraceShape, paths: Seq<Seq<usize>>) -> Seq<Seq<usize>>
    decreases paths.len(),
{
    if paths.len() == 0 {
        Seq::empty()
    } else {
        kept_paths(root, paths.drop_last()) + if subtree(root, paths.last()) is Some {
            seq![paths.last()]
        } else {
            Seq::empty()
        }
    }
}

/// The expansion a stored view restores to: its paths that still name
/// nodes, or, when none does, the default expansion.
pub open spec fn restored_expansion(root: TraceShape, paths: Seq<Seq<usize>>) -> Seq<Seq<usize>> {
    if kept_paths(root, paths).len() == 0 {
        inner_node_paths(root, Seq::empty())
    } else {
        kept_paths(root, paths)
    }
}

/// Rebuilds the view from its stored form for this tree: stale paths are
/// dropped (all of them dropped means the default expansion), a stale
/// selection becomes the root, unknown screen and pane names mean Browse
/// and the tree pane; nothing is pending.
pub fn restore_from_state(tree: &ExploreTree, state: &ExploreViewState) -> (c: ViewStateController)
    ensures
        c.active_screen == (if state.active_screen@ == "compare"@ {
            ActiveScreen::Compare
        } else {
            ActiveScreen::Browse
        }),
        c.browse_pane == (if state.pane@ == "detail"@ {
            BrowsePane::Detail
        } else {
            BrowsePane::Tree
        }),
        paths_in_tree(tree.tree_index, c.expanded_paths@),
        path_views(c.expanded_paths@) == restored_expansion(
            tree.root,
            crate::explore::tree::index_views(state.expanded_paths@),
        ),
        c.selection.tree == tree.tree_index,
        c.selection.path@ == (if subtree(tree.root, state.selection@) is Some {
            state.selection@
        } else {
            Seq::<usize>::empty()
        }),
        c.compare_fork is None,
        c.compare_row == state.compare_focus_row,
        !c.is_dirty(),
        c.last_change() is None,
{
    let ghost stored = crate::explore::tree::index_views(state.expanded_paths@);
    let mut expanded: Vec<NodePath> = Vec::new();
    let mut i: usize = 0;
    assert(stored.subrange(0, 0) =~= Seq::<Seq<usize>>::empty());
    assert(path_views(expanded@) =~= Seq::<Seq<usize>>::empty());
    while i < state.expanded_paths.len()
        invariant
            i <= state.expanded_paths.len(),
            stored == crate::explore::tree::index_views(state.expanded_paths@),
            paths_in_tree(tree.tree_index, expanded@),
            path_views(expanded@) == kept_paths(tree.root, stored.subrange(0, i as int)),
        decreases state.expanded_paths.len() - i,
    {
        let candidate = NodePath { tree: tree.tree_index, path: copy_indices(&state.expanded_paths[i]) };
        let ghost sub = stored.subrange(0, i + 1);
        assert(sub.drop_last() =~= stored.subrange(0, i as int));
        assert(sub.last() == state.expanded_paths@[i as int]@);
        if tree.node_exists(&candidate) {
            let ghost before = expanded@;
            expanded.push(candidate);
            assert(path_views(expanded@) =~= path_views(before).push(candidate.path@));
        }
        assert(path_views(expanded@) =~= kept_paths(tree.root, stored.subrange(0, i + 1)));
        i = i + 1;
    }
    assert(stored.subrange(0, stored.len() as int) =~= stored);
    let wanted = NodePath { tree: tree.tree_index, path: copy_indices(&state.selection) };
    let selection = if tree.node_exists(&wanted) {
        wanted
    } else {
        NodePath::root(tree.tree_index)
    };
    let expanded_paths = if expanded.len() == 0 {
        tree.default_expanded_paths()
    } else {
        expanded
    };
    ViewStateController {
        active_screen: ActiveScreen::from_str(state.active_screen.as_str()),
        expanded_paths,
        selection,
        browse_pane: BrowsePane::from_str(state.pane.as_str()),
        compare_fork: None,
        compare_row: state.compare_focus_row,
        dirty: false,
        last_change_ms: None,
    }
}

/// Paths that all name nodes are all kept.
proof fn lemma_kept_all(root: TraceShape, paths: Seq<Seq<usize>>)
    requires
        forall|k: int| 0 <= k < paths.len() ==> #[trigger] subtree(root, paths[k]) is Some,
    ensures
        kept_paths(root, paths) == paths,
    decreases paths.len(),
{
    if paths.len() > 0 {
        let d = paths.drop_last();
        assert forall|k: int| 0 <= k < d.len() implies #[trigger] subtree(root, d[k]) is Some by {
            assert(d[k] == paths[k]);
        }
        lemma_kept_all(root, d);
        assert(subtree(root, paths[paths.len() - 1]) is Some);
        assert(kept_paths(root, paths) =~= paths);
    }
}

/// Expanding a node and collapsing it again (or the reverse) restores the
/// expansion: toggling a path that is not expanded twice gives back the
/// same list.
pub proof fn lemma_toggle_twice(before: Seq<NodePath>, path: NodePath, mid: Seq<NodePath>, after: Seq<NodePath>)
    requires
        forall|k: int| 0 <= k < before.len() ==> !crate::node_path::same_node(#[trigger] before[k], path),
        toggled(before, path, mid),
        toggled(mid, path, after),
    ensures
        after == before,
{
    assert(!(exists|k: int| 0 <= k < before.len() && crate::node_path::same_node(before[k], path)));
    assert(crate::node_path::same_node(mid[before.len() as int], path));
    let k = choose|k: int|
        0 <= k < mid.len() && crate::node_path::same_node(mid[k], path) && (forall|j: int|
            0 <= j < k ==> !crate::node_path::same_node(#[trigger] mid[j], path)) && after == mid.remove(k);
    if k < before.len() {
        assert(mid[k] == before[k]);
    }
    assert(k == before.len());
    assert(after =~= before);
}

/// The default expansion lists every node with children.
pub proof fn lemma_default_expands_every_inner_node(root: TraceShape, path: Seq<usize>)
    requires
        subtree(root, path) matches Some(n) && n.children@.len() > 0,
    ensures
        inner_node_paths(root, Seq::empty()).contains(path),
{
    lemma_inner_complete(root, Seq::empty(), path);
    assert(Seq::<usize>::empty() + path =~= path);
}

proof fn lemma_inner_complete(n: TraceShape, prefix: Seq<usize>, p: Seq<usize>)
    requires
        subtree(n, p) matches Some(m) && m.children@.len() > 0,
    ensures
        inner_node_paths(n, prefix).contains(prefix + p),
    decreases p.len(),
{
    if p.len() == 0 {
        assert(prefix + p =~= prefix);
        assert(inner_node_paths(n, prefix)[0] == prefix);
    } else {
        let i = p[0] as int;
        let child = n.children@[i];
        lemma_inner_complete(child, prefix.push(p[0]), p.drop_first());
        assert(prefix.push(p[0]) + p.drop_first() =~= prefix + p);
        lemma_inner_list_contains(n.children@, 0, prefix, i, prefix + p);
        let rest = inner_list_paths(n.children@, 0, prefix);
        let k = choose|k: int| 0 <= k < rest.len() && rest[k] == prefix + p;
        assert(inner_node_paths(n, prefix)[k + 1] == prefix + p);
    }
}

proof fn lemma_inner_list_contains(cs: Seq<TraceShape>, j: int, prefix: Seq<usize>, i: int, x: Seq<usize>)
    requires
        0 <= j <= i < cs.len(),
        inner_node_paths(cs[i], prefix.push(i as usize)).contains(x),
    ensures
        inner_list_paths(cs, j, prefix).contains(x),
    decreases i - j,
{
    let here = inner_node_paths(cs[j], prefix.push(j as usize));
    let rest = inner_list_paths(cs, j + 1, prefix);
    assert(inner_list_paths(cs, j, prefix) == here + rest);
    if j == i {
        let k = choose|k: int| 0 <= k < here.len() && here[k] == x;
        assert((here + rest)[k] == x);
    } else {
        lemma_inner_list_contains(cs, j + 1, prefix, i, x);
        let k = choose|k: int| 0 <= k < rest.len() && rest[k] == x;
        assert((here + rest)[here.len() + k] == x);
    }
}

/// Saving the view and restoring it on the same tree gives it back: the
/// screen, pane, selection, compare row and expansion, provided the
/// selection and every expanded path name nodes and something is expanded.
pub proof fn lemma_view_state_round_trip(tree: ExploreTree, c: ViewStateController, v: ExploreViewState, r: ViewStateController)
    requires
        subtree(tree.root, c.selection.path@) is Some,
        c.selection.tree == tree.tree_index,
        c.expanded_paths@.len() > 0,
        forall|k: int| 0 <= k < c.expanded_paths@.len() ==> #[trigger] subtree(tree.root, c.expanded_paths@[k].path@) is Some,
        v.active_screen@ == screen_name(c.active_screen),
        v.pane@ == pane_name(c.browse_pane),
        v.selection@ == c.selection.path@,
        v.compare_focus_row == c.compare_row,
        crate::explore::tree::index_views(v.expanded_paths@) == path_views(c.expanded_paths@),
        r.active_screen == (if v.active_screen@ == "compare"@ {
            ActiveScreen::Compare
        } else {
            ActiveScreen::Browse
        }),
        r.browse_pane == (if v.pane@ == "detail"@ {
            BrowsePane::Detail
        } else {
            BrowsePane::Tree
        }),
        path_views(r.expanded_paths@) == restored_expansion(
            tree.root,
            crate::explore::tree::index_views(v.expanded_paths@),
        ),
        r.selection.tree == tree.tree_index,
        r.selection.path@ == (if subtree(tree.root, v.selection@) is Some {
            v.selection@
        } else {
            Seq::<usize>::empty()
        }),
        r.compare_row == v.compare_focus_row,
    ensures
        r.active_screen == c.active_screen,
        r.browse_pane == c.browse_pane,
        r.selection.tree == c.selection.tree,
        r.selection.path@ == c.selection.path@,
        r.compare_row == c.compare_row,
        path_views(r.expanded_paths@) == path_views(c.expanded_paths@),
{
    lemma_screen_name_round_trip(c.active_screen);
    lemma_pane_name_round_trip(c.browse_pane);
    let ps = path_views(c.expanded_paths@);
    assert forall|k: int| 0 <= k < ps.len() implies #[trigger] subtree(tree.root, ps[k]) is Some by {
        assert(ps[k] == c.expanded_paths@[k].path@);
    }
    lemma_kept_all(tree.root, ps);
}

/// `after` is `before` with the first entry naming `path` removed, or, when
/// there is none, with `path` appended.
pub open spec fn toggled(before: Seq<NodePath>, path: NodePath, after: Seq<NodePath>) -> bool {
    if exists|k: int| 0 <= k < before.len() && crate::node_path::same_node(before[k], path) {
        exists|k: int|
            0 <= k < before.len() && crate::node_path::same_node(before[k], path) && (forall|j: int|
                0 <= j < k ==> !crate::node_path::same_node(#[trigger] before[j], path)) && after
                == before.remove(k)
    } else {
        after.len() == before.len() + 1 && after.subrange(0, before.len() as int) == before
            && crate::node_path::same_node(after.last(), path)
    }
}

/// With nothing expanded only the root is shown, so no non-empty prefix of
/// a path is shown.
proof fn lemma_collapsed_prefix(tree: &ExploreTree, path: Seq<usize>, k: int)
    requires
        0 <= k <= path.len(),
    ensures
        shown_prefix(tree.rows(Seq::empty()), path, k) == Seq::<usize>::empty(),
    decreases k,
{
    let rows = tree.rows(Seq::empty());
    assert(!listed(Seq::<NodePath>::empty(), tree.tree_index, Seq::<usize>::empty()));
    assert(rows =~= seq![(Seq::<usize>::empty(), tree.root.children@.len() > 0, false)]);
    if k > 0 {
        assert(!crate::explore::tree::row_shows(rows, path.subrange(0, k))) by {
            if crate::explore::tree::row_shows(rows, path.subrange(0, k)) {
                let i = choose|i: int| 0 <= i < rows.len() && rows[i].0 == path.subrange(0, k);
                assert(rows[i].0.len() == 0);
            }
        }
        lemma_collapsed_prefix(tree, path, k - 1);
    }
}

} // verus!
