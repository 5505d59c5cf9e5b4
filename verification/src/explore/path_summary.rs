//! Per-path summaries of a fork comparison: referral sets and hop timings
//! as text.

use vstd::prelude::*;

use crate::explore::tree::{height, nearest_fork_in, nearest_from, node_at_path, subtree, TraceShape};
use crate::node_path::NodePath;
use crate::text::{decimal, join_strings, join_with, push_char, push_decimal, views};

verus! {

/// The RTT of one hop on a path.
#[derive(Debug, Clone, PartialEq, Eq)]
pub struct HopTiming {
    pub zone: String,
    pub rtt_ms: u64,
    pub from_cache: bool,
}

/// How a path's referral NS set differs from the others: names only it
/// has, and names the others share that it lacks.
#[derive(Debug, Clone, PartialEq, Eq)]
pub struct ReferralDiff {
    pub only_here: Vec<String>,
    pub missing: Vec<String>,
}

/// Whether the sibling paths' answers agree.
#[derive(Debug, Clone, Copy, PartialEq, Eq, Structural)]
pub struct AnswerSummary {
    pub agree: bool,
}

/// The referral NS sets across the comparable paths.
#[derive(Debug, Clone, PartialEq, Eq)]
pub struct ReferralSummary {
    pub agree: bool,
    pub comparable_count: usize,
    pub shared: Vec<String>,
    pub union: Vec<String>,
}

/// The header line: the shared set when all paths agree, the union when
/// they differ; none when no path is comparable (or the union is empty).
pub open spec fn referral_header(r: ReferralSummary) -> Option<Seq<char>> {
    if r.comparable_count == 0 {
        None
    } else if r.agree {
        Some("referral NS (all paths): "@ + join_with(views(r.shared@), ", "@))
    } else if r.union@.len() == 0 {
        None
    } else {
        Some("referral NS (differ): "@ + join_with(views(r.union@), ", "@))
    }
}

/// The referral header line of a comparison.
pub fn referral_header_line(referral: &ReferralSummary) -> (r: Option<String>)
    ensures
        match referral_header(*referral) {
            Some(t) => r matches Some(s) && s@ == t,
            None => r is None,
        },
{
    if referral.comparable_count == 0 {
        return None;
    }
    if referral.agree {
        let mut s = String::new();
        s.append("referral NS (all paths): ");
        let joined = join_strings(&referral.shared, ", ");
        s.append(joined.as_str());
        return Some(s);
    }
    if referral.union.len() == 0 {
        return None;
    }
    let mut s = String::new();
    s.append("referral NS (differ): ");
    let joined = join_strings(&referral.union, ", ");
    s.append(joined.as_str());
    Some(s)
}

/// Each name behind a mark character.
pub open spec fn marked(names: Seq<Seq<char>>, mark: char) -> Seq<Seq<char>> {
    names.map_values(|n: Seq<char>| seq![mark] + n)
}

/// `+name` for each name only here, then `-name` for each missing one,
/// separated by spaces.
pub open spec fn referral_diff_text(diff: ReferralDiff) -> Seq<char> {
    join_with(marked(views(diff.only_here@), '+') + marked(views(diff.missing@), '-'), " "@)
}

fn push_marked(parts: &mut Vec<String>, names: &Vec<String>, mark: char)
    ensures
        views(final(parts)@) == views(old(parts)@) + marked(views(names@), mark),
{
    let mut i: usize = 0;
    while i < names.len()
        invariant
            i <= names.len(),
            views(parts@) == views(old(parts)@) + marked(views(names@).subrange(0, i as int), mark),
        decreases names.len() - i,
    {
        let mut p = String::new();
        push_char(&mut p, mark);
        p.append(names[i].as_str());
        proof {
            crate::text::lemma_views_push(parts@, p);
        }
        parts.push(p);
        i = i + 1;
        assert(marked(views(names@).subrange(0, i as int), mark) =~= marked(
            views(names@).subrange(0, i - 1),
            mark,
        ).push(seq![mark] + names@[i - 1]@));
    }
    assert(views(names@).subrange(0, names@.len() as int) =~= views(names@));
}

/// A path's referral difference as text, e.g. `+ns1.example. -ns2.example.`.
pub fn format_referral_diff(diff: &ReferralDiff) -> (s: String)
    ensures
        s@ == referral_diff_text(*diff),
{
    let mut parts: Vec<String> = Vec::new();
    assert(views(parts@) =~= Seq::<Seq<char>>::empty());
    push_marked(&mut parts, &diff.only_here, '+');
    push_marked(&mut parts, &diff.missing, '-');
    join_strings(&parts, " ")
}

/// The referral column: a dash when the paths agree or this one does not
/// differ, else its difference.
pub open spec fn referral_delta_text(diff: ReferralDiff, agree: bool) -> Seq<char> {
    if agree || referral_diff_text(diff).len() == 0 {
        "—"@
    } else {
        referral_diff_text(diff)
    }
}

/// The text of a path's referral column.
pub fn format_referral_delta_column(diff: &ReferralDiff, referral_agree: bool) -> (s: String)
    ensures
        s@ == referral_delta_text(*diff, referral_agree),
{
    if referral_agree {
        return String::from_str("—");
    }
    let formatted = format_referral_diff(diff);
    if formatted.unicode_len() == 0 {
        String::from_str("—")
    } else {
        formatted
    }
}

/// `ZONE RTTms`, with ` (cache)` when the response came from the cache.
pub open spec fn hop_timing_text(hop: HopTiming) -> Seq<char> {
    hop.zone@ + " "@ + decimal(hop.rtt_ms as nat) + "ms"@ + if hop.from_cache {
        " (cache)"@
    } else {
        Seq::empty()
    }
}

/// One hop's timing as text.
pub fn format_hop_timing(hop: &HopTiming) -> (s: String)
    ensures
        s@ == hop_timing_text(*hop),
{
    let mut s = String::new();
    s.append(hop.zone.as_str());
    s.append(" ");
    push_decimal(&mut s, hop.rtt_ms);
    s.append("ms");
    if hop.from_cache {
        s.append(" (cache)");
    }
    s
}

/// Whether the node at `path` has two or more children.
pub open spec fn is_fork(root: TraceShape, path: Seq<usize>) -> bool {
    subtree(root, path) matches Some(n) && n.children@.len() >= 2
}

/// The deepest fork among the first `k` ancestors-or-self prefixes of
/// `path` (longest first).
pub open spec fn deepest_fork(root: TraceShape, path: Seq<usize>, k: int) -> Option<Seq<usize>>
    decreases k + 1,
{
    if k < 0 {
        None
    } else if is_fork(root, path.subrange(0, k)) {
        Some(path.subrange(0, k))
    } else {
        deepest_fork(root, path, k - 1)
    }
}

/// The fork that scopes a selection: the selected node when it forks, else
/// its deepest forking ancestor; none when the selection names no node.
pub open spec fn fork_for(root: TraceShape, sel: Seq<usize>) -> Option<Seq<usize>> {
    if subtree(root, sel) is None {
        None
    } else {
        deepest_fork(root, sel, sel.len() as int)
    }
}

/// The fork that a selection compares at: the selection's own scope, else
/// the tree's nearest fork when it lies at or below the selection.
pub open spec fn compare_fork_for(root: TraceShape, sel: Seq<usize>) -> Option<Seq<usize>> {
    match fork_for(root, sel) {
        Some(f) => Some(f),
        None => match nearest_from(root, 0) {
            Some(n) => if sel.len() == 0 || (sel.len() <= n.len() && n.subrange(0, sel.len() as int) == sel) {
                Some(n)
            } else {
                None
            },
            None => None,
        },
    }
}

/// The fork scoping `selection` in the trace of shape `tree`.
pub fn fork_for_selection(tree: &TraceShape, selection: &NodePath) -> (r: Option<NodePath>)
    ensures
        match fork_for(*tree, selection.path@) {
            Some(f) => r matches Some(p) && p.tree == selection.tree && p.path@ == f,
            None => r is None,
        },
{
    if node_at_path(tree, &selection.path).is_none() {
        return None;
    }
    let mut k: usize = selection.path.len();
    assert(selection.path@.subrange(0, k as int) =~= selection.path@);
    loop
        invariant
            k <= selection.path@.len(),
            subtree(*tree, selection.path@) is Some,
            fork_for(*tree, selection.path@) == deepest_fork(*tree, selection.path@, k as int),
        decreases k,
    {
        let candidate = prefix(&selection.path, k);
        let forks = match node_at_path(tree, &candidate) {
            Some(n) => n.children.len() >= 2,
            None => false,
        };
        if forks {
            return Some(NodePath { tree: selection.tree, path: candidate });
        }
        if k == 0 {
            assert(deepest_fork(*tree, selection.path@, -1) is None);
            return None;
        }
        k = k - 1;
    }
}

fn prefix(path: &Vec<usize>, k: usize) -> (r: Vec<usize>)
    requires
        k <= path@.len(),
    ensures
        r@ == path@.subrange(0, k as int),
{
    let mut r: Vec<usize> = Vec::new();
    let mut i: usize = 0;
    while i < k
        invariant
            i <= k,
            k <= path@.len(),
            r@ == path@.subrange(0, i as int),
        decreases k - i,
    {
        r.push(path[i]);
        i = i + 1;
        assert(r@ =~= path@.subrange(0, i as int));
    }
    r
}

/// The shallowest fork of the trace, as a node of tree `tree_index`.
pub fn nearest_fork(tree: &TraceShape, tree_index: usize) -> (r: Option<NodePath>)
    requires
        height(*tree) < usize::MAX,
    ensures
        match nearest_from(*tree, 0) {
            Some(p) => r matches Some(f) && f.tree == tree_index && f.path@ == p,
            None => r is None,
        },
{
    nearest_fork_in(tree, tree_index)
}

fn starts_with_indices(path: &Vec<usize>, lead: &Vec<usize>) -> (r: bool)
    ensures
        r == (lead@.len() <= path@.len() && path@.subrange(0, lead@.len() as int) == lead@),
{
    if lead.len() > path.len() {
        return false;
    }
    let mut i: usize = 0;
    while i < lead.len()
        invariant
            lead@.len() <= path@.len(),
            i <= lead.len(),
            path@.subrange(0, i as int) == lead@.subrange(0, i as int),
        decreases lead.len() - i,
    {
        if path[i] != lead[i] {
            assert(path@.subrange(0, lead@.len() as int)[i as int] != lead@[i as int]);
            return false;
        }
        i = i + 1;
        assert(path@.subrange(0, i as int) =~= lead@.subrange(0, i as int));
    }
    assert(lead@.subrange(0, lead@.len() as int) =~= lead@);
    true
}

/// The fork Compare uses for `selection`, including a fork below it.
pub fn fork_for_compare(tree: &TraceShape, selection: &NodePath) -> (r: Option<NodePath>)
    requires
        height(*tree) < usize::MAX,
    ensures
        match compare_fork_for(*tree, selection.path@) {
            Some(f) => r matches Some(p) && p.tree == selection.tree && p.path@ == f,
            None => r is None,
        },
{
    match fork_for_selection(tree, selection) {
        Some(fork) => {
            return Some(fork);
        },
        None => {},
    }
    let nearest = match nearest_fork(tree, selection.tree) {
        Some(n) => n,
        None => {
            return None;
        },
    };
    if selection.path.len() == 0 || starts_with_indices(&nearest.path, &selection.path) {
        Some(nearest)
    } else {
        None
    }
}

} // verus!
