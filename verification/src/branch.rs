//! Branching a stored trace: node addresses on the command line and the
//! report of what a branch did.

use vstd::prelude::*;

use crate::explore::fork_summary::{
    node_at, trace_node_at, BranchIntent, NodeOrigin, TraceHop, TraceNode, TraceTree,
};
use crate::name_set::text_equal;
use crate::export::card::{build_cards, preorder};
use crate::node_path::{copy_path, dotted, format_path, NodePath};
use crate::text::{
    chars_of, decimal, join_lines, lemma_decimal_digits, lemma_parse_decimal,
    lemma_split_fold_plain, lemma_split_fold_sep, owned, parse_unsigned, parse_unsigned_exec,
    push_decimal, push_str, split_at_char, split_chars, split_fold, views,
    is_digit, lower, lower_chars, slice_chars, join_line_vec, push_line,
};

verus! {

/// What a dry run would query.
#[derive(Debug, Clone, PartialEq, Eq)]
pub struct BranchPlan {
    pub zone: String,
    pub server: String,
    pub qname: String,
    pub targets: Vec<String>,
}

/// What a branch added, or would add on a dry run.
#[derive(Debug, Clone, PartialEq, Eq)]
pub struct BranchReport {
    pub nodes_added: usize,
    pub updated_at: Option<String>,
    pub warnings: Vec<String>,
    pub budget_truncated: bool,
    pub dry_run: bool,
    pub plan: Option<BranchPlan>,
}

/// Why a branch could not be planned.
#[derive(Debug, Clone, PartialEq, Eq)]
pub enum BranchError {
    NoTree,
    UnresolvedPath { path: String },
    OutOfRangeHop { index: usize },
    MissingTarget,
    InvalidPath { value: String },
    InvalidServer { value: String },
}

/// Each segment of the `at-path` notation read as a `usize`.
pub open spec fn parse_segments(segs: Seq<Seq<char>>) -> Option<Seq<usize>>
    decreases segs.len(),
{
    if segs.len() == 0 {
        Some(Seq::<usize>::empty())
    } else {
        match parse_segments(segs.drop_last()) {
            None => None,
            Some(p) => match parse_unsigned(segs.last(), usize::MAX as nat) {
                Ok(n) => Some(p.push(n as usize)),
                Err(_) => None,
            },
        }
    }
}

/// The node named by `value` in the `at-path` notation: decimal numbers
/// separated by dots, the first the tree, the rest the child indices.
pub open spec fn node_path_result(value: Seq<char>) -> Option<(usize, Seq<usize>)> {
    if value.len() == 0 {
        None
    } else {
        match parse_segments(split_at_char(value, '.')) {
            Some(nums) => Some((nums[0], nums.drop_first())),
            None => None,
        }
    }
}

/// Reads a node path such as `0.1.2`; anything that is not dot-separated
/// numbers is `InvalidPath` carrying the input.
pub fn parse_node_path(value: &str) -> (r: Result<NodePath, BranchError>)
    ensures
        match r {
            Ok(p) => node_path_result(value@) == Some((p.tree, p.path@)),
            Err(e) => node_path_result(value@) is None && (e matches BranchError::InvalidPath { value: v } && v@ == value@),
        },
{
    let chars = chars_of(value);
    if chars.len() == 0 {
        return Err(BranchError::InvalidPath { value: owned(value) });
    }
    let segs = split_chars(&chars, '.');
    let ghost sp = split_at_char(chars@, '.');
    let mut nums: Vec<usize> = Vec::new();
    let mut i: usize = 0;
    assert(sp.subrange(0, 0) =~= Seq::<Seq<char>>::empty());
    while i < segs.len()
        invariant
            i <= segs.len(),
            chars@ == value@,
            sp == split_at_char(chars@, '.'),
            value@.len() > 0,
            segs@.len() == sp.len(),
            forall|k: int| 0 <= k < segs@.len() ==> #[trigger] segs@[k]@ == sp[k],
            parse_segments(sp.subrange(0, i as int)) == Some(nums@),
        decreases segs.len() - i,
    {
        let ghost next = sp.subrange(0, i + 1);
        assert(next.drop_last() =~= sp.subrange(0, i as int));
        assert(next.last() == segs@[i as int]@);
        match parse_unsigned_exec(&segs[i], usize::MAX as u64) {
            Ok(n) => {
                nums.push(n as usize);
            },
            Err(_) => {
                proof {
                    assert(parse_unsigned(segs@[i as int]@, usize::MAX as nat) is Err);
                    assert(parse_segments(next) is None);
                    assert(sp.subrange(0, (i + 1) as int) == next);
                    lemma_parse_segments_none_extends(sp, (i + 1) as nat);
                    assert(sp.subrange(0, sp.len() as int) =~= sp);
                    assert(parse_segments(sp) is None);
                    assert(chars@ == value@);
                    assert(node_path_result(value@) is None);
                }
                return Err(BranchError::InvalidPath { value: owned(value) });
            },
        }
        i = i + 1;
    }
    assert(sp.subrange(0, sp.len() as int) =~= sp);
    let tree = nums[0];
    let mut path: Vec<usize> = Vec::new();
    let mut k: usize = 1;
    while k < nums.len()
        invariant
            1 <= k <= nums.len(),
            path@ == nums@.subrange(1, k as int),
        decreases nums.len() - k,
    {
        path.push(nums[k]);
        k = k + 1;
        assert(path@ =~= nums@.subrange(1, k as int));
    }
    assert(path@ =~= nums@.drop_first());
    Ok(NodePath { tree, path })
}

proof fn lemma_parse_segments_len(segs: Seq<Seq<char>>)
    ensures
        parse_segments(segs) matches Some(p) ==> p.len() == segs.len(),
    decreases segs.len(),
{
    if segs.len() > 0 {
        lemma_parse_segments_len(segs.drop_last());
    }
}

proof fn lemma_parse_segments_none_extends(segs: Seq<Seq<char>>, k: nat)
    requires
        k <= segs.len(),
        parse_segments(segs.subrange(0, k as int)) is None,
    ensures
        parse_segments(segs) is None,
    decreases segs.len() - k,
{
    if k < segs.len() {
        assert(segs.subrange(0, (k + 1) as int).drop_last() =~= segs.subrange(0, k as int));
        lemma_parse_segments_none_extends(segs, k + 1);
    } else {
        assert(segs.subrange(0, k as int) =~= segs);
    }
}

/// The segments of a dotted path are the decimals of its numbers.
proof fn lemma_split_dotted(tree: usize, path: Seq<usize>)
    ensures
        split_fold(dotted(tree, path), '.') == (
            Seq::new(path.len(), |i: int| if i == 0 { decimal(tree as nat) } else { decimal(path[i - 1] as nat) }),
            if path.len() == 0 { decimal(tree as nat) } else { decimal(path.last() as nat) },
        ),
    decreases path.len(),
{
    lemma_decimal_digits(tree as nat);
    if path.len() == 0 {
        assert(dotted(tree, path) =~= Seq::<char>::empty() + decimal(tree as nat));
        assert forall|i: int| 0 <= i < decimal(tree as nat).len() implies decimal(tree as nat)[i] != '.' by {
            assert(is_digit(decimal(tree as nat)[i]));
        }
        lemma_split_fold_plain(Seq::<char>::empty(), decimal(tree as nat), '.');
        assert(split_fold(Seq::<char>::empty(), '.').1 + decimal(tree as nat) =~= decimal(tree as nat));
        assert(Seq::new(0, |i: int| if i == 0 { decimal(tree as nat) } else { decimal(path[i - 1] as nat) }) =~= Seq::<Seq<char>>::empty());
    } else {
        let p = path.drop_last();
        lemma_split_dotted(tree, p);
        let last = decimal(path.last() as nat);
        lemma_decimal_digits(path.last() as nat);
        assert(dotted(tree, path) =~= dotted(tree, p) + seq!['.'] + last);
        lemma_split_fold_sep(dotted(tree, p), '.');
        assert forall|i: int| 0 <= i < last.len() implies last[i] != '.' by {
            assert(is_digit(last[i]));
        }
        lemma_split_fold_plain(dotted(tree, p) + seq!['.'], last, '.');
        assert(Seq::<char>::empty() + last =~= last);
        let prev_last = if p.len() == 0 { decimal(tree as nat) } else { decimal(p.last() as nat) };
        let a = Seq::new(p.len(), |i: int| if i == 0 { decimal(tree as nat) } else { decimal(p[i - 1] as nat) });
        let b = Seq::new(path.len(), |i: int| if i == 0 { decimal(tree as nat) } else { decimal(path[i - 1] as nat) });
        assert(a.push(prev_last) =~= b);
    }
}

/// Reading back the printed form of a node gives the node: what
/// `format_path` prints can be passed to `--at-path`.
pub proof fn lemma_node_path_round_trip(tree: usize, path: Seq<usize>)
    ensures
        node_path_result(dotted(tree, path)) == Some((tree, path)),
{
    lemma_split_dotted(tree, path);
    lemma_decimal_digits(tree as nat);
    let segs = split_at_char(dotted(tree, path), '.');
    let nums = seq![tree] + path;
    assert(segs.len() == nums.len());
    assert forall|i: int| 0 <= i < segs.len() implies #[trigger] segs[i] == decimal(nums[i] as nat) by {
        if i == 0 {
        } else if i < segs.len() - 1 {
        } else {
        }
    }
    lemma_parse_decimal_segments(segs, nums);
    assert(nums[0] == tree);
    assert(nums.drop_first() =~= path);
    assert(dotted(tree, path).len() > 0);
}

proof fn lemma_parse_decimal_segments(segs: Seq<Seq<char>>, nums: Seq<usize>)
    requires
        segs.len() == nums.len(),
        forall|i: int| 0 <= i < segs.len() ==> #[trigger] segs[i] == decimal(nums[i] as nat),
    ensures
        parse_segments(segs) == Some(nums),
    decreases segs.len(),
{
    if segs.len() > 0 {
        lemma_parse_decimal_segments(segs.drop_last(), nums.drop_last());
        lemma_parse_decimal(nums.last() as nat, usize::MAX as nat);
        assert(nums.drop_last().push(nums.last()) =~= nums);
    }
}

/// The parent of a path: the path without its last index (the root is its own parent).
pub fn parent_path(path: &Vec<usize>) -> (r: Vec<usize>)
    ensures
        r@ == (if path@.len() == 0 { path@ } else { path@.drop_last() }),
{
    let mut parent = path.clone();
    assert(parent@ =~= path@);
    if parent.len() > 0 {
        parent.pop();
        assert(parent@ =~= path@.drop_last());
    }
    parent
}

/// A nameserver name compared case-insensitively and without trailing dots.
pub open spec fn normalized_ns_name(name: Seq<char>) -> Seq<char> {
    lower(trim_dots(name))
}

/// The name with every trailing `.` removed.
pub open spec fn trim_dots(s: Seq<char>) -> Seq<char>
    decreases s.len(),
{
    if s.len() > 0 && s.last() == '.' {
        trim_dots(s.drop_last())
    } else {
        s
    }
}

/// Lowercases a nameserver name and strips its trailing dots.
pub fn normalize_ns_name(name: &str) -> (r: String)
    ensures
        r@ == normalized_ns_name(name@),
{
    let c = chars_of(name);
    let mut j: usize = c.len();
    assert(c@.subrange(0, j as int) =~= c@);
    while j > 0 && c[j - 1] == '.'
        invariant
            j <= c@.len(),
            trim_dots(c@) == trim_dots(c@.subrange(0, j as int)),
        decreases j,
    {
        assert(c@.subrange(0, j as int).drop_last() =~= c@.subrange(0, j - 1));
        j = j - 1;
    }
    let t = slice_chars(&c, 0, j);
    assert(trim_dots(t@) == t@);
    let l = lower_chars(&t);
    crate::text::string_of(&l)
}

/// The report's lines.
pub open spec fn report_lines(report: BranchReport) -> Seq<Seq<char>> {
    let plan_lines = match report.plan {
        Some(plan) => seq!["node: zone "@ + plan.zone@ + " server "@ + plan.server@ + " query "@ + plan.qname@]
            + if plan.targets@.len() == 0 {
                seq!["nothing to query at this cut"@]
            } else {
                seq!["would query:"@] + views(plan.targets@).map_values(|t: Seq<char>| "  - "@ + t)
            },
        None => Seq::<Seq<char>>::empty(),
    };
    if report.dry_run {
        plan_lines.push("dry run: no queries issued"@)
    } else {
        plan_lines
            + (if report.nodes_added == 0 {
                seq!["no nodes added"@]
            } else {
                seq!["added "@ + decimal(report.nodes_added as nat) + " node(s)"@]
                    + match report.updated_at {
                        Some(u) => seq!["updated_at: "@ + u@],
                        None => Seq::<Seq<char>>::empty(),
                    }
            })
            + views(report.warnings@).map_values(|w: Seq<char>| "warning: "@ + w)
            + (if report.budget_truncated {
                seq!["warning: per-action query cap reached"@]
            } else {
                Seq::<Seq<char>>::empty()
            })
    }
}

fn prefixed_lines(lines: &mut Vec<String>, prefix: &str, items: &Vec<String>)
    ensures
        views(final(lines)@) == views(old(lines)@) + views(items@).map_values(|t: Seq<char>| prefix@ + t),
{
    let mut i: usize = 0;
    while i < items.len()
        invariant
            i <= items.len(),
            views(lines@) == views(old(lines)@) + views(items@).subrange(0, i as int).map_values(|t: Seq<char>| prefix@ + t),
        decreases items.len() - i,
    {
        let mut line = owned(prefix);
        push_str(&mut line, items[i].as_str());
        push_line(lines, line);
        i = i + 1;
        assert(views(lines@) =~= views(old(lines)@) + views(items@).subrange(0, i as int).map_values(|t: Seq<char>| prefix@ + t));
    }
    assert(views(items@).subrange(0, items@.len() as int) =~= views(items@));
}

/// The human summary of a branch: the plan (if any), then either the
/// dry-run notice or what was added, the warnings and the budget notice,
/// one per line.
pub fn format_branch_report(report: &BranchReport) -> (s: String)
    ensures
        s@ == join_lines(report_lines(*report)),
{
    let mut lines: Vec<String> = Vec::new();
    let ghost mut expected: Seq<Seq<char>> = Seq::empty();
    if let Some(plan) = &report.plan {
        let mut head = owned("node: zone ");
        push_str(&mut head, plan.zone.as_str());
        push_str(&mut head, " server ");
        push_str(&mut head, plan.server.as_str());
        push_str(&mut head, " query ");
        push_str(&mut head, plan.qname.as_str());
        push_line(&mut lines, head);
        if plan.targets.len() == 0 {
            push_line(&mut lines, owned("nothing to query at this cut"));
        } else {
            push_line(&mut lines, owned("would query:"));
            prefixed_lines(&mut lines, "  - ", &plan.targets);
        }
    }
    let ghost plan_part = views(lines@);
    if report.dry_run {
        push_line(&mut lines, owned("dry run: no queries issued"));
        assert(views(lines@) =~= report_lines(*report));
        return join_line_vec(&lines);
    }
    if report.nodes_added == 0 {
        push_line(&mut lines, owned("no nodes added"));
    } else {
        let mut added = owned("added ");
        push_decimal(&mut added, report.nodes_added as u64);
        push_str(&mut added, " node(s)");
        push_line(&mut lines, added);
        if let Some(updated_at) = &report.updated_at {
            let mut u = owned("updated_at: ");
            push_str(&mut u, updated_at.as_str());
            push_line(&mut lines, u);
        }
    }
    prefixed_lines(&mut lines, "warning: ", &report.warnings);
    if report.budget_truncated {
        push_line(&mut lines, owned("warning: per-action query cap reached"));
    }
    assert(views(lines@) =~= report_lines(*report));
    join_line_vec(&lines)
}

/// The node a branch starts at, as `resolve_branch_target` finds it: with
/// no tree, `NoTree`; with `at_path`, that node when the text reads as a
/// node path whose child indices name a node of the tree (else
/// `InvalidPath` or `UnresolvedPath`); else with `at_hop`, the node at
/// that display index of tree 0 (else `OutOfRangeHop`); else
/// `MissingTarget`.
pub open spec fn branch_target(
    tree: Option<TraceTree>,
    at_hop: Option<usize>,
    at_path: Option<Seq<char>>,
) -> Result<(usize, Seq<usize>), BranchErrorKind> {
    match tree {
        None => Err(BranchErrorKind::NoTree),
        Some(t) => match at_path {
            Some(text) => match node_path_result(text) {
                None => Err(BranchErrorKind::InvalidPath),
                Some((ti, p)) => if node_at(t.root, p) is Some {
                    Ok((ti, p))
                } else {
                    Err(BranchErrorKind::UnresolvedPath)
                },
            },
            None => match at_hop {
                Some(i) => if i < preorder(t.root, Seq::empty()).len() {
                    Ok((0, preorder(t.root, Seq::empty())[i as int].0))
                } else {
                    Err(BranchErrorKind::OutOfRangeHop)
                },
                None => Err(BranchErrorKind::MissingTarget),
            },
        },
    }
}

/// The variant of a branch error.
pub enum BranchErrorKind {
    NoTree,
    UnresolvedPath,
    OutOfRangeHop,
    MissingTarget,
    InvalidPath,
}

/// The error `e` is of kind `k` and carries what the caller passed.
pub open spec fn error_is(e: BranchError, k: BranchErrorKind, at_hop: Option<usize>, at_path: Option<Seq<char>>) -> bool {
    match k {
        BranchErrorKind::NoTree => e is NoTree,
        BranchErrorKind::UnresolvedPath => e matches BranchError::UnresolvedPath { path } && Some(path@) == at_path,
        BranchErrorKind::OutOfRangeHop => e matches BranchError::OutOfRangeHop { index } && Some(index) == at_hop,
        BranchErrorKind::MissingTarget => e is MissingTarget,
        BranchErrorKind::InvalidPath => e matches BranchError::InvalidPath { value } && Some(value@) == at_path,
    }
}

/// Finds the node a branch starts at, from the session's primary tree and
/// either a node path or a display index (the path wins when both are
/// given).
pub fn resolve_branch_target(
    tree: Option<&TraceTree>,
    at_hop: Option<usize>,
    at_path: Option<&str>,
) -> (r: Result<NodePath, BranchError>)
    ensures
        match branch_target(
            match tree {
                Some(t) => Some(*t),
                None => None,
            },
            at_hop,
            match at_path {
                Some(p) => Some(p@),
                None => None,
            },
        ) {
            Ok((ti, p)) => r matches Ok(n) && n.tree == ti && n.path@ == p,
            Err(k) => r matches Err(e) && error_is(
                e,
                k,
                at_hop,
                match at_path {
                    Some(p) => Some(p@),
                    None => None,
                },
            ),
        },
{
    let tree = match tree {
        Some(t) => t,
        None => {
            return Err(BranchError::NoTree);
        },
    };
    if let Some(path_value) = at_path {
        let path = match parse_node_path(path_value) {
            Ok(p) => p,
            Err(e) => {
                return Err(e);
            },
        };
        if trace_node_at(&tree.root, &path.path).is_none() {
            return Err(BranchError::UnresolvedPath { path: owned(path_value) });
        }
        return Ok(path);
    }
    if let Some(index) = at_hop {
        let cards = build_cards(tree, 0);
        if index < cards.len() {
            return Ok(copy_path(&cards[index].path));
        }
        return Err(BranchError::OutOfRangeHop { index });
    }
    Err(BranchError::MissingTarget)
}

/// A node's origin as plain values: none for the trace itself, else where,
/// why and when it was branched.
pub open spec fn origin_view(o: NodeOrigin) -> Option<(usize, Seq<usize>, BranchIntent, Seq<char>)> {
    match o {
        NodeOrigin::Trace => None,
        NodeOrigin::Branch { at, intent, at_time } => Some((at.tree, at.path@, intent, at_time@)),
    }
}

fn copy_origin(o: &NodeOrigin) -> (r: NodeOrigin)
    ensures
        origin_view(r) == origin_view(*o),
{
    match o {
        NodeOrigin::Trace => NodeOrigin::Trace,
        NodeOrigin::Branch { at, intent, at_time } => NodeOrigin::Branch {
            at: copy_path(at),
            intent: *intent,
            at_time: at_time.clone(),
        },
    }
}

/// A node keeps a branch origin of its own; otherwise it takes `branch`'s
/// when there is one.
pub open spec fn applied_origin(branch: Option<NodeOrigin>, o: NodeOrigin) -> NodeOrigin {
    match branch {
        Some(b) => if o is Branch {
            o
        } else {
            b
        },
        None => o,
    }
}

fn apply_branch_origin(node: &mut TraceNode, origin: NodeOrigin)
    ensures
        final(node).hop == old(node).hop,
        final(node).children == old(node).children,
        origin_view(final(node).origin) == origin_view(applied_origin(Some(origin), old(node).origin)),
{
    match &node.origin {
        NodeOrigin::Branch { .. } => {},
        NodeOrigin::Trace => {
            node.origin = origin;
        },
    }
}

/// `r` is `n` with its origin taken to be `o`.
pub open spec fn node_with_origin(r: TraceNode, n: TraceNode, o: NodeOrigin) -> bool {
    r.hop == n.hop && r.children == n.children && origin_view(r.origin) == origin_view(o)
}

/// The children, each with the branch origin applied.
fn promote_branch_origin(origin: Option<NodeOrigin>, children: Vec<TraceNode>) -> (r: Vec<TraceNode>)
    ensures
        r@.len() == children@.len(),
        forall|i: int|
            0 <= i < r@.len() ==> node_with_origin(
                #[trigger] r@[i],
                children@[i],
                applied_origin(origin, children@[i].origin),
            ),
{
    let ghost all = children@;
    let mut rest = children;
    let mut out: Vec<TraceNode> = Vec::new();
    while rest.len() > 0
        invariant
            out@.len() + rest@.len() == all.len(),
            rest@ == all.subrange(out@.len() as int, all.len() as int),
            forall|i: int|
                0 <= i < out@.len() ==> node_with_origin(#[trigger] out@[i], all[i], applied_origin(origin, all[i].origin)),
        decreases rest@.len(),
    {
        let ghost k = out@.len() as int;
        let mut c = rest.remove(0);
        assert(c == all[k]);
        assert(rest@ =~= all.subrange(k + 1, all.len() as int));
        match &origin {
            Some(o) => {
                let copy = copy_origin(o);
                apply_branch_origin(&mut c, copy);
            },
            None => {},
        }
        out.push(c);
    }
    out
}

/// Going down from `n` while its zone is `zone` and it has exactly one
/// child.
pub open spec fn descend(n: TraceNode, zone: Seq<char>) -> TraceNode
    decreases n,
{
    if n.hop.zone@ == zone && n.children@.len() == 1 {
        descend(n.children@[0], zone)
    } else {
        n
    }
}

/// What a node added by expanding the cut at the session root is attached
/// as, each with the origin it takes: the node below any redundant hops at
/// the cut's zone; that node's children when it still is at the cut's zone
/// and forks; nothing when it ends at the cut's zone or is not at
/// `attach_zone`.
pub open spec fn attachment(cut_zone: Seq<char>, attach_zone: Option<Seq<char>>, n: TraceNode) -> Seq<(TraceNode, NodeOrigin)> {
    let branch = if n.origin is Branch {
        Some(n.origin)
    } else {
        None
    };
    let d = descend(n, cut_zone);
    if d.hop.zone@ == cut_zone {
        if d.children@.len() >= 2 {
            d.children@.map_values(|c: TraceNode| (c, applied_origin(branch, c.origin)))
        } else {
            Seq::empty()
        }
    } else if attach_zone matches Some(z) && d.hop.zone@ != z {
        Seq::empty()
    } else {
        seq![(d, applied_origin(branch, d.origin))]
    }
}

/// `r` holds the nodes of `expected` with their origins.
pub open spec fn attached_as(r: Seq<TraceNode>, expected: Seq<(TraceNode, NodeOrigin)>) -> bool {
    r.len() == expected.len() && forall|i: int|
        0 <= i < r.len() ==> node_with_origin(#[trigger] r[i], expected[i].0, expected[i].1)
}

fn normalize_expand_cut_attachment(cut_zone: &str, attach_zone: Option<&str>, node: TraceNode) -> (r: Vec<TraceNode>)
    ensures
        attached_as(
            r@,
            attachment(
                cut_zone@,
                match attach_zone {
                    Some(z) => Some(z@),
                    None => None,
                },
                node,
            ),
        ),
{
    let ghost original = node;
    let branch_origin = match &node.origin {
        NodeOrigin::Branch { .. } => Some(copy_origin(&node.origin)),
        NodeOrigin::Trace => None,
    };
    let ghost branch = if original.origin is Branch {
        Some(original.origin)
    } else {
        None
    };
    let mut node = node;
    loop
        invariant
            descend(original, cut_zone@) == descend(node, cut_zone@),
        ensures
            descend(original, cut_zone@) == node,
        decreases node,
    {
        if !text_equal(node.hop.zone.as_str(), cut_zone) || node.children.len() != 1 {
            break;
        }
        let child = node.children.remove(0);
        node = child;
    }
    let ghost d = node;
    let ghost expected = attachment(
        cut_zone@,
        match attach_zone {
            Some(z) => Some(z@),
            None => None,
        },
        original,
    );
    if text_equal(node.hop.zone.as_str(), cut_zone) {
        if node.children.len() >= 2 {
            let r = promote_branch_origin(branch_origin, node.children);
            proof {
                assert forall|i: int| 0 <= i < r@.len() implies node_with_origin(
                    #[trigger] r@[i],
                    expected[i].0,
                    expected[i].1,
                ) by {
                    assert(expected[i] == (d.children@[i], applied_origin(branch, d.children@[i].origin)));
                    assert(origin_view(applied_origin(branch_origin, d.children@[i].origin)) == origin_view(
                        applied_origin(branch, d.children@[i].origin),
                    ));
                }
            }
            return r;
        }
        return Vec::new();
    }
    if let Some(z) = attach_zone {
        if !text_equal(node.hop.zone.as_str(), z) {
            return Vec::new();
        }
    }
    match branch_origin {
        Some(o) => apply_branch_origin(&mut node, o),
        None => {},
    }
    let mut r: Vec<TraceNode> = Vec::new();
    r.push(node);
    r
}

/// The attachments of each node in turn.
pub open spec fn attachments(cut_zone: Seq<char>, attach_zone: Option<Seq<char>>, ns: Seq<TraceNode>) -> Seq<(TraceNode, NodeOrigin)>
    decreases ns.len(),
{
    if ns.len() == 0 {
        Seq::empty()
    } else {
        attachments(cut_zone, attach_zone, ns.drop_last()) + attachment(cut_zone, attach_zone, ns.last())
    }
}

/// Nodes added by expanding a cut, as they are attached: unchanged below
/// the session root; at the session root each one hoisted past redundant
/// hops at the cut's zone to the primary trace's first delegation level
/// (see `attachment`).
pub fn normalize_expand_cut_attachments(
    cut_hop: &TraceHop,
    cut_is_session_root: bool,
    primary_delegation: Option<&TraceNode>,
    nodes: Vec<TraceNode>,
) -> (r: Vec<TraceNode>)
    ensures
        !cut_is_session_root ==> r == nodes,
        cut_is_session_root ==> attached_as(
            r@,
            attachments(
                cut_hop.zone@,
                match primary_delegation {
                    Some(p) => Some(p.hop.zone@),
                    None => None,
                },
                nodes@,
            ),
        ),
{
    if !cut_is_session_root {
        return nodes;
    }
    let attach_zone = match primary_delegation {
        Some(p) => Some(p.hop.zone.as_str()),
        None => None,
    };
    let ghost az = match primary_delegation {
        Some(p) => Some(p.hop.zone@),
        None => None,
    };
    assert(az == match attach_zone {
        Some(z) => Some(z@),
        None => None,
    });
    let ghost all = nodes@;
    let mut rest = nodes;
    let mut out: Vec<TraceNode> = Vec::new();
    let ghost mut k: int = 0;
    assert(all.subrange(0, 0) =~= Seq::<TraceNode>::empty());
    while rest.len() > 0
        invariant
            0 <= k,
            k + rest@.len() == all.len(),
            rest@ == all.subrange(k, all.len() as int),
            attached_as(out@, attachments(cut_hop.zone@, az, all.subrange(0, k))),
            az == match attach_zone {
                Some(z) => Some(z@),
                None => None,
            },
        decreases rest@.len(),
    {
        let n = rest.remove(0);
        assert(n == all[k]);
        assert(rest@ =~= all.subrange(k + 1, all.len() as int));
        let part = normalize_expand_cut_attachment(cut_hop.zone.as_str(), attach_zone, n);
        let ghost before = out@;
        let ghost prev = attachments(cut_hop.zone@, az, all.subrange(0, k));
        let ghost piece = attachment(cut_hop.zone@, az, all[k]);
        let ghost mut j: int = 0;
        let mut part = part;
        while part.len() > 0
            invariant
                0 <= j,
                j + part@.len() == piece.len(),
                out@.len() == before.len() + j,
                attached_as(before, prev),
                forall|i: int| 0 <= i < before.len() ==> #[trigger] out@[i] == before[i],
                forall|i: int|
                    0 <= i < part@.len() ==> node_with_origin(
                        #[trigger] part@[i],
                        piece[j + i].0,
                        piece[j + i].1,
                    ),
                forall|i: int|
                    0 <= i < j ==> node_with_origin(#[trigger] out@[before.len() + i], piece[i].0, piece[i].1),
            decreases part@.len(),
        {
            let ghost old_part = part@;
            let x = part.remove(0);
            assert(node_with_origin(x, piece[j].0, piece[j].1));
            assert forall|i: int| 0 <= i < part@.len() implies node_with_origin(
                #[trigger] part@[i],
                piece[j + 1 + i].0,
                piece[j + 1 + i].1,
            ) by {
                assert(part@[i] == old_part[i + 1]);
            }
            out.push(x);
            proof {
                j = j + 1;
            }
        }
        proof {
            let sub = all.subrange(0, k + 1);
            assert(sub.drop_last() =~= all.subrange(0, k));
            assert(sub.last() == all[k]);
            let want = attachments(cut_hop.zone@, az, sub);
            assert(want == prev + piece);
            assert forall|i: int| 0 <= i < out@.len() implies node_with_origin(
                #[trigger] out@[i],
                want[i].0,
                want[i].1,
            ) by {
                if i < before.len() {
                    assert(out@[i] == before[i]);
                } else {
                    let t = i - before.len();
                    assert(out@[before.len() + t] == out@[i]);
                }
            }
        }
        proof {
            k = k + 1;
        }
    }
    assert(all.subrange(0, k) =~= all);
    out
}

/// The zone cut a branch at `at` works on, and the node it branches from:
/// the node itself when it carries a referral, forks, or is the root; else
/// its parent (the node stays the selection). None when `at` (or its
/// parent) names no node.
pub open spec fn cut_of(root: TraceNode, at: Seq<usize>) -> Option<(Seq<usize>, Seq<usize>)> {
    match node_at(root, at) {
        None => None,
        Some(n) => if n.hop.referral_ns@.len() > 0 || n.children@.len() > 1 || at.len() == 0 {
            Some((at, at))
        } else if node_at(root, at.drop_last()) is Some {
            Some((at.drop_last(), at))
        } else {
            None
        },
    }
}

/// The cut and the selected node of a branch at `at` in the tree `root`;
/// `UnresolvedPath` naming `at` when it does not resolve.
pub fn cut_context(at: &NodePath, root: &TraceNode) -> (r: Result<(NodePath, NodePath), BranchError>)
    ensures
        match cut_of(*root, at.path@) {
            Some((c, s)) => r matches Ok((cp, sp)) && cp.tree == at.tree && cp.path@ == c && sp.tree
                == at.tree && sp.path@ == s,
            None => r matches Err(BranchError::UnresolvedPath { path }) && path@ == dotted(at.tree, at.path@),
        },
{
    let node = match trace_node_at(root, &at.path) {
        Some(n) => n,
        None => {
            return Err(BranchError::UnresolvedPath { path: format_path(at) });
        },
    };
    if node.hop.referral_ns.len() > 0 || node.children.len() > 1 || at.path.len() == 0 {
        return Ok((copy_path(at), copy_path(at)));
    }
    let mut cut = copy_path(at);
    cut.path.pop();
    assert(cut.path@ =~= at.path@.drop_last());
    if trace_node_at(root, &cut.path).is_none() {
        return Err(BranchError::UnresolvedPath { path: format_path(at) });
    }
    Ok((cut, copy_path(at)))
}

} // verus!
