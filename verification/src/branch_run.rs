//! Running a branch on a stored trace, as the decisions between the
//! resolver's work: which cut a branch works on, what it plans to query and
//! when it stops before querying, and how the nodes the queries produced are
//! attached to the tree.
//!
//! A branch goes through three decisions. `branch_cut` finds the zone cut
//! and the selected node. The caller then asks the resolver which servers
//! the cut still has to query and hands their labels to `plan_branch`,
//! which either finishes (dry run, nothing to query) or says where the new
//! nodes will go. The caller runs those queries and hands the nodes to
//! `complete_branch`, which attaches them and writes the report.
//!
//! Before that, `check_branch_args` refuses a command that names no node or
//! nothing to do, and `parse_server_target` reads the server argument once
//! the caller has tried its text as an IP address.

use vstd::prelude::*;

use crate::branch::{
    attached_as, attachments, cut_context, cut_of, normalize_expand_cut_attachments, parent_path,
    BranchError, BranchPlan, BranchReport,
};
use crate::explore::fork_summary::{node_at, trace_node_at, BranchIntent, TraceHop, TraceNode, TraceTree};
use crate::args::SessionBranchArgs;
use crate::branch_targets::{label_of, server_views, ServerTarget, ServerView, TargetPlan};
use crate::node_path::{dotted, format_path, NodePath};
use crate::text::{chars_of, decimal, push_decimal, slice_chars, string_of, trim, trim_chars, views};

verus! {

/// The cut and the selected node of a branch at `at` among the session's
/// trees: `UnresolvedPath` naming `at` when its tree does not exist or the
/// path does not resolve there.
pub open spec fn branch_cut_spec(trees: Seq<TraceTree>, at_tree: usize, at: Seq<usize>) -> Option<(Seq<usize>, Seq<usize>)> {
    if at_tree < trees.len() {
        cut_of(trees[at_tree as int].root, at)
    } else {
        None
    }
}

/// Finds the zone cut a branch at `at` works on and the node it branches
/// from (see `cut_of`).
pub fn branch_cut(trees: &Vec<TraceTree>, at: &NodePath) -> (r: Result<(NodePath, NodePath), BranchError>)
    ensures
        match branch_cut_spec(trees@, at.tree, at.path@) {
            Some((c, s)) => r matches Ok((cp, sp)) && cp.tree == at.tree && cp.path@ == c && sp.tree
                == at.tree && sp.path@ == s,
            None => r matches Err(BranchError::UnresolvedPath { path }) && path@ == dotted(at.tree, at.path@),
        },
{
    if at.tree >= trees.len() {
        return Err(BranchError::UnresolvedPath { path: format_path(at) });
    }
    cut_context(at, &trees[at.tree].root)
}

/// Whether `plan` names the cut's query and the given targets.
pub open spec fn plan_of(plan: BranchPlan, hop: TraceHop, targets: Seq<Seq<char>>) -> bool {
    &&& plan.zone@ == hop.zone@
    &&& plan.server@ == hop.server@
    &&& plan.qname@ == hop.qname@
    &&& views(plan.targets@) == targets
}

/// How a planned server is shown: `NAME (ADDRESS)` when it has a non-empty
/// name, else its address.
pub open spec fn server_label_text(name: Option<Seq<char>>, address: Seq<char>) -> Seq<char> {
    match name {
        Some(n) => if n.len() > 0 {
            n + " ("@ + address + ")"@
        } else {
            address
        },
        None => address,
    }
}

/// The label of a planned server.
pub fn server_label(name: &Option<String>, address: &str) -> (s: String)
    ensures
        s@ == server_label_text(
            match name {
                Some(n) => Some(n@),
                None => None,
            },
            address@,
        ),
{
    let mut s = String::new();
    match name {
        Some(n) => {
            if n.unicode_len() > 0 {
                s.append(n.as_str());
                s.append(" (");
                s.append(address);
                s.append(")");
            } else {
                s.append(address);
            }
        },
        None => {
            s.append(address);
        },
    }
    s
}

/// A server named on the command line or at the branch prompt: a name to
/// look up among the cut's nameservers, or an address (its text, which
/// parses as an IP address).
#[derive(Debug, Clone, PartialEq, Eq)]
pub enum ServerTargetInput {
    Name(String),
    Address(String),
}

/// The text of a server argument to try as an address: the argument
/// trimmed, without a leading `@`; and whether it had the `@`.
pub open spec fn server_text(value: Seq<char>) -> (Seq<char>, bool) {
    let t = trim(value);
    if t.len() > 0 && t[0] == '@' {
        (t.drop_first(), true)
    } else {
        (t, false)
    }
}

/// The text of a server argument to try as an address.
pub fn server_address_text(value: &str) -> (r: (String, bool))
    ensures
        (r.0@, r.1) == server_text(value@),
{
    let t = trim_chars(&chars_of(value));
    if t.len() > 0 && t[0] == '@' {
        let rest = slice_chars(&t, 1, t.len());
        assert(rest@ =~= t@.drop_first());
        (string_of(&rest), true)
    } else {
        (string_of(&t), false)
    }
}

/// How a server argument reads, given whether its address text (see
/// `server_text`) parses as an IP address: an address; else, after `@`,
/// `InvalidServer` with the trimmed argument; else a name.
pub fn parse_server_target(value: &str, address_parses: bool) -> (r: Result<ServerTargetInput, BranchError>)
    ensures
        ({
            let (t, at) = server_text(value@);
            if address_parses {
                r matches Ok(ServerTargetInput::Address(a)) && a@ == t
            } else if at {
                r matches Err(BranchError::InvalidServer { value: v }) && v@ == trim(value@)
            } else {
                r matches Ok(ServerTargetInput::Name(n)) && n@ == t
            }
        }),
{
    let (t, at) = server_address_text(value);
    if address_parses {
        Ok(ServerTargetInput::Address(t))
    } else if at {
        let trimmed = trim_chars(&chars_of(value));
        Err(BranchError::InvalidServer { value: string_of(&trimmed) })
    } else {
        Ok(ServerTargetInput::Name(t))
    }
}

/// How the explore screen's server prompt reads its (already trimmed)
/// text, given whether the text after a leading `@` parses as an IP
/// address and whether the whole text does: the address after `@`, else
/// the whole text as an address, else a name.
pub fn parse_server_target_input(value: &str, after_at_parses: bool, whole_parses: bool) -> (r:
    ServerTargetInput)
    ensures
        if value@.len() > 0 && value@[0] == '@' && after_at_parses {
            r matches ServerTargetInput::Address(a) && a@ == value@.drop_first()
        } else if whole_parses {
            r matches ServerTargetInput::Address(a) && a@ == value@
        } else {
            r matches ServerTargetInput::Name(n) && n@ == value@
        },
{
    let c = chars_of(value);
    if c.len() > 0 && c[0] == '@' && after_at_parses {
        let rest = slice_chars(&c, 1, c.len());
        assert(rest@ =~= value@.drop_first());
        ServerTargetInput::Address(string_of(&rest))
    } else if whole_parses {
        ServerTargetInput::Address(String::from_str(value))
    } else {
        ServerTargetInput::Name(String::from_str(value))
    }
}

/// What `session branch` refuses before it opens the session: no node to
/// branch at, or nothing to do (no server, no `--expand`, no dry run).
pub fn check_branch_args(args: &SessionBranchArgs) -> (r: Result<(), BranchError>)
    ensures
        if args.at_hop is None && args.at_path is None {
            r matches Err(BranchError::UnresolvedPath { path }) && path@
                == "missing --at-hop or --at-path"@
        } else if !args.expand && args.server is None && !args.dry_run {
            r matches Err(BranchError::MissingTarget)
        } else {
            r is Ok
        },
{
    if args.at_hop.is_none() && args.at_path.is_none() {
        return Err(BranchError::UnresolvedPath { path: String::from_str("missing --at-hop or --at-path") });
    }
    if !args.expand && args.server.is_none() && !args.dry_run {
        return Err(BranchError::MissingTarget);
    }
    Ok(())
}

/// What `session branch` does: expand the cut when asked to or when no
/// server is given, else query the given server.
pub fn branch_intent(args: &SessionBranchArgs) -> (r: BranchIntent)
    ensures
        r == (if args.expand || args.server is None {
            BranchIntent::ExpandCut
        } else {
            BranchIntent::AlternateServer
        }),
{
    if args.expand || args.server.is_none() {
        BranchIntent::ExpandCut
    } else {
        BranchIntent::AlternateServer
    }
}

/// The message shown for a branch error.
pub open spec fn branch_error_text(e: BranchError) -> Seq<char> {
    match e {
        BranchError::NoTree => "session has no trace tree"@,
        BranchError::UnresolvedPath { path } => "node path "@ + path@ + " does not resolve in session"@,
        BranchError::OutOfRangeHop { index } => "display index "@ + decimal(index as nat) + " is out of range"@,
        BranchError::MissingTarget => "branch requires --server or --expand"@,
        BranchError::InvalidPath { value } => "invalid node path: "@ + value@,
        BranchError::InvalidServer { value } => "invalid server argument: "@ + value@,
    }
}

impl BranchError {
    /// The message shown for the error.
    pub fn message(&self) -> (s: String)
        ensures
            s@ == branch_error_text(*self),
    {
        let mut s = String::new();
        match self {
            BranchError::NoTree => s.append("session has no trace tree"),
            BranchError::UnresolvedPath { path } => {
                s.append("node path ");
                s.append(path.as_str());
                s.append(" does not resolve in session");
            },
            BranchError::OutOfRangeHop { index } => {
                s.append("display index ");
                push_decimal(&mut s, *index as u64);
                s.append(" is out of range");
            },
            BranchError::MissingTarget => s.append("branch requires --server or --expand"),
            BranchError::InvalidPath { value } => {
                s.append("invalid node path: ");
                s.append(value.as_str());
            },
            BranchError::InvalidServer { value } => {
                s.append("invalid server argument: ");
                s.append(value.as_str());
            },
        }
        s
    }
}

/// A report that added nothing: no update time, no budget notice.
pub open spec fn report_without_nodes(
    r: BranchReport,
    hop: TraceHop,
    targets: Seq<Seq<char>>,
    warnings: Seq<Seq<char>>,
    dry_run: bool,
) -> bool {
    &&& r.nodes_added == 0
    &&& r.updated_at is None
    &&& views(r.warnings@) == warnings
    &&& !r.budget_truncated
    &&& r.dry_run == dry_run
    &&& r.plan matches Some(p) && plan_of(p, hop, targets)
}

/// Where the nodes of a branch are attached: below the cut when the cut is
/// expanded, else below the parent of the selected node.
pub open spec fn attach_parent(intent: BranchIntent, cut: Seq<usize>, selected: Seq<usize>) -> Seq<usize> {
    match intent {
        BranchIntent::ExpandCut => cut,
        BranchIntent::AlternateServer => if selected.len() == 0 {
            selected
        } else {
            selected.drop_last()
        },
    }
}

/// The address the resolver gives the first new node: the cut itself when
/// expanding it, else the next free child index below the selected node's
/// parent.
pub open spec fn attach_path_spec(root: TraceNode, intent: BranchIntent, cut: Seq<usize>, selected: Seq<usize>) -> Seq<usize> {
    match intent {
        BranchIntent::ExpandCut => cut,
        BranchIntent::AlternateServer => {
            let parent = attach_parent(intent, cut, selected);
            parent.push(
                match node_at(root, parent) {
                    Some(p) => p.children@.len() as usize,
                    None => 0usize,
                },
            )
        },
    }
}

/// What the planning step decided.
#[derive(Debug)]
pub enum BranchStage {
    /// The branch ends here, with this report.
    Done(BranchReport),
    /// Query `targets` (shown as `plan` lists them); the resolver attaches
    /// its first node at `attach_path`.
    Run { plan: BranchPlan, targets: Vec<ServerTarget>, attach_path: Vec<usize>, warnings: Vec<String> },
}

fn plan_for(hop: &TraceHop, targets: Vec<String>) -> (p: BranchPlan)
    ensures
        plan_of(p, *hop, views(targets@)),
        p.targets == targets,
{
    BranchPlan {
        zone: hop.zone.clone(),
        server: hop.server.clone(),
        qname: hop.qname.clone(),
        targets,
    }
}

/// The labels of the planned servers.
pub open spec fn target_labels(ts: Seq<ServerTarget>) -> Seq<Seq<char>> {
    server_views(ts).map_values(|t: ServerView| label_of(t))
}

fn labels_of(targets: &Vec<ServerTarget>) -> (r: Vec<String>)
    ensures
        views(r@) == target_labels(targets@),
{
    let mut r: Vec<String> = Vec::new();
    let mut i: usize = 0;
    while i < targets.len()
        invariant
            i <= targets@.len(),
            views(r@) == target_labels(targets@.subrange(0, i as int)),
        decreases targets@.len() - i,
    {
        let l = server_label(&targets[i].name, targets[i].address.as_str());
        let ghost before = r@;
        r.push(l);
        assert(views(r@) =~= views(before).push(l@));
        assert(target_labels(targets@.subrange(0, i + 1)) =~= target_labels(targets@.subrange(0, i as int)).push(
            label_of(targets@[i as int]@),
        ));
        i = i + 1;
    }
    assert(targets@.subrange(0, targets@.len() as int) =~= targets@);
    r
}

/// Decides what a branch does once planning has chosen the servers to
/// query at the cut (`planned`, from `expand_cut_start` and
/// `finish_expand_targets`, or `choose_alternate`): a dry run reports the
/// plan and stops; with nothing to query, the branch stops with the
/// planner's warnings (for a fully queried cut, the all-queried warning);
/// otherwise it goes on to query the targets, with the new nodes addressed
/// at `attach_path_spec`.
pub fn plan_branch(
    root: &TraceNode,
    cut: &NodePath,
    selected: &NodePath,
    intent: BranchIntent,
    planned: TargetPlan,
    dry_run: bool,
) -> (r: BranchStage)
    requires
        cut_of(*root, selected.path@) == Some((cut.path@, selected.path@)),
    ensures
        ({
            let hop = node_at(*root, cut.path@)->0.hop;
            if dry_run || planned.targets@.len() == 0 {
                r matches BranchStage::Done(rep) && report_without_nodes(
                    rep,
                    hop,
                    target_labels(planned.targets@),
                    views(planned.warnings@),
                    dry_run,
                )
            } else {
                r matches BranchStage::Run { plan, targets, attach_path, warnings: w } && plan_of(
                    plan,
                    hop,
                    target_labels(planned.targets@),
                ) && targets == planned.targets && attach_path@ == attach_path_spec(
                    *root,
                    intent,
                    cut.path@,
                    selected.path@,
                ) && w == planned.warnings
            }
        }),
{
    let servers = planned.targets;
    let warnings = planned.warnings;
    let targets = labels_of(&servers);
    assert(views(targets@).len() == targets@.len());
    assert(target_labels(servers@).len() == servers@.len());
    let cut_node = match trace_node_at(root, &cut.path) {
        Some(n) => n,
        None => {
            // The cut names a node (see `requires`); this arm is never taken.
            return BranchStage::Done(
                BranchReport {
                    nodes_added: 0,
                    updated_at: None,
                    warnings,
                    budget_truncated: false,
                    dry_run,
                    plan: None,
                },
            );
        },
    };
    let no_targets = targets.len() == 0;
    let plan = plan_for(&cut_node.hop, targets);
    if dry_run || no_targets {
        return BranchStage::Done(
            BranchReport {
                nodes_added: 0,
                updated_at: None,
                warnings,
                budget_truncated: false,
                dry_run,
                plan: Some(plan),
            },
        );
    }
    let attach_path = match intent {
        BranchIntent::ExpandCut => cut.path.clone(),
        BranchIntent::AlternateServer => {
            let mut parent = parent_path(&selected.path);
            let index = match trace_node_at(root, &parent) {
                Some(p) => p.children.len(),
                None => 0,
            };
            parent.push(index);
            parent
        },
    };
    assert(attach_path@ =~= attach_path_spec(*root, intent, cut.path@, selected.path@));
    BranchStage::Run { plan, targets: servers, attach_path, warnings }
}

/// `new` is `old` with `added` appended to the children of the node at
/// `path`, and nothing else changed.
pub open spec fn extended_at(old: TraceNode, new: TraceNode, path: Seq<usize>, added: Seq<TraceNode>) -> bool
    decreases path.len(),
{
    &&& new.hop == old.hop
    &&& new.origin == old.origin
    &&& if path.len() == 0 {
        new.children@ == old.children@ + added
    } else {
        &&& path[0] < old.children@.len()
        &&& new.children@.len() == old.children@.len()
        &&& forall|j: int|
            0 <= j < old.children@.len() && j != path[0] ==> #[trigger] new.children@[j]
                == old.children@[j]
        &&& extended_at(old.children@[path[0] as int], new.children@[path[0] as int], path.drop_first(), added)
    }
}

/// Attaching a branch keeps the tree it grew: every node address that
/// resolved before still resolves, to a node with the same query.
pub proof fn lemma_extension_keeps_nodes(
    old: TraceNode,
    new: TraceNode,
    path: Seq<usize>,
    added: Seq<TraceNode>,
    q: Seq<usize>,
)
    requires
        extended_at(old, new, path, added),
        node_at(old, q) is Some,
    ensures
        node_at(new, q) is Some,
        node_at(new, q)->0.hop == node_at(old, q)->0.hop,
    decreases q.len(),
{
    if q.len() > 0 {
        let i = q[0] as int;
        if path.len() == 0 {
            assert(new.children@[i] == old.children@[i]);
        } else if i != path[0] {
            assert(new.children@[i] == old.children@[i]);
        } else {
            lemma_extension_keeps_nodes(
                old.children@[i],
                new.children@[i],
                path.drop_first(),
                added,
                q.drop_first(),
            );
        }
    }
}

fn extend_at(node: &mut TraceNode, path: &Vec<usize>, k: usize, added: Vec<TraceNode>)
    requires
        k <= path@.len(),
        node_at(*old(node), path@.subrange(k as int, path@.len() as int)) is Some,
    ensures
        extended_at(*old(node), *final(node), path@.subrange(k as int, path@.len() as int), added@),
    decreases path@.len() - k,
{
    let ghost rest = path@.subrange(k as int, path@.len() as int);
    if k == path.len() {
        let mut added = added;
        node.children.append(&mut added);
    } else {
        let idx = path[k];
        assert(rest[0] == idx);
        assert(rest.drop_first() =~= path@.subrange(k + 1, path@.len() as int));
        let ghost before = node.children@;
        let mut child = node.children.remove(idx);
        extend_at(&mut child, path, k + 1, added);
        node.children.insert(idx, child);
        assert forall|j: int| 0 <= j < before.len() && j != idx implies #[trigger] node.children@[j]
            == before[j] by {
            if j < idx {
            } else {
            }
        }
    }
}

/// The parent of a node of the tree is a node of the tree.
proof fn lemma_node_at_prefix(n: TraceNode, path: Seq<usize>)
    requires
        path.len() > 0,
        node_at(n, path) is Some,
    ensures
        node_at(n, path.drop_last()) is Some,
    decreases path.len(),
{
    if path.len() > 1 {
        let c = n.children@[path[0] as int];
        lemma_node_at_prefix(c, path.drop_first());
        assert(path.drop_last().drop_first() =~= path.drop_first().drop_last());
    }
}

/// The nodes a branch attaches: those the queries produced, hoisted past
/// redundant hops when the session root's cut is expanded (see
/// `normalize_expand_cut_attachments`).
pub open spec fn attached_nodes(
    root: TraceNode,
    intent: BranchIntent,
    cut: Seq<usize>,
    new_nodes: Seq<TraceNode>,
    added: Seq<TraceNode>,
) -> bool {
    if intent == BranchIntent::ExpandCut && cut.len() == 0 {
        attached_as(
            added,
            attachments(
                node_at(root, cut)->0.hop.zone@,
                if root.children@.len() > 0 {
                    Some(root.children@[0].hop.zone@)
                } else {
                    None
                },
                new_nodes,
            ),
        )
    } else {
        added == new_nodes
    }
}

/// Attaches the nodes the branch's queries produced and reports: with no
/// node to attach, the tree stays as it was and the report says nothing was
/// added; else the nodes are appended below the cut (expanding it) or below
/// the selected node's parent (another server), and the report counts them,
/// carries the session's new update time, and notes a reached query cap.
pub fn complete_branch(
    root: &mut TraceNode,
    cut: &NodePath,
    selected: &NodePath,
    intent: BranchIntent,
    new_nodes: Vec<TraceNode>,
    plan: BranchPlan,
    warnings: Vec<String>,
    updated_at: String,
    budget_truncated: bool,
) -> (r: BranchReport)
    requires
        cut_of(*old(root), selected.path@) == Some((cut.path@, selected.path@)),
    ensures
        exists|added: Seq<TraceNode>|
            #[trigger] attached_nodes(*old(root), intent, cut.path@, new_nodes@, added) && if added.len()
                == 0 {
                &&& *final(root) == *old(root)
                &&& report_without_nodes(
                    r,
                    node_at(*old(root), cut.path@)->0.hop,
                    Seq::empty(),
                    views(warnings@),
                    false,
                )
            } else {
                &&& extended_at(
                    *old(root),
                    *final(root),
                    attach_parent(intent, cut.path@, selected.path@),
                    added,
                )
                &&& r.nodes_added == added.len()
                &&& r.updated_at == Some(updated_at)
                &&& r.warnings == warnings
                &&& r.budget_truncated == budget_truncated
                &&& !r.dry_run
                &&& r.plan == Some(plan)
            },
{
    let ghost old_root = *root;
    let cut_node = match trace_node_at(root, &cut.path) {
        Some(n) => n,
        None => {
            // The cut names a node (see `requires`); this arm is never taken.
            return BranchReport {
                nodes_added: 0,
                updated_at: None,
                warnings,
                budget_truncated: false,
                dry_run: false,
                plan: None,
            };
        },
    };
    let cut_hop = &cut_node.hop;
    let expand = match intent {
        BranchIntent::ExpandCut => true,
        BranchIntent::AlternateServer => false,
    };
    let ghost given = new_nodes@;
    let nodes = if expand {
        let primary = if root.children.len() > 0 {
            Some(&root.children[0])
        } else {
            None
        };
        normalize_expand_cut_attachments(cut_hop, cut.path.len() == 0, primary, new_nodes)
    } else {
        new_nodes
    };
    let ghost added = nodes@;
    assert(attached_nodes(old_root, intent, cut.path@, given, added));
    if nodes.len() == 0 {
        let plan = plan_for(cut_hop, Vec::new());
        assert(views(plan.targets@) =~= Seq::<Seq<char>>::empty());
        return BranchReport {
            nodes_added: 0,
            updated_at: None,
            warnings,
            budget_truncated: false,
            dry_run: false,
            plan: Some(plan),
        };
    }
    let nodes_added = nodes.len();
    let parent = if expand {
        cut.path.clone()
    } else {
        parent_path(&selected.path)
    };
    assert(parent@ =~= attach_parent(intent, cut.path@, selected.path@));
    proof {
        if !expand && selected.path@.len() > 0 {
            lemma_node_at_prefix(old_root, selected.path@);
        }
    }
    assert(node_at(old_root, parent@) is Some);
    assert(parent@.subrange(0, parent@.len() as int) =~= parent@);
    extend_at(root, &parent, 0, nodes);
    BranchReport {
        nodes_added,
        updated_at: Some(updated_at),
        warnings,
        budget_truncated,
        dry_run: false,
        plan: Some(plan),
    }
}

} // verus!
