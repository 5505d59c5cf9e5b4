//! Hop cards of the exported diagrams: node addresses and card rows.

use vstd::prelude::*;

use crate::explore::fork_summary::{
    copy_hop, same_hop, BranchIntent, HopOutcome, NodeOrigin, TraceHop, TraceNode, TraceTree,
};
use crate::hop_display::opt_text;
use crate::node_path::{copy_indices, dotted, NodePath};
use crate::text::{decimal, owned, push_decimal, push_sep_decimals, push_str};

verus! {

/// The `data-path` of a card: the tree index, then `.` and each child index.
pub fn path_attribute(tree: usize, path: &Vec<usize>) -> (s: String)
    ensures
        s@ == dotted(tree, path@),
{
    let mut out = String::new();
    push_decimal(&mut out, tree as u64);
    push_sep_decimals(&mut out, path, '.');
    assert(out@ =~= dotted(tree, path@));
    out
}

/// One row of a hop card.
#[derive(Debug, Clone)]
pub struct CardRow {
    pub label: String,
    pub value: Option<String>,
    pub kind: RowKind,
}

/// How a card row is drawn.
#[derive(Debug, Clone, Copy, PartialEq, Eq, Structural)]
pub enum RowKind {
    Plain,
    Strong,
    Dim,
    Good,
    Bad,
    Rtt,
}

impl CardRow {
    /// A row with a label and a value.
    pub fn labeled(label: &str, value: String, kind: RowKind) -> (r: Self)
        ensures
            r.label@ == label@,
            r.value matches Some(v) && v@ == value@,
            r.kind == kind,
    {
        CardRow { label: owned(label), value: Some(value), kind }
    }

    /// A row with a value and an empty label.
    pub fn unlabeled(value: String, kind: RowKind) -> (r: Self)
        ensures
            r.label@ == Seq::<char>::empty(),
            r.value matches Some(v) && v@ == value@,
            r.kind == kind,
    {
        CardRow { label: String::new(), value: Some(value), kind }
    }

    /// The `rtt` row, whose bar is drawn rather than written.
    pub fn rtt() -> (r: Self)
        ensures
            r.label@ == "rtt"@,
            r.value is None,
            r.kind == RowKind::Rtt,
    {
        CardRow { label: owned("rtt"), value: None, kind: RowKind::Rtt }
    }
}

/// `REFERRAL`, `ANSWERED` or `FAILED`.
pub open spec fn outcome_label_text(o: HopOutcome) -> Seq<char> {
    match o {
        HopOutcome::Referral => "REFERRAL"@,
        HopOutcome::Answered => "ANSWERED"@,
        HopOutcome::Failed { .. } => "FAILED"@,
    }
}

/// The card header's outcome label.
pub fn outcome_label(outcome: &HopOutcome) -> (s: &'static str)
    ensures
        s@ == outcome_label_text(*outcome),
{
    match outcome {
        HopOutcome::Referral => "REFERRAL",
        HopOutcome::Answered => "ANSWERED",
        HopOutcome::Failed { .. } => "FAILED",
    }
}

/// `KIND: DETAIL` of a failed query.
pub open spec fn failure_detail_text(h: TraceHop) -> Option<Seq<char>> {
    match h.outcome {
        HopOutcome::Failed { kind, detail } => Some(kind@ + ": "@ + detail@),
        _ => None,
    }
}

/// The error row's text, for a failed query.
pub fn failure_detail(hop: &TraceHop) -> (r: Option<String>)
    ensures
        match failure_detail_text(*hop) {
            Some(t) => r matches Some(s) && s@ == t,
            None => r is None,
        },
{
    match &hop.outcome {
        HopOutcome::Failed { kind, detail } => {
            let mut s = owned(kind.as_str());
            push_str(&mut s, ": ");
            push_str(&mut s, detail.as_str());
            Some(s)
        },
        _ => None,
    }
}

/// `NAME RDATA` of the first answer record of an answered query.
pub open spec fn answer_text(h: TraceHop) -> Option<Seq<char>> {
    if h.outcome is Answered && h.answers@.len() > 0 {
        Some(h.answers@[0].name@ + " "@ + h.answers@[0].rdata@)
    } else {
        None
    }
}

/// The answer row's text, for an answered query with an answer.
pub fn answer_rdata(hop: &TraceHop) -> (r: Option<String>)
    ensures
        match answer_text(*hop) {
            Some(t) => r matches Some(s) && s@ == t,
            None => r is None,
        },
{
    match &hop.outcome {
        HopOutcome::Answered => {},
        _ => {
            return None;
        },
    }
    if hop.answers.len() == 0 {
        return None;
    }
    let record = &hop.answers[0];
    let mut s = owned(record.name.as_str());
    push_str(&mut s, " ");
    push_str(&mut s, record.rdata.as_str());
    Some(s)
}

/// A card row as its label, value and kind.
pub open spec fn row_view(r: CardRow) -> (Seq<char>, Option<Seq<char>>, RowKind) {
    (r.label@, opt_text(r.value), r.kind)
}

pub open spec fn row_views(rows: Seq<CardRow>) -> Seq<(Seq<char>, Option<Seq<char>>, RowKind)> {
    rows.map_values(|r: CardRow| row_view(r))
}

/// The rows of a query's card: server name and address, query, protocol
/// (marked when cached), the error or the rcode, the NSID when present,
/// the first answer of an answered query, the referral NS count when
/// there is a referral, and the RTT bar.
pub open spec fn card_row_views(h: TraceHop) -> Seq<(Seq<char>, Option<Seq<char>>, RowKind)> {
    seq![
        ("server"@, Some(match h.server_name { Some(n) => n@, None => "-"@ }), RowKind::Strong),
        (Seq::<char>::empty(), Some(h.server@), RowKind::Dim),
        ("query"@, Some(h.qname@ + "  "@ + h.qtype@), RowKind::Plain),
        ("proto"@, Some(h.transport@ + if h.from_cache { "   [cache]"@ } else { Seq::<char>::empty() }), RowKind::Plain),
    ] + (match failure_detail_text(h) {
        Some(d) => seq![("error"@, Some(d), RowKind::Bad)],
        None => seq![("rcode"@, Some(h.rcode@), RowKind::Plain)],
    }) + (match h.nsid {
        Some(n) => seq![("nsid"@, Some(n@), RowKind::Dim)],
        None => Seq::<(Seq<char>, Option<Seq<char>>, RowKind)>::empty(),
    }) + (match answer_text(h) {
        Some(a) => seq![("answer"@, Some(a), RowKind::Good)],
        None => Seq::<(Seq<char>, Option<Seq<char>>, RowKind)>::empty(),
    }) + (if h.referral_ns@.len() > 0 {
        seq![("referral"@, Some(decimal(h.referral_ns@.len()) + " NS"@), RowKind::Dim)]
    } else {
        Seq::<(Seq<char>, Option<Seq<char>>, RowKind)>::empty()
    }) + seq![("rtt"@, None, RowKind::Rtt)]
}

fn push_row(rows: &mut Vec<CardRow>, row: CardRow)
    ensures
        row_views(final(rows)@) == row_views(old(rows)@).push(row_view(row)),
{
    rows.push(row);
    assert(row_views(rows@) =~= row_views(old(rows)@).push(row_view(row)));
}

/// The rows of a query's card.
pub fn card_rows(hop: &TraceHop) -> (rows: Vec<CardRow>)
    ensures
        row_views(rows@) == card_row_views(*hop),
{
    let mut rows: Vec<CardRow> = Vec::new();
    let name = match &hop.server_name {
        Some(n) => owned(n.as_str()),
        None => owned("-"),
    };
    push_row(&mut rows, CardRow::labeled("server", name, RowKind::Strong));
    push_row(&mut rows, CardRow::unlabeled(owned(hop.server.as_str()), RowKind::Dim));
    let mut query = owned(hop.qname.as_str());
    push_str(&mut query, "  ");
    push_str(&mut query, hop.qtype.as_str());
    push_row(&mut rows, CardRow::labeled("query", query, RowKind::Plain));
    let mut proto = owned(hop.transport.as_str());
    if hop.from_cache {
        push_str(&mut proto, "   [cache]");
    }
    push_row(&mut rows, CardRow::labeled("proto", proto, RowKind::Plain));
    match failure_detail(hop) {
        Some(detail) => push_row(&mut rows, CardRow::labeled("error", detail, RowKind::Bad)),
        None => push_row(&mut rows, CardRow::labeled("rcode", owned(hop.rcode.as_str()), RowKind::Plain)),
    }
    if let Some(nsid) = &hop.nsid {
        push_row(&mut rows, CardRow::labeled("nsid", owned(nsid.as_str()), RowKind::Dim));
    }
    if let Some(answer) = answer_rdata(hop) {
        push_row(&mut rows, CardRow::labeled("answer", answer, RowKind::Good));
    }
    if hop.referral_ns.len() > 0 {
        let mut count = String::new();
        push_decimal(&mut count, hop.referral_ns.len() as u64);
        push_str(&mut count, " NS");
        push_row(&mut rows, CardRow::labeled("referral", count, RowKind::Dim));
    }
    push_row(&mut rows, CardRow::rtt());
    assert(row_views(rows@) =~= card_row_views(*hop));
    rows
}

/// One card of a diagram: a node, where it stands, and its query.
#[derive(Debug)]
pub struct HopCard {
    pub path: NodePath,
    pub path_attr: String,
    pub display_index: usize,
    pub depth: usize,
    pub hop: TraceHop,
    pub is_branch: bool,
    pub branch_label: Option<String>,
}

/// The label of a branched node: what the branch was asked for.
pub open spec fn branch_label_text(o: NodeOrigin) -> Option<Seq<char>> {
    match o {
        NodeOrigin::Trace => None,
        NodeOrigin::Branch { intent, .. } => Some(
            match intent {
                BranchIntent::AlternateServer => "alternate_server"@,
                BranchIntent::ExpandCut => "expand_cut"@,
            },
        ),
    }
}

fn branch_meta(origin: &NodeOrigin) -> (r: (bool, Option<String>))
    ensures
        r.0 == (origin is Branch),
        opt_text(r.1) == branch_label_text(*origin),
{
    match origin {
        NodeOrigin::Trace => (false, None),
        NodeOrigin::Branch { intent, .. } => {
            let label = match intent {
                BranchIntent::AlternateServer => "alternate_server",
                BranchIntent::ExpandCut => "expand_cut",
            };
            (true, Some(owned(label)))
        },
    }
}

/// The nodes below `n` in display order, each with its path: a node
/// before its children, children in order.
pub open spec fn preorder(n: TraceNode, path: Seq<usize>) -> Seq<(Seq<usize>, TraceNode)>
    decreases n, 0nat,
{
    seq![(path, n)] + preorder_list(n.children@, 0, path)
}

pub open spec fn preorder_list(cs: Seq<TraceNode>, i: int, path: Seq<usize>) -> Seq<(Seq<usize>, TraceNode)>
    decreases cs, if 0 <= i < cs.len() { (cs.len() - i) as nat } else { 0 },
{
    if 0 <= i < cs.len() {
        preorder(cs[i], path.push(i as usize)) + preorder_list(cs, i + 1, path)
    } else {
        Seq::empty()
    }
}

/// `c` is the card of the node `e` at display index `k` of tree `tree`.
pub open spec fn card_of(c: HopCard, k: int, e: (Seq<usize>, TraceNode), tree: usize) -> bool {
    &&& c.path.tree == tree
    &&& c.path.path@ == e.0
    &&& c.path_attr@ == dotted(tree, e.0)
    &&& c.display_index == k
    &&& c.depth == e.0.len()
    &&& same_hop(c.hop, e.1.hop)
    &&& c.is_branch == (e.1.origin is Branch)
    &&& opt_text(c.branch_label) == branch_label_text(e.1.origin)
}

fn collect_cards(n: &TraceNode, path: &Vec<usize>, tree: usize, cards: &mut Vec<HopCard>)
    ensures
        final(cards)@.len() == old(cards)@.len() + preorder(*n, path@).len(),
        forall|j: int| 0 <= j < old(cards)@.len() ==> #[trigger] final(cards)@[j] == old(cards)@[j],
        forall|j: int|
            old(cards)@.len() <= j < final(cards)@.len() ==> card_of(
                #[trigger] final(cards)@[j],
                j,
                preorder(*n, path@)[j - old(cards)@.len()],
                tree,
            ),
    decreases n, 0nat,
{
    let (is_branch, branch_label) = branch_meta(&n.origin);
    let card = HopCard {
        path: NodePath { tree, path: copy_indices(path) },
        path_attr: path_attribute(tree, path),
        display_index: cards.len(),
        depth: path.len(),
        hop: copy_hop(&n.hop),
        is_branch,
        branch_label,
    };
    cards.push(card);
    let ghost mid = cards@;
    collect_children(&n.children, 0, path, tree, cards);
    proof {
        let all = preorder(*n, path@);
        assert(all == seq![(path@, *n)] + preorder_list(n.children@, 0, path@));
        assert forall|j: int|
            old(cards)@.len() <= j < cards@.len() implies card_of(
                #[trigger] cards@[j],
                j,
                all[j - old(cards)@.len()],
                tree,
            ) by {
            if j == old(cards)@.len() {
                assert(cards@[j] == mid[j]);
            }
        }
    }
}

fn collect_children(cs: &Vec<TraceNode>, i: usize, path: &Vec<usize>, tree: usize, cards: &mut Vec<HopCard>)
    requires
        i <= cs@.len(),
    ensures
        final(cards)@.len() == old(cards)@.len() + preorder_list(cs@, i as int, path@).len(),
        forall|j: int| 0 <= j < old(cards)@.len() ==> #[trigger] final(cards)@[j] == old(cards)@[j],
        forall|j: int|
            old(cards)@.len() <= j < final(cards)@.len() ==> card_of(
                #[trigger] final(cards)@[j],
                j,
                preorder_list(cs@, i as int, path@)[j - old(cards)@.len()],
                tree,
            ),
    decreases cs@, cs@.len() - i,
{
    if i >= cs.len() {
        return;
    }
    let mut child_path = copy_indices(path);
    child_path.push(i);
    let ghost start = cards@.len();
    collect_cards(&cs[i], &child_path, tree, cards);
    let ghost mid = cards@;
    collect_children(cs, i + 1, path, tree, cards);
    proof {
        let first = preorder(cs@[i as int], path@.push(i));
        let rest = preorder_list(cs@, i + 1, path@);
        assert(preorder_list(cs@, i as int, path@) == first + rest);
        assert forall|j: int|
            old(cards)@.len() <= j < cards@.len() implies card_of(
                #[trigger] cards@[j],
                j,
                preorder_list(cs@, i as int, path@)[j - old(cards)@.len()],
                tree,
            ) by {
            if j < mid.len() {
                assert(cards@[j] == mid[j]);
            }
        }
    }
}

/// The cards of a trace in display order, each numbered by its place and
/// marked when its node came from a branch.
pub fn build_cards(tree: &TraceTree, tree_index: usize) -> (cards: Vec<HopCard>)
    ensures
        cards@.len() == preorder(tree.root, Seq::empty()).len(),
        forall|k: int|
            0 <= k < cards@.len() ==> card_of(#[trigger] cards@[k], k, preorder(tree.root, Seq::empty())[k], tree_index),
{
    let mut cards: Vec<HopCard> = Vec::new();
    let root: Vec<usize> = Vec::new();
    collect_cards(&tree.root, &root, tree_index, &mut cards);
    assert(root@ =~= Seq::<usize>::empty());
    cards
}

} // verus!
