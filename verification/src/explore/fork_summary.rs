//! The comparison of the sibling paths below a fork: per-path hop counts,
//! timings and outcomes, the timing baseline, the referral NS sets and
//! whether the answers agree.

use vstd::prelude::*;
use vstd::multiset::Multiset;

use crate::explore::compare_screen::{truncate, truncated};
use crate::explore::detail::{endpoint_text, format_server_endpoint, opt_str_view};
use crate::explore::hop_identity::{push_spaces, spaces};
use crate::explore::path_summary::{
    compare_fork_for, fork_for_compare, format_hop_timing, format_referral_delta_column,
    hop_timing_text, referral_delta_text, referral_header, referral_header_line, AnswerSummary,
    HopTiming, ReferralDiff, ReferralSummary,
};
use crate::explore::tree::{height, TraceShape};
use crate::hop_display::opt_text;
use crate::node_path::{copy_indices, dotted, format_path, NodePath};
use crate::name_set::{
    lists_set, name_set, names_union, names_within, names_without, same_names, strictly_sorted,
    text_equal,
};
use crate::text::{
    decimal, join_line_vec, join_lines, join_strings, join_with, owned, push_decimal, push_line,
    push_str, views,
};

verus! {

/// How a query ended: a referral, an answer, or a failure with its error
/// kind and detail.
#[derive(Debug, Clone, PartialEq, Eq)]
pub enum HopOutcome {
    Referral,
    Answered,
    Failed { kind: String, detail: String },
}

/// One answer record as text: owner name, type and data.
#[derive(Debug, Clone, PartialEq, Eq)]
pub struct AnswerRecord {
    pub name: String,
    pub rtype: String,
    pub rdata: String,
}

/// One query of a trace tree. `root_name` is the root server's name when
/// `server` is a root server's address.
#[derive(Debug, Clone, PartialEq, Eq)]
pub struct TraceHop {
    pub zone: String,
    pub server: String,
    pub server_name: Option<String>,
    pub root_name: Option<String>,
    pub qname: String,
    pub qtype: String,
    pub transport: String,
    pub rtt_ms: u64,
    pub rcode: String,
    pub nsid: Option<String>,
    pub ede_code: Option<u16>,
    pub ede_text: Option<String>,
    pub referral_ns: Vec<String>,
    pub glue: Vec<String>,
    pub answers: Vec<AnswerRecord>,
    pub from_cache: bool,
    pub outcome: HopOutcome,
}

/// A trace: the query it answered and its tree of queries.
#[derive(Debug)]
pub struct TraceTree {
    pub qname: String,
    pub qtype: String,
    pub root: TraceNode,
}

/// What a branch was asked for: another server at the zone cut, or every
/// server not yet queried there.
#[derive(Debug, Clone, Copy, PartialEq, Eq, Structural)]
pub enum BranchIntent {
    AlternateServer,
    ExpandCut,
}

/// Where a node came from: the trace itself, or a later branch at `at`.
#[derive(Debug, Clone)]
pub enum NodeOrigin {
    Trace,
    Branch { at: NodePath, intent: BranchIntent, at_time: String },
}

/// A node of a trace tree: its query, where it came from, and the queries
/// that followed it.
#[derive(Debug)]
pub struct TraceNode {
    pub hop: TraceHop,
    pub origin: NodeOrigin,
    pub children: Vec<TraceNode>,
}

/// One sibling path below a fork.
#[derive(Debug, Clone)]
pub struct PathSummary {
    pub path: NodePath,
    pub label: String,
    pub hop_count: usize,
    pub dns_rtt_per_hop: Vec<HopTiming>,
    pub dns_rtt_total_ms: u64,
    pub dns_rtt_delta_ms: Option<u64>,
    pub icmp_rtt_ms: Option<u64>,
    pub outcome: String,
    pub failed: bool,
    pub referral_ns: Vec<String>,
    pub referral_diff: ReferralDiff,
    pub cache_served_hops: Vec<usize>,
}

/// The comparison of the paths below one fork.
#[derive(Debug, Clone)]
pub struct ForkComparison {
    pub fork: NodePath,
    pub fork_zone: String,
    pub fork_qname: String,
    pub answers: AnswerSummary,
    pub referral: ReferralSummary,
    pub paths: Vec<PathSummary>,
}

/// The node reached from `n` by taking the child indices of `path` in turn.
pub open spec fn node_at(n: TraceNode, path: Seq<usize>) -> Option<TraceNode>
    decreases path.len(),
{
    if path.len() == 0 {
        Some(n)
    } else if path[0] < n.children@.len() {
        node_at(n.children@[path[0] as int], path.drop_first())
    } else {
        None
    }
}

/// The queries of a path: the node's, then those of its first child, and
/// so on down to a leaf.
pub open spec fn chain(n: TraceNode) -> Seq<TraceHop>
    decreases n,
{
    if n.children@.len() == 0 {
        seq![n.hop]
    } else {
        seq![n.hop] + chain(n.children@[0])
    }
}

/// The summed response times of the queries.
pub open spec fn rtt_total(hops: Seq<TraceHop>) -> nat
    decreases hops.len(),
{
    if hops.len() == 0 {
        0
    } else {
        rtt_total(hops.drop_last()) + hops.last().rtt_ms as nat
    }
}

/// The positions of the queries answered from the cache, in order.
pub open spec fn cache_positions(hops: Seq<TraceHop>) -> Seq<usize>
    decreases hops.len(),
{
    if hops.len() == 0 {
        Seq::empty()
    } else {
        let rest = cache_positions(hops.drop_last());
        if hops.last().from_cache {
            rest.push((hops.len() - 1) as usize)
        } else {
            rest
        }
    }
}

/// How a query ended: `KIND` or `KIND: DETAIL` when it failed, else its
/// response code.
pub open spec fn outcome_of(h: TraceHop) -> Seq<char> {
    match h.outcome {
        HopOutcome::Failed { kind, detail } => if detail@.len() == 0 {
            kind@
        } else {
            kind@ + ": "@ + detail@
        },
        _ => h.rcode@,
    }
}

/// The label of a path: the endpoint of its first query.
pub open spec fn label_of(h: TraceHop) -> Seq<char> {
    endpoint_text(h.server@, opt_text(h.server_name), opt_text(h.root_name))
}

/// The last query of a path.
pub open spec fn leaf_hop(n: TraceNode) -> TraceHop {
    chain(n).last()
}

/// `t` records the zone, time and cache flag of `h`.
pub open spec fn timing_of(t: HopTiming, h: TraceHop) -> bool {
    t.zone@ == h.zone@ && t.rtt_ms == h.rtt_ms && t.from_cache == h.from_cache
}

/// The part of a path summary that depends on the path alone.
pub open spec fn summarizes(p: PathSummary, tree: usize, path: Seq<usize>, c: TraceNode) -> bool {
    let hops = chain(c);
    &&& p.path.tree == tree
    &&& p.path.path@ == path
    &&& p.label@ == label_of(c.hop)
    &&& p.hop_count == hops.len()
    &&& p.dns_rtt_per_hop@.len() == hops.len()
    &&& forall|k: int| 0 <= k < hops.len() ==> timing_of(#[trigger] p.dns_rtt_per_hop@[k], hops[k])
    &&& p.dns_rtt_total_ms == rtt_total(hops)
    &&& p.icmp_rtt_ms is None
    &&& p.outcome@ == outcome_of(leaf_hop(c))
    &&& p.failed == (leaf_hop(c).outcome is Failed)
    &&& views(p.referral_ns@) == views(c.hop.referral_ns@)
    &&& p.cache_served_hops@ == cache_positions(hops)
}

/// Response times add up over a concatenation.
pub proof fn lemma_rtt_total_append(a: Seq<TraceHop>, b: Seq<TraceHop>)
    ensures
        rtt_total(a + b) == rtt_total(a) + rtt_total(b),
    decreases b.len(),
{
    if b.len() == 0 {
        assert(a + b =~= a);
    } else {
        lemma_rtt_total_append(a, b.drop_last());
        assert((a + b).drop_last() =~= a + b.drop_last());
    }
}

/// The text of a failed or answered query's outcome.
fn outcome_text(h: &TraceHop) -> (s: String)
    ensures
        s@ == outcome_of(*h),
{
    match &h.outcome {
        HopOutcome::Failed { kind, detail } => {
            let mut s = kind.clone();
            if detail.unicode_len() > 0 {
                s.append(": ");
                s.append(detail.as_str());
            }
            s
        },
        _ => h.rcode.clone(),
    }
}

fn opt_str(o: &Option<String>) -> (r: Option<&str>)
    ensures
        opt_str_view(r) == opt_text(*o),
{
    match o {
        Some(s) => Some(s.as_str()),
        None => None,
    }
}

pub fn copy_names(v: &Vec<String>) -> (r: Vec<String>)
    ensures
        views(r@) == views(v@),
{
    let mut r: Vec<String> = Vec::new();
    let mut i: usize = 0;
    while i < v.len()
        invariant
            i <= v@.len(),
            views(r@) == views(v@).subrange(0, i as int),
        decreases v.len() - i,
    {
        let s = v[i].clone();
        proof {
            crate::text::lemma_views_push(r@, s);
        }
        r.push(s);
        i = i + 1;
        assert(views(r@) =~= views(v@).subrange(0, i as int));
    }
    assert(views(v@).subrange(0, i as int) =~= views(v@));
    r
}

/// Whether a query failed.
pub fn is_failed(h: &TraceHop) -> (r: bool)
    ensures
        r == (h.outcome is Failed),
{
    match &h.outcome {
        HopOutcome::Failed { .. } => true,
        _ => false,
    }
}

/// The summary of the path that starts at `child`, at `path` of tree
/// `tree`; its timing delta and referral difference are filled in by the
/// fork.
fn summarize_child(tree: usize, path: Vec<usize>, child: &TraceNode) -> (p: PathSummary)
    requires
        rtt_total(chain(*child)) <= u64::MAX,
    ensures
        summarizes(p, tree, path@, *child),
        p.dns_rtt_delta_ms is None,
        p.referral_diff.only_here@.len() == 0,
        p.referral_diff.missing@.len() == 0,
{
    let ghost all = chain(*child);
    let mut timings: Vec<HopTiming> = Vec::new();
    let mut cached: Vec<usize> = Vec::new();
    let mut total: u64 = 0;
    let mut current = child;
    let ghost mut done: Seq<TraceHop> = Seq::empty();
    assert(all =~= done + chain(*current));
    loop
        invariant_except_break
            all == done + chain(*current),
        invariant
            all == chain(*child),
            rtt_total(all) <= u64::MAX,
            timings@.len() == done.len(),
            forall|k: int| 0 <= k < done.len() ==> timing_of(#[trigger] timings@[k], done[k]),
            total == rtt_total(done),
            cached@ == cache_positions(done),
        ensures
            all == done,
            done.len() > 0,
            done.last() == current.hop,
            current.children@.len() == 0,
        decreases chain(*current).len(),
    {
        let h = &current.hop;
        let ghost next = done.push(*h);
        proof {
            assert(chain(*current)[0] == *h);
            lemma_rtt_total_append(next, chain(*current).drop_first());
            assert(all =~= next + chain(*current).drop_first());
            assert(next.drop_last() =~= done);
        }
        if h.from_cache {
            cached.push(timings.len());
        }
        timings.push(HopTiming { zone: h.zone.clone(), rtt_ms: h.rtt_ms, from_cache: h.from_cache });
        total = total + h.rtt_ms;
        proof {
            done = next;
        }
        if current.children.len() == 0 {
            assert(chain(*current).drop_first() =~= Seq::<TraceHop>::empty());
            assert(all =~= done);
            break;
        }
        proof {
            assert(chain(*current).drop_first() =~= chain(current.children@[0]));
        }
        current = &current.children[0];
    }
    PathSummary {
        path: NodePath { tree, path },
        label: format_server_endpoint(
            child.hop.server.as_str(),
            opt_str(&child.hop.server_name),
            opt_str(&child.hop.root_name),
        ),
        hop_count: timings.len(),
        dns_rtt_per_hop: timings,
        dns_rtt_total_ms: total,
        dns_rtt_delta_ms: None,
        icmp_rtt_ms: None,
        outcome: outcome_text(&current.hop),
        failed: is_failed(&current.hop),
        referral_ns: copy_names(&child.hop.referral_ns),
        referral_diff: ReferralDiff { only_here: Vec::new(), missing: Vec::new() },
        cache_served_hops: cached,
    }
}

/// An answer record as three texts.
pub open spec fn record_view(r: AnswerRecord) -> (Seq<char>, Seq<char>, Seq<char>) {
    (r.name@, r.rtype@, r.rdata@)
}

pub open spec fn record_views(v: Seq<AnswerRecord>) -> Seq<(Seq<char>, Seq<char>, Seq<char>)> {
    v.map_values(|r: AnswerRecord| record_view(r))
}

/// What two leaves must share for their paths to agree: the error kind
/// and detail of a failure, or the response code and the answer records
/// (in any order) of a response.
pub open spec fn signature(h: TraceHop) -> (
    Seq<char>,
    Seq<char>,
    Multiset<(Seq<char>, Seq<char>, Seq<char>)>,
) {
    match h.outcome {
        HopOutcome::Failed { kind, detail } => (kind@, detail@, Multiset::empty()),
        _ => (h.rcode@, Seq::empty(), record_views(h.answers@).to_multiset()),
    }
}

/// The sibling paths agree: every leaf has the first leaf's signature, and
/// that signature is not a failure with a detail.
pub open spec fn answers_agree(cs: Seq<TraceNode>) -> bool {
    cs.len() == 0 || (
    (forall|i: int| 0 <= i < cs.len() ==> signature(leaf_hop(#[trigger] cs[i])) == signature(leaf_hop(cs[0])))
        && signature(leaf_hop(cs[0])).1.len() == 0)
}

fn same_record(a: &AnswerRecord, b: &AnswerRecord) -> (r: bool)
    ensures
        r == (record_view(*a) == record_view(*b)),
{
    text_equal(a.name.as_str(), b.name.as_str()) && text_equal(a.rtype.as_str(), b.rtype.as_str())
        && text_equal(a.rdata.as_str(), b.rdata.as_str())
}

pub open spec fn picked(bv: Seq<(Seq<char>, Seq<char>, Seq<char>)>, rest: Seq<usize>) -> Seq<
    (Seq<char>, Seq<char>, Seq<char>),
> {
    rest.map_values(|j: usize| bv[j as int])
}

/// Whether two lists hold the same answer records, each as often.
fn same_answers(a: &Vec<AnswerRecord>, b: &Vec<AnswerRecord>) -> (r: bool)
    ensures
        r == (record_views(a@).to_multiset() == record_views(b@).to_multiset()),
{
    broadcast use vstd::multiset::group_multiset_axioms;
    broadcast use vstd::seq_lib::group_to_multiset_ensures;

    let ghost av = record_views(a@);
    let ghost bv = record_views(b@);
    let mut rest: Vec<usize> = Vec::new();
    let mut k: usize = 0;
    while k < b.len()
        invariant
            k <= b@.len(),
            rest@ == Seq::new(k as nat, |j: int| j as usize),
        decreases b.len() - k,
    {
        rest.push(k);
        k = k + 1;
        assert(rest@ =~= Seq::new(k as nat, |j: int| j as usize));
    }
    assert(picked(bv, rest@) =~= bv);
    let mut i: usize = 0;
    assert(av.subrange(0, 0) =~= Seq::<(Seq<char>, Seq<char>, Seq<char>)>::empty());
    assert(bv.to_multiset() =~= av.subrange(0, 0).to_multiset().add(picked(bv, rest@).to_multiset()));
    while i < a.len()
        invariant
            i <= a@.len(),
            av == record_views(a@),
            bv == record_views(b@),
            forall|j: int| 0 <= j < rest@.len() ==> #[trigger] rest@[j] < b@.len(),
            bv.to_multiset() == av.subrange(0, i as int).to_multiset().add(picked(bv, rest@).to_multiset()),
        decreases a.len() - i,
    {
        let ghost x = av[i as int];
        let ghost pv = picked(bv, rest@);
        let mut j: usize = 0;
        let mut found = false;
        while j < rest.len()
            invariant
                j <= rest@.len(),
                pv == picked(bv, rest@),
                forall|q: int| 0 <= q < rest@.len() ==> #[trigger] rest@[q] < b@.len(),
                av == record_views(a@),
                bv == record_views(b@),
                i < a@.len(),
                x == av[i as int],
                !found ==> forall|q: int| 0 <= q < j ==> pv[q] != x,
                found ==> j < rest@.len() && pv[j as int] == x,
            ensures
                !found ==> j == rest@.len() && forall|q: int| 0 <= q < j ==> pv[q] != x,
                found ==> j < rest@.len() && pv[j as int] == x,
            decreases rest.len() - j,
        {
            if same_record(&a[i], &b[rest[j]]) {
                found = true;
                break;
            }
            j = j + 1;
        }
        assert(av.subrange(0, i + 1) =~= av.subrange(0, i as int).push(x));
        if !found {
            proof {
                assert(!pv.contains(x));
                vstd::seq_lib::to_multiset_contains(pv, x);
                assert(pv.to_multiset().count(x) == 0);
                vstd::seq_lib::to_multiset_build(av.subrange(0, i as int), x);
                vstd::seq_lib::lemma_multiset_commutative(av.subrange(0, i + 1), av.subrange(i + 1, av.len() as int));
                assert(av =~= av.subrange(0, i + 1) + av.subrange(i + 1, av.len() as int));
                assert(av.to_multiset().count(x) > bv.to_multiset().count(x));
            }
            return false;
        }
        proof {
            assert(pv.contains(x));
            vstd::seq_lib::to_multiset_contains(pv, x);
            assert(pv.to_multiset().count(x) > 0);
            assert(picked(bv, rest@.remove(j as int)) =~= pv.remove(j as int));
            vstd::seq_lib::to_multiset_remove(pv, j as int);
            vstd::seq_lib::to_multiset_build(av.subrange(0, i as int), x);
        }
        rest.remove(j);
        proof {
            assert(bv.to_multiset() =~= av.subrange(0, i + 1).to_multiset().add(picked(bv, rest@).to_multiset()));
        }
        i = i + 1;
    }
    assert(av.subrange(0, i as int) =~= av);
    if rest.len() > 0 {
        proof {
            assert(bv.to_multiset().len() == av.to_multiset().len() + picked(bv, rest@).to_multiset().len());
            assert(picked(bv, rest@).len() > 0);
        }
        return false;
    }
    assert(picked(bv, rest@) =~= Seq::<(Seq<char>, Seq<char>, Seq<char>)>::empty());
    assert(bv.to_multiset() =~= av.to_multiset());
    true
}

/// The last query of the path that starts at `n`.
fn leaf_of(n: &TraceNode) -> (r: &TraceHop)
    ensures
        *r == leaf_hop(*n),
{
    let mut current = n;
    let ghost mut done: Seq<TraceHop> = Seq::empty();
    assert(chain(*n) =~= done + chain(*current));
    while current.children.len() > 0
        invariant
            chain(*n) == done + chain(*current),
        decreases chain(*current).len(),
    {
        proof {
            assert(chain(*current).drop_first() =~= chain(current.children@[0]));
            assert(chain(*n) =~= done.push(current.hop) + chain(current.children@[0]));
            done = done.push(current.hop);
        }
        current = &current.children[0];
    }
    assert(chain(*current) =~= seq![current.hop]);
    &current.hop
}

/// Whether two leaves have the same signature.
fn same_signature(a: &TraceHop, b: &TraceHop) -> (r: bool)
    ensures
        r == (signature(*a) == signature(*b)),
{
    broadcast use vstd::multiset::group_multiset_axioms;

    proof {
        vstd::seq_lib::to_multiset_len(record_views(a.answers@));
        vstd::seq_lib::to_multiset_len(record_views(b.answers@));
    }
    match (&a.outcome, &b.outcome) {
        (HopOutcome::Failed { kind: ka, detail: da }, HopOutcome::Failed { kind: kb, detail: db }) => {
            text_equal(ka.as_str(), kb.as_str()) && text_equal(da.as_str(), db.as_str())
        },
        (HopOutcome::Failed { kind, detail }, _) => {
            let r = text_equal(kind.as_str(), b.rcode.as_str()) && detail.unicode_len() == 0
                && b.answers.len() == 0;
            proof {
                if detail@.len() == 0 {
                    assert(detail@ =~= Seq::<char>::empty());
                }
                if b.answers@.len() == 0 {
                    assert(record_views(b.answers@) =~= Seq::<(Seq<char>, Seq<char>, Seq<char>)>::empty());
                    assert(record_views(b.answers@).to_multiset() =~= Multiset::empty());
                }
            }
            r
        },
        (_, HopOutcome::Failed { kind, detail }) => {
            let r = text_equal(a.rcode.as_str(), kind.as_str()) && detail.unicode_len() == 0
                && a.answers.len() == 0;
            proof {
                if detail@.len() == 0 {
                    assert(detail@ =~= Seq::<char>::empty());
                }
                if a.answers@.len() == 0 {
                    assert(record_views(a.answers@) =~= Seq::<(Seq<char>, Seq<char>, Seq<char>)>::empty());
                    assert(record_views(a.answers@).to_multiset() =~= Multiset::empty());
                }
            }
            r
        },
        _ => text_equal(a.rcode.as_str(), b.rcode.as_str()) && same_answers(&a.answers, &b.answers),
    }
}

/// Whether the sibling paths agree on how they ended.
fn paths_agree(children: &Vec<TraceNode>) -> (r: bool)
    ensures
        r == answers_agree(children@),
{
    if children.len() == 0 {
        return true;
    }
    let first = leaf_of(&children[0]);
    let mut i: usize = 1;
    while i < children.len()
        invariant
            1 <= i <= children@.len(),
            *first == leaf_hop(children@[0]),
            forall|k: int| 0 <= k < i ==> signature(leaf_hop(#[trigger] children@[k])) == signature(
                leaf_hop(children@[0]),
            ),
        decreases children.len() - i,
    {
        if !same_signature(leaf_of(&children[i]), first) {
            return false;
        }
        i = i + 1;
    }
    match &first.outcome {
        HopOutcome::Failed { detail, .. } => detail.unicode_len() == 0,
        _ => true,
    }
}

/// The referral NS names of a path's first query, as a set.
pub open spec fn ref_set(c: TraceNode) -> Set<Seq<char>> {
    views(c.hop.referral_ns@).to_set()
}

/// The referral sets of the paths that have one, in order. (A path that
/// failed or answered at the fork has none to compare.)
pub open spec fn comparable(cs: Seq<TraceNode>) -> Seq<Set<Seq<char>>>
    decreases cs.len(),
{
    if cs.len() == 0 {
        Seq::empty()
    } else {
        let rest = comparable(cs.drop_last());
        if cs.last().hop.referral_ns@.len() > 0 {
            rest.push(ref_set(cs.last()))
        } else {
            rest
        }
    }
}

pub open spec fn union_all(ss: Seq<Set<Seq<char>>>) -> Set<Seq<char>>
    decreases ss.len(),
{
    if ss.len() == 0 {
        Set::empty()
    } else {
        union_all(ss.drop_last()).union(ss.last())
    }
}

pub open spec fn inter_all(ss: Seq<Set<Seq<char>>>) -> Set<Seq<char>>
    decreases ss.len(),
{
    if ss.len() == 0 {
        Set::empty()
    } else if ss.len() == 1 {
        ss[0]
    } else {
        inter_all(ss.drop_last()).intersect(ss.last())
    }
}

/// The names of all comparable sets, when there are two or more.
pub open spec fn diff_union(cs: Seq<TraceNode>) -> Set<Seq<char>> {
    if comparable(cs).len() < 2 {
        Set::empty()
    } else {
        union_all(comparable(cs))
    }
}

/// The names every comparable set has, when there are two or more.
pub open spec fn diff_inter(cs: Seq<TraceNode>) -> Set<Seq<char>> {
    if comparable(cs).len() < 2 {
        Set::empty()
    } else {
        inter_all(comparable(cs))
    }
}

/// A path's referral difference: nothing when it has no referral set,
/// else its names that not all others have, and the names others have
/// that it lacks.
pub open spec fn diff_of(d: ReferralDiff, c: TraceNode, cs: Seq<TraceNode>) -> bool {
    if c.hop.referral_ns@.len() == 0 {
        d.only_here@.len() == 0 && d.missing@.len() == 0
    } else {
        &&& lists_set(views(d.only_here@), ref_set(c).difference(diff_inter(cs)))
        &&& lists_set(views(d.missing@), diff_union(cs).difference(ref_set(c)))
    }
}

/// Every set equals the first.
pub open spec fn all_same(ss: Seq<Set<Seq<char>>>) -> bool {
    forall|i: int| 0 <= i < ss.len() ==> #[trigger] ss[i] == ss[0]
}

/// The referral summary of the paths: no agreement when none is
/// comparable; the shared set when all comparable sets are equal; else
/// the union of them.
pub open spec fn summary_of(r: ReferralSummary, cs: Seq<TraceNode>) -> bool {
    let ss = comparable(cs);
    &&& r.comparable_count == ss.len()
    &&& if ss.len() == 0 {
        !r.agree && r.shared@.len() == 0 && r.union@.len() == 0
    } else if all_same(ss) {
        r.agree && lists_set(views(r.shared@), ss[0]) && r.union@.len() == 0
    } else {
        !r.agree && r.shared@.len() == 0 && lists_set(views(r.union@), union_all(ss))
    }
}

/// The path ends in a failure.
pub open spec fn path_failed(c: TraceNode) -> bool {
    leaf_hop(c).outcome is Failed
}

/// The smallest total response time of the paths that did not fail.
pub open spec fn fastest(cs: Seq<TraceNode>) -> Option<nat>
    decreases cs.len(),
{
    if cs.len() == 0 {
        None
    } else {
        let rest = fastest(cs.drop_last());
        let c = cs.last();
        if path_failed(c) {
            rest
        } else {
            let t = rtt_total(chain(c));
            match rest {
                None => Some(t),
                Some(b) => Some(if t < b { t } else { b }),
            }
        }
    }
}

/// How much slower than the fastest path a path was; none for a failed
/// path.
pub open spec fn delta_of(c: TraceNode, cs: Seq<TraceNode>) -> Option<u64> {
    if path_failed(c) {
        None
    } else {
        match fastest(cs) {
            Some(b) => {
                let t = rtt_total(chain(c));
                Some((if t >= b { t - b } else { 0 }) as u64)
            },
            None => None,
        }
    }
}

/// The totals of the paths below the node fit in 64 bits.
pub open spec fn totals_fit(cs: Seq<TraceNode>) -> bool {
    forall|i: int| 0 <= i < cs.len() ==> rtt_total(chain(#[trigger] cs[i])) <= u64::MAX
}

/// `p` is the summary of path `i` of the fork at `fork` of tree `tree`.
pub open spec fn path_entry(p: PathSummary, tree: usize, fork: Seq<usize>, i: int, cs: Seq<TraceNode>) -> bool {
    &&& summarizes(p, tree, fork.push(i as usize), cs[i])
    &&& p.dns_rtt_delta_ms == delta_of(cs[i], cs)
    &&& diff_of(p.referral_diff, cs[i], cs)
}

/// `r` compares the children of `node`, the node at `fork` of tree `tree`.
pub open spec fn compares(r: ForkComparison, tree: usize, fork: Seq<usize>, node: TraceNode) -> bool {
    let cs = node.children@;
    &&& r.fork.tree == tree
    &&& r.fork.path@ == fork
    &&& r.fork_zone@ == node.hop.zone@
    &&& r.fork_qname@ == node.hop.qname@
    &&& r.answers.agree == answers_agree(cs)
    &&& summary_of(r.referral, cs)
    &&& r.paths@.len() == cs.len()
    &&& forall|i: int| 0 <= i < cs.len() ==> path_entry(#[trigger] r.paths@[i], tree, fork, i, cs)
}

/// The node at `path` below `root`.
pub fn trace_node_at<'a>(root: &'a TraceNode, path: &Vec<usize>) -> (r: Option<&'a TraceNode>)
    ensures
        match node_at(*root, path@) {
            Some(n) => r == Some(&n),
            None => r is None,
        },
{
    let mut node = root;
    let mut k: usize = 0;
    assert(path@.subrange(0, path@.len() as int) =~= path@);
    while k < path.len()
        invariant
            k <= path.len(),
            node_at(*root, path@) == node_at(*node, path@.subrange(k as int, path@.len() as int)),
        decreases path.len() - k,
    {
        let idx = path[k];
        let ghost rest = path@.subrange(k as int, path@.len() as int);
        if idx >= node.children.len() {
            return None;
        }
        assert(rest.drop_first() =~= path@.subrange(k + 1, path@.len() as int));
        node = &node.children[idx];
        k = k + 1;
    }
    assert(path@.subrange(path@.len() as int, path@.len() as int) =~= Seq::<usize>::empty());
    Some(node)
}

/// The summaries of the children of the fork at `fork`, before deltas and
/// referral differences.
fn base_summaries(fork: &NodePath, cs: &Vec<TraceNode>) -> (r: Vec<PathSummary>)
    requires
        totals_fit(cs@),
    ensures
        r@.len() == cs@.len(),
        forall|i: int|
            0 <= i < cs@.len() ==> {
                &&& summarizes(#[trigger] r@[i], fork.tree, fork.path@.push(i as usize), cs@[i])
                &&& r@[i].dns_rtt_delta_ms is None
                &&& r@[i].referral_diff.only_here@.len() == 0
                &&& r@[i].referral_diff.missing@.len() == 0
            },
{
    let mut r: Vec<PathSummary> = Vec::new();
    let mut i: usize = 0;
    while i < cs.len()
        invariant
            i <= cs@.len(),
            totals_fit(cs@),
            r@.len() == i,
            forall|k: int|
                0 <= k < i ==> {
                    &&& summarizes(#[trigger] r@[k], fork.tree, fork.path@.push(k as usize), cs@[k])
                    &&& r@[k].dns_rtt_delta_ms is None
                    &&& r@[k].referral_diff.only_here@.len() == 0
                    &&& r@[k].referral_diff.missing@.len() == 0
                },
        decreases cs.len() - i,
    {
        let mut path = copy_indices(&fork.path);
        path.push(i);
        assert(rtt_total(chain(cs@[i as int])) <= u64::MAX);
        let p = summarize_child(fork.tree, path, &cs[i]);
        r.push(p);
        i = i + 1;
    }
    r
}

/// The smallest total of the paths that did not fail.
fn fastest_total(cs: &Vec<TraceNode>, base: &Vec<PathSummary>) -> (r: Option<u64>)
    requires
        base@.len() == cs@.len(),
        forall|i: int|
            0 <= i < cs@.len() ==> #[trigger] base@[i].dns_rtt_total_ms == rtt_total(chain(cs@[i]))
                && base@[i].failed == path_failed(cs@[i]),
    ensures
        match fastest(cs@) {
            Some(b) => r == Some(b as u64) && b <= u64::MAX,
            None => r is None,
        },
{
    let mut best: Option<u64> = None;
    let mut i: usize = 0;
    assert(cs@.subrange(0, 0) =~= Seq::<TraceNode>::empty());
    while i < base.len()
        invariant
            i <= base@.len(),
            base@.len() == cs@.len(),
            forall|k: int|
                0 <= k < cs@.len() ==> #[trigger] base@[k].dns_rtt_total_ms == rtt_total(chain(cs@[k]))
                    && base@[k].failed == path_failed(cs@[k]),
            match fastest(cs@.subrange(0, i as int)) {
                Some(b) => best == Some(b as u64) && b <= u64::MAX,
                None => best is None,
            },
        decreases base.len() - i,
    {
        let ghost pre = cs@.subrange(0, i as int);
        assert(cs@.subrange(0, i + 1).drop_last() =~= pre);
        assert(cs@.subrange(0, i + 1).last() == cs@[i as int]);
        assert(base@[i as int].dns_rtt_total_ms == rtt_total(chain(cs@[i as int])));
        if !base[i].failed {
            let t = base[i].dns_rtt_total_ms;
            best = match best {
                None => Some(t),
                Some(b) => Some(if t < b { t } else { b }),
            };
        }
        i = i + 1;
    }
    assert(cs@.subrange(0, i as int) =~= cs@);
    best
}

/// The sorted referral set of each path.
fn referral_sets(base: &Vec<PathSummary>) -> (r: Vec<Vec<String>>)
    ensures
        r@.len() == base@.len(),
        forall|i: int|
            0 <= i < base@.len() ==> lists_set(
                views(#[trigger] r@[i]@),
                views(base@[i].referral_ns@).to_set(),
            ),
{
    let mut r: Vec<Vec<String>> = Vec::new();
    let mut i: usize = 0;
    while i < base.len()
        invariant
            i <= base@.len(),
            r@.len() == i,
            forall|k: int|
                0 <= k < i ==> lists_set(views(#[trigger] r@[k]@), views(base@[k].referral_ns@).to_set()),
        decreases base.len() - i,
    {
        let set = name_set(&base[i].referral_ns);
        r.push(set);
        i = i + 1;
    }
    r
}

/// Two lists with the same set of names are both empty or both not.
proof fn lemma_same_set_nonempty(a: Seq<Seq<char>>, b: Seq<Seq<char>>)
    requires
        a.to_set() == b.to_set(),
    ensures
        (a.len() > 0) == (b.len() > 0),
{
    if a.len() > 0 {
        assert(a.to_set().contains(a[0]));
        if b.len() == 0 {
            assert(b.to_set() =~= Set::<Seq<char>>::empty());
        }
    }
    if b.len() > 0 {
        assert(b.to_set().contains(b[0]));
        if a.len() == 0 {
            assert(a.to_set() =~= Set::<Seq<char>>::empty());
        }
    }
}

/// The positions of the comparable paths, and the union and intersection
/// of their referral sets.
fn combine_sets(cs: &Vec<TraceNode>, sets: &Vec<Vec<String>>) -> (r: (Vec<usize>, Vec<String>, Vec<String>))
    requires
        sets@.len() == cs@.len(),
        forall|i: int| 0 <= i < cs@.len() ==> lists_set(views(#[trigger] sets@[i]@), ref_set(cs@[i])),
    ensures
        r.0@.len() == comparable(cs@).len(),
        forall|k: int|
            0 <= k < r.0@.len() ==> #[trigger] r.0@[k] < cs@.len() && ref_set(cs@[r.0@[k] as int])
                == comparable(cs@)[k],
        lists_set(views(r.1@), union_all(comparable(cs@))),
        lists_set(views(r.2@), inter_all(comparable(cs@))),
{
    let mut comp: Vec<usize> = Vec::new();
    let mut uni: Vec<String> = Vec::new();
    let mut inter: Vec<String> = Vec::new();
    let mut i: usize = 0;
    assert(cs@.subrange(0, 0) =~= Seq::<TraceNode>::empty());
    assert(views(uni@) =~= Seq::<Seq<char>>::empty());
    assert(views(uni@).to_set() =~= Set::<Seq<char>>::empty());
    while i < cs.len()
        invariant
            i <= cs@.len(),
            sets@.len() == cs@.len(),
            forall|k: int| 0 <= k < cs@.len() ==> lists_set(views(#[trigger] sets@[k]@), ref_set(cs@[k])),
            comp@.len() == comparable(cs@.subrange(0, i as int)).len(),
            forall|k: int|
                0 <= k < comp@.len() ==> #[trigger] comp@[k] < i && ref_set(cs@[comp@[k] as int])
                    == comparable(cs@.subrange(0, i as int))[k],
            lists_set(views(uni@), union_all(comparable(cs@.subrange(0, i as int)))),
            lists_set(views(inter@), inter_all(comparable(cs@.subrange(0, i as int)))),
        decreases cs.len() - i,
    {
        let ghost ss = comparable(cs@.subrange(0, i as int));
        let ghost c = cs@[i as int];
        assert(cs@.subrange(0, i + 1).drop_last() =~= cs@.subrange(0, i as int));
        assert(cs@.subrange(0, i + 1).last() == c);
        proof {
            lemma_same_set_nonempty(views(sets@[i as int]@), views(c.hop.referral_ns@));
        }
        if sets[i].len() > 0 {
            let ghost ss2 = ss.push(ref_set(c));
            assert(ss2.drop_last() =~= ss);
            uni = names_union(&uni, &sets[i]);
            if comp.len() == 0 {
                inter = copy_names(&sets[i]);
            } else {
                inter = names_within(&inter, &sets[i]);
            }
            comp.push(i);
        }
        i = i + 1;
    }
    assert(cs@.subrange(0, i as int) =~= cs@);
    (comp, uni, inter)
}

/// The referral summary from the comparable paths and the union of their
/// sets.
fn referral_summary(
    cs: &Vec<TraceNode>,
    sets: &Vec<Vec<String>>,
    comp: &Vec<usize>,
    uni: &Vec<String>,
) -> (r: ReferralSummary)
    requires
        sets@.len() == cs@.len(),
        forall|i: int| 0 <= i < cs@.len() ==> lists_set(views(#[trigger] sets@[i]@), ref_set(cs@[i])),
        comp@.len() == comparable(cs@).len(),
        forall|k: int|
            0 <= k < comp@.len() ==> #[trigger] comp@[k] < cs@.len() && ref_set(cs@[comp@[k] as int])
                == comparable(cs@)[k],
        lists_set(views(uni@), union_all(comparable(cs@))),
    ensures
        summary_of(r, cs@),
{
    let ghost ss = comparable(cs@);
    let count = comp.len();
    if count == 0 {
        return ReferralSummary { agree: false, comparable_count: 0, shared: Vec::new(), union: Vec::new() };
    }
    let first = comp[0];
    assert(ref_set(cs@[first as int]) == ss[0]);
    let mut k: usize = 1;
    while k < count
        invariant
            1 <= k <= count,
            count == comp@.len(),
            count == ss.len(),
            ss == comparable(cs@),
            first == comp@[0],
            sets@.len() == cs@.len(),
            forall|i: int| 0 <= i < cs@.len() ==> lists_set(views(#[trigger] sets@[i]@), ref_set(cs@[i])),
            forall|q: int|
                0 <= q < comp@.len() ==> #[trigger] comp@[q] < cs@.len() && ref_set(cs@[comp@[q] as int])
                    == ss[q],
            forall|q: int| 0 <= q < k ==> #[trigger] ss[q] == ss[0],
            lists_set(views(uni@), union_all(ss)),
        decreases count - k,
    {
        let other = comp[k];
        assert(ref_set(cs@[other as int]) == ss[k as int]);
        if !same_names(&sets[first], &sets[other]) {
            assert(!all_same(ss));
            return ReferralSummary {
                agree: false,
                comparable_count: count,
                shared: Vec::new(),
                union: copy_names(uni),
            };
        }
        k = k + 1;
    }
    assert(all_same(ss));
    ReferralSummary {
        agree: true,
        comparable_count: count,
        shared: copy_names(&sets[first]),
        union: Vec::new(),
    }
}

/// A path's referral difference from its sorted set and the intersection
/// and union of the comparable sets.
fn referral_diff_for(set: &Vec<String>, inter: &Vec<String>, uni: &Vec<String>) -> (r: ReferralDiff)
    requires
        strictly_sorted(views(set@)),
        strictly_sorted(views(uni@)),
    ensures
        set@.len() == 0 ==> r.only_here@.len() == 0 && r.missing@.len() == 0,
        set@.len() > 0 ==> lists_set(
            views(r.only_here@),
            views(set@).to_set().difference(views(inter@).to_set()),
        ) && lists_set(views(r.missing@), views(uni@).to_set().difference(views(set@).to_set())),
{
    if set.len() == 0 {
        return ReferralDiff { only_here: Vec::new(), missing: Vec::new() };
    }
    ReferralDiff { only_here: names_without(set, inter), missing: names_without(uni, set) }
}

/// Compares the sibling paths below the node at `fork`: one summary per
/// child, in order, with each successful path's time over the fastest
/// successful one, the referral sets compared, and whether the paths
/// agree on how they ended. None when `fork` names no node or the node has
/// fewer than two children.
pub fn summarize_fork(tree: &TraceNode, fork: &NodePath) -> (r: Option<ForkComparison>)
    requires
        match node_at(*tree, fork.path@) {
            Some(n) => totals_fit(n.children@),
            None => true,
        },
    ensures
        match node_at(*tree, fork.path@) {
            Some(n) => if n.children@.len() >= 2 {
                r matches Some(c) && compares(c, fork.tree, fork.path@, n)
            } else {
                r is None
            },
            None => r is None,
        },
{
    let node = match trace_node_at(tree, &fork.path) {
        Some(n) => n,
        None => {
            return None;
        },
    };
    if node.children.len() < 2 {
        return None;
    }
    let cs = &node.children;
    let mut base = base_summaries(fork, cs);
    let fast = fastest_total(cs, &base);
    let sets = referral_sets(&base);
    assert forall|i: int| 0 <= i < cs@.len() implies lists_set(
        views(#[trigger] sets@[i]@),
        ref_set(cs@[i]),
    ) by {
        assert(summarizes(base@[i], fork.tree, fork.path@.push(i as usize), cs@[i]));
    }
    let (comp, uni, inter) = combine_sets(cs, &sets);
    let referral = referral_summary(cs, &sets, &comp, &uni);
    let few = comp.len() < 2;
    let shared_all = if few { Vec::new() } else { uni };
    let common = if few { Vec::new() } else { inter };
    assert(views(shared_all@).to_set() == diff_union(cs@)) by {
        if few {
            assert(views(shared_all@) =~= Seq::<Seq<char>>::empty());
            assert(views(shared_all@).to_set() =~= Set::<Seq<char>>::empty());
        }
    }
    assert(views(common@).to_set() == diff_inter(cs@)) by {
        if few {
            assert(views(common@) =~= Seq::<Seq<char>>::empty());
            assert(views(common@).to_set() =~= Set::<Seq<char>>::empty());
        }
    }
    assert(strictly_sorted(views(shared_all@))) by {
        if few {
            assert(views(shared_all@) =~= Seq::<Seq<char>>::empty());
        }
    }
    let ghost orig = base@;
    let mut paths: Vec<PathSummary> = Vec::new();
    let mut i: usize = 0;
    while i < cs.len()
        invariant
            i <= cs@.len(),
            cs@.len() == orig.len(),
            base@ == orig.subrange(i as int, orig.len() as int),
            paths@.len() == i,
            sets@.len() == cs@.len(),
            forall|k: int| 0 <= k < cs@.len() ==> lists_set(views(#[trigger] sets@[k]@), ref_set(cs@[k])),
            forall|k: int|
                0 <= k < cs@.len() ==> {
                    &&& summarizes(#[trigger] orig[k], fork.tree, fork.path@.push(k as usize), cs@[k])
                    &&& orig[k].dns_rtt_delta_ms is None
                },
            match fastest(cs@) {
                Some(b) => fast == Some(b as u64) && b <= u64::MAX,
                None => fast is None,
            },
            views(shared_all@).to_set() == diff_union(cs@),
            views(common@).to_set() == diff_inter(cs@),
            strictly_sorted(views(shared_all@)),
            forall|k: int| 0 <= k < i ==> path_entry(#[trigger] paths@[k], fork.tree, fork.path@, k, cs@),
        decreases cs.len() - i,
    {
        assert(base@.len() > 0);
        let mut p = base.remove(0);
        assert(p == orig[i as int]);
        assert(base@ =~= orig.subrange(i + 1, orig.len() as int));
        assert(summarizes(orig[i as int], fork.tree, fork.path@.push(i as usize), cs@[i as int]));
        p.dns_rtt_delta_ms = if p.failed {
            None
        } else {
            match fast {
                Some(b) => Some(if p.dns_rtt_total_ms >= b { p.dns_rtt_total_ms - b } else { 0 }),
                None => None,
            }
        };
        proof {
            lemma_same_set_nonempty(views(sets@[i as int]@), views(cs@[i as int].hop.referral_ns@));
        }
        p.referral_diff = referral_diff_for(&sets[i], &common, &shared_all);
        paths.push(p);
        i = i + 1;
    }
    Some(ForkComparison {
        fork: NodePath { tree: fork.tree, path: copy_indices(&fork.path) },
        fork_zone: node.hop.zone.clone(),
        fork_qname: node.hop.qname.clone(),
        answers: AnswerSummary { agree: paths_agree(cs) },
        referral,
        paths,
    })
}

/// `s` is the shape of the tree below `n`.
pub open spec fn shapes_as(n: TraceNode, s: TraceShape) -> bool
    decreases n,
{
    &&& n.children@.len() == s.children@.len()
    &&& forall|i: int|
        0 <= i < n.children@.len() ==> shapes_as(#[trigger] n.children@[i], s.children@[i])
}

/// The shape of the tree below `n`.
pub fn shape_of(n: &TraceNode) -> (s: TraceShape)
    ensures
        shapes_as(*n, s),
    decreases n,
{
    let mut children: Vec<TraceShape> = Vec::new();
    let mut i: usize = 0;
    while i < n.children.len()
        invariant
            i <= n.children@.len(),
            children@.len() == i,
            forall|k: int| 0 <= k < i ==> shapes_as(#[trigger] n.children@[k], children@[k]),
        decreases n.children.len() - i,
    {
        let c = shape_of(&n.children[i]);
        children.push(c);
        i = i + 1;
    }
    TraceShape { children }
}

/// The totals of the paths below every node fit in 64 bits.
pub open spec fn all_totals_fit(tree: TraceNode) -> bool {
    forall|p: Seq<usize>| #[trigger] node_at(tree, p) is Some ==> totals_fit(node_at(tree, p)->0.children@)
}

/// `r` is the comparison Compare shows for node `sel` of tree `tree`: the
/// comparison at the fork that scopes it, or at the tree's nearest fork
/// when that lies at or below it; none when neither exists.
pub open spec fn compared_at(root: TraceNode, tree: usize, sel: Seq<usize>, r: Option<ForkComparison>) -> bool {
    exists|s: TraceShape|
        #[trigger] shapes_as(root, s) && match compare_fork_for(s, sel) {
            Some(f) => match node_at(root, f) {
                Some(n) => if n.children@.len() >= 2 {
                    r matches Some(c) && compares(c, tree, f, n)
                } else {
                    r is None
                },
                None => r is None,
            },
            None => r is None,
        }
}

/// The comparison Compare shows for `selection`. (The tree is taken to be
/// less than `usize::MAX` levels deep, which any tree in memory is.)
pub fn comparison_at(tree: &TraceNode, selection: &NodePath) -> (r: Option<ForkComparison>)
    requires
        all_totals_fit(*tree),
        forall|s: TraceShape| #[trigger] shapes_as(*tree, s) ==> height(s) < usize::MAX,
    ensures
        compared_at(*tree, selection.tree, selection.path@, r),
{
    let shape = shape_of(tree);
    match fork_for_compare(&shape, selection) {
        Some(fork) => {
            assert(node_at(*tree, fork.path@) is Some ==> totals_fit(node_at(*tree, fork.path@)->0.children@));
            summarize_fork(tree, &fork)
        },
        None => None,
    }
}

/// The text left-aligned in `w` characters (unchanged when longer).
pub open spec fn pad_right(s: Seq<char>, w: nat) -> Seq<char> {
    if s.len() >= w {
        s
    } else {
        s + spaces((w - s.len()) as nat)
    }
}

/// The text right-aligned in `w` characters (unchanged when longer).
pub open spec fn pad_left(s: Seq<char>, w: nat) -> Seq<char> {
    if s.len() >= w {
        s
    } else {
        spaces((w - s.len()) as nat) + s
    }
}

fn push_pad_right(out: &mut String, text: &str, w: usize)
    ensures
        final(out)@ == old(out)@ + pad_right(text@, w as nat),
{
    let n = text.unicode_len();
    push_str(out, text);
    if n < w {
        push_spaces(out, w - n);
    }
}

fn push_pad_left(out: &mut String, text: &str, w: usize)
    ensures
        final(out)@ == old(out)@ + pad_left(text@, w as nat),
{
    let n = text.unicode_len();
    if n < w {
        push_spaces(out, w - n);
    }
    push_str(out, text);
}

/// A row of the comparison table: server, hops, dns, delta, icmp,
/// outcome and referral columns.
pub open spec fn table_row(
    server: Seq<char>,
    hops: Seq<char>,
    dns: Seq<char>,
    delta: Seq<char>,
    icmp: Seq<char>,
    outcome: Seq<char>,
    referral: Seq<char>,
) -> Seq<char> {
    pad_right(server, 22) + " "@ + pad_left(hops, 4) + " "@ + pad_left(dns, 8) + " "@ + pad_left(delta, 6)
        + " "@ + pad_left(icmp, 6) + "  "@ + pad_right(outcome, 16) + " "@ + referral
}

fn table_row_text(
    server: &str,
    hops: &str,
    dns: &str,
    delta: &str,
    icmp: &str,
    outcome: &str,
    referral: &str,
) -> (s: String)
    ensures
        s@ == table_row(server@, hops@, dns@, delta@, icmp@, outcome@, referral@),
{
    let mut s = String::new();
    push_pad_right(&mut s, server, 22);
    push_str(&mut s, " ");
    push_pad_left(&mut s, hops, 4);
    push_str(&mut s, " ");
    push_pad_left(&mut s, dns, 8);
    push_str(&mut s, " ");
    push_pad_left(&mut s, delta, 6);
    push_str(&mut s, " ");
    push_pad_left(&mut s, icmp, 6);
    push_str(&mut s, "  ");
    push_pad_right(&mut s, outcome, 16);
    push_str(&mut s, " ");
    push_str(&mut s, referral);
    s
}

/// The delta column: `0` for the fastest path, `+MS` for a slower one, a
/// dash for a failed one.
pub open spec fn delta_text(d: Option<u64>) -> Seq<char> {
    match d {
        Some(ms) => if ms == 0 {
            "0"@
        } else {
            "+"@ + decimal(ms as nat)
        },
        None => "—"@,
    }
}

/// A count in decimal.
pub open spec fn count_dec(n: usize) -> Seq<char> {
    decimal(n as nat)
}

/// Milliseconds in decimal, then `ms`.
pub open spec fn ms_dec(n: u64) -> Seq<char> {
    decimal(n as nat) + "ms"@
}

/// The ping column: `MSms`, or `n/a` when there is no measurement.
pub open spec fn ping_text(o: Option<u64>) -> Seq<char> {
    match o {
        Some(ms) => ms_dec(ms),
        None => "n/a"@,
    }
}

/// The table row of a path.
pub open spec fn path_row(p: PathSummary, agree: bool) -> Seq<char> {
    table_row(
        truncated(p.label@, 22),
        count_dec(p.hop_count),
        ms_dec(p.dns_rtt_total_ms),
        delta_text(p.dns_rtt_delta_ms),
        ping_text(p.icmp_rtt_ms),
        truncated(p.outcome@, 16),
        referral_delta_text(p.referral_diff, agree),
    )
}

/// `  hops: ` and each hop's timing, joined by arrows.
pub open spec fn hops_line(p: PathSummary) -> Seq<char> {
    "  hops: "@ + join_with(p.dns_rtt_per_hop@.map_values(|t: HopTiming| hop_timing_text(t)), " → "@)
}

/// The lines of a path: its row, then its hops when it has any.
pub open spec fn path_lines(p: PathSummary, agree: bool) -> Seq<Seq<char>> {
    if p.dns_rtt_per_hop@.len() > 0 {
        seq![path_row(p, agree), hops_line(p)]
    } else {
        seq![path_row(p, agree)]
    }
}

pub open spec fn all_path_lines(ps: Seq<PathSummary>, agree: bool) -> Seq<Seq<char>>
    decreases ps.len(),
{
    if ps.len() == 0 {
        Seq::empty()
    } else {
        all_path_lines(ps.drop_last(), agree) + path_lines(ps.last(), agree)
    }
}

/// The first line: the fork's zone, query name and position.
pub open spec fn fork_head(c: ForkComparison) -> Seq<char> {
    "Compare fork "@ + c.fork_zone@ + " ("@ + c.fork_qname@ + ")  at-path "@ + dotted(
        c.fork.tree,
        c.fork.path@,
    )
}

/// The column headings.
pub open spec fn column_header() -> Seq<char> {
    table_row("server"@, "hops"@, "dns"@, "Δ"@, "icmp"@, "outcome"@, "referral Δ"@)
}

/// The lines of the comparison: the fork, whether the answers agree, the
/// referral header, the column headings and each path.
pub open spec fn comparison_lines(c: ForkComparison) -> Seq<Seq<char>> {
    seq![fork_head(c)] + (if c.answers.agree {
        seq!["Answers agree (same response code and answer records)"@]
    } else {
        Seq::<Seq<char>>::empty()
    }) + (match referral_header(c.referral) {
        Some(l) => seq![l],
        None => Seq::<Seq<char>>::empty(),
    }) + seq![column_header()] + all_path_lines(c.paths@, c.referral.agree)
}

fn delta_column(d: Option<u64>) -> (s: String)
    ensures
        s@ == delta_text(d),
{
    match d {
        Some(ms) => if ms == 0 {
            owned("0")
        } else {
            let mut s = owned("+");
            push_decimal(&mut s, ms);
            s
        },
        None => owned("—"),
    }
}

fn ms_text(n: u64) -> (s: String)
    ensures
        s@ == ms_dec(n),
{
    let mut s = String::new();
    push_decimal(&mut s, n);
    push_str(&mut s, "ms");
    s
}

fn count_text(n: usize) -> (s: String)
    ensures
        s@ == count_dec(n),
{
    let mut s = String::new();
    push_decimal(&mut s, n as u64);
    s
}

fn ping_column(o: Option<u64>) -> (s: String)
    ensures
        s@ == ping_text(o),
{
    match o {
        Some(ms) => ms_text(ms),
        None => owned("n/a"),
    }
}

fn hops_text(p: &PathSummary) -> (s: String)
    ensures
        s@ == hops_line(*p),
{
    let mut parts: Vec<String> = Vec::new();
    let mut i: usize = 0;
    while i < p.dns_rtt_per_hop.len()
        invariant
            i <= p.dns_rtt_per_hop@.len(),
            views(parts@) == p.dns_rtt_per_hop@.subrange(0, i as int).map_values(
                |t: HopTiming| hop_timing_text(t),
            ),
        decreases p.dns_rtt_per_hop.len() - i,
    {
        let t = format_hop_timing(&p.dns_rtt_per_hop[i]);
        push_line(&mut parts, t);
        i = i + 1;
        assert(views(parts@) =~= p.dns_rtt_per_hop@.subrange(0, i as int).map_values(
            |t: HopTiming| hop_timing_text(t),
        ));
    }
    assert(p.dns_rtt_per_hop@.subrange(0, i as int) =~= p.dns_rtt_per_hop@);
    let mut s = owned("  hops: ");
    let joined = join_strings(&parts, " → ");
    push_str(&mut s, joined.as_str());
    s
}

fn path_row_text(p: &PathSummary, agree: bool) -> (s: String)
    ensures
        s@ == path_row(*p, agree),
{
    let hop_count = count_text(p.hop_count);
    let dns = ms_text(p.dns_rtt_total_ms);
    let label = truncate(p.label.as_str(), 22);
    let outcome = truncate(p.outcome.as_str(), 16);
    let delta = delta_column(p.dns_rtt_delta_ms);
    let ping = ping_column(p.icmp_rtt_ms);
    let referral = format_referral_delta_column(&p.referral_diff, agree);
    table_row_text(
        label.as_str(),
        hop_count.as_str(),
        dns.as_str(),
        delta.as_str(),
        ping.as_str(),
        outcome.as_str(),
        referral.as_str(),
    )
}

/// The comparison as text, one line each for the fork, the agreement,
/// the referral header, the headings and each path with its hops.
pub fn render_comparison_text(comparison: &ForkComparison) -> (s: String)
    ensures
        s@ == join_lines(comparison_lines(*comparison)) + "\n"@,
{
    let mut lines: Vec<String> = Vec::new();
    let mut head = owned("Compare fork ");
    push_str(&mut head, comparison.fork_zone.as_str());
    push_str(&mut head, " (");
    push_str(&mut head, comparison.fork_qname.as_str());
    push_str(&mut head, ")  at-path ");
    let at = format_path(&comparison.fork);
    push_str(&mut head, at.as_str());
    push_line(&mut lines, head);
    if comparison.answers.agree {
        push_line(&mut lines, owned("Answers agree (same response code and answer records)"));
    }
    match referral_header_line(&comparison.referral) {
        Some(l) => push_line(&mut lines, l),
        None => {},
    }
    push_line(&mut lines, table_row_text("server", "hops", "dns", "Δ", "icmp", "outcome", "referral Δ"));
    let ghost before = views(lines@);
    let agree = comparison.referral.agree;
    let mut i: usize = 0;
    assert(comparison.paths@.subrange(0, 0) =~= Seq::<PathSummary>::empty());
    assert(before =~= before + all_path_lines(comparison.paths@.subrange(0, 0), agree));
    while i < comparison.paths.len()
        invariant
            i <= comparison.paths@.len(),
            agree == comparison.referral.agree,
            views(lines@) == before + all_path_lines(comparison.paths@.subrange(0, i as int), agree),
        decreases comparison.paths.len() - i,
    {
        let p = &comparison.paths[i];
        let row = path_row_text(p, agree);
        push_line(&mut lines, row);
        if p.dns_rtt_per_hop.len() > 0 {
            push_line(&mut lines, hops_text(p));
        }
        let ghost sub = comparison.paths@.subrange(0, i + 1);
        assert(sub.drop_last() =~= comparison.paths@.subrange(0, i as int));
        assert(sub.last() == *p);
        i = i + 1;
        assert(views(lines@) =~= before + all_path_lines(comparison.paths@.subrange(0, i as int), agree));
    }
    assert(comparison.paths@.subrange(0, i as int) =~= comparison.paths@);
    let mut s = join_line_vec(&lines);
    push_str(&mut s, "\n");
    proof {
        reveal_strlit("\n");
    }
    assert(views(lines@) =~= comparison_lines(*comparison));
    s
}

/// The fastest total is one of the successful paths' totals, and no
/// successful path is faster.
proof fn lemma_fastest_bounds(cs: Seq<TraceNode>)
    ensures
        match fastest(cs) {
            Some(b) => (exists|i: int|
                0 <= i < cs.len() && !path_failed(cs[i]) && rtt_total(chain(#[trigger] cs[i])) == b)
                && forall|i: int|
                0 <= i < cs.len() && !path_failed(cs[i]) ==> b <= rtt_total(chain(#[trigger] cs[i])),
            None => forall|i: int| 0 <= i < cs.len() ==> path_failed(#[trigger] cs[i]),
        },
    decreases cs.len(),
{
    if cs.len() > 0 {
        let rest = cs.drop_last();
        lemma_fastest_bounds(rest);
        let last = cs.len() - 1;
        assert(cs[last] == cs.last());
        assert forall|i: int| 0 <= i < rest.len() implies #[trigger] rest[i] == cs[i] by {}
        let t = rtt_total(chain(cs[last]));
        match fastest(rest) {
            Some(b) => {
                let w = choose|i: int|
                    0 <= i < rest.len() && !path_failed(rest[i]) && rtt_total(chain(#[trigger] rest[i])) == b;
                assert(cs[w] == rest[w]);
                assert forall|i: int| 0 <= i < cs.len() && !path_failed(cs[i]) implies b <= rtt_total(
                    chain(#[trigger] cs[i]),
                ) || (i == last && t < b) by {
                    if i < last {
                        assert(rest[i] == cs[i]);
                        assert(b <= rtt_total(chain(rest[i])));
                    }
                }
            },
            None => {
                assert forall|i: int| 0 <= i < rest.len() implies path_failed(#[trigger] cs[i]) by {
                    assert(rest[i] == cs[i]);
                    assert(path_failed(rest[i]));
                }
            },
        }
    }
}

/// The timing baseline is the fastest path that did not fail: when some
/// path succeeded, one of them has delta 0, and every successful path's
/// delta is its total less the smallest successful total.
pub proof fn lemma_baseline_is_fastest(cs: Seq<TraceNode>)
    requires
        totals_fit(cs),
        exists|i: int| 0 <= i < cs.len() && !path_failed(#[trigger] cs[i]),
    ensures
        fastest(cs) is Some,
        exists|i: int| 0 <= i < cs.len() && !path_failed(cs[i]) && #[trigger] delta_of(cs[i], cs) == Some(0u64),
        forall|i: int|
            0 <= i < cs.len() && !path_failed(cs[i]) ==> (#[trigger] delta_of(cs[i], cs) matches Some(d)
                && d + fastest(cs)->0 == rtt_total(chain(cs[i]))),
{
    lemma_fastest_bounds(cs);
    let w = choose|i: int| 0 <= i < cs.len() && !path_failed(#[trigger] cs[i]);
    assert(!path_failed(cs[w]));
    let b = fastest(cs)->0;
    let f = choose|i: int| 0 <= i < cs.len() && !path_failed(cs[i]) && rtt_total(chain(#[trigger] cs[i])) == b;
    assert(delta_of(cs[f], cs) == Some(0u64));
    assert forall|i: int| 0 <= i < cs.len() && !path_failed(cs[i]) implies (#[trigger] delta_of(cs[i], cs) matches Some(d)
        && d + b == rtt_total(chain(cs[i]))) by {
        assert(rtt_total(chain(cs[i])) <= u64::MAX);
        assert(b <= rtt_total(chain(cs[i])));
    }
}

/// A path with a referral set contributes that set to the comparable ones.
proof fn lemma_comparable_member(cs: Seq<TraceNode>, i: int)
    requires
        0 <= i < cs.len(),
        cs[i].hop.referral_ns@.len() > 0,
    ensures
        exists|k: int| 0 <= k < comparable(cs).len() && #[trigger] comparable(cs)[k] == ref_set(cs[i]),
    decreases cs.len(),
{
    let rest = cs.drop_last();
    if i == cs.len() - 1 {
        let k = comparable(rest).len() as int;
        assert(comparable(cs)[k] == ref_set(cs[i]));
    } else {
        assert(rest[i] == cs[i]);
        lemma_comparable_member(rest, i);
        let k = choose|k: int| 0 <= k < comparable(rest).len() && #[trigger] comparable(rest)[k] == ref_set(rest[i]);
        assert(comparable(cs)[k] == comparable(rest)[k]);
    }
}

/// Equal sets have themselves as union and intersection.
proof fn lemma_same_sets_combine(ss: Seq<Set<Seq<char>>>)
    requires
        ss.len() >= 1,
        all_same(ss),
    ensures
        union_all(ss) == ss[0],
        inter_all(ss) == ss[0],
    decreases ss.len(),
{
    let rest = ss.drop_last();
    if ss.len() == 1 {
        assert(rest =~= Seq::<Set<Seq<char>>>::empty());
        assert(union_all(rest) == Set::<Seq<char>>::empty());
        assert(ss.last() == ss[0]);
        assert(union_all(ss) == union_all(rest).union(ss.last()));
        assert(union_all(ss) =~= ss[0]);
    } else {
        assert(all_same(rest)) by {
            assert forall|i: int| 0 <= i < rest.len() implies #[trigger] rest[i] == rest[0] by {
                assert(rest[i] == ss[i]);
            }
        }
        lemma_same_sets_combine(rest);
        assert(ss.last() == ss[ss.len() - 1]);
        assert(union_all(ss) =~= ss[0]);
        assert(inter_all(ss) =~= ss[0]);
    }
}

/// A list of the empty set is empty.
proof fn lemma_empty_listing(v: Seq<Seq<char>>)
    requires
        lists_set(v, Set::empty()),
    ensures
        v.len() == 0,
{
    if v.len() > 0 {
        assert(v.to_set().contains(v[0]));
    }
}

/// When two or more paths have referral sets and the sets are all equal,
/// no path shows a referral difference.
pub proof fn lemma_agreeing_referrals_have_no_diff(cs: Seq<TraceNode>, i: int, d: ReferralDiff)
    requires
        comparable(cs).len() >= 2,
        all_same(comparable(cs)),
        0 <= i < cs.len(),
        diff_of(d, cs[i], cs),
    ensures
        d.only_here@.len() == 0,
        d.missing@.len() == 0,
{
    if cs[i].hop.referral_ns@.len() > 0 {
        let ss = comparable(cs);
        lemma_comparable_member(cs, i);
        let k = choose|k: int| 0 <= k < ss.len() && #[trigger] ss[k] == ref_set(cs[i]);
        assert(ss[k] == ss[0]);
        lemma_same_sets_combine(ss);
        assert(ref_set(cs[i]).difference(diff_inter(cs)) =~= Set::empty());
        assert(diff_union(cs).difference(ref_set(cs[i])) =~= Set::empty());
        lemma_empty_listing(views(d.only_here@));
        lemma_empty_listing(views(d.missing@));
    }
}

/// An outcome as a tag with the failure's kind and detail.
pub open spec fn outcome_view(o: HopOutcome) -> (int, Seq<char>, Seq<char>) {
    match o {
        HopOutcome::Referral => (0, Seq::empty(), Seq::empty()),
        HopOutcome::Answered => (1, Seq::empty(), Seq::empty()),
        HopOutcome::Failed { kind, detail } => (2, kind@, detail@),
    }
}

/// Two queries hold the same texts and values in every field.
pub open spec fn same_hop(a: TraceHop, b: TraceHop) -> bool {
    &&& a.zone@ == b.zone@
    &&& a.server@ == b.server@
    &&& opt_text(a.server_name) == opt_text(b.server_name)
    &&& opt_text(a.root_name) == opt_text(b.root_name)
    &&& a.qname@ == b.qname@
    &&& a.qtype@ == b.qtype@
    &&& a.transport@ == b.transport@
    &&& a.rtt_ms == b.rtt_ms
    &&& a.rcode@ == b.rcode@
    &&& opt_text(a.nsid) == opt_text(b.nsid)
    &&& a.ede_code == b.ede_code
    &&& opt_text(a.ede_text) == opt_text(b.ede_text)
    &&& views(a.referral_ns@) == views(b.referral_ns@)
    &&& views(a.glue@) == views(b.glue@)
    &&& record_views(a.answers@) == record_views(b.answers@)
    &&& a.from_cache == b.from_cache
    &&& outcome_view(a.outcome) == outcome_view(b.outcome)
}

fn copy_text(o: &Option<String>) -> (r: Option<String>)
    ensures
        opt_text(r) == opt_text(*o),
{
    match o {
        Some(s) => Some(s.clone()),
        None => None,
    }
}

fn copy_records(v: &Vec<AnswerRecord>) -> (r: Vec<AnswerRecord>)
    ensures
        record_views(r@) == record_views(v@),
{
    let mut r: Vec<AnswerRecord> = Vec::new();
    let mut i: usize = 0;
    while i < v.len()
        invariant
            i <= v@.len(),
            record_views(r@) == record_views(v@).subrange(0, i as int),
        decreases v.len() - i,
    {
        let a = &v[i];
        let rec = AnswerRecord { name: a.name.clone(), rtype: a.rtype.clone(), rdata: a.rdata.clone() };
        assert(record_view(rec) == record_view(v@[i as int]));
        let ghost before = r@;
        r.push(rec);
        assert(r@ == before.push(rec));
        assert(record_views(r@) =~= record_views(before).push(record_view(rec)));
        i = i + 1;
        assert(record_views(r@) =~= record_views(v@).subrange(0, i as int));
    }
    assert(record_views(v@).subrange(0, i as int) =~= record_views(v@));
    r
}

/// A copy of a query.
pub fn copy_hop(h: &TraceHop) -> (r: TraceHop)
    ensures
        same_hop(r, *h),
{
    let outcome = match &h.outcome {
        HopOutcome::Referral => HopOutcome::Referral,
        HopOutcome::Answered => HopOutcome::Answered,
        HopOutcome::Failed { kind, detail } => HopOutcome::Failed { kind: kind.clone(), detail: detail.clone() },
    };
    TraceHop {
        zone: h.zone.clone(),
        server: h.server.clone(),
        server_name: copy_text(&h.server_name),
        root_name: copy_text(&h.root_name),
        qname: h.qname.clone(),
        qtype: h.qtype.clone(),
        transport: h.transport.clone(),
        rtt_ms: h.rtt_ms,
        rcode: h.rcode.clone(),
        nsid: copy_text(&h.nsid),
        ede_code: h.ede_code,
        ede_text: copy_text(&h.ede_text),
        referral_ns: copy_names(&h.referral_ns),
        glue: copy_names(&h.glue),
        answers: copy_records(&h.answers),
        from_cache: h.from_cache,
        outcome,
    }
}

} // verus!
