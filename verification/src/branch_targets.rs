//! Which servers a branch queries at a zone cut.
//!
//! Expanding a cut queries the cut's nameservers that the trace has not
//! reached yet; querying another server skips one the trace already asked.
//! The name resolution in between belongs to the resolver: the caller
//! hands in the cut's nameserver names and what looking each one up gave.
//! Addresses are compared as the text the resolver writes for them (a
//! hop's `server`, a referral's glue).

use vstd::prelude::*;

use crate::branch::{normalize_ns_name, normalized_ns_name};
use crate::branch_run::{server_label, server_label_text};
use crate::explore::fork_summary::{TraceHop, TraceNode};
use crate::text::{chars_of, eq_chars, views};

verus! {

/// A server to query: its name when known, and its address.
#[derive(Debug, Clone, PartialEq, Eq)]
pub struct ServerTarget {
    pub name: Option<String>,
    pub address: String,
}

/// A [`ServerTarget`] with its texts as character sequences.
pub struct ServerView {
    pub name: Option<Seq<char>>,
    pub address: Seq<char>,
}

pub open spec fn opt_view(o: Option<String>) -> Option<Seq<char>> {
    match o {
        Some(s) => Some(s@),
        None => None,
    }
}

impl View for ServerTarget {
    type V = ServerView;

    open spec fn view(&self) -> ServerView {
        ServerView { name: opt_view(self.name), address: self.address@ }
    }
}

/// The views of a sequence of targets.
pub open spec fn server_views(ts: Seq<ServerTarget>) -> Seq<ServerView> {
    ts.map_values(|t: ServerTarget| t@)
}

/// The server a hop was sent to.
pub open spec fn hop_server(h: TraceHop) -> ServerView {
    ServerView { name: opt_view(h.server_name), address: h.server@ }
}

/// How a planned server is shown.
pub open spec fn label_of(s: ServerView) -> Seq<char> {
    server_label_text(s.name, s.address)
}

/// The servers a branch goes on to query, and the warnings of planning.
#[derive(Debug)]
pub struct TargetPlan {
    pub targets: Vec<ServerTarget>,
    pub warnings: Vec<String>,
}

/// The warning when every nameserver of the cut was already queried.
pub open spec fn all_queried_text() -> Seq<char> {
    "all nameservers at this zone cut already queried"@
}

/// The warning when the server asked for was already queried at the cut.
pub open spec fn already_queried_text(label: Seq<char>) -> Seq<char> {
    "server "@ + label + " was already queried at this zone cut"@
}

// ---------------------------------------------------------------------------
// What the trace already queried
// ---------------------------------------------------------------------------

/// Some node of the subtree at `n` was sent to `address`.
pub open spec fn subtree_queried(n: TraceNode, address: Seq<char>) -> bool
    decreases n, 0nat,
{
    n.hop.server@ == address || children_queried(n.children@, 0, address)
}

/// Some node below `cs[i..]` was sent to `address`.
pub open spec fn children_queried(cs: Seq<TraceNode>, i: int, address: Seq<char>) -> bool
    decreases cs, if 0 <= i < cs.len() { (cs.len() - i) as nat } else { 0 },
{
    if 0 <= i < cs.len() {
        subtree_queried(cs[i], address) || children_queried(cs, i + 1, address)
    } else {
        false
    }
}

fn subtree_queried_exec(n: &TraceNode, address: &str) -> (r: bool)
    ensures
        r == subtree_queried(*n, address@),
    decreases n, 0nat,
{
    if eq_chars(&chars_of(n.hop.server.as_str()), &chars_of(address)) {
        return true;
    }
    children_queried_exec(&n.children, 0, address)
}

fn children_queried_exec(cs: &Vec<TraceNode>, i: usize, address: &str) -> (r: bool)
    requires
        i <= cs@.len(),
    ensures
        r == children_queried(cs@, i as int, address@),
    decreases cs@, cs@.len() - i,
{
    if i >= cs.len() {
        return false;
    }
    if subtree_queried_exec(&cs[i], address) {
        return true;
    }
    children_queried_exec(cs, i + 1, address)
}

/// Whether a node below the cut's children was sent to `address`.
pub fn queried_below(children: &Vec<TraceNode>, address: &str) -> (r: bool)
    ensures
        r == children_queried(children@, 0, address@),
{
    children_queried_exec(children, 0, address)
}

/// The targets not yet queried below the cut's children, in order.
pub open spec fn unqueried(ts: Seq<ServerView>, cs: Seq<TraceNode>) -> Seq<ServerView>
    decreases ts.len(),
{
    if ts.len() == 0 {
        Seq::empty()
    } else if children_queried(cs, 0, ts.last().address) {
        unqueried(ts.drop_last(), cs)
    } else {
        unqueried(ts.drop_last(), cs).push(ts.last())
    }
}

/// Some target goes to `address`.
pub open spec fn has_address(ts: Seq<ServerView>, address: Seq<char>) -> bool {
    exists|j: int| 0 <= j < ts.len() && #[trigger] ts[j].address == address
}

/// The targets with each address kept once, at its first place.
pub open spec fn deduped(ts: Seq<ServerView>) -> Seq<ServerView>
    decreases ts.len(),
{
    if ts.len() == 0 {
        Seq::empty()
    } else if has_address(deduped(ts.drop_last()), ts.last().address) {
        deduped(ts.drop_last())
    } else {
        deduped(ts.drop_last()).push(ts.last())
    }
}

fn copy_target(t: &ServerTarget) -> (r: ServerTarget)
    ensures
        r@ == t@,
{
    ServerTarget {
        name: match &t.name {
            Some(n) => Some(n.clone()),
            None => None,
        },
        address: t.address.clone(),
    }
}

/// Drops the targets the trace already queried below the cut.
pub fn filter_unqueried_targets(targets: &Vec<ServerTarget>, children: &Vec<TraceNode>) -> (r: Vec<ServerTarget>)
    ensures
        server_views(r@) == unqueried(server_views(targets@), children@),
{
    let mut out: Vec<ServerTarget> = Vec::new();
    let mut i: usize = 0;
    while i < targets.len()
        invariant
            i <= targets@.len(),
            server_views(out@) == unqueried(server_views(targets@.subrange(0, i as int)), children@),
        decreases targets@.len() - i,
    {
        let ghost prefix = server_views(targets@.subrange(0, i + 1));
        assert(prefix.drop_last() =~= server_views(targets@.subrange(0, i as int)));
        assert(prefix.last() == targets@[i as int]@);
        if !queried_below(children, targets[i].address.as_str()) {
            let t = copy_target(&targets[i]);
            out.push(t);
            assert(server_views(out@) =~= unqueried(server_views(targets@.subrange(0, i as int)), children@).push(t@));
        }
        i = i + 1;
    }
    assert(targets@.subrange(0, targets@.len() as int) =~= targets@);
    out
}

fn has_address_exec(ts: &Vec<ServerTarget>, address: &str) -> (r: bool)
    ensures
        r == has_address(server_views(ts@), address@),
{
    let mut j: usize = 0;
    while j < ts.len()
        invariant
            j <= ts@.len(),
            forall|k: int| 0 <= k < j ==> ts@[k].address@ != address@,
        decreases ts@.len() - j,
    {
        if eq_chars(&chars_of(ts[j].address.as_str()), &chars_of(address)) {
            assert(server_views(ts@)[j as int].address == address@);
            return true;
        }
        j = j + 1;
    }
    assert forall|k: int| 0 <= k < server_views(ts@).len() implies #[trigger] server_views(ts@)[k].address
        != address@ by {
        assert(ts@[k].address@ != address@);
    }
    false
}

/// Keeps each address once, at its first place.
pub fn dedupe_server_targets(targets: Vec<ServerTarget>) -> (r: Vec<ServerTarget>)
    ensures
        server_views(r@) == deduped(server_views(targets@)),
{
    let mut out: Vec<ServerTarget> = Vec::new();
    let mut i: usize = 0;
    while i < targets.len()
        invariant
            i <= targets@.len(),
            server_views(out@) == deduped(server_views(targets@.subrange(0, i as int))),
        decreases targets@.len() - i,
    {
        let ghost prefix = server_views(targets@.subrange(0, i + 1));
        assert(prefix.drop_last() =~= server_views(targets@.subrange(0, i as int)));
        assert(prefix.last() == targets@[i as int]@);
        if !has_address_exec(&out, targets[i].address.as_str()) {
            let t = copy_target(&targets[i]);
            out.push(t);
            assert(server_views(out@) =~= deduped(server_views(targets@.subrange(0, i as int))).push(t@));
        }
        i = i + 1;
    }
    assert(targets@.subrange(0, targets@.len() as int) =~= targets@);
    out
}

// ---------------------------------------------------------------------------
// The cut's nameservers
// ---------------------------------------------------------------------------

/// Two nameserver names are the same, ignoring case and trailing dots.
pub open spec fn same_ns(a: Seq<char>, b: Seq<char>) -> bool {
    normalized_ns_name(a) == normalized_ns_name(b)
}

fn same_ns_exec(a: &str, b: &str) -> (r: bool)
    ensures
        r == same_ns(a@, b@),
{
    let x = normalize_ns_name(a);
    let y = normalize_ns_name(b);
    eq_chars(&chars_of(x.as_str()), &chars_of(y.as_str()))
}

/// The first place from `k` on where `names` holds `ns`.
pub open spec fn ns_index(names: Seq<Seq<char>>, ns: Seq<char>, k: int) -> Option<int>
    decreases names.len() - k,
{
    if 0 <= k < names.len() {
        if same_ns(names[k], ns) {
            Some(k)
        } else {
            ns_index(names, ns, k + 1)
        }
    } else {
        None
    }
}

/// The glue address the cut's referral gives for `ns`: the glue at the
/// place of `ns` among the referral's names.
pub open spec fn glue_for(cut: TraceHop, names: Seq<Seq<char>>, ns: Seq<char>) -> Option<Seq<char>> {
    match ns_index(names, ns, 0) {
        Some(k) => if k < cut.glue@.len() {
            Some(cut.glue@[k]@)
        } else {
            None
        },
        None => None,
    }
}

/// A hop answers for `ns` at the cut: it was sent to a server of that
/// name, or to the glue address of `ns`.
pub open spec fn hop_matches_ns(cut: TraceHop, names: Seq<Seq<char>>, ns: Seq<char>, h: TraceHop) -> bool {
    (h.server_name matches Some(x) && same_ns(x@, ns)) || (glue_for(cut, names, ns) matches Some(g)
        && g == h.server@)
}

/// Some hop of the subtree at `n` answers for `ns`.
pub open spec fn subtree_covers(cut: TraceHop, names: Seq<Seq<char>>, ns: Seq<char>, n: TraceNode) -> bool
    decreases n, 0nat,
{
    hop_matches_ns(cut, names, ns, n.hop) || children_cover(cut, names, ns, n.children@, 0)
}

/// Some hop below `cs[i..]` answers for `ns`.
pub open spec fn children_cover(
    cut: TraceHop,
    names: Seq<Seq<char>>,
    ns: Seq<char>,
    cs: Seq<TraceNode>,
    i: int,
) -> bool
    decreases cs, if 0 <= i < cs.len() { (cs.len() - i) as nat } else { 0 },
{
    if 0 <= i < cs.len() {
        subtree_covers(cut, names, ns, cs[i]) || children_cover(cut, names, ns, cs, i + 1)
    } else {
        false
    }
}

/// The server of the first hop (node before its children) in the subtree
/// at `n` sent to a server named `ns`.
pub open spec fn ns_target_in(ns: Seq<char>, n: TraceNode) -> Option<ServerView>
    decreases n, 0nat,
{
    if n.hop.server_name matches Some(x) && same_ns(x@, ns) {
        Some(hop_server(n.hop))
    } else {
        ns_target_children(ns, n.children@, 0)
    }
}

/// The first such server below `cs[i..]`.
pub open spec fn ns_target_children(ns: Seq<char>, cs: Seq<TraceNode>, i: int) -> Option<ServerView>
    decreases cs, if 0 <= i < cs.len() { (cs.len() - i) as nat } else { 0 },
{
    if 0 <= i < cs.len() {
        match ns_target_in(ns, cs[i]) {
            Some(t) => Some(t),
            None => ns_target_children(ns, cs, i + 1),
        }
    } else {
        None
    }
}

fn glue_for_exec(cut: &TraceHop, names: &Vec<String>, ns: &str) -> (r: Option<String>)
    ensures
        opt_view(r) == glue_for(*cut, views(names@), ns@),
{
    let mut k: usize = 0;
    while k < names.len()
        invariant
            k <= names@.len(),
            ns_index(views(names@), ns@, 0) == ns_index(views(names@), ns@, k as int),
        decreases names@.len() - k,
    {
        if same_ns_exec(names[k].as_str(), ns) {
            if k < cut.glue.len() {
                return Some(cut.glue[k].clone());
            }
            return None;
        }
        k = k + 1;
    }
    None
}

fn hop_matches_ns_exec(glue: &Option<String>, ns: &str, h: &TraceHop) -> (r: bool)
    ensures
        r == ((h.server_name matches Some(x) && same_ns(x@, ns@)) || (opt_view(*glue) matches Some(g)
            && g == h.server@)),
{
    let by_name = match &h.server_name {
        Some(x) => same_ns_exec(x.as_str(), ns),
        None => false,
    };
    if by_name {
        return true;
    }
    match glue {
        Some(g) => eq_chars(&chars_of(g.as_str()), &chars_of(h.server.as_str())),
        None => false,
    }
}

fn subtree_covers_exec(
    glue: &Option<String>,
    ns: &str,
    n: &TraceNode,
    Ghost(cut): Ghost<TraceHop>,
    Ghost(names): Ghost<Seq<Seq<char>>>,
) -> (r: bool)
    requires
        glue_for(cut, names, ns@) == opt_view(*glue),
    ensures
        r == subtree_covers(cut, names, ns@, *n),
    decreases n, 0nat,
{
    if hop_matches_ns_exec(glue, ns, &n.hop) {
        return true;
    }
    children_cover_exec(glue, ns, &n.children, 0, Ghost(cut), Ghost(names))
}

fn children_cover_exec(
    glue: &Option<String>,
    ns: &str,
    cs: &Vec<TraceNode>,
    i: usize,
    Ghost(cut): Ghost<TraceHop>,
    Ghost(names): Ghost<Seq<Seq<char>>>,
) -> (r: bool)
    requires
        i <= cs@.len(),
        glue_for(cut, names, ns@) == opt_view(*glue),
    ensures
        r == children_cover(cut, names, ns@, cs@, i as int),
    decreases cs@, cs@.len() - i,
{
    if i >= cs.len() {
        return false;
    }
    if subtree_covers_exec(glue, ns, &cs[i], Ghost(cut), Ghost(names)) {
        return true;
    }
    children_cover_exec(glue, ns, cs, i + 1, Ghost(cut), Ghost(names))
}

fn hop_target(h: &TraceHop) -> (r: ServerTarget)
    ensures
        r@ == hop_server(*h),
{
    ServerTarget {
        name: match &h.server_name {
            Some(n) => Some(n.clone()),
            None => None,
        },
        address: h.server.clone(),
    }
}

fn ns_target_in_exec(ns: &str, n: &TraceNode) -> (r: Option<ServerTarget>)
    ensures
        match r {
            Some(t) => ns_target_in(ns@, *n) == Some(t@),
            None => ns_target_in(ns@, *n) is None,
        },
    decreases n, 0nat,
{
    let named = match &n.hop.server_name {
        Some(x) => same_ns_exec(x.as_str(), ns),
        None => false,
    };
    if named {
        return Some(hop_target(&n.hop));
    }
    ns_target_children_exec(ns, &n.children, 0)
}

fn ns_target_children_exec(ns: &str, cs: &Vec<TraceNode>, i: usize) -> (r: Option<ServerTarget>)
    requires
        i <= cs@.len(),
    ensures
        match r {
            Some(t) => ns_target_children(ns@, cs@, i as int) == Some(t@),
            None => ns_target_children(ns@, cs@, i as int) is None,
        },
    decreases cs@, cs@.len() - i,
{
    if i >= cs.len() {
        return None;
    }
    match ns_target_in_exec(ns, &cs[i]) {
        Some(t) => Some(t),
        None => ns_target_children_exec(ns, cs, i + 1),
    }
}

// ---------------------------------------------------------------------------
// Expanding a cut
// ---------------------------------------------------------------------------

/// At the root cut, whether the session already has one delegation path
/// (a child at another zone) per nameserver the referral lists.
pub open spec fn root_referral_satisfied(cut: TraceHop, ns_count: nat, cs: Seq<TraceNode>) -> bool {
    cut.zone@ == "."@ && ns_count > 0 && delegation_paths(cut.zone@, cs) >= ns_count
}

/// How many of the children are at another zone than the cut.
pub open spec fn delegation_paths(zone: Seq<char>, cs: Seq<TraceNode>) -> nat
    decreases cs.len(),
{
    if cs.len() == 0 {
        0
    } else {
        delegation_paths(zone, cs.drop_last()) + if cs.last().hop.zone@ != zone {
            1nat
        } else {
            0nat
        }
    }
}

/// What one nameserver of the cut contributes before any lookup: nothing
/// when the trace already answers for it below the cut, the server the
/// trace reached it at, or a lookup of its address.
#[derive(Debug)]
pub enum NsStep {
    Covered,
    Found(ServerTarget),
    Resolve,
}

pub enum NsStepView {
    Covered,
    Found(ServerView),
    Resolve,
}

impl View for NsStep {
    type V = NsStepView;

    open spec fn view(&self) -> NsStepView {
        match self {
            NsStep::Covered => NsStepView::Covered,
            NsStep::Found(t) => NsStepView::Found(t@),
            NsStep::Resolve => NsStepView::Resolve,
        }
    }
}

/// The step for the nameserver `ns` of the cut.
pub open spec fn ns_step(cut: TraceHop, names: Seq<Seq<char>>, ns: Seq<char>, cs: Seq<TraceNode>) -> NsStepView {
    if children_cover(cut, names, ns, cs, 0) {
        NsStepView::Covered
    } else {
        match ns_target_children(ns, cs, 0) {
            Some(t) => NsStepView::Found(t),
            None => NsStepView::Resolve,
        }
    }
}

/// Where expanding a cut starts.
#[derive(Debug)]
pub enum ExpandStart {
    /// Planning is over: these targets and warnings.
    Planned(TargetPlan),
    /// One step per nameserver of the referral, in order; look up those
    /// marked `Resolve` and hand the outcomes to `finish_expand_targets`.
    PerName(Vec<NsStep>),
}

fn warning_plan(w: String) -> (p: TargetPlan)
    ensures
        p.targets@.len() == 0,
        views(p.warnings@) == seq![w@],
{
    let mut warnings: Vec<String> = Vec::new();
    warnings.push(w);
    assert(views(warnings@) =~= seq![w@]);
    TargetPlan { targets: Vec::new(), warnings }
}

/// Starts expanding the cut whose hop is `cut` and whose children are
/// `children`, with `names` the nameservers its referral lists. At the
/// root cut with a delegation path per nameserver, nothing is left: the
/// all-queried warning. With no nameserver names, the children's servers
/// not yet queried. Else one step per name.
pub fn expand_cut_start(cut: &TraceHop, children: &Vec<TraceNode>, names: &Vec<String>) -> (r: ExpandStart)
    ensures
        if root_referral_satisfied(*cut, names@.len(), children@) {
            r matches ExpandStart::Planned(p) && p.targets@.len() == 0 && views(p.warnings@) == seq![
                all_queried_text(),
            ]
        } else if names@.len() == 0 {
            r matches ExpandStart::Planned(p) && server_views(p.targets@) == unqueried(
                children@.map_values(|c: TraceNode| hop_server(c.hop)),
                children@,
            ) && p.warnings@.len() == 0
        } else {
            r matches ExpandStart::PerName(steps) && steps@.len() == names@.len() && forall|i: int|
                0 <= i < names@.len() ==> (#[trigger] steps@[i])@ == ns_step(
                    *cut,
                    views(names@),
                    names@[i]@,
                    children@,
                )
        },
{
    let mut paths: usize = 0;
    let mut j: usize = 0;
    while j < children.len()
        invariant
            j <= children@.len(),
            paths == delegation_paths(cut.zone@, children@.subrange(0, j as int)),
            paths <= j,
        decreases children@.len() - j,
    {
        assert(children@.subrange(0, j + 1).drop_last() =~= children@.subrange(0, j as int));
        if !eq_chars(&chars_of(children[j].hop.zone.as_str()), &chars_of(cut.zone.as_str())) {
            paths = paths + 1;
        }
        j = j + 1;
    }
    assert(children@.subrange(0, children@.len() as int) =~= children@);
    let root = eq_chars(&chars_of(cut.zone.as_str()), &chars_of("."));
    proof {
        reveal_strlit(".");
    }
    if root && names.len() > 0 && paths >= names.len() {
        return ExpandStart::Planned(warning_plan(String::from_str("all nameservers at this zone cut already queried")));
    }
    if names.len() == 0 {
        let mut fallback: Vec<ServerTarget> = Vec::new();
        let mut k: usize = 0;
        while k < children.len()
            invariant
                k <= children@.len(),
                server_views(fallback@) == children@.subrange(0, k as int).map_values(
                    |c: TraceNode| hop_server(c.hop),
                ),
            decreases children@.len() - k,
        {
            let t = hop_target(&children[k].hop);
            let ghost before = fallback@;
            fallback.push(t);
            assert(server_views(fallback@) =~= server_views(before).push(t@));
            assert(server_views(fallback@) =~= children@.subrange(0, k + 1).map_values(
                |c: TraceNode| hop_server(c.hop),
            ));
            k = k + 1;
        }
        let targets = filter_unqueried_targets(&fallback, children);
        return ExpandStart::Planned(TargetPlan { targets, warnings: Vec::new() });
    }
    let mut steps: Vec<NsStep> = Vec::new();
    let mut i: usize = 0;
    while i < names.len()
        invariant
            i <= names@.len(),
            steps@.len() == i,
            forall|k: int|
                0 <= k < i ==> (#[trigger] steps@[k])@ == ns_step(*cut, views(names@), names@[k]@, children@),
        decreases names@.len() - i,
    {
        let ns = names[i].as_str();
        let glue = glue_for_exec(cut, names, ns);
        let covered = children_cover_exec(&glue, ns, children, 0, Ghost(*cut), Ghost(views(names@)));
        assert(covered == children_cover(*cut, views(names@), ns@, children@, 0));
        let step = if covered {
            NsStep::Covered
        } else {
            match ns_target_children_exec(ns, children, 0) {
                Some(t) => NsStep::Found(t),
                None => NsStep::Resolve,
            }
        };
        steps.push(step);
        i = i + 1;
    }
    ExpandStart::PerName(steps)
}

/// What one nameserver came to: as planned (covered, or found in the
/// trace), or looked up: an address, none, or the lookup's error message.
#[derive(Debug)]
pub enum NsOutcome {
    Covered,
    Found(ServerTarget),
    Looked(Result<Option<ServerTarget>, String>),
}

pub enum NsOutcomeView {
    Covered,
    Found(ServerView),
    Looked(Result<Option<ServerView>, Seq<char>>),
}

impl View for NsOutcome {
    type V = NsOutcomeView;

    open spec fn view(&self) -> NsOutcomeView {
        match self {
            NsOutcome::Covered => NsOutcomeView::Covered,
            NsOutcome::Found(t) => NsOutcomeView::Found(t@),
            NsOutcome::Looked(Ok(Some(t))) => NsOutcomeView::Looked(Ok(Some(t@))),
            NsOutcome::Looked(Ok(None)) => NsOutcomeView::Looked(Ok(None)),
            NsOutcome::Looked(Err(m)) => NsOutcomeView::Looked(Err(m@)),
        }
    }
}

pub open spec fn outcome_views(os: Seq<NsOutcome>) -> Seq<NsOutcomeView> {
    os.map_values(|o: NsOutcome| o@)
}

/// The servers the outcomes give, in order.
pub open spec fn collected(os: Seq<NsOutcomeView>) -> Seq<ServerView>
    decreases os.len(),
{
    if os.len() == 0 {
        Seq::empty()
    } else {
        match os.last() {
            NsOutcomeView::Found(t) => collected(os.drop_last()).push(t),
            NsOutcomeView::Looked(Ok(Some(t))) => collected(os.drop_last()).push(t),
            _ => collected(os.drop_last()),
        }
    }
}

/// Whether some nameserver needed a lookup.
pub open spec fn any_looked(os: Seq<NsOutcomeView>) -> bool {
    exists|i: int| 0 <= i < os.len() && #[trigger] os[i] is Looked
}

/// The message of the last lookup that failed.
pub open spec fn last_error(os: Seq<NsOutcomeView>) -> Option<Seq<char>>
    decreases os.len(),
{
    if os.len() == 0 {
        None
    } else {
        match os.last() {
            NsOutcomeView::Looked(Err(m)) => Some(m),
            _ => last_error(os.drop_last()),
        }
    }
}

/// Where expanding a cut ends: the servers found, not yet queried below
/// the cut, each address once. When none is left, the all-queried warning,
/// unless a lookup was needed and one failed: then that failure.
pub open spec fn expand_result(os: Seq<NsOutcomeView>, cs: Seq<TraceNode>) -> Result<Seq<ServerView>, Seq<char>> {
    let left = deduped(unqueried(collected(os), cs));
    if left.len() == 0 && any_looked(os) && last_error(os) is Some {
        Err(last_error(os)->0)
    } else {
        Ok(left)
    }
}

/// Finishes expanding a cut from what each nameserver came to.
pub fn finish_expand_targets(outcomes: Vec<NsOutcome>, children: &Vec<TraceNode>) -> (r: Result<
    TargetPlan,
    String,
>)
    ensures
        match expand_result(outcome_views(outcomes@), children@) {
            Err(m) => r matches Err(e) && e@ == m,
            Ok(left) => r matches Ok(p) && server_views(p.targets@) == left && if left.len() == 0 {
                views(p.warnings@) == seq![all_queried_text()]
            } else {
                p.warnings@.len() == 0
            },
        },
{
    let ghost os = outcome_views(outcomes@);
    let mut found: Vec<ServerTarget> = Vec::new();
    let mut looked = false;
    let mut error: Option<String> = None;
    let mut i: usize = 0;
    while i < outcomes.len()
        invariant
            i <= outcomes@.len(),
            os == outcome_views(outcomes@),
            server_views(found@) == collected(os.subrange(0, i as int)),
            looked == any_looked(os.subrange(0, i as int)),
            opt_view(error) == last_error(os.subrange(0, i as int)),
        decreases outcomes@.len() - i,
    {
        let ghost prefix = os.subrange(0, i + 1);
        assert(prefix.drop_last() =~= os.subrange(0, i as int));
        assert(prefix.last() == outcomes@[i as int]@);
        match &outcomes[i] {
            NsOutcome::Covered => {},
            NsOutcome::Found(t) => {
                let c = copy_target(t);
                found.push(c);
                assert(server_views(found@) =~= collected(os.subrange(0, i as int)).push(c@));
            },
            NsOutcome::Looked(Ok(Some(t))) => {
                let c = copy_target(t);
                found.push(c);
                assert(server_views(found@) =~= collected(os.subrange(0, i as int)).push(c@));
            },
            NsOutcome::Looked(Ok(None)) => {},
            NsOutcome::Looked(Err(m)) => {
                error = Some(m.clone());
            },
        }
        let is_looked = match &outcomes[i] {
            NsOutcome::Looked(_) => true,
            _ => false,
        };
        proof {
            if is_looked {
                assert(prefix[i as int] is Looked);
            }
            if any_looked(os.subrange(0, i as int)) {
                let w = choose|j: int| 0 <= j < i && #[trigger] os.subrange(0, i as int)[j] is Looked;
                assert(prefix[w] is Looked);
            }
            if any_looked(prefix) {
                let w = choose|j: int| 0 <= j < i + 1 && #[trigger] prefix[j] is Looked;
                if w < i {
                    assert(os.subrange(0, i as int)[w] is Looked);
                }
            }
        }
        looked = looked || is_looked;
        i = i + 1;
    }
    assert(os.subrange(0, outcomes@.len() as int) =~= os);
    let filtered = filter_unqueried_targets(&found, children);
    let left = dedupe_server_targets(filtered);
    if left.len() == 0 {
        if looked {
            match error {
                Some(m) => {
                    return Err(m);
                },
                None => {},
            }
        }
        return Ok(warning_plan(String::from_str("all nameservers at this zone cut already queried")));
    }
    Ok(TargetPlan { targets: left, warnings: Vec::new() })
}

proof fn lemma_ns_target_queried(ns: Seq<char>, n: TraceNode)
    ensures
        ns_target_in(ns, n) matches Some(t) ==> subtree_queried(n, t.address),
    decreases n, 0nat,
{
    if !(n.hop.server_name matches Some(x) && same_ns(x@, ns)) {
        lemma_ns_target_children_queried(ns, n.children@, 0);
    }
}

proof fn lemma_ns_target_children_queried(ns: Seq<char>, cs: Seq<TraceNode>, i: int)
    ensures
        ns_target_children(ns, cs, i) matches Some(t) ==> children_queried(cs, i, t.address),
    decreases cs, if 0 <= i < cs.len() { (cs.len() - i) as nat } else { 0 },
{
    if 0 <= i < cs.len() {
        lemma_ns_target_queried(ns, cs[i]);
        lemma_ns_target_children_queried(ns, cs, i + 1);
    }
}

proof fn lemma_collected_all_queried(os: Seq<NsOutcomeView>, cs: Seq<TraceNode>)
    requires
        forall|i: int|
            0 <= i < os.len() ==> (#[trigger] os[i] is Covered || (os[i] matches NsOutcomeView::Found(t)
                && children_queried(cs, 0, t.address))),
    ensures
        unqueried(collected(os), cs).len() == 0,
        !any_looked(os),
    decreases os.len(),
{
    if os.len() > 0 {
        let d = os.drop_last();
        assert forall|i: int| 0 <= i < d.len() implies (#[trigger] d[i] is Covered || (d[i] matches NsOutcomeView::Found(t)
            && children_queried(cs, 0, t.address))) by {
            assert(d[i] == os[i]);
        }
        lemma_collected_all_queried(d, cs);
        let last = os[os.len() - 1];
        assert(os.last() == last);
        match last {
            NsOutcomeView::Found(t) => {
                let c = collected(d).push(t);
                assert(c.drop_last() =~= collected(d));
                assert(c.last() == t);
            },
            _ => {},
        }
        if any_looked(os) {
            let w = choose|j: int| 0 <= j < os.len() && #[trigger] os[j] is Looked;
            if w < d.len() {
                assert(d[w] == os[w]);
            }
        }
    }
}

/// Expanding a cut whose every nameserver the trace already reached (the
/// trace answers for it below the cut, or reached a server of that name
/// there) leaves nothing to query; `finish_expand_targets` then ends with
/// the all-queried warning and the branch adds no node.
pub proof fn lemma_fully_queried_cut(names: Seq<Seq<char>>, cs: Seq<TraceNode>, os: Seq<NsOutcomeView>)
    requires
        os.len() == names.len(),
        forall|i: int|
            0 <= i < os.len() ==> (#[trigger] os[i] is Covered || (ns_target_children(names[i], cs, 0) is Some
                && os[i] == NsOutcomeView::Found(ns_target_children(names[i], cs, 0)->0))),
    ensures
        expand_result(os, cs) == Ok::<Seq<ServerView>, Seq<char>>(Seq::empty()),
{
    assert forall|i: int| 0 <= i < os.len() implies (#[trigger] os[i] is Covered || (os[i] matches NsOutcomeView::Found(t)
        && children_queried(cs, 0, t.address))) by {
        if !(os[i] is Covered) {
            lemma_ns_target_children_queried(names[i], cs, 0);
        }
    }
    lemma_collected_all_queried(os, cs);
    assert(deduped(unqueried(collected(os), cs)) =~= Seq::<ServerView>::empty());
}


proof fn lemma_unqueried_fresh(ts: Seq<ServerView>, cs: Seq<TraceNode>)
    ensures
        forall|i: int|
            0 <= i < unqueried(ts, cs).len() ==> !children_queried(cs, 0, #[trigger] unqueried(ts, cs)[i].address),
    decreases ts.len(),
{
    if ts.len() > 0 {
        lemma_unqueried_fresh(ts.drop_last(), cs);
    }
}

proof fn lemma_deduped_kept(ts: Seq<ServerView>, cs: Seq<TraceNode>)
    requires
        forall|i: int| 0 <= i < ts.len() ==> !children_queried(cs, 0, #[trigger] ts[i].address),
    ensures
        forall|i: int| 0 <= i < deduped(ts).len() ==> !children_queried(cs, 0, #[trigger] deduped(ts)[i].address),
        forall|i: int, j: int|
            0 <= i < j < deduped(ts).len() ==> #[trigger] deduped(ts)[i].address != #[trigger] deduped(ts)[j].address,
    decreases ts.len(),
{
    if ts.len() > 0 {
        let d = ts.drop_last();
        assert forall|i: int| 0 <= i < d.len() implies !children_queried(cs, 0, #[trigger] d[i].address) by {
            assert(d[i] == ts[i]);
        }
        lemma_deduped_kept(d, cs);
        let dd = deduped(d);
        if !has_address(dd, ts.last().address) {
            let r = dd.push(ts.last());
            assert forall|i: int, j: int| 0 <= i < j < r.len() implies #[trigger] r[i].address != #[trigger] r[j].address by {
                if j == r.len() - 1 {
                    assert(r[i] == dd[i]);
                    if r[i].address == ts.last().address {
                        assert(dd[i].address == ts.last().address);
                    }
                } else {
                    assert(r[i] == dd[i]);
                    assert(r[j] == dd[j]);
                }
            }
            assert(ts.last() == ts[ts.len() - 1]);
        }
    }
}

/// What expanding a cut plans to query was not queried below the cut,
/// and no address is planned twice.
pub proof fn lemma_expand_targets_fresh(os: Seq<NsOutcomeView>, cs: Seq<TraceNode>)
    ensures
        expand_result(os, cs) matches Ok(left) ==> (forall|i: int|
            0 <= i < left.len() ==> !children_queried(cs, 0, #[trigger] left[i].address)) && (forall|
            i: int,
            j: int,
        | 0 <= i < j < left.len() ==> #[trigger] left[i].address != #[trigger] left[j].address),
{
    let u = unqueried(collected(os), cs);
    lemma_unqueried_fresh(collected(os), cs);
    lemma_deduped_kept(u, cs);
}


// ---------------------------------------------------------------------------
// Another server
// ---------------------------------------------------------------------------

/// The candidates named `name` (any name when none is asked for).
pub open spec fn named(ts: Seq<ServerView>, name: Option<Seq<char>>) -> Seq<ServerView>
    decreases ts.len(),
{
    match name {
        None => ts,
        Some(n) => if ts.len() == 0 {
            Seq::empty()
        } else if ts.last().name matches Some(x) && same_ns(x, n) {
            named(ts.drop_last(), name).push(ts.last())
        } else {
            named(ts.drop_last(), name)
        },
    }
}

/// Querying another server at the cut: the first candidate with the name
/// asked for (every candidate when an address was given); nothing when
/// there is none; a warning and nothing when the trace already queried it
/// below the cut.
pub open spec fn alternate_result(ts: Seq<ServerView>, name: Option<Seq<char>>, cs: Seq<TraceNode>) -> (
    Seq<ServerView>,
    Seq<Seq<char>>,
) {
    let c = named(ts, name);
    if c.len() == 0 {
        (Seq::empty(), Seq::empty())
    } else if children_queried(cs, 0, c[0].address) {
        (Seq::empty(), seq![already_queried_text(label_of(c[0]))])
    } else {
        (seq![c[0]], Seq::empty())
    }
}

/// Picks the server to query instead: `candidates` are the address given,
/// or the cut's servers the resolver found when a name was given.
pub fn choose_alternate(candidates: &Vec<ServerTarget>, name: &Option<String>, children: &Vec<TraceNode>) -> (r:
    TargetPlan)
    ensures
        (server_views(r.targets@), views(r.warnings@)) == alternate_result(
            server_views(candidates@),
            opt_view(*name),
            children@,
        ),
{
    let mut c: Vec<ServerTarget> = Vec::new();
    let mut i: usize = 0;
    while i < candidates.len()
        invariant
            i <= candidates@.len(),
            server_views(c@) == named(server_views(candidates@.subrange(0, i as int)), opt_view(*name)),
        decreases candidates@.len() - i,
    {
        let ghost prefix = server_views(candidates@.subrange(0, i + 1));
        assert(prefix.drop_last() =~= server_views(candidates@.subrange(0, i as int)));
        assert(prefix.last() == candidates@[i as int]@);
        let keep = match name {
            None => true,
            Some(n) => match &candidates[i].name {
                Some(x) => same_ns_exec(x.as_str(), n.as_str()),
                None => false,
            },
        };
        if keep {
            let t = copy_target(&candidates[i]);
            c.push(t);
            assert(server_views(c@) =~= named(server_views(candidates@.subrange(0, i as int)), opt_view(*name)).push(t@));
        }
        i = i + 1;
    }
    assert(candidates@.subrange(0, candidates@.len() as int) =~= candidates@);
    if c.len() == 0 {
        let r = TargetPlan { targets: Vec::new(), warnings: Vec::new() };
        assert(server_views(r.targets@) =~= Seq::<ServerView>::empty());
        assert(views(r.warnings@) =~= Seq::<Seq<char>>::empty());
        return r;
    }
    assert(server_views(c@)[0] == c@[0]@);
    if queried_below(children, c[0].address.as_str()) {
        let label = server_label(&c[0].name, c[0].address.as_str());
        let mut w = String::from_str("server ");
        w.append(label.as_str());
        w.append(" was already queried at this zone cut");
        let p = warning_plan(w);
        assert(server_views(p.targets@) =~= Seq::<ServerView>::empty());
        return p;
    }
    let first = copy_target(&c[0]);
    let mut targets: Vec<ServerTarget> = Vec::new();
    targets.push(first);
    assert(server_views(targets@) =~= seq![server_views(c@)[0]]);
    let r = TargetPlan { targets, warnings: Vec::new() };
    assert(views(r.warnings@) =~= Seq::<Seq<char>>::empty());
    r
}

} // verus!
