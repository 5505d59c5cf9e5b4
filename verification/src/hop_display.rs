//! The human-readable line printed for each hop of a live trace or replay.

use vstd::prelude::*;

use crate::explore::terminal::{cache_source_symbol, UiSymbols};
use crate::node_path::{dotted, format_path, NodePath};
use crate::text::{
    chars_of, decimal, eq_chars, indent, join_strings, join_with, push_char, push_decimal,
    push_indent, string_of, views,
};

verus! {

/// What the hop line shows of one query of a trace.
#[derive(Debug, Clone, PartialEq, Eq)]
pub struct HopSummary {
    pub zone: String,
    pub server: String,
    pub qname: String,
    pub qtype: String,
    pub transport: String,
    pub rtt_ms: u64,
    pub rcode: String,
    pub nsid: Option<String>,
    pub ede_code: Option<u16>,
    pub ede_text: Option<String>,
    pub referral_ns: Vec<String>,
    pub glue: Vec<String>,
    pub from_cache: bool,
}

/// Query numbering and the last query shown, across a trace or replay.
#[derive(Debug)]
pub struct HopDisplayState {
    query_count: usize,
    last_qname: Option<String>,
    last_qtype: Option<String>,
    emitted_hop: bool,
}

/// An optional text by its view.
pub open spec fn opt_text(o: Option<String>) -> Option<Seq<char>> {
    match o {
        Some(s) => Some(s@),
        None => None,
    }
}

impl HopDisplayState {
    /// Queries shown so far.
    pub closed spec fn queries(&self) -> nat {
        self.query_count as nat
    }

    /// The last query name shown.
    pub closed spec fn last_name(&self) -> Option<Seq<char>> {
        opt_text(self.last_qname)
    }

    /// The last query type shown.
    pub closed spec fn last_type(&self) -> Option<Seq<char>> {
        opt_text(self.last_qtype)
    }

    /// Whether a hop has been shown.
    pub closed spec fn emitted(&self) -> bool {
        self.emitted_hop
    }

    /// Nothing shown yet.
    pub fn new() -> (s: Self)
        ensures
            s.queries() == 0,
            s.last_name() is None,
            s.last_type() is None,
            !s.emitted(),
    {
        HopDisplayState { query_count: 0, last_qname: None, last_qtype: None, emitted_hop: false }
    }
}

/// The query as shown: `·` when name and type repeat the last query shown,
/// else `NAME TYPE`.
pub open spec fn query_text(
    last_name: Option<Seq<char>>,
    last_type: Option<Seq<char>>,
    qname: Seq<char>,
    qtype: Seq<char>,
) -> Seq<char> {
    if last_name == Some(qname) && last_type == Some(qtype) {
        "·"@
    } else {
        qname + " "@ + qtype
    }
}

/// ` NSID=...` when the server sent one.
pub open spec fn nsid_part(hop: HopSummary) -> Seq<char> {
    match hop.nsid {
        Some(n) => " NSID="@ + n@,
        None => Seq::empty(),
    }
}

/// ` EDE=CODE[:TEXT]` when the response carried an extended error.
pub open spec fn ede_part(hop: HopSummary) -> Seq<char> {
    match hop.ede_code {
        Some(c) => " EDE="@ + decimal(c as nat) + match hop.ede_text {
            Some(t) => ":"@ + t@,
            None => Seq::empty(),
        },
        None => Seq::empty(),
    }
}

/// The start of a hop line: indentation, query number, path and zone.
pub open spec fn hop_head(depth: nat, count: nat, path_label: Seq<char>, zone: Seq<char>) -> Seq<char> {
    indent(depth) + "query "@ + decimal(count) + " at-path "@ + path_label + "  ["@ + zone + "] "@
}

/// The end of a hop line: server, transport, RTT, rcode, cache glyph and tags.
pub open spec fn hop_tail(hop: HopSummary, symbol: Seq<char>) -> Seq<char> {
    "  "@ + hop.server@ + " via "@ + hop.transport@ + " in "@ + decimal(hop.rtt_ms as nat) + "ms ("@
        + hop.rcode@ + ") "@ + symbol + nsid_part(hop) + ede_part(hop)
}

/// The main line of a hop, without its newline.
pub open spec fn hop_line(
    depth: nat,
    count: nat,
    path_label: Seq<char>,
    hop: HopSummary,
    query: Seq<char>,
    symbol: Seq<char>,
) -> Seq<char> {
    hop_head(depth, count, path_label, hop.zone@) + query + hop_tail(hop, symbol)
}

/// An indented `  LABEL: a, b` line, when the list is not empty.
pub open spec fn list_part(depth: nat, label: Seq<char>, items: Seq<Seq<char>>) -> Seq<char> {
    if items.len() > 0 {
        indent(depth) + "  "@ + label + ": "@ + join_with(items, ", "@) + "\n"@
    } else {
        Seq::empty()
    }
}

/// The text printed for a hop at `path`: a blank line before every hop but
/// the first, the hop line with the running query number, then the
/// referral NS names and the glue when there are any.
pub open spec fn hop_text(
    emitted: bool,
    count: nat,
    last_name: Option<Seq<char>>,
    last_type: Option<Seq<char>>,
    hop: HopSummary,
    path: NodePath,
    symbol: Seq<char>,
) -> Seq<char> {
    let depth = path.path@.len();
    (if emitted {
        "\n"@
    } else {
        Seq::empty()
    }) + hop_line(
        depth,
        count,
        dotted(path.tree, path.path@),
        hop,
        query_text(last_name, last_type, hop.qname@, hop.qtype@),
        symbol,
    ) + "\n"@ + list_part(depth, "referral NS"@, views(hop.referral_ns@)) + list_part(
        depth,
        "glue"@,
        views(hop.glue@),
    )
}

fn same_text(a: &Option<String>, b: &String) -> (r: bool)
    ensures
        r == (opt_text(*a) == Some(b@)),
{
    match a {
        Some(x) => eq_chars(&chars_of(x.as_str()), &chars_of(b.as_str())),
        None => false,
    }
}

fn push_list(s: &mut String, depth: usize, label: &str, items: &Vec<String>)
    ensures
        final(s)@ == old(s)@ + list_part(depth as nat, label@, views(items@)),
{
    if items.len() > 0 {
        push_indent(s, depth);
        s.append("  ");
        s.append(label);
        s.append(": ");
        let joined = join_strings(items, ", ");
        s.append(joined.as_str());
        s.append("\n");
    }
}

fn push_tags(out: &mut String, hop: &HopSummary)
    ensures
        final(out)@ == old(out)@ + nsid_part(*hop) + ede_part(*hop),
{
    match &hop.nsid {
        Some(n) => {
            out.append(" NSID=");
            out.append(n.as_str());
        },
        None => {},
    }
    let ghost mid = out@;
    match hop.ede_code {
        Some(code) => {
            out.append(" EDE=");
            push_decimal(out, code as u64);
            match &hop.ede_text {
                Some(t) => {
                    out.append(":");
                    out.append(t.as_str());
                },
                None => {},
            }
        },
        None => {},
    }
    assert(out@ =~= old(out)@ + nsid_part(*hop) + ede_part(*hop));
}

fn push_head(out: &mut String, count: usize, path: &NodePath, zone: &String)
    ensures
        final(out)@ == old(out)@ + hop_head(
            path.path@.len(),
            count as nat,
            dotted(path.tree, path.path@),
            zone@,
        ),
{
    push_indent(out, path.path.len());
    out.append("query ");
    push_decimal(out, count as u64);
    out.append(" at-path ");
    let label = format_path(path);
    out.append(label.as_str());
    out.append("  [");
    out.append(zone.as_str());
    out.append("] ");
    assert(out@ =~= old(out)@ + hop_head(
        path.path@.len(),
        count as nat,
        dotted(path.tree, path.path@),
        zone@,
    ));
}

fn push_tail(out: &mut String, hop: &HopSummary, symbol: &'static str)
    ensures
        final(out)@ == old(out)@ + hop_tail(*hop, symbol@),
{
    out.append("  ");
    out.append(hop.server.as_str());
    out.append(" via ");
    out.append(hop.transport.as_str());
    out.append(" in ");
    push_decimal(out, hop.rtt_ms);
    out.append("ms (");
    out.append(hop.rcode.as_str());
    out.append(") ");
    out.append(symbol);
    let ghost mid = out@;
    push_tags(out, hop);
    assert(out@ =~= old(out)@ + hop_tail(*hop, symbol@));
}

fn push_query(out: &mut String, hop: &HopSummary, repeated: bool)
    ensures
        final(out)@ == old(out)@ + if repeated { "·"@ } else { hop.qname@ + " "@ + hop.qtype@ },
{
    if repeated {
        out.append("·");
    } else {
        out.append(hop.qname.as_str());
        out.append(" ");
        out.append(hop.qtype.as_str());
    }
    assert(out@ =~= old(out)@ + if repeated { "·"@ } else { hop.qname@ + " "@ + hop.qtype@ });
}

/// Formats one hop and records it: the query number goes up by one and the
/// hop's name and type become the last query shown.
#[verifier::rlimit(40)]
pub fn format_hop_human(
    state: &mut HopDisplayState,
    hop: &HopSummary,
    path: &NodePath,
    symbols: UiSymbols,
) -> (s: String)
    requires
        old(state).queries() < usize::MAX,
    ensures
        s@ == hop_text(
            old(state).emitted(),
            old(state).queries() + 1,
            old(state).last_name(),
            old(state).last_type(),
            *hop,
            *path,
            if hop.from_cache { symbols.cache@ } else { symbols.live@ },
        ),
        final(state).queries() == old(state).queries() + 1,
        final(state).emitted(),
        final(state).last_name() == Some(hop.qname@),
        final(state).last_type() == Some(hop.qtype@),
{
    proof {
        reveal_strlit("\n");
    }
    let mut out = String::new();
    if state.emitted_hop {
        push_char(&mut out, '\n');
    }
    let ghost first = out@;
    state.emitted_hop = true;
    state.query_count = state.query_count + 1;
    let repeated = same_text(&state.last_qname, &hop.qname) && same_text(&state.last_qtype, &hop.qtype);
    let symbol = cache_source_symbol(hop.from_cache, symbols);
    let ghost q = if repeated { "·"@ } else { hop.qname@ + " "@ + hop.qtype@ };
    let ghost label = dotted(path.tree, path.path@);
    let ghost depth_n = path.path@.len();
    push_head(&mut out, state.query_count, path, &hop.zone);
    push_query(&mut out, hop, repeated);
    push_tail(&mut out, hop, symbol);
    assert(out@ =~= first + hop_line(depth_n, state.query_count as nat, label, *hop, q, symbol@));
    push_char(&mut out, '\n');
    let ghost line_done = out@;
    let depth = path.path.len();
    push_list(&mut out, depth, "referral NS", &hop.referral_ns);
    push_list(&mut out, depth, "glue", &hop.glue);
    assert(out@ =~= line_done + list_part(depth_n, "referral NS"@, views(hop.referral_ns@)) + list_part(
        depth_n,
        "glue"@,
        views(hop.glue@),
    ));
    state.last_qname = Some(string_of(&chars_of(hop.qname.as_str())));
    state.last_qtype = Some(string_of(&chars_of(hop.qtype.as_str())));
    assert((if repeated { "·"@ } else { hop.qname@ + " "@ + hop.qtype@ }) == query_text(
        old(state).last_name(),
        old(state).last_type(),
        hop.qname@,
        hop.qtype@,
    ));
    assert(out@ =~= hop_text(
        old(state).emitted(),
        old(state).queries() + 1,
        old(state).last_name(),
        old(state).last_type(),
        *hop,
        *path,
        if hop.from_cache { symbols.cache@ } else { symbols.live@ },
    ));
    out
}

} // verus!
