//! Lines of the hop detail pane.

use vstd::prelude::*;

use crate::explore::fork_summary::{is_failed, HopOutcome, TraceHop};
use crate::explore::terminal::{cache_source_symbol, UiSymbols};
use crate::hop_display::opt_text;
use crate::text::{
    chars_of, decimal, eq_chars, owned, push_decimal, push_line, push_str, views,
};

verus! {

/// The name shown for a server: its recorded name when non-empty, else
/// the root-server name for its address (`root_hint`, looked up by the
/// caller), else none.
pub open spec fn effective_name(server_name: Option<Seq<char>>, root_hint: Option<Seq<char>>) -> Option<Seq<char>> {
    match server_name {
        Some(n) => if n.len() > 0 { Some(n) } else { root_hint },
        None => root_hint,
    }
}

pub open spec fn opt_str_view(o: Option<&str>) -> Option<Seq<char>> {
    match o {
        Some(s) => Some(s@),
        None => None,
    }
}

/// The name a server is shown under, if any.
pub fn effective_server_name(server_name: Option<&str>, root_hint: Option<&str>) -> (r: Option<String>)
    ensures
        match r {
            Some(s) => effective_name(opt_str_view(server_name), opt_str_view(root_hint)) == Some(s@),
            None => effective_name(opt_str_view(server_name), opt_str_view(root_hint)) is None,
        },
{
    if let Some(name) = server_name {
        let c = chars_of(name);
        if c.len() > 0 {
            return Some(owned(name));
        }
    }
    match root_hint {
        Some(h) => Some(owned(h)),
        None => None,
    }
}

/// `name (address)` when the server has a name other than its address,
/// else the address.
pub open spec fn endpoint_text(server: Seq<char>, server_name: Option<Seq<char>>, root_hint: Option<Seq<char>>) -> Seq<char> {
    match effective_name(server_name, root_hint) {
        Some(n) => if n != server { n + " ("@ + server + ")"@ } else { server },
        None => server,
    }
}

/// The server as shown in detail lines.
pub fn format_server_endpoint(server: &str, server_name: Option<&str>, root_hint: Option<&str>) -> (s: String)
    ensures
        s@ == endpoint_text(server@, opt_str_view(server_name), opt_str_view(root_hint)),
{
    match effective_server_name(server_name, root_hint) {
        Some(name) => {
            let n = chars_of(name.as_str());
            let sv = chars_of(server);
            if !eq_chars(&n, &sv) {
                let mut s = name;
                push_str(&mut s, " (");
                push_str(&mut s, server);
                push_str(&mut s, ")");
                s
            } else {
                owned(server)
            }
        },
        None => owned(server),
    }
}

/// `server: {endpoint} ({transport})`.
pub fn format_server_line(server: &str, server_name: Option<&str>, root_hint: Option<&str>, transport: &str) -> (s: String)
    ensures
        s@ == "server: "@ + endpoint_text(server@, opt_str_view(server_name), opt_str_view(root_hint)) + " ("@ + transport@ + ")"@,
{
    let mut s = owned("server: ");
    let e = format_server_endpoint(server, server_name, root_hint);
    push_str(&mut s, e.as_str());
    push_str(&mut s, " (");
    push_str(&mut s, transport);
    push_str(&mut s, ")");
    s
}

/// `query response time: {n}ms`.
pub fn format_query_response_time_line(rtt_ms: u64) -> (s: String)
    ensures
        s@ == "query response time: "@ + decimal(rtt_ms as nat) + "ms"@,
{
    let mut s = owned("query response time: ");
    push_decimal(&mut s, rtt_ms);
    push_str(&mut s, "ms");
    s
}

/// Each line prefixed with `indent` and ended with a newline.
pub open spec fn indented_block(lines: Seq<Seq<char>>, indent: Seq<char>) -> Seq<char>
    decreases lines.len(),
{
    if lines.len() == 0 {
        Seq::<char>::empty()
    } else {
        indented_block(lines.drop_last(), indent) + indent + lines.last() + "\n"@
    }
}

/// Indents every line of a block.
pub fn render_indented_block(lines: &Vec<String>, indent: &str) -> (s: String)
    ensures
        s@ == indented_block(views(lines@), indent@),
{
    let mut output = String::new();
    let mut i: usize = 0;
    assert(views(lines@).subrange(0, 0) =~= Seq::<Seq<char>>::empty());
    while i < lines.len()
        invariant
            i <= lines.len(),
            output@ == indented_block(views(lines@).subrange(0, i as int), indent@),
        decreases lines.len() - i,
    {
        let ghost next = views(lines@).subrange(0, i + 1);
        assert(next.drop_last() =~= views(lines@).subrange(0, i as int));
        push_str(&mut output, indent);
        push_str(&mut output, lines[i].as_str());
        push_str(&mut output, "\n");
        i = i + 1;
    }
    assert(views(lines@).subrange(0, lines@.len() as int) =~= views(lines@));
    output
}

/// A YAML-style list: `key:` then `  - value` per value; nothing for no values.
pub open spec fn yaml_list_lines(key: Seq<char>, values: Seq<Seq<char>>) -> Seq<Seq<char>> {
    if values.len() == 0 {
        Seq::<Seq<char>>::empty()
    } else {
        seq![key + ":"@] + values.map_values(|v: Seq<char>| "  - "@ + v)
    }
}

/// Appends a YAML-style list of values under `key`.
pub fn append_yaml_list_lines(lines: &mut Vec<String>, key: &str, values: &Vec<String>)
    ensures
        views(final(lines)@) == views(old(lines)@) + yaml_list_lines(key@, views(values@)),
{
    if values.len() == 0 {
        assert(views(lines@) =~= views(old(lines)@) + yaml_list_lines(key@, views(values@)));
        return;
    }
    let mut head = owned(key);
    push_str(&mut head, ":");
    crate::text::push_string(lines, head);
    let ghost base = views(lines@);
    let mut i: usize = 0;
    while i < values.len()
        invariant
            i <= values.len(),
            views(lines@) == base + views(values@).subrange(0, i as int).map_values(|v: Seq<char>| "  - "@ + v),
        decreases values.len() - i,
    {
        let mut line = owned("  - ");
        push_str(&mut line, values[i].as_str());
        crate::text::push_string(lines, line);
        i = i + 1;
        assert(views(lines@) =~= base + views(values@).subrange(0, i as int).map_values(|v: Seq<char>| "  - "@ + v));
    }
    assert(views(values@).subrange(0, values@.len() as int) =~= views(values@));
    assert(views(lines@) =~= views(old(lines)@) + yaml_list_lines(key@, views(values@)));
}

/// The one-line summary of a query: `✗ ` when it failed, then
/// `[ZONE] QNAME QTYPE  RCODE  SOURCE`.
pub open spec fn hop_summary_text(h: TraceHop, sym: UiSymbols) -> Seq<char> {
    (if h.outcome is Failed {
        "✗ "@
    } else {
        Seq::<char>::empty()
    }) + "["@ + h.zone@ + "] "@ + h.qname@ + " "@ + h.qtype@ + "  "@ + h.rcode@ + "  "@ + (if h.from_cache {
        sym.cache@
    } else {
        sym.live@
    })
}

/// The summary line of a query.
pub fn hop_summary_line(hop: &TraceHop, symbols: UiSymbols) -> (s: String)
    ensures
        s@ == hop_summary_text(*hop, symbols),
{
    let mut s = String::new();
    if is_failed(hop) {
        push_str(&mut s, "✗ ");
    }
    push_str(&mut s, "[");
    push_str(&mut s, hop.zone.as_str());
    push_str(&mut s, "] ");
    push_str(&mut s, hop.qname.as_str());
    push_str(&mut s, " ");
    push_str(&mut s, hop.qtype.as_str());
    push_str(&mut s, "  ");
    push_str(&mut s, hop.rcode.as_str());
    push_str(&mut s, "  ");
    push_str(&mut s, cache_source_symbol(hop.from_cache, symbols));
    s
}

/// `failure: KIND: DETAIL` for a failed query.
pub open spec fn failure_text(h: TraceHop) -> Option<Seq<char>> {
    match h.outcome {
        HopOutcome::Failed { kind, detail } => Some("failure: "@ + kind@ + ": "@ + detail@),
        _ => None,
    }
}

/// The failure line of a query, if it failed.
pub fn hop_failure_line(hop: &TraceHop) -> (r: Option<String>)
    ensures
        match failure_text(*hop) {
            Some(t) => r matches Some(s) && s@ == t,
            None => r is None,
        },
{
    match &hop.outcome {
        HopOutcome::Failed { kind, detail } => {
            let mut s = owned("failure: ");
            push_str(&mut s, kind.as_str());
            push_str(&mut s, ": ");
            push_str(&mut s, detail.as_str());
            Some(s)
        },
        _ => None,
    }
}

/// `ede: CODE:TEXT`.
pub open spec fn ede_text_line(code: u16, text: Option<String>) -> Seq<char> {
    "ede: "@ + decimal(code as nat) + ":"@ + match text {
        Some(t) => t@,
        None => Seq::<char>::empty(),
    }
}

/// The detail lines of a query: zone, query, server, response time,
/// rcode and source, then the NSID and extended error when present, then
/// the referral NS and glue lists.
pub open spec fn plain_detail(h: TraceHop, sym: UiSymbols) -> Seq<Seq<char>> {
    seq![
        "zone: "@ + h.zone@,
        "query: "@ + h.qname@ + " "@ + h.qtype@,
        "server: "@ + endpoint_text(h.server@, opt_text(h.server_name), opt_text(h.root_name)) + " ("@
            + h.transport@ + ")"@,
        "query response time: "@ + decimal(h.rtt_ms as nat) + "ms"@,
        "rcode: "@ + h.rcode@,
        "source: "@ + (if h.from_cache { sym.cache@ } else { sym.live@ }),
    ] + (match h.nsid {
        Some(n) => seq!["nsid: "@ + n@],
        None => Seq::<Seq<char>>::empty(),
    }) + (match h.ede_code {
        Some(c) => seq![ede_text_line(c, h.ede_text)],
        None => Seq::<Seq<char>>::empty(),
    }) + yaml_list_lines("referral NS"@, views(h.referral_ns@)) + yaml_list_lines("glue"@, views(h.glue@))
}

fn opt_as_str(o: &Option<String>) -> (r: Option<&str>)
    ensures
        opt_str_view(r) == opt_text(*o),
{
    match o {
        Some(s) => Some(s.as_str()),
        None => None,
    }
}

/// The detail lines of a query whose response is not stored.
pub fn legacy_hop_detail_lines(hop: &TraceHop, symbols: UiSymbols) -> (r: Vec<String>)
    ensures
        views(r@) == plain_detail(*hop, symbols),
{
    let mut lines: Vec<String> = Vec::new();
    let mut zone = owned("zone: ");
    push_str(&mut zone, hop.zone.as_str());
    push_line(&mut lines, zone);
    let mut query = owned("query: ");
    push_str(&mut query, hop.qname.as_str());
    push_str(&mut query, " ");
    push_str(&mut query, hop.qtype.as_str());
    push_line(&mut lines, query);
    push_line(
        &mut lines,
        format_server_line(
            hop.server.as_str(),
            opt_as_str(&hop.server_name),
            opt_as_str(&hop.root_name),
            hop.transport.as_str(),
        ),
    );
    push_line(&mut lines, format_query_response_time_line(hop.rtt_ms));
    let mut rcode = owned("rcode: ");
    push_str(&mut rcode, hop.rcode.as_str());
    push_line(&mut lines, rcode);
    let mut source = owned("source: ");
    push_str(&mut source, cache_source_symbol(hop.from_cache, symbols));
    push_line(&mut lines, source);
    if let Some(n) = &hop.nsid {
        let mut line = owned("nsid: ");
        push_str(&mut line, n.as_str());
        push_line(&mut lines, line);
    }
    if let Some(code) = hop.ede_code {
        let mut line = owned("ede: ");
        push_decimal(&mut line, code as u64);
        push_str(&mut line, ":");
        if let Some(t) = &hop.ede_text {
            push_str(&mut line, t.as_str());
        }
        push_line(&mut lines, line);
    }
    append_yaml_list_lines(&mut lines, "referral NS", &hop.referral_ns);
    append_yaml_list_lines(&mut lines, "glue", &hop.glue);
    assert(views(lines@) =~= plain_detail(*hop, symbols));
    lines
}

/// The detail lines of a query, then its failure line when it failed.
pub open spec fn detail_text_lines(h: TraceHop, sym: UiSymbols) -> Seq<Seq<char>> {
    plain_detail(h, sym) + match failure_text(h) {
        Some(l) => seq![l],
        None => Seq::<Seq<char>>::empty(),
    }
}

/// The detail lines of a query (its response not stored), with the
/// failure line last when it failed.
pub fn hop_detail_lines(hop: &TraceHop, symbols: UiSymbols) -> (r: Vec<String>)
    ensures
        views(r@) == detail_text_lines(*hop, symbols),
{
    let mut lines = legacy_hop_detail_lines(hop, symbols);
    if let Some(failure) = hop_failure_line(hop) {
        push_line(&mut lines, failure);
    }
    assert(views(lines@) =~= detail_text_lines(*hop, symbols));
    lines
}

} // verus!
