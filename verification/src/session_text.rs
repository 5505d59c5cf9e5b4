//! What the `session` subcommands print and refuse: the session list with its
//! markers and legend, the header of `session show`, the purge report, and
//! which session id a command works on.
//!
//! The session store itself (listing, reading, removing) is outside this
//! crate; these functions take what the store answered as plain values.

use vstd::prelude::*;

use crate::dig_options::{ParseError, ParseErrorView};
use crate::text::{chars_of, decimal, eq_chars, lemma_views_push, push_char, push_decimal, views};

verus! {

/// One stored session as the list shows it.
#[derive(Debug, Clone)]
pub struct SessionSummary {
    pub id: String,
    pub qname: String,
    pub qtype: String,
    pub node_count: u64,
    /// Creation time, in the form the list shows.
    pub created_at: String,
    /// Last update time, in the form the list shows.
    pub updated_at: String,
    pub pinned: bool,
    pub frozen: bool,
}

/// An entry of the session list: a readable session, or a file that could
/// not be read, with the reason.
#[derive(Debug, Clone)]
pub enum SessionListItem {
    Session(SessionSummary),
    Unreadable { id: String, message: String },
}

/// Whether `id` is the default session.
pub open spec fn is_current(id: Seq<char>, default_id: Option<String>) -> bool {
    default_id matches Some(d) && d@ == id
}

/// Whether an entry carries a marker (frozen, pinned or current).
pub open spec fn item_marked(item: SessionListItem, default_id: Option<String>) -> bool {
    match item {
        SessionListItem::Session(s) => s.frozen || s.pinned || is_current(s.id@, default_id),
        SessionListItem::Unreadable { .. } => false,
    }
}

/// The three marker columns: `^` frozen, `*` pinned, `@` current.
pub open spec fn marks_text(s: SessionSummary, default_id: Option<String>) -> Seq<char> {
    seq![
        if s.frozen { '^' } else { ' ' },
        if s.pinned { '*' } else { ' ' },
        if is_current(s.id@, default_id) { '@' } else { ' ' },
    ]
}

/// The list line of one entry.
pub open spec fn list_line_text(item: SessionListItem, default_id: Option<String>) -> Seq<char> {
    match item {
        SessionListItem::Session(s) => marks_text(s, default_id) + " "@ + s.id@ + "  "@ + s.qname@
            + " "@ + s.qtype@ + "  "@ + decimal(s.node_count as nat) + " nodes  created "@
            + s.created_at@ + " updated "@ + s.updated_at@,
        SessionListItem::Unreadable { id, message } => "?  "@ + id@ + "  unreadable: "@ + message@,
    }
}

/// The legend printed above the list when some entry carries a marker.
pub open spec fn legend_text() -> Seq<char> {
    "^ frozen  * pinned  @ current"@
}

/// The legend line.
pub fn list_legend() -> (s: &'static str)
    ensures
        s@ == legend_text(),
{
    "^ frozen  * pinned  @ current"
}

fn id_is_current(id: &String, default_id: &Option<String>) -> (r: bool)
    ensures
        r == is_current(id@, *default_id),
{
    match default_id {
        Some(d) => {
            let a = chars_of(d.as_str());
            let b = chars_of(id.as_str());
            eq_chars(&a, &b)
        },
        None => false,
    }
}

/// The list line of one entry.
pub fn list_line(item: &SessionListItem, default_id: &Option<String>) -> (s: String)
    ensures
        s@ == list_line_text(*item, *default_id),
{
    let mut s = String::new();
    match item {
        SessionListItem::Session(summary) => {
            let current = id_is_current(&summary.id, default_id);
            push_char(&mut s, if summary.frozen { '^' } else { ' ' });
            push_char(&mut s, if summary.pinned { '*' } else { ' ' });
            push_char(&mut s, if current { '@' } else { ' ' });
            s.append(" ");
            s.append(summary.id.as_str());
            s.append("  ");
            s.append(summary.qname.as_str());
            s.append(" ");
            s.append(summary.qtype.as_str());
            s.append("  ");
            push_decimal(&mut s, summary.node_count);
            s.append(" nodes  created ");
            s.append(summary.created_at.as_str());
            s.append(" updated ");
            s.append(summary.updated_at.as_str());
        },
        SessionListItem::Unreadable { id, message } => {
            s.append("?  ");
            s.append(id.as_str());
            s.append("  unreadable: ");
            s.append(message.as_str());
        },
    }
    assert(s@ =~= list_line_text(*item, *default_id));
    s
}

/// The output of `session list`: whether the legend is shown (some entry
/// carries a marker), and one line per entry, in the store's order.
pub fn session_list_lines(items: &Vec<SessionListItem>, default_id: &Option<String>) -> (r: (
    bool,
    Vec<String>,
))
    ensures
        r.0 == exists|i: int| 0 <= i < items@.len() && #[trigger] item_marked(items@[i], *default_id),
        r.1@.len() == items@.len(),
        forall|i: int|
            0 <= i < items@.len() ==> #[trigger] r.1@[i]@ == list_line_text(items@[i], *default_id),
{
    let mut legend = false;
    let mut lines: Vec<String> = Vec::new();
    let mut i: usize = 0;
    while i < items.len()
        invariant
            i <= items@.len(),
            lines@.len() == i,
            legend == exists|j: int| 0 <= j < i && #[trigger] item_marked(items@[j], *default_id),
            forall|j: int| 0 <= j < i ==> #[trigger] lines@[j]@ == list_line_text(items@[j], *default_id),
        decreases items@.len() - i,
    {
        let item = &items[i];
        let marked = match item {
            SessionListItem::Session(summary) => summary.frozen || summary.pinned || id_is_current(
                &summary.id,
                default_id,
            ),
            SessionListItem::Unreadable { .. } => false,
        };
        assert(marked == item_marked(items@[i as int], *default_id));
        legend = legend || marked;
        lines.push(list_line(item, default_id));
        i = i + 1;
    }
    (legend, lines)
}

/// Whether `session show` refuses the id: a `+` option stands where the id
/// belongs.
pub open spec fn show_id_refused(id: Option<String>) -> bool {
    id matches Some(s) && s@.len() > 0 && s@[0] == '+'
}

/// Refuses a `+`-prefixed argument in the id position of `session show`,
/// pointing the operator to `--json`.
pub fn check_show_id(id: &Option<String>) -> (r: Result<(), ParseError>)
    ensures
        r is Err <==> show_id_refused(*id),
        r matches Err(e) ==> e@ == ParseErrorView::Unexpected(
            id->0@ + " is not valid for session show; use --json for JSON output"@,
        ),
{
    match id {
        Some(s) => {
            let c = chars_of(s.as_str());
            if c.len() > 0 && c[0] == '+' {
                let mut m = s.clone();
                m.append(" is not valid for session show; use --json for JSON output");
                Err(ParseError::Unexpected(m))
            } else {
                Ok(())
            }
        },
        None => Ok(()),
    }
}

/// The session a command works on, and its remaining arguments. An id that
/// starts with `+` is an option, not an id: it joins the front of the
/// arguments and the default session is used. `None` when the default is
/// needed and there is none.
pub open spec fn session_target_spec(
    id: Option<String>,
    args: Seq<Seq<char>>,
    default_id: Option<String>,
) -> Option<(Seq<char>, Seq<Seq<char>>)> {
    match id {
        Some(s) => if s@.len() > 0 && s@[0] == '+' {
            match default_id {
                Some(d) => Some((d@, seq![s@] + args)),
                None => None,
            }
        } else {
            Some((s@, args))
        },
        None => match default_id {
            Some(d) => Some((d@, args)),
            None => None,
        },
    }
}

/// Which session a command works on: the id given, unless it is a `+`
/// option; otherwise the default session whenever there is one, with the
/// option (if any) put in front of the other arguments. Only a missing
/// default leaves no target.
pub proof fn lemma_session_target_law(id: Option<String>, args: Seq<Seq<char>>, default_id: Option<String>)
    ensures
        id is None ==> match default_id {
            Some(d) => session_target_spec(id, args, default_id) == Some((d@, args)),
            None => session_target_spec(id, args, default_id) is None,
        },
        id matches Some(s) ==> (!(s@.len() > 0 && s@[0] == '+') ==> session_target_spec(id, args, default_id)
            == Some((s@, args))),
        id matches Some(s) ==> (s@.len() > 0 && s@[0] == '+' ==> match default_id {
            Some(d) => session_target_spec(id, args, default_id) == Some((d@, seq![s@] + args)),
            None => session_target_spec(id, args, default_id) is None,
        }),
        session_target_spec(id, args, default_id) is None <==> (default_id is None && match id {
            Some(s) => s@.len() > 0 && s@[0] == '+',
            None => true,
        }),
{
}

/// Resolves the session a command works on from the id given (if any), the
/// trailing arguments, and the default session id (if there is one).
pub fn session_target(id: Option<String>, args: Vec<String>, default_id: Option<String>) -> (r:
    Option<(String, Vec<String>)>)
    ensures
        match r {
            Some((s, a)) => session_target_spec(id, views(args@), default_id) == Some(
                (s@, views(a@)),
            ),
            None => session_target_spec(id, views(args@), default_id) is None,
        },
{
    let mut args = args;
    let ghost old_args = args@;
    match id {
        Some(s) => {
            let c = chars_of(s.as_str());
            if c.len() > 0 && c[0] == '+' {
                match default_id {
                    Some(d) => {
                        args.insert(0, s);
                        assert(views(args@) =~= seq![id->0@] + views(old_args));
                        Some((d, args))
                    },
                    None => None,
                }
            } else {
                Some((s, args))
            }
        },
        None => match default_id {
            Some(d) => Some((d, args)),
            None => None,
        },
    }
}

/// What `session purge` removes: one named session, all unpinned ones, or
/// those past retention.
pub open spec fn purge_noun(id_given: bool, all: bool) -> Seq<char> {
    if id_given {
        "session"@
    } else if all {
        "unpinned sessions"@
    } else {
        "sessions"@
    }
}

/// The purge report: `would remove N NOUN` on a dry run, `removed N NOUN`
/// otherwise.
pub open spec fn purge_report_text(removed: u64, id_given: bool, all: bool, dry_run: bool) -> Seq<
    char,
> {
    (if dry_run {
        "would remove "@
    } else {
        "removed "@
    }) + decimal(removed as nat) + " "@ + purge_noun(id_given, all)
}

/// The line `session purge` prints.
pub fn purge_report(removed: u64, id_given: bool, all: bool, dry_run: bool) -> (s: String)
    ensures
        s@ == purge_report_text(removed, id_given, all, dry_run),
{
    let mut s = String::new();
    if dry_run {
        s.append("would remove ");
    } else {
        s.append("removed ");
    }
    push_decimal(&mut s, removed);
    s.append(" ");
    if id_given {
        s.append("session");
    } else if all {
        s.append("unpinned sessions");
    } else {
        s.append("sessions");
    }
    assert(s@ =~= purge_report_text(removed, id_given, all, dry_run));
    s
}

/// The header lines of `session show`: id, the pinned and frozen flags when
/// set, creation and update times, and the query.
pub open spec fn show_header_text(
    id: Seq<char>,
    pinned: bool,
    frozen: bool,
    created_at: Seq<char>,
    updated_at: Seq<char>,
    qname: Seq<char>,
    qtype: Seq<char>,
) -> Seq<Seq<char>> {
    seq!["session: "@ + id] + (if pinned {
        seq!["pinned: yes"@]
    } else {
        Seq::empty()
    }) + (if frozen {
        seq!["frozen: yes"@]
    } else {
        Seq::empty()
    }) + seq!["created: "@ + created_at, "updated: "@ + updated_at, "query: "@ + qname + " "@ + qtype]
}

/// A record of the final answer, as `session show` lists it.
#[derive(Debug, Clone)]
pub struct ShownRecord {
    pub name: String,
    pub ttl: u32,
    pub rdata: String,
}

/// The final-answer lines of `session show`: the answering server, its
/// response time and code, then one indented line per record.
pub open spec fn final_answer_text(
    server: Seq<char>,
    rtt_ms: u64,
    rcode: Seq<char>,
    records: Seq<ShownRecord>,
) -> Seq<Seq<char>> {
    seq![
        "final answer from "@ + server + " in "@ + decimal(rtt_ms as nat) + "ms ("@ + rcode + ")"@,
    ] + records.map_values(
        |r: ShownRecord| "  "@ + r.name@ + " "@ + decimal(r.ttl as nat) + " "@ + r.rdata@,
    )
}

/// The final-answer lines of `session show`.
pub fn final_answer_lines(server: &str, rtt_ms: u64, rcode: &str, records: &Vec<ShownRecord>) -> (lines:
    Vec<String>)
    ensures
        views(lines@) == final_answer_text(server@, rtt_ms, rcode@, records@),
{
    let mut head = String::from_str("final answer from ");
    head.append(server);
    head.append(" in ");
    push_decimal(&mut head, rtt_ms);
    head.append("ms (");
    head.append(rcode);
    head.append(")");
    let mut lines: Vec<String> = Vec::new();
    lines.push(head);
    let ghost first = lines@[0]@;
    let mut i: usize = 0;
    while i < records.len()
        invariant
            i <= records@.len(),
            views(lines@) == seq![first] + records@.subrange(0, i as int).map_values(
                |r: ShownRecord| "  "@ + r.name@ + " "@ + decimal(r.ttl as nat) + " "@ + r.rdata@,
            ),
        decreases records@.len() - i,
    {
        let r = &records[i];
        let mut line = String::from_str("  ");
        line.append(r.name.as_str());
        line.append(" ");
        push_decimal(&mut line, r.ttl as u64);
        line.append(" ");
        line.append(r.rdata.as_str());
        proof {
            lemma_views_push(lines@, line);
        }
        lines.push(line);
        i = i + 1;
        assert(views(lines@) =~= seq![first] + records@.subrange(0, i as int).map_values(
            |r: ShownRecord| "  "@ + r.name@ + " "@ + decimal(r.ttl as nat) + " "@ + r.rdata@,
        ));
    }
    assert(records@.subrange(0, records@.len() as int) =~= records@);
    lines
}

fn labelled(label: &str, value: &str) -> (s: String)
    ensures
        s@ == label@ + value@,
{
    let mut s = String::new();
    s.append(label);
    s.append(value);
    s
}

/// The header lines of `session show`.
pub fn show_header(
    id: &str,
    pinned: bool,
    frozen: bool,
    created_at: &str,
    updated_at: &str,
    qname: &str,
    qtype: &str,
) -> (lines: Vec<String>)
    ensures
        views(lines@) == show_header_text(
            id@,
            pinned,
            frozen,
            created_at@,
            updated_at@,
            qname@,
            qtype@,
        ),
{
    proof {
        reveal_strlit("yes");
        reveal_strlit("pinned: ");
        reveal_strlit("frozen: ");
        reveal_strlit("pinned: yes");
        reveal_strlit("frozen: yes");
        assert("pinned: "@ + "yes"@ =~= "pinned: yes"@);
        assert("frozen: "@ + "yes"@ =~= "frozen: yes"@);
    }
    let mut lines: Vec<String> = Vec::new();
    let ghost mut want: Seq<Seq<char>> = seq!["session: "@ + id@];
    lines.push(labelled("session: ", id));
    assert(views(lines@) =~= want);
    if pinned {
        let l = labelled("pinned: ", "yes");
        proof {
            lemma_views_push(lines@, l);
            want = want.push("pinned: yes"@);
        }
        lines.push(l);
        assert(views(lines@) =~= want);
    }
    if frozen {
        let l = labelled("frozen: ", "yes");
        proof {
            lemma_views_push(lines@, l);
            want = want.push("frozen: yes"@);
        }
        lines.push(l);
        assert(views(lines@) =~= want);
    }
    let c = labelled("created: ", created_at);
    proof {
        lemma_views_push(lines@, c);
        want = want.push("created: "@ + created_at@);
    }
    lines.push(c);
    assert(views(lines@) =~= want);
    let u = labelled("updated: ", updated_at);
    proof {
        lemma_views_push(lines@, u);
        want = want.push("updated: "@ + updated_at@);
    }
    lines.push(u);
    assert(views(lines@) =~= want);
    let mut q = labelled("query: ", qname);
    q.append(" ");
    q.append(qtype);
    proof {
        lemma_views_push(lines@, q);
        want = want.push("query: "@ + qname@ + " "@ + qtype@);
    }
    lines.push(q);
    assert(views(lines@) =~= want);
    assert(want =~= show_header_text(
        id@,
        pinned,
        frozen,
        created_at@,
        updated_at@,
        qname@,
        qtype@,
    ));
    lines
}

} // verus!
