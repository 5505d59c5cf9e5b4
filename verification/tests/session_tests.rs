use delve::session_text::{final_answer_lines, ShownRecord};
use delve::dig_options::ParseError;
use delve::session_text::{
    check_show_id, list_legend, list_line, purge_report, session_list_lines, session_target,
    show_header, SessionListItem, SessionSummary,
};

fn summary(id: &str, pinned: bool, frozen: bool) -> SessionSummary {
    SessionSummary {
        id: id.to_string(),
        qname: "example.com.".to_string(),
        qtype: "A".to_string(),
        node_count: 7,
        created_at: "2026-08-25 00:00".to_string(),
        updated_at: "2026-08-26 12:30".to_string(),
        pinned,
        frozen,
    }
}

#[test]
fn session_list_legend_includes_frozen_marker() {
    let items = vec![SessionListItem::Session(summary("01FROZEN", false, true))];
    let (legend, lines) = session_list_lines(&items, &None);
    assert!(legend);
    assert!(lines[0].starts_with('^'));
    assert!(list_legend().contains("^ frozen"));
}

#[test]
fn session_list_line_shows_marks_and_fields() {
    let current = Some("01CUR".to_string());
    let line = list_line(&SessionListItem::Session(summary("01CUR", true, false)), &current);
    assert_eq!(
        line,
        " *@ 01CUR  example.com. A  7 nodes  created 2026-08-25 00:00 updated 2026-08-26 12:30"
    );
    let plain = list_line(&SessionListItem::Session(summary("01OTHER", false, false)), &current);
    assert!(plain.starts_with("    01OTHER  "));
}

#[test]
fn session_list_unreadable_line_and_no_legend() {
    let items = vec![
        SessionListItem::Unreadable { id: "01BAD".to_string(), message: "bad json".to_string() },
        SessionListItem::Session(summary("01PLAIN", false, false)),
    ];
    let (legend, lines) = session_list_lines(&items, &Some("01NONE".to_string()));
    assert!(!legend);
    assert_eq!(lines.len(), 2);
    assert_eq!(lines[0], "?  01BAD  unreadable: bad json");
}

#[test]
fn session_list_legend_for_current_session_only() {
    let items = vec![SessionListItem::Session(summary("01CUR", false, false))];
    assert!(session_list_lines(&items, &Some("01CUR".to_string())).0);
    assert!(!session_list_lines(&items, &None).0);
}

#[test]
fn session_show_refuses_plus_option_as_id() {
    let error = check_show_id(&Some("+json".to_string())).expect_err("refused");
    assert_eq!(
        error,
        ParseError::Unexpected("+json is not valid for session show; use --json for JSON output".to_string())
    );
    assert!(check_show_id(&Some("01ABC".to_string())).is_ok());
    assert!(check_show_id(&None).is_ok());
    assert!(check_show_id(&Some(String::new())).is_ok());
}

#[test]
fn session_show_reports_frozen_flag() {
    let lines = show_header("01ABC", false, true, "c", "u", "example.com.", "A");
    let text = lines.join("\n");
    assert!(text.contains("frozen: yes"));
    assert!(!text.contains("pinned: yes"));
    assert_eq!(
        lines,
        vec!["session: 01ABC", "frozen: yes", "created: c", "updated: u", "query: example.com. A"]
    );
}

#[test]
fn session_target_moves_plus_option_to_arguments() {
    let (id, args) = session_target(
        Some("+json".to_string()),
        vec!["+x".to_string()],
        Some("01DEF".to_string()),
    )
    .expect("default");
    assert_eq!(id, "01DEF");
    assert_eq!(args, vec!["+json".to_string(), "+x".to_string()]);
    let (id, args) = session_target(Some("01ABC".to_string()), vec![], None).expect("given");
    assert_eq!(id, "01ABC");
    assert!(args.is_empty());
    assert!(session_target(None, vec![], None).is_none());
    assert!(session_target(Some("+json".to_string()), vec![], None).is_none());
}

#[test]
fn purge_report_names_what_was_removed() {
    assert_eq!(purge_report(3, false, false, false), "removed 3 sessions");
    assert_eq!(purge_report(1, true, false, false), "removed 1 session");
    assert_eq!(purge_report(12, false, true, true), "would remove 12 unpinned sessions");
}

#[test]
fn session_show_final_answer_lines() {
    let records = vec![ShownRecord {
        name: "example.com.".to_string(),
        ttl: 300,
        rdata: "192.0.2.1".to_string(),
    }];
    let lines = final_answer_lines("192.0.2.53", 12, "NOERROR", &records);
    assert_eq!(
        lines,
        vec!["final answer from 192.0.2.53 in 12ms (NOERROR)", "  example.com. 300 192.0.2.1"]
    );
    assert_eq!(final_answer_lines("a", 0, "SERVFAIL", &vec![]).len(), 1);
}
