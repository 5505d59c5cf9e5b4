use delve::explore::tui_step::selection_fix;
use delve::explore::tui_step::view_state_save_plan;
use delve::explore::tui_step::persist_failure_warning;
use delve::explore::tui_step::expand_selection;
use delve::node_path::NodePath;
use delve::branch::{BranchPlan, BranchReport};
use delve::explore::tui_state::{BranchOverlay, Key, RefreshOverlay};
use delve::explore::tui_step::{
    refresh_failure, tui_open, tui_step, Busy, RefreshCounts, ScreenCycle, TuiAction, TuiEvent,
    TuiState,
};
use delve::explore::view_state::ActiveScreen;
use delve::explore::ExploreError;

fn start() -> TuiState {
    tui_open(1, ActiveScreen::Browse).expect("open")
}

fn press(state: TuiState, key: Key) -> (TuiState, TuiAction) {
    tui_step(state, TuiEvent::Press { key, control: false })
}

#[test]
fn tui_refuses_session_without_trace_tree() {
    assert!(matches!(tui_open(0, ActiveScreen::Browse), Err(ExploreError::NoTraceTree)));
    let s = start();
    assert_eq!(s.busy, Busy::Idle);
    assert!(s.notice.is_none());
}

#[test]
fn q_quits_and_question_mark_opens_help() {
    let (_, action) = press(start(), Key::Char('q'));
    assert_eq!(action, TuiAction::Quit);
    let (s, action) = press(start(), Key::Char('?'));
    assert!(s.show_help);
    assert_eq!(action, TuiAction::Nothing);
    let (s, action) = press(s, Key::Esc);
    assert!(!s.show_help);
    assert_eq!(action, TuiAction::Nothing);
}

#[test]
fn unsaved_refresh_asks_before_quitting() {
    let mut s = start();
    s.unsaved_rtt_refresh = true;
    let (s, action) = press(s, Key::Char('q'));
    assert_ne!(action, TuiAction::Quit);
    assert_eq!(s.refresh_overlay, RefreshOverlay::ConfirmExitSave);
    let (_, action) = press(s, Key::Char('y'));
    assert_eq!(action, TuiAction::SaveRefreshedAndQuit);

    let mut s = start();
    s.unsaved_rtt_refresh = true;
    s.refresh_overlay = RefreshOverlay::ConfirmExitSave;
    let (s, action) = press(s, Key::Char('n'));
    assert_eq!(action, TuiAction::Quit);
    assert!(!s.unsaved_rtt_refresh);
}

#[test]
fn failed_save_shows_notice() {
    let (s, action) = tui_step(start(), TuiEvent::SaveFailed("disk full".into()));
    assert_eq!(action, TuiAction::Nothing);
    let notice = s.notice.expect("notice");
    assert_eq!(notice.screen, ActiveScreen::Browse);
    assert_eq!(notice.message, "failed to save refreshed RTTs: disk full");
}

#[test]
fn branch_menu_and_alternate_server_prompt() {
    let (s, _) = press(start(), Key::Char('b'));
    assert_eq!(s.branch_overlay, BranchOverlay::Menu);
    let (s, _) = press(s, Key::Char('a'));
    assert_eq!(s.branch_overlay, BranchOverlay::AlternateInput);
    let (s, _) = press(s, Key::Char(' '));
    let (s, _) = press(s, Key::Char('9'));
    let (s, _) = press(s, Key::Char('x'));
    let (s, _) = press(s, Key::Backspace);
    let (s, action) = press(s, Key::Enter);
    assert_eq!(action, TuiAction::StartBranchAlternate(vec!['9']));
    assert_eq!(s.busy, Busy::Branch);
    assert_eq!(s.branch_overlay, BranchOverlay::Hidden);
    assert!(s.alternate_input.is_empty());
}

#[test]
fn empty_server_address_is_refused() {
    let (s, _) = press(start(), Key::Char('b'));
    let (s, _) = press(s, Key::Char('a'));
    let (s, action) = press(s, Key::Enter);
    assert_eq!(action, TuiAction::Nothing);
    assert_eq!(s.notice.expect("notice").message, "server address required");
}

#[test]
fn expand_from_menu_starts_branch_and_blocks_keys() {
    let (s, _) = press(start(), Key::Char('b'));
    let (s, action) = press(s, Key::Char('e'));
    assert_eq!(action, TuiAction::StartBranchExpand);
    assert_eq!(s.busy, Busy::Branch);
    let (s, action) = press(s, Key::Char('q'));
    assert_eq!(action, TuiAction::Nothing);
    let (s, _) = press(s, Key::Esc);
    assert_eq!(s.notice.expect("notice").message, "branch in progress; wait for completion");
}

#[test]
fn branch_done_shows_report_and_reloads() {
    let (s, _) = press(start(), Key::Char('b'));
    let (s, _) = press(s, Key::Char('e'));
    let report = BranchReport {
        nodes_added: 2,
        updated_at: Some("t".into()),
        warnings: vec![],
        budget_truncated: false,
        dry_run: false,
        plan: Some(BranchPlan {
            zone: "com.".into(),
            server: "192.0.0.1".into(),
            qname: "example.com.".into(),
            targets: vec!["a".into(), "b".into()],
        }),
    };
    let (s, action) = tui_step(s, TuiEvent::BranchDone(Ok(report)));
    assert_eq!(action, TuiAction::ReloadAfterBranch);
    assert_eq!(s.busy, Busy::Idle);
    assert!(s.notice.expect("notice").message.contains("added 2 node(s)"));
}

#[test]
fn refresh_runs_and_reports_failures_on_origin_screen() {
    let mut s = start();
    s.screen = ActiveScreen::Compare;
    let (s, action) = press(s, Key::Char('r'));
    assert_eq!(action, TuiAction::StartRefresh);
    assert_eq!(s.refresh_origin, Some(ActiveScreen::Compare));
    let (s, _) = press(s, Key::Esc);
    assert_eq!(s.notice.as_ref().expect("notice").message, "RTT refresh in progress; wait for completion");
    let counts = RefreshCounts { hops_total: 5, hops_updated: 3, hops_failed: 2 };
    let (s, action) = tui_step(s, TuiEvent::RefreshDone(Ok(counts)));
    assert_eq!(action, TuiAction::ReplaceDocument);
    assert!(s.unsaved_rtt_refresh);
    assert_eq!(s.busy, Busy::Idle);
    let notice = s.notice.expect("notice");
    assert_eq!(notice.screen, ActiveScreen::Compare);
    assert_eq!(notice.message, "refreshed 3/5 hops (2 failed)");
}

#[test]
fn refresh_failure_texts() {
    assert_eq!(
        refresh_failure(RefreshCounts { hops_total: 4, hops_updated: 0, hops_failed: 4 }),
        "refresh failed for all 4 hops; RTTs unchanged"
    );
}

#[test]
fn screen_keys_dispatch() {
    assert_eq!(press(start(), Key::Tab).1, TuiAction::CycleForward);
    assert_eq!(press(start(), Key::BackTab).1, TuiAction::CycleBackward);
    assert_eq!(press(start(), Key::Char('2')).1, TuiAction::SelectCompare);
    assert_eq!(press(start(), Key::Char('E')).1, TuiAction::ExpandAll);
    assert_eq!(press(start(), Key::Char('+')).1, TuiAction::GrowSplit);
    assert_eq!(press(start(), Key::Char('c')).1, TuiAction::ToggleColor { mark_dirty: true });
    assert_eq!(press(start(), Key::Down).1, TuiAction::BrowseKey(Key::Down));
    let mut s = start();
    s.screen = ActiveScreen::Compare;
    assert_eq!(press(s, Key::Char('b')).1, TuiAction::CompareKey(Key::Char('b')));
    let (_, a) = tui_step(start(), TuiEvent::Press { key: Key::Char('c'), control: true });
    assert_eq!(a, TuiAction::Quit);
}

#[test]
fn unavailable_compare_sets_notice_and_enter_dismisses() {
    let (s, _) = tui_step(
        start(),
        TuiEvent::Screen { outcome: ScreenCycle::SkippedUnavailable, reason: "no sibling paths".into() },
    );
    assert_eq!(s.notice.as_ref().expect("notice").message, "no sibling paths");
    let (s, action) = press(s, Key::Enter);
    assert_eq!(action, TuiAction::Nothing);
    assert!(s.notice.is_none());
    let (s, _) = tui_step(s, TuiEvent::Screen { outcome: ScreenCycle::EnteredCompare, reason: String::new() });
    assert_eq!(s.screen, ActiveScreen::Compare);
}

#[test]
fn selection_moves_back_onto_visible_rows() {
    assert_eq!(selection_fix(5, 3), Some(2));
    assert_eq!(selection_fix(0, 0), Some(0));
    assert_eq!(selection_fix(1, 3), None);
}

#[test]
fn view_state_save_keeps_unsaved_rtts_out() {
    assert_eq!(view_state_save_plan(true, true, true), Some(true));
    assert_eq!(view_state_save_plan(true, true, false), Some(false));
    assert_eq!(view_state_save_plan(false, true, false), None);
    assert_eq!(view_state_save_plan(true, false, false), None);
}

#[test]
fn persist_failure_warns_once() {
    let (shown, warning) = persist_failure_warning(false, "read-only");
    assert!(shown);
    assert_eq!(warning.as_deref(), Some("warning: failed to persist explore view state: read-only"));
    assert_eq!(persist_failure_warning(true, "read-only"), (true, None));
}

#[test]
fn branch_expands_selection_once() {
    let mut expanded = vec![NodePath { tree: 0, path: vec![] }];
    let selection = NodePath { tree: 0, path: vec![0] };
    expand_selection(&mut expanded, &selection);
    assert_eq!(expanded.len(), 2);
    assert_eq!(expanded[1], selection);
    expand_selection(&mut expanded, &selection);
    assert_eq!(expanded.len(), 2);
}
