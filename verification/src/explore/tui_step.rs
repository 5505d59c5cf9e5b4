//! The explore loop's decisions, as one step from state and event to the
//! next state and the action to perform.
//!
//! The loop itself (drawing, reading keys, running branch and refresh jobs,
//! saving) stays with the caller: it performs the action and feeds back
//! what came of it as the next event. A key goes, in this order, to a
//! running job (which blocks everything but a notice on Esc), the save
//! prompt, the help overlay, the branch overlay, a notice on the current
//! screen, and finally the screen's own key bindings.

use vstd::prelude::*;

use super::tui_state::{BranchOverlay, Key, RefreshOverlay, ScreenNotice};
use crate::node_path::{copy_path, same_node, same_path, NodePath};
use super::view_state::ActiveScreen;
use super::{primary_tree_index, ExploreError};
use crate::branch::{format_branch_report, report_lines, BranchReport};
use crate::text::{decimal, join_lines, push_decimal, trim, trim_chars};

verus! {

/// The background job that is running, if any.
#[derive(Debug, Clone, Copy, PartialEq, Eq, Structural)]
pub enum Busy {
    Idle,
    Branch,
    Refresh,
}

/// What the loop remembers between events.
#[derive(Debug)]
pub struct TuiState {
    pub screen: ActiveScreen,
    pub show_help: bool,
    pub branch_overlay: BranchOverlay,
    /// The server typed into the alternate-server prompt.
    pub alternate_input: Vec<char>,
    pub notice: Option<ScreenNotice>,
    pub refresh_overlay: RefreshOverlay,
    pub busy: Busy,
    /// The screen a running refresh was started from.
    pub refresh_origin: Option<ActiveScreen>,
    pub unsaved_rtt_refresh: bool,
}

/// A [`TuiState`] with its texts as character sequences.
pub struct TuiView {
    pub screen: ActiveScreen,
    pub show_help: bool,
    pub branch_overlay: BranchOverlay,
    pub alternate_input: Seq<char>,
    pub notice: Option<(ActiveScreen, Seq<char>)>,
    pub refresh_overlay: RefreshOverlay,
    pub busy: Busy,
    pub refresh_origin: Option<ActiveScreen>,
    pub unsaved_rtt_refresh: bool,
}

impl View for TuiState {
    type V = TuiView;

    open spec fn view(&self) -> TuiView {
        TuiView {
            screen: self.screen,
            show_help: self.show_help,
            branch_overlay: self.branch_overlay,
            alternate_input: self.alternate_input@,
            notice: match self.notice {
                Some(n) => Some((n.screen, n.message@)),
                None => None,
            },
            refresh_overlay: self.refresh_overlay,
            busy: self.busy,
            refresh_origin: self.refresh_origin,
            unsaved_rtt_refresh: self.unsaved_rtt_refresh,
        }
    }
}

/// How switching screens came out.
#[derive(Debug, Clone, Copy, PartialEq, Eq, Structural)]
pub enum ScreenCycle {
    EnteredCompare,
    LeftCompare,
    SkippedUnavailable,
}

/// What a finished RTT refresh reports.
#[derive(Debug, Clone, Copy, PartialEq, Eq, Structural)]
pub struct RefreshCounts {
    pub hops_total: usize,
    pub hops_updated: usize,
    pub hops_failed: usize,
}

/// Something the loop hands to the step: a key press, or what came of an
/// action.
#[derive(Debug)]
pub enum TuiEvent {
    /// A key was pressed, with or without Control.
    Press { key: Key, control: bool },
    /// A screen switch (Tab, BackTab, `1`, `2`, `m`) came out so; `reason`
    /// says why the compare screen is unavailable.
    Screen { outcome: ScreenCycle, reason: String },
    /// The branch job finished: its report, or the error's message.
    BranchDone(Result<BranchReport, String>),
    /// The refresh job finished: its counts, or the error's message.
    RefreshDone(Result<RefreshCounts, String>),
    /// Saving the refreshed RTTs before quitting failed, with this message.
    SaveFailed(String),
}

/// A [`TuiEvent`] with its texts as character sequences.
pub enum TuiEventView {
    Press { key: Key, control: bool },
    Screen { outcome: ScreenCycle, reason: Seq<char> },
    BranchDone(Result<BranchReport, Seq<char>>),
    RefreshDone(Result<RefreshCounts, Seq<char>>),
    SaveFailed(Seq<char>),
}

impl View for TuiEvent {
    type V = TuiEventView;

    open spec fn view(&self) -> TuiEventView {
        match self {
            TuiEvent::Press { key, control } => TuiEventView::Press { key: *key, control: *control },
            TuiEvent::Screen { outcome, reason } => TuiEventView::Screen {
                outcome: *outcome,
                reason: reason@,
            },
            TuiEvent::BranchDone(r) => TuiEventView::BranchDone(
                match r {
                    Ok(rep) => Ok(*rep),
                    Err(m) => Err(m@),
                },
            ),
            TuiEvent::RefreshDone(r) => TuiEventView::RefreshDone(
                match r {
                    Ok(c) => Ok(*c),
                    Err(m) => Err(m@),
                },
            ),
            TuiEvent::SaveFailed(m) => TuiEventView::SaveFailed(m@),
        }
    }
}

/// What the loop is to do next.
#[derive(Debug, Clone, PartialEq, Eq)]
pub enum TuiAction {
    Nothing,
    /// Leave explore (saving the view state).
    Quit,
    /// Save the refreshed RTTs, then leave; report a failure as `SaveFailed`.
    SaveRefreshedAndQuit,
    /// Start expanding the cut at the selection, saving the view state.
    StartBranchExpand,
    /// Start querying this server at the selection, saving the view state.
    StartBranchAlternate(Vec<char>),
    /// Start refreshing the RTTs of the tree.
    StartRefresh,
    /// Switch the colour theme, marking the view changed when asked.
    ToggleColor { mark_dirty: bool },
    CycleForward,
    CycleBackward,
    SelectBrowse,
    SelectCompare,
    JumpCompare,
    ExpandAll,
    CollapseAll,
    GrowSplit,
    ShrinkSplit,
    /// Handle the key on the browse screen.
    BrowseKey(Key),
    /// Handle the key on the compare screen.
    CompareKey(Key),
    /// Reload the session the branch updated and expand the selection.
    ReloadAfterBranch,
    /// Take the refreshed document.
    ReplaceDocument,
}

/// A [`TuiAction`] with its text as a character sequence.
pub enum TuiActionView {
    Nothing,
    Quit,
    SaveRefreshedAndQuit,
    StartBranchExpand,
    StartBranchAlternate(Seq<char>),
    StartRefresh,
    ToggleColor { mark_dirty: bool },
    CycleForward,
    CycleBackward,
    SelectBrowse,
    SelectCompare,
    JumpCompare,
    ExpandAll,
    CollapseAll,
    GrowSplit,
    ShrinkSplit,
    BrowseKey(Key),
    CompareKey(Key),
    ReloadAfterBranch,
    ReplaceDocument,
}

impl View for TuiAction {
    type V = TuiActionView;

    open spec fn view(&self) -> TuiActionView {
        match self {
            TuiAction::Nothing => TuiActionView::Nothing,
            TuiAction::Quit => TuiActionView::Quit,
            TuiAction::SaveRefreshedAndQuit => TuiActionView::SaveRefreshedAndQuit,
            TuiAction::StartBranchExpand => TuiActionView::StartBranchExpand,
            TuiAction::StartBranchAlternate(t) => TuiActionView::StartBranchAlternate(t@),
            TuiAction::StartRefresh => TuiActionView::StartRefresh,
            TuiAction::ToggleColor { mark_dirty } => TuiActionView::ToggleColor { mark_dirty: *mark_dirty },
            TuiAction::CycleForward => TuiActionView::CycleForward,
            TuiAction::CycleBackward => TuiActionView::CycleBackward,
            TuiAction::SelectBrowse => TuiActionView::SelectBrowse,
            TuiAction::SelectCompare => TuiActionView::SelectCompare,
            TuiAction::JumpCompare => TuiActionView::JumpCompare,
            TuiAction::ExpandAll => TuiActionView::ExpandAll,
            TuiAction::CollapseAll => TuiActionView::CollapseAll,
            TuiAction::GrowSplit => TuiActionView::GrowSplit,
            TuiAction::ShrinkSplit => TuiActionView::ShrinkSplit,
            TuiAction::BrowseKey(k) => TuiActionView::BrowseKey(*k),
            TuiAction::CompareKey(k) => TuiActionView::CompareKey(*k),
            TuiAction::ReloadAfterBranch => TuiActionView::ReloadAfterBranch,
            TuiAction::ReplaceDocument => TuiActionView::ReplaceDocument,
        }
    }
}

/// The state explore starts in on `screen`, with nothing shown over it.
pub open spec fn initial_view(screen: ActiveScreen) -> TuiView {
    TuiView {
        screen,
        show_help: false,
        branch_overlay: BranchOverlay::Hidden,
        alternate_input: Seq::empty(),
        notice: None,
        refresh_overlay: RefreshOverlay::Hidden,
        busy: Busy::Idle,
        refresh_origin: None,
        unsaved_rtt_refresh: false,
    }
}

/// Opens the explore loop on a session with `tree_count` trace trees,
/// starting on `screen`; a session without a trace tree is refused.
pub fn tui_open(tree_count: usize, screen: ActiveScreen) -> (r: Result<TuiState, ExploreError>)
    ensures
        tree_count == 0 <==> r is Err,
        r matches Err(e) ==> e == ExploreError::NoTraceTree,
        r matches Ok(s) ==> s@ == initial_view(screen),
{
    match primary_tree_index(tree_count) {
        Err(e) => Err(e),
        Ok(_) => Ok(
            TuiState {
                screen,
                show_help: false,
                branch_overlay: BranchOverlay::Hidden,
                alternate_input: Vec::new(),
                notice: None,
                refresh_overlay: RefreshOverlay::Hidden,
                busy: Busy::Idle,
                refresh_origin: None,
                unsaved_rtt_refresh: false,
            },
        ),
    }
}

/// `s` with a notice for `screen`.
pub open spec fn noticed(s: TuiView, screen: ActiveScreen, m: Seq<char>) -> TuiView {
    TuiView { notice: Some((screen, m)), ..s }
}

/// `s` asking whether to save refreshed RTTs before quitting.
pub open spec fn asking(s: TuiView) -> TuiView {
    TuiView { refresh_overlay: RefreshOverlay::ConfirmExitSave, ..s }
}

/// The notice shown on Esc while a job runs.
pub open spec fn busy_text(b: Busy) -> Seq<char> {
    if b == Busy::Refresh {
        "RTT refresh in progress; wait for completion"@
    } else {
        "branch in progress; wait for completion"@
    }
}

/// A key while a job runs: Esc explains why nothing happens.
pub open spec fn busy_key(s: TuiView, key: Key) -> (TuiView, TuiActionView) {
    if key == Key::Esc {
        (noticed(s, s.screen, busy_text(s.busy)), TuiActionView::Nothing)
    } else {
        (s, TuiActionView::Nothing)
    }
}

/// A key at the save prompt: yes (y, Y, Enter) saves and quits, no (n, N,
/// Esc) quits without saving.
pub open spec fn confirm_key(s: TuiView, key: Key) -> (TuiView, TuiActionView) {
    if key == Key::Char('y') || key == Key::Char('Y') || key == Key::Enter {
        (s, TuiActionView::SaveRefreshedAndQuit)
    } else if key == Key::Char('n') || key == Key::Char('N') || key == Key::Esc {
        (TuiView { unsaved_rtt_refresh: false, ..s }, TuiActionView::Quit)
    } else {
        (s, TuiActionView::Nothing)
    }
}

/// A key over the help overlay: `?` or Esc closes it, q and Control-c quit
/// (asking first when refreshed RTTs are unsaved), c switches colours.
pub open spec fn help_key(s: TuiView, key: Key, control: bool) -> (TuiView, TuiActionView) {
    if key == Key::Char('?') || key == Key::Esc {
        (TuiView { show_help: false, ..s }, TuiActionView::Nothing)
    } else if key == Key::Char('q') {
        if s.unsaved_rtt_refresh {
            (asking(s), TuiActionView::Nothing)
        } else {
            (s, TuiActionView::Quit)
        }
    } else if key == Key::Char('c') {
        if control && !s.unsaved_rtt_refresh {
            (s, TuiActionView::Quit)
        } else {
            (
                if control {
                    asking(s)
                } else {
                    s
                },
                TuiActionView::ToggleColor { mark_dirty: false },
            )
        }
    } else {
        (s, TuiActionView::Nothing)
    }
}

/// A key at the alternate-server prompt: Esc goes back to the menu, Enter
/// starts the branch with the trimmed server (or asks for one), Backspace
/// and characters edit the text.
pub open spec fn input_key(s: TuiView, key: Key) -> (TuiView, TuiActionView) {
    match key {
        Key::Esc => (TuiView { branch_overlay: BranchOverlay::Menu, ..s }, TuiActionView::Nothing),
        Key::Enter => {
            let target = trim(s.alternate_input);
            if target.len() == 0 {
                (noticed(s, ActiveScreen::Browse, "server address required"@), TuiActionView::Nothing)
            } else {
                (
                    TuiView {
                        branch_overlay: BranchOverlay::Hidden,
                        alternate_input: Seq::empty(),
                        busy: Busy::Branch,
                        ..s
                    },
                    TuiActionView::StartBranchAlternate(target),
                )
            }
        },
        Key::Backspace => (
            TuiView {
                alternate_input: if s.alternate_input.len() > 0 {
                    s.alternate_input.drop_last()
                } else {
                    s.alternate_input
                },
                ..s
            },
            TuiActionView::Nothing,
        ),
        Key::Char(ch) => (TuiView { alternate_input: s.alternate_input.push(ch), ..s }, TuiActionView::Nothing),
        _ => (s, TuiActionView::Nothing),
    }
}

/// A key over the branch menu: Esc or b closes it, e expands the cut, a asks
/// for another server.
pub open spec fn menu_key(s: TuiView, key: Key) -> (TuiView, TuiActionView) {
    if key == Key::Esc || key == Key::Char('b') {
        (TuiView { branch_overlay: BranchOverlay::Hidden, ..s }, TuiActionView::Nothing)
    } else if key == Key::Char('e') {
        (
            TuiView { branch_overlay: BranchOverlay::Hidden, busy: Busy::Branch, ..s },
            TuiActionView::StartBranchExpand,
        )
    } else if key == Key::Char('a') {
        (
            TuiView { branch_overlay: BranchOverlay::AlternateInput, alternate_input: Seq::empty(), ..s },
            TuiActionView::Nothing,
        )
    } else {
        (s, TuiActionView::Nothing)
    }
}

/// The screen's own bindings, after q and Control-c have had their say
/// (`s` already asks when they were refused).
pub open spec fn binding_key(s: TuiView, key: Key) -> (TuiView, TuiActionView) {
    let browse = s.screen == ActiveScreen::Browse;
    if key == Key::Char('c') {
        (s, TuiActionView::ToggleColor { mark_dirty: true })
    } else if key == Key::Tab {
        (s, TuiActionView::CycleForward)
    } else if key == Key::BackTab {
        (s, TuiActionView::CycleBackward)
    } else if key == Key::Char('1') {
        (s, TuiActionView::SelectBrowse)
    } else if key == Key::Char('2') {
        (s, TuiActionView::SelectCompare)
    } else if key == Key::Char('m') {
        (s, TuiActionView::JumpCompare)
    } else if key == Key::Char('E') {
        (s, TuiActionView::ExpandAll)
    } else if key == Key::Char('C') {
        (s, TuiActionView::CollapseAll)
    } else if key == Key::Char('r') || key == Key::Char('R') {
        (
            TuiView { busy: Busy::Refresh, refresh_origin: Some(s.screen), ..s },
            TuiActionView::StartRefresh,
        )
    } else if key == Key::Char('+') || key == Key::Char('=') {
        (s, if browse { TuiActionView::GrowSplit } else { TuiActionView::Nothing })
    } else if key == Key::Char('-') || key == Key::Char('_') {
        (s, if browse { TuiActionView::ShrinkSplit } else { TuiActionView::Nothing })
    } else if key == Key::Char('b') && browse {
        (TuiView { branch_overlay: BranchOverlay::Menu, ..s }, TuiActionView::Nothing)
    } else if browse {
        (s, TuiActionView::BrowseKey(key))
    } else {
        (s, TuiActionView::CompareKey(key))
    }
}

/// A key on the screen itself: q and Control-c quit (asking first when
/// refreshed RTTs are unsaved, and then falling through to the bindings),
/// `?` opens the help.
pub open spec fn screen_key(s: TuiView, key: Key, control: bool) -> (TuiView, TuiActionView) {
    if key == Key::Char('q') && !s.unsaved_rtt_refresh {
        (s, TuiActionView::Quit)
    } else {
        let s1 = if key == Key::Char('q') {
            asking(s)
        } else {
            s
        };
        if key == Key::Char('?') {
            (TuiView { show_help: true, ..s1 }, TuiActionView::Nothing)
        } else if key == Key::Char('c') && control && !s1.unsaved_rtt_refresh {
            (s1, TuiActionView::Quit)
        } else {
            binding_key(
                if key == Key::Char('c') && control {
                    asking(s1)
                } else {
                    s1
                },
                key,
            )
        }
    }
}

/// A key while the current screen shows a notice: Enter, Space and Esc
/// dismiss it, q quits (or asks); other keys act on the screen beneath.
pub open spec fn notice_key(s: TuiView, key: Key, control: bool) -> (TuiView, TuiActionView) {
    if key == Key::Enter || key == Key::Char(' ') || key == Key::Esc {
        (TuiView { notice: None, ..s }, TuiActionView::Nothing)
    } else if key == Key::Char('q') && !s.unsaved_rtt_refresh {
        (s, TuiActionView::Quit)
    } else {
        screen_key(
            if key == Key::Char('q') {
                asking(s)
            } else {
                s
            },
            key,
            control,
        )
    }
}

/// Whether the current screen shows a notice.
pub open spec fn notice_here(s: TuiView) -> bool {
    s.notice matches Some((scr, _)) && scr == s.screen
}

/// Where a key goes, in order: a running job, the save prompt, the help,
/// the branch prompt and menu, a notice, the screen.
pub open spec fn key_step(s: TuiView, key: Key, control: bool) -> (TuiView, TuiActionView) {
    if s.busy != Busy::Idle {
        busy_key(s, key)
    } else if s.refresh_overlay == RefreshOverlay::ConfirmExitSave {
        confirm_key(s, key)
    } else if s.show_help {
        help_key(s, key, control)
    } else if s.branch_overlay == BranchOverlay::AlternateInput {
        input_key(s, key)
    } else if s.branch_overlay == BranchOverlay::Menu {
        menu_key(s, key)
    } else if notice_here(s) {
        notice_key(s, key, control)
    } else {
        screen_key(s, key, control)
    }
}

/// The notice after a refresh in which some hops failed.
pub open spec fn refresh_failure_text(c: RefreshCounts) -> Seq<char> {
    if c.hops_updated == 0 {
        "refresh failed for all "@ + decimal(c.hops_total as nat) + " hops; RTTs unchanged"@
    } else {
        "refreshed "@ + decimal(c.hops_updated as nat) + "/"@ + decimal(c.hops_total as nat)
            + " hops ("@ + decimal(c.hops_failed as nat) + " failed)"@
    }
}

/// One step of the explore loop.
pub open spec fn tui_step_spec(s: TuiView, e: TuiEventView) -> (TuiView, TuiActionView) {
    match e {
        TuiEventView::Press { key, control } => key_step(s, key, control),
        TuiEventView::Screen { outcome, reason } => match outcome {
            ScreenCycle::EnteredCompare => (
                TuiView { screen: ActiveScreen::Compare, notice: None, ..s },
                TuiActionView::Nothing,
            ),
            ScreenCycle::LeftCompare => (
                TuiView { screen: ActiveScreen::Browse, notice: None, ..s },
                TuiActionView::Nothing,
            ),
            ScreenCycle::SkippedUnavailable => (noticed(s, s.screen, reason), TuiActionView::Nothing),
        },
        TuiEventView::BranchDone(r) => {
            let done = TuiView { busy: Busy::Idle, branch_overlay: BranchOverlay::Hidden, ..s };
            match r {
                Ok(rep) => (
                    noticed(done, ActiveScreen::Browse, join_lines(report_lines(rep))),
                    if rep.nodes_added > 0 {
                        TuiActionView::ReloadAfterBranch
                    } else {
                        TuiActionView::Nothing
                    },
                ),
                Err(m) => (noticed(done, ActiveScreen::Browse, m), TuiActionView::Nothing),
            }
        },
        TuiEventView::RefreshDone(r) => {
            let origin = match s.refresh_origin {
                Some(o) => o,
                None => ActiveScreen::Browse,
            };
            let done = TuiView { busy: Busy::Idle, refresh_origin: None, ..s };
            match r {
                Ok(c) => {
                    let kept = TuiView {
                        unsaved_rtt_refresh: s.unsaved_rtt_refresh || c.hops_updated > 0,
                        ..done
                    };
                    (
                        if c.hops_failed > 0 {
                            noticed(kept, origin, refresh_failure_text(c))
                        } else {
                            kept
                        },
                        TuiActionView::ReplaceDocument,
                    )
                },
                Err(m) => (noticed(done, origin, m), TuiActionView::Nothing),
            }
        },
        TuiEventView::SaveFailed(m) => (
            noticed(s, s.screen, "failed to save refreshed RTTs: "@ + m),
            TuiActionView::Nothing,
        ),
    }
}

/// While a branch or refresh job runs, no key starts anything, quits or
/// changes the state; Esc only explains why.
pub proof fn lemma_busy_blocks_keys(s: TuiView, key: Key, control: bool)
    requires
        s.busy != Busy::Idle,
    ensures
        key_step(s, key, control).1 is Nothing,
        key_step(s, key, control).0 == s || key_step(s, key, control).0 == noticed(
            s,
            s.screen,
            busy_text(s.busy),
        ),
{
}

/// Refreshed RTTs are never dropped unasked: with unsaved RTTs and no save
/// prompt showing, no key quits or saves; the prompt comes first.
pub proof fn lemma_unsaved_refresh_asks_before_quit(s: TuiView, key: Key, control: bool)
    requires
        s.unsaved_rtt_refresh,
        s.refresh_overlay == RefreshOverlay::Hidden,
    ensures
        !(key_step(s, key, control).1 is Quit),
        !(key_step(s, key, control).1 is SaveRefreshedAndQuit),
{
}

/// Quitting without saving happens only when nothing is unsaved, or when
/// the operator answered no at the save prompt.
pub proof fn lemma_quit_only_when_saved_or_declined(s: TuiView, key: Key, control: bool)
    requires
        key_step(s, key, control).1 is Quit,
    ensures
        !s.unsaved_rtt_refresh || (s.refresh_overlay == RefreshOverlay::ConfirmExitSave && (key
            == Key::Char('n') || key == Key::Char('N') || key == Key::Esc)),
{
}

/// Finishing a job frees the loop for the next key.
pub proof fn lemma_job_done_frees_loop(s: TuiView, e: TuiEventView)
    requires
        e is BranchDone || e is RefreshDone,
    ensures
        tui_step_spec(s, e).0.busy == Busy::Idle,
{
}

/// The visible row to move the selection to when it fell off the end of
/// the visible rows (after a collapse or a reload): the last row, or none
/// to move.
pub fn selection_fix(selected_index: usize, visible_rows: usize) -> (r: Option<usize>)
    ensures
        r == (if selected_index >= visible_rows {
            Some(if visible_rows == 0 { 0usize } else { (visible_rows - 1) as usize })
        } else {
            None::<usize>
        }),
{
    if selected_index >= visible_rows {
        Some(if visible_rows == 0 { 0 } else { visible_rows - 1 })
    } else {
        None
    }
}

/// Whether the view state is saved now, and if so whether it goes with the
/// trees as stored rather than the document's: refreshed RTTs that the
/// operator has not saved are not written along with it.
pub fn view_state_save_plan(persist_enabled: bool, due: bool, unsaved_rtt_refresh: bool) -> (r:
    Option<bool>)
    ensures
        r == (if persist_enabled && due {
            Some(unsaved_rtt_refresh)
        } else {
            None::<bool>
        }),
{
    if persist_enabled && due {
        Some(unsaved_rtt_refresh)
    } else {
        None
    }
}

/// A failed save of the view state warns once per explore session: the
/// warning when none was shown yet, and that one now was.
pub fn persist_failure_warning(shown: bool, error: &str) -> (r: (bool, Option<String>))
    ensures
        r.0,
        r.1 is Some <==> !shown,
        r.1 matches Some(m) ==> m@ == "warning: failed to persist explore view state: "@ + error@,
{
    if shown {
        (true, None)
    } else {
        let mut m = String::from_str("warning: failed to persist explore view state: ");
        m.append(error);
        (true, Some(m))
    }
}

/// After a branch added nodes the selection is expanded, so the new
/// siblings show: it joins the expanded nodes unless it is among them.
pub fn expand_selection(expanded: &mut Vec<NodePath>, selection: &NodePath)
    ensures
        (exists|i: int| 0 <= i < old(expanded)@.len() && same_node(#[trigger] old(expanded)@[i], *selection))
            ==> final(expanded)@ == old(expanded)@,
        !(exists|i: int| 0 <= i < old(expanded)@.len() && same_node(#[trigger] old(expanded)@[i], *selection))
            ==> final(expanded)@.len() == old(expanded)@.len() + 1
            && final(expanded)@.subrange(0, old(expanded)@.len() as int) == old(expanded)@
            && same_node(final(expanded)@.last(), *selection),
{
    let mut i: usize = 0;
    while i < expanded.len()
        invariant
            i <= expanded@.len(),
            expanded@ == old(expanded)@,
            forall|j: int| 0 <= j < i ==> !same_node(#[trigger] expanded@[j], *selection),
        decreases expanded@.len() - i,
    {
        if same_path(&expanded[i], selection) {
            return;
        }
        i = i + 1;
    }
    let ghost before = expanded@;
    expanded.push(copy_path(selection));
    assert(expanded@.subrange(0, before.len() as int) =~= before);
}

/// On a screen with nothing over it (no job running, no prompt, help,
/// branch overlay or notice), `C` collapses every node and `E` expands
/// every node, with or without Control, and leave the state as it was; so
/// the two keys never do the same thing.
pub proof fn lemma_expand_collapse_keys(s: TuiView, control: bool)
    requires
        s.busy == Busy::Idle,
        s.refresh_overlay == RefreshOverlay::Hidden,
        !s.show_help,
        s.branch_overlay == BranchOverlay::Hidden,
        !notice_here(s),
    ensures
        key_step(s, Key::Char('C'), control).1 is CollapseAll,
        key_step(s, Key::Char('E'), control).1 is ExpandAll,
        key_step(s, Key::Char('C'), control).0 == s,
        key_step(s, Key::Char('E'), control).0 == s,
        key_step(s, Key::Char('C'), control).1 != key_step(s, Key::Char('E'), control).1,
{
}

/// The screen's key bindings on a screen with nothing over it: Tab and
/// BackTab cycle screens forward and back, `1`/`2` pick browse/compare,
/// `m` jumps to compare, `c` switches colours, `?` opens the help, `q`
/// quits when nothing is unsaved, `r` starts a refresh from this screen,
/// and on the browse screen `+`/`-` grow and shrink the first pane and `b`
/// opens the branch menu.
pub proof fn lemma_screen_bindings(s: TuiView)
    requires
        s.busy == Busy::Idle,
        s.refresh_overlay == RefreshOverlay::Hidden,
        !s.show_help,
        s.branch_overlay == BranchOverlay::Hidden,
        !notice_here(s),
    ensures
        key_step(s, Key::Tab, false) == (s, TuiActionView::CycleForward),
        key_step(s, Key::BackTab, false) == (s, TuiActionView::CycleBackward),
        key_step(s, Key::Char('1'), false) == (s, TuiActionView::SelectBrowse),
        key_step(s, Key::Char('2'), false) == (s, TuiActionView::SelectCompare),
        key_step(s, Key::Char('m'), false) == (s, TuiActionView::JumpCompare),
        key_step(s, Key::Char('c'), false) == (s, TuiActionView::ToggleColor { mark_dirty: true }),
        key_step(s, Key::Char('?'), false).0.show_help,
        key_step(s, Key::Char('?'), false).1 is Nothing,
        !s.unsaved_rtt_refresh ==> key_step(s, Key::Char('q'), false).1 is Quit,
        key_step(s, Key::Char('r'), false).1 is StartRefresh,
        key_step(s, Key::Char('r'), false).0.busy == Busy::Refresh,
        key_step(s, Key::Char('r'), false).0.refresh_origin == Some(s.screen),
        s.screen == ActiveScreen::Browse ==> key_step(s, Key::Char('+'), false).1 is GrowSplit,
        s.screen == ActiveScreen::Browse ==> key_step(s, Key::Char('-'), false).1 is ShrinkSplit,
        s.screen == ActiveScreen::Browse ==> key_step(s, Key::Char('b'), false).0.branch_overlay
            == BranchOverlay::Menu,
        s.screen == ActiveScreen::Compare ==> key_step(s, Key::Char('+'), false).1 is Nothing,
{
}

fn noticed_state(s: TuiState, screen: ActiveScreen, message: String) -> (r: TuiState)
    ensures
        r@ == noticed(s@, screen, message@),
{
    TuiState { notice: Some(ScreenNotice { screen, message }), ..s }
}

fn asking_state(s: TuiState) -> (r: TuiState)
    ensures
        r@ == asking(s@),
{
    TuiState { refresh_overlay: RefreshOverlay::ConfirmExitSave, ..s }
}

fn text(t: &str) -> (r: String)
    ensures
        r@ == t@,
{
    String::from_str(t)
}

fn busy_step(s: TuiState, key: Key) -> (r: (TuiState, TuiAction))
    ensures
        (r.0@, r.1@) == busy_key(s@, key),
{
    if key == Key::Esc {
        let m = if s.busy == Busy::Refresh {
            text("RTT refresh in progress; wait for completion")
        } else {
            text("branch in progress; wait for completion")
        };
        let screen = s.screen;
        (noticed_state(s, screen, m), TuiAction::Nothing)
    } else {
        (s, TuiAction::Nothing)
    }
}

fn confirm_step(s: TuiState, key: Key) -> (r: (TuiState, TuiAction))
    ensures
        (r.0@, r.1@) == confirm_key(s@, key),
{
    if key == Key::Char('y') || key == Key::Char('Y') || key == Key::Enter {
        (s, TuiAction::SaveRefreshedAndQuit)
    } else if key == Key::Char('n') || key == Key::Char('N') || key == Key::Esc {
        (TuiState { unsaved_rtt_refresh: false, ..s }, TuiAction::Quit)
    } else {
        (s, TuiAction::Nothing)
    }
}

fn help_step(s: TuiState, key: Key, control: bool) -> (r: (TuiState, TuiAction))
    ensures
        (r.0@, r.1@) == help_key(s@, key, control),
{
    if key == Key::Char('?') || key == Key::Esc {
        (TuiState { show_help: false, ..s }, TuiAction::Nothing)
    } else if key == Key::Char('q') {
        if s.unsaved_rtt_refresh {
            (asking_state(s), TuiAction::Nothing)
        } else {
            (s, TuiAction::Quit)
        }
    } else if key == Key::Char('c') {
        if control && !s.unsaved_rtt_refresh {
            (s, TuiAction::Quit)
        } else {
            let s1 = if control {
                asking_state(s)
            } else {
                s
            };
            (s1, TuiAction::ToggleColor { mark_dirty: false })
        }
    } else {
        (s, TuiAction::Nothing)
    }
}

fn input_step(s: TuiState, key: Key) -> (r: (TuiState, TuiAction))
    ensures
        (r.0@, r.1@) == input_key(s@, key),
{
    match key {
        Key::Esc => (TuiState { branch_overlay: BranchOverlay::Menu, ..s }, TuiAction::Nothing),
        Key::Enter => {
            let target = trim_chars(&s.alternate_input);
            if target.len() == 0 {
                let m = text("server address required");
                (noticed_state(s, ActiveScreen::Browse, m), TuiAction::Nothing)
            } else {
                (
                    TuiState {
                        branch_overlay: BranchOverlay::Hidden,
                        alternate_input: Vec::new(),
                        busy: Busy::Branch,
                        ..s
                    },
                    TuiAction::StartBranchAlternate(target),
                )
            }
        },
        Key::Backspace => {
            let mut s = s;
            if s.alternate_input.len() > 0 {
                s.alternate_input.pop();
            }
            (s, TuiAction::Nothing)
        },
        Key::Char(ch) => {
            let mut s = s;
            s.alternate_input.push(ch);
            (s, TuiAction::Nothing)
        },
        _ => (s, TuiAction::Nothing),
    }
}

fn menu_step(s: TuiState, key: Key) -> (r: (TuiState, TuiAction))
    ensures
        (r.0@, r.1@) == menu_key(s@, key),
{
    if key == Key::Esc || key == Key::Char('b') {
        (TuiState { branch_overlay: BranchOverlay::Hidden, ..s }, TuiAction::Nothing)
    } else if key == Key::Char('e') {
        (TuiState { branch_overlay: BranchOverlay::Hidden, busy: Busy::Branch, ..s }, TuiAction::StartBranchExpand)
    } else if key == Key::Char('a') {
        (
            TuiState { branch_overlay: BranchOverlay::AlternateInput, alternate_input: Vec::new(), ..s },
            TuiAction::Nothing,
        )
    } else {
        (s, TuiAction::Nothing)
    }
}

fn binding_step(s: TuiState, key: Key) -> (r: (TuiState, TuiAction))
    ensures
        (r.0@, r.1@) == binding_key(s@, key),
{
    let browse = s.screen == ActiveScreen::Browse;
    if key == Key::Char('c') {
        (s, TuiAction::ToggleColor { mark_dirty: true })
    } else if key == Key::Tab {
        (s, TuiAction::CycleForward)
    } else if key == Key::BackTab {
        (s, TuiAction::CycleBackward)
    } else if key == Key::Char('1') {
        (s, TuiAction::SelectBrowse)
    } else if key == Key::Char('2') {
        (s, TuiAction::SelectCompare)
    } else if key == Key::Char('m') {
        (s, TuiAction::JumpCompare)
    } else if key == Key::Char('E') {
        (s, TuiAction::ExpandAll)
    } else if key == Key::Char('C') {
        (s, TuiAction::CollapseAll)
    } else if key == Key::Char('r') || key == Key::Char('R') {
        let screen = s.screen;
        (TuiState { busy: Busy::Refresh, refresh_origin: Some(screen), ..s }, TuiAction::StartRefresh)
    } else if key == Key::Char('+') || key == Key::Char('=') {
        (s, if browse { TuiAction::GrowSplit } else { TuiAction::Nothing })
    } else if key == Key::Char('-') || key == Key::Char('_') {
        (s, if browse { TuiAction::ShrinkSplit } else { TuiAction::Nothing })
    } else if key == Key::Char('b') && browse {
        (TuiState { branch_overlay: BranchOverlay::Menu, ..s }, TuiAction::Nothing)
    } else if browse {
        (s, TuiAction::BrowseKey(key))
    } else {
        (s, TuiAction::CompareKey(key))
    }
}

fn screen_step(s: TuiState, key: Key, control: bool) -> (r: (TuiState, TuiAction))
    ensures
        (r.0@, r.1@) == screen_key(s@, key, control),
{
    if key == Key::Char('q') && !s.unsaved_rtt_refresh {
        return (s, TuiAction::Quit);
    }
    let s1 = if key == Key::Char('q') {
        asking_state(s)
    } else {
        s
    };
    if key == Key::Char('?') {
        (TuiState { show_help: true, ..s1 }, TuiAction::Nothing)
    } else if key == Key::Char('c') && control && !s1.unsaved_rtt_refresh {
        (s1, TuiAction::Quit)
    } else {
        let s2 = if key == Key::Char('c') && control {
            asking_state(s1)
        } else {
            s1
        };
        binding_step(s2, key)
    }
}

fn notice_step(s: TuiState, key: Key, control: bool) -> (r: (TuiState, TuiAction))
    ensures
        (r.0@, r.1@) == notice_key(s@, key, control),
{
    if key == Key::Enter || key == Key::Char(' ') || key == Key::Esc {
        (TuiState { notice: None, ..s }, TuiAction::Nothing)
    } else if key == Key::Char('q') && !s.unsaved_rtt_refresh {
        (s, TuiAction::Quit)
    } else {
        let s1 = if key == Key::Char('q') {
            asking_state(s)
        } else {
            s
        };
        screen_step(s1, key, control)
    }
}

fn key_step_exec(s: TuiState, key: Key, control: bool) -> (r: (TuiState, TuiAction))
    ensures
        (r.0@, r.1@) == key_step(s@, key, control),
{
    if s.busy != Busy::Idle {
        busy_step(s, key)
    } else if s.refresh_overlay == RefreshOverlay::ConfirmExitSave {
        confirm_step(s, key)
    } else if s.show_help {
        help_step(s, key, control)
    } else if s.branch_overlay == BranchOverlay::AlternateInput {
        input_step(s, key)
    } else if s.branch_overlay == BranchOverlay::Menu {
        menu_step(s, key)
    } else {
        let here = match &s.notice {
            Some(n) => n.screen == s.screen,
            None => false,
        };
        if here {
            notice_step(s, key, control)
        } else {
            screen_step(s, key, control)
        }
    }
}

/// The notice after a refresh in which some hops failed.
pub fn refresh_failure(c: RefreshCounts) -> (m: String)
    ensures
        m@ == refresh_failure_text(c),
{
    let mut m = String::new();
    if c.hops_updated == 0 {
        m.append("refresh failed for all ");
        push_decimal(&mut m, c.hops_total as u64);
        m.append(" hops; RTTs unchanged");
    } else {
        m.append("refreshed ");
        push_decimal(&mut m, c.hops_updated as u64);
        m.append("/");
        push_decimal(&mut m, c.hops_total as u64);
        m.append(" hops (");
        push_decimal(&mut m, c.hops_failed as u64);
        m.append(" failed)");
    }
    assert(m@ =~= refresh_failure_text(c));
    m
}

/// One step of the explore loop: the next state and what to do.
pub fn tui_step(state: TuiState, event: TuiEvent) -> (r: (TuiState, TuiAction))
    ensures
        (r.0@, r.1@) == tui_step_spec(state@, event@),
{
    let s = state;
    match event {
        TuiEvent::Press { key, control } => key_step_exec(s, key, control),
        TuiEvent::Screen { outcome, reason } => match outcome {
            ScreenCycle::EnteredCompare => (
                TuiState { screen: ActiveScreen::Compare, notice: None, ..s },
                TuiAction::Nothing,
            ),
            ScreenCycle::LeftCompare => (
                TuiState { screen: ActiveScreen::Browse, notice: None, ..s },
                TuiAction::Nothing,
            ),
            ScreenCycle::SkippedUnavailable => {
                let screen = s.screen;
                (noticed_state(s, screen, reason), TuiAction::Nothing)
            },
        },
        TuiEvent::BranchDone(r) => {
            let done = TuiState { busy: Busy::Idle, branch_overlay: BranchOverlay::Hidden, ..s };
            match r {
                Ok(rep) => {
                    let m = format_branch_report(&rep);
                    let action = if rep.nodes_added > 0 {
                        TuiAction::ReloadAfterBranch
                    } else {
                        TuiAction::Nothing
                    };
                    (noticed_state(done, ActiveScreen::Browse, m), action)
                },
                Err(m) => (noticed_state(done, ActiveScreen::Browse, m), TuiAction::Nothing),
            }
        },
        TuiEvent::RefreshDone(r) => {
            let origin = match s.refresh_origin {
                Some(o) => o,
                None => ActiveScreen::Browse,
            };
            let done = TuiState { busy: Busy::Idle, refresh_origin: None, ..s };
            match r {
                Ok(c) => {
                    let unsaved = done.unsaved_rtt_refresh || c.hops_updated > 0;
                    let kept = TuiState { unsaved_rtt_refresh: unsaved, ..done };
                    let next = if c.hops_failed > 0 {
                        let m = refresh_failure(c);
                        noticed_state(kept, origin, m)
                    } else {
                        kept
                    };
                    (next, TuiAction::ReplaceDocument)
                },
                Err(m) => (noticed_state(done, origin, m), TuiAction::Nothing),
            }
        },
        TuiEvent::SaveFailed(m) => {
            let mut full = text("failed to save refreshed RTTs: ");
            full.append(m.as_str());
            let screen = s.screen;
            (noticed_state(s, screen, full), TuiAction::Nothing)
        },
    }
}

} // verus!
