//! The explore screen's decisions: what a key does on each screen, the
//! per-screen notices, quitting with unsaved RTTs, and scroll limits.

use vstd::prelude::*;

use super::compare_screen::{scroll_for_row, spec_scroll_for_row, CompareViewport};
use super::view_state::{other_pane, ActiveScreen, BrowsePane};
use crate::node_path::NodePath;

verus! {

/// A key press, as far as the explore screens tell keys apart.
#[derive(Debug, Clone, Copy, PartialEq, Eq, Structural)]
pub enum Key {
    Char(char),
    Up,
    Down,
    Left,
    Right,
    PageUp,
    PageDown,
    Home,
    Enter,
    Esc,
    Tab,
    BackTab,
    Backspace,
    Other,
}

/// A message shown on one screen only.
#[derive(Debug, Clone, PartialEq, Eq)]
pub struct ScreenNotice {
    pub screen: ActiveScreen,
    pub message: String,
}

/// Replaces the notice with `message` for `screen`.
pub fn set_screen_notice(notice: &mut Option<ScreenNotice>, screen: ActiveScreen, message: String)
    ensures
        *final(notice) matches Some(n) && n.screen == screen && n.message@ == message@,
{
    *notice = Some(ScreenNotice { screen, message });
}

/// The notice's message when it belongs to `screen`.
pub fn screen_notice_message(notice: &Option<ScreenNotice>, screen: ActiveScreen) -> (r: Option<&str>)
    ensures
        match notice {
            Some(n) => if n.screen == screen {
                r matches Some(m) && m@ == n.message@
            } else {
                r is None
            },
            None => r is None,
        },
{
    match notice {
        Some(entry) => {
            if entry.screen == screen {
                Some(entry.message.as_str())
            } else {
                None
            }
        },
        None => None,
    }
}

/// The overlay asked for before quitting.
#[derive(Debug, Clone, Copy, PartialEq, Eq, Structural)]
pub enum RefreshOverlay {
    Hidden,
    ConfirmExitSave,
}

/// The branch overlay's state.
#[derive(Debug, Clone, Copy, PartialEq, Eq, Structural)]
pub enum BranchOverlay {
    Hidden,
    Menu,
    AlternateInput,
}

/// Quit at once, unless refreshed RTTs are unsaved: then ask first.
pub fn request_quit(unsaved_rtt_refresh: bool, refresh_overlay: &mut RefreshOverlay) -> (quit: bool)
    ensures
        quit == !unsaved_rtt_refresh,
        *final(refresh_overlay) == if unsaved_rtt_refresh {
            RefreshOverlay::ConfirmExitSave
        } else {
            *old(refresh_overlay)
        },
{
    if unsaved_rtt_refresh {
        *refresh_overlay = RefreshOverlay::ConfirmExitSave;
        false
    } else {
        true
    }
}

/// How far content of `len` rows or columns scrolls in `window` of them:
/// the excess, capped at `u16::MAX`.
pub open spec fn max_scroll(len: int, window: int) -> int {
    let excess = if len >= window { len - window } else { 0 };
    if excess <= u16::MAX { excess } else { u16::MAX as int }
}

/// The vertical scroll limit of `wrapped_lines` lines in `inner_height` rows.
pub fn max_vertical_scroll(wrapped_lines: usize, inner_height: u16) -> (r: u16)
    ensures
        r as int == max_scroll(wrapped_lines as int, inner_height as int),
{
    let h = inner_height as usize;
    let excess = if wrapped_lines >= h { wrapped_lines - h } else { 0 };
    if excess <= 65535 { excess as u16 } else { 65535 }
}

/// The horizontal scroll limit of a `line_width`-column line in `inner_width`.
pub fn max_horizontal_scroll(line_width: usize, inner_width: u16) -> (r: u16)
    ensures
        r as int == max_scroll(line_width as int, inner_width as int),
{
    let w = inner_width as usize;
    let excess = if line_width >= w { line_width - w } else { 0 };
    if excess <= 65535 { excess as u16 } else { 65535 }
}

/// Rows a line of `line_width` columns takes when wrapped at `width`: an
/// empty line takes one.
pub open spec fn wrapped_rows(line_width: int, width: int) -> int {
    if line_width == 0 {
        1
    } else {
        (line_width + width - 1) / width
    }
}

/// Rows the lines take when wrapped at `width`; at width 0, one per line.
pub open spec fn wrapped_total(widths: Seq<usize>, width: int) -> int
    decreases widths.len(),
{
    if width == 0 {
        widths.len() as int
    } else if widths.len() == 0 {
        0
    } else {
        wrapped_total(widths.drop_last(), width) + wrapped_rows(widths.last() as int, width)
    }
}

/// The number of rows lines of the given display widths wrap to.
pub fn wrapped_line_count(line_widths: &Vec<usize>, width: u16) -> (r: usize)
    requires
        wrapped_total(line_widths@, width as int) <= usize::MAX,
    ensures
        r as int == wrapped_total(line_widths@, width as int),
{
    if width == 0 {
        return line_widths.len();
    }
    let w = width as usize;
    let mut total: usize = 0;
    let mut i: usize = 0;
    while i < line_widths.len()
        invariant
            w == width as usize,
            w > 0,
            i <= line_widths.len(),
            total as int == wrapped_total(line_widths@.subrange(0, i as int), width as int),
            wrapped_total(line_widths@, width as int) <= usize::MAX,
        decreases line_widths.len() - i,
    {
        let lw = line_widths[i];
        let rows: usize = if lw == 0 {
            1
        } else if lw % w == 0 {
            lw / w
        } else {
            assert(lw / w < usize::MAX) by (nonlinear_arith)
                requires
                    w > 0,
                    lw % w != 0,
                    lw <= usize::MAX,
            {
                assert(w != 1);
                assert(lw / w <= lw / 2);
            }
            lw / w + 1
        };
        proof {
            let s = line_widths@.subrange(0, i + 1);
            assert(s.drop_last() =~= line_widths@.subrange(0, i as int));
            assert(rows as int == wrapped_rows(lw as int, width as int)) by (nonlinear_arith)
                requires
                    w > 0,
                    w == width as int,
                    lw == 0 ==> rows == 1,
                    lw != 0 ==> rows == lw / w + if lw % w == 0 { 0int } else { 1int },
            ;
            lemma_wrapped_total_prefix(line_widths@, (i + 1) as int, width as int);
        }
        total = total + rows;
        i = i + 1;
    }
    assert(line_widths@.subrange(0, line_widths@.len() as int) =~= line_widths@);
    total
}

/// Taking more lines never wraps to fewer rows.
pub proof fn lemma_wrapped_total_prefix(widths: Seq<usize>, k: int, width: int)
    requires
        0 <= k <= widths.len(),
        width > 0,
    ensures
        wrapped_total(widths.subrange(0, k), width) <= wrapped_total(widths, width),
    decreases widths.len() - k,
{
    if k < widths.len() {
        lemma_wrapped_total_prefix(widths, k + 1, width);
        let s = widths.subrange(0, k + 1);
        assert(s.drop_last() =~= widths.subrange(0, k));
        assert(wrapped_rows(s.last() as int, width) >= 0) by (nonlinear_arith)
            requires
                width > 0,
                s.last() >= 0,
        ;
    } else {
        assert(widths.subrange(0, k) =~= widths);
    }
}

/// The scroll limits of the browse screen.
#[derive(Debug, Clone, Copy, PartialEq, Eq, Structural)]
pub struct BrowseScrollLimits {
    pub detail_max_scroll: u16,
    pub tree_max_scroll_x: u16,
}

/// The scroll limits of the compare screen.
#[derive(Debug, Clone, Copy, PartialEq, Eq, Structural)]
pub struct CompareScrollLimits {
    pub max_scroll: u16,
    pub inner_height: u16,
    pub first_row_line: usize,
    pub total_lines: usize,
}

/// The compare scroll that keeps `row` in view, within the limit.
pub open spec fn synced_scroll(scroll: u16, row: usize, limits: CompareScrollLimits) -> int {
    let s = spec_scroll_for_row(
        row,
        CompareViewport { header_lines: limits.first_row_line, inner_height: limits.inner_height },
        scroll,
    );
    if s <= limits.max_scroll { s } else { limits.max_scroll as int }
}

/// Scrolls the compare body so that `row` shows, never past the limit.
pub fn sync_compare_row_scroll(scroll: &mut u16, row: usize, limits: CompareScrollLimits)
    ensures
        *final(scroll) as int == synced_scroll(*old(scroll), row, limits),
{
    let viewport = CompareViewport {
        header_lines: limits.first_row_line,
        inner_height: limits.inner_height,
    };
    let s = scroll_for_row(row, viewport, *scroll);
    *scroll = if s <= limits.max_scroll { s } else { limits.max_scroll };
}

/// What a key does on the browse screen.
#[derive(Debug, Clone, Copy, PartialEq, Eq, Structural)]
pub struct BrowseKeyOutcome {
    /// The pane that has focus afterwards.
    pub pane: BrowsePane,
    /// Whether the view state changed and should be saved.
    pub dirty: bool,
    pub detail_scroll: u16,
    pub tree_scroll_x: u16,
    /// The visible row to select, when the selection moves.
    pub select: Option<usize>,
    /// Whether the selected node's expansion toggles.
    pub toggle_selected: bool,
}

/// Whether the key moves down (`Down` or `j`), up (`Up` or `k`), and so on.
pub open spec fn is_down(key: Key) -> bool {
    key == Key::Down || key == Key::Char('j')
}

pub open spec fn is_up(key: Key) -> bool {
    key == Key::Up || key == Key::Char('k')
}

pub open spec fn is_page_down(key: Key) -> bool {
    key == Key::PageDown || key == Key::Char(' ')
}

pub open spec fn is_left(key: Key) -> bool {
    key == Key::Left || key == Key::Char('h')
}

pub open spec fn is_right(key: Key) -> bool {
    key == Key::Right || key == Key::Char('l')
}

pub open spec fn is_toggle(key: Key) -> bool {
    key == Key::Enter || key == Key::Char(' ')
}

/// `a + b` capped at `max`.
pub open spec fn step_up(a: u16, b: int, max: u16) -> u16 {
    if a + b <= max { (a + b) as u16 } else { max }
}

/// `a - b` floored at zero.
pub open spec fn step_down(a: u16, b: int) -> u16 {
    if a >= b { (a - b) as u16 } else { 0 }
}

/// The browse screen's key handling: `w` moves the focus between the tree
/// and the detail pane; on the detail pane the keys scroll it; on the tree
/// they move the selection (which resets the detail scroll), scroll the tree
/// sideways or toggle the selected node's expansion.
pub open spec fn browse_key_result(
    key: Key,
    pane: BrowsePane,
    visible_len: usize,
    selected_index: usize,
    selected_expandable: bool,
    detail_scroll: u16,
    tree_scroll_x: u16,
    limits: BrowseScrollLimits,
) -> BrowseKeyOutcome {
    let same = BrowseKeyOutcome {
        pane,
        dirty: false,
        detail_scroll,
        tree_scroll_x,
        select: None,
        toggle_selected: false,
    };
    if key == Key::Char('w') {
        BrowseKeyOutcome { pane: other_pane(pane), dirty: true, ..same }
    } else if pane == BrowsePane::Detail {
        let d = if is_down(key) {
            step_up(detail_scroll, 1, limits.detail_max_scroll)
        } else if is_up(key) {
            step_down(detail_scroll, 1)
        } else if is_page_down(key) {
            step_up(detail_scroll, 10, limits.detail_max_scroll)
        } else if key == Key::PageUp {
            step_down(detail_scroll, 10)
        } else if key == Key::Home {
            0
        } else {
            detail_scroll
        };
        BrowseKeyOutcome { detail_scroll: d, ..same }
    } else if is_down(key) && selected_index + 1 < visible_len {
        BrowseKeyOutcome { select: Some((selected_index + 1) as usize), detail_scroll: 0, ..same }
    } else if is_down(key) {
        same
    } else if is_up(key) {
        BrowseKeyOutcome {
            select: Some(if selected_index >= 1 { (selected_index - 1) as usize } else { 0 }),
            detail_scroll: 0,
            ..same
        }
    } else if is_left(key) {
        BrowseKeyOutcome { tree_scroll_x: step_down(tree_scroll_x, 1), ..same }
    } else if is_right(key) {
        BrowseKeyOutcome { tree_scroll_x: step_up(tree_scroll_x, 1, limits.tree_max_scroll_x), ..same }
    } else if is_toggle(key) {
        BrowseKeyOutcome { toggle_selected: selected_index < visible_len && selected_expandable, ..same }
    } else {
        same
    }
}

fn key_is(key: Key, a: Key, b: Key) -> (r: bool)
    ensures
        r == (key == a || key == b),
{
    key == a || key == b
}

/// Handles a key on the browse screen. `selected_expandable` says whether
/// the node at `selected_index` can expand. An increment that would leave
/// the `u16` range is not asked for: the scrolls stay within their limits.
pub fn browse_key(
    key: Key,
    pane: BrowsePane,
    visible_len: usize,
    selected_index: usize,
    selected_expandable: bool,
    detail_scroll: u16,
    tree_scroll_x: u16,
    limits: BrowseScrollLimits,
) -> (r: BrowseKeyOutcome)
    requires
        selected_index < usize::MAX,
    ensures
        r == browse_key_result(
            key,
            pane,
            visible_len,
            selected_index,
            selected_expandable,
            detail_scroll,
            tree_scroll_x,
            limits,
        ),
{
    let same = BrowseKeyOutcome {
        pane,
        dirty: false,
        detail_scroll,
        tree_scroll_x,
        select: None,
        toggle_selected: false,
    };
    if key == Key::Char('w') {
        let next = match pane {
            BrowsePane::Tree => BrowsePane::Detail,
            BrowsePane::Detail => BrowsePane::Tree,
        };
        return BrowseKeyOutcome { pane: next, dirty: true, ..same };
    }
    let detail = match pane {
        BrowsePane::Detail => true,
        BrowsePane::Tree => false,
    };
    if detail {
        let max = limits.detail_max_scroll;
        let d: u16 = if key_is(key, Key::Down, Key::Char('j')) {
            if (detail_scroll as u32) + 1 <= max as u32 { detail_scroll + 1 } else { max }
        } else if key_is(key, Key::Up, Key::Char('k')) {
            if detail_scroll >= 1 { detail_scroll - 1 } else { 0 }
        } else if key_is(key, Key::PageDown, Key::Char(' ')) {
            if (detail_scroll as u32) + 10 <= max as u32 { detail_scroll + 10 } else { max }
        } else if key == Key::PageUp {
            if detail_scroll >= 10 { detail_scroll - 10 } else { 0 }
        } else if key == Key::Home {
            0
        } else {
            detail_scroll
        };
        return BrowseKeyOutcome { detail_scroll: d, ..same };
    }
    if key_is(key, Key::Down, Key::Char('j')) {
        if selected_index + 1 < visible_len {
            BrowseKeyOutcome { select: Some(selected_index + 1), detail_scroll: 0, ..same }
        } else {
            same
        }
    } else if key_is(key, Key::Up, Key::Char('k')) {
        let up = if selected_index >= 1 { selected_index - 1 } else { 0 };
        BrowseKeyOutcome { select: Some(up), detail_scroll: 0, ..same }
    } else if key_is(key, Key::Left, Key::Char('h')) {
        let x = if tree_scroll_x >= 1 { tree_scroll_x - 1 } else { 0 };
        BrowseKeyOutcome { tree_scroll_x: x, ..same }
    } else if key_is(key, Key::Right, Key::Char('l')) {
        let max = limits.tree_max_scroll_x;
        let x = if (tree_scroll_x as u32) + 1 <= max as u32 { tree_scroll_x + 1 } else { max };
        BrowseKeyOutcome { tree_scroll_x: x, ..same }
    } else if key_is(key, Key::Enter, Key::Char(' ')) {
        BrowseKeyOutcome { toggle_selected: selected_index < visible_len && selected_expandable, ..same }
    } else {
        same
    }
}

/// What a key does on the compare screen; the caller applies it to the view.
#[derive(Debug, Clone, Copy, PartialEq, Eq, Structural)]
pub enum CompareKeyEffect {
    Nothing,
    /// Back to the browse screen.
    LeaveToBrowse,
    /// Select this comparison row (and scroll it into view).
    SelectRow(usize),
    /// Reveal this row's path on the browse screen and go there.
    RevealAndBrowse(usize),
    ExpandAll,
    CollapseAll,
    ToggleFullPathPanel,
    ToggleSiblingPanel,
    HighlightFastest,
    HighlightSlowest,
    ClearHighlight,
}

/// The row after moving by one: none move in an empty list; otherwise
/// clamped to the rows.
pub open spec fn moved_row(row: usize, rows: usize, down: bool) -> usize {
    if rows == 0 {
        row
    } else if down {
        if row + 1 <= rows - 1 { (row + 1) as usize } else { (rows - 1) as usize }
    } else {
        if row >= 1 { (row - 1) as usize } else { 0 }
    }
}

/// Whether two node paths name the same node.
pub open spec fn same_node(a: NodePath, b: NodePath) -> bool {
    a.tree == b.tree && a.path@ == b.path@
}

/// `f`/`s`: highlight the fastest/slowest answered path, or clear the
/// highlight when that path is already highlighted; nothing without a
/// whole-tree summary.
pub open spec fn highlight_effect(
    highlighted: Option<NodePath>,
    target: Option<NodePath>,
    fastest: bool,
) -> CompareKeyEffect {
    match target {
        None => CompareKeyEffect::Nothing,
        Some(t) => if (highlighted matches Some(h) && same_node(h, t)) {
            CompareKeyEffect::ClearHighlight
        } else if fastest {
            CompareKeyEffect::HighlightFastest
        } else {
            CompareKeyEffect::HighlightSlowest
        },
    }
}

/// The compare screen's key handling. `rows` is the number of comparison
/// rows, `None` when there is nothing to compare (then only `Enter` and
/// `Esc` act: back to browse). The current row is clamped to the rows first.
pub open spec fn compare_key_result(
    key: Key,
    rows: Option<usize>,
    compare_row: usize,
    highlighted: Option<NodePath>,
    fastest: Option<NodePath>,
    slowest: Option<NodePath>,
) -> CompareKeyEffect {
    match rows {
        None => if key == Key::Enter || key == Key::Esc {
            CompareKeyEffect::LeaveToBrowse
        } else {
            CompareKeyEffect::Nothing
        },
        Some(n) => {
            let last = if n >= 1 { n - 1 } else { 0 };
            let row = if compare_row <= last { compare_row } else { last as usize };
            if is_down(key) {
                CompareKeyEffect::SelectRow(moved_row(row, n, true))
            } else if is_up(key) {
                CompareKeyEffect::SelectRow(moved_row(row, n, false))
            } else if key == Key::Enter {
                CompareKeyEffect::RevealAndBrowse(row)
            } else if key == Key::Char('E') {
                CompareKeyEffect::ExpandAll
            } else if key == Key::Char('C') {
                CompareKeyEffect::CollapseAll
            } else if key == Key::Char('F') {
                CompareKeyEffect::ToggleFullPathPanel
            } else if key == Key::Char('B') {
                CompareKeyEffect::ToggleSiblingPanel
            } else if key == Key::Char('f') {
                highlight_effect(highlighted, fastest, true)
            } else if key == Key::Char('s') {
                highlight_effect(highlighted, slowest, false)
            } else if key == Key::Esc {
                CompareKeyEffect::ClearHighlight
            } else {
                CompareKeyEffect::Nothing
            }
        },
    }
}

fn same_node_path(a: &NodePath, b: &NodePath) -> (r: bool)
    ensures
        r == same_node(*a, *b),
{
    if a.tree != b.tree || a.path.len() != b.path.len() {
        return false;
    }
    let mut i: usize = 0;
    while i < a.path.len()
        invariant
            a.path@.len() == b.path@.len(),
            i <= a.path.len(),
            a.path@.subrange(0, i as int) == b.path@.subrange(0, i as int),
        decreases a.path.len() - i,
    {
        if a.path[i] != b.path[i] {
            assert(a.path@[i as int] != b.path@[i as int]);
            return false;
        }
        i = i + 1;
        assert(a.path@.subrange(0, i as int) =~= b.path@.subrange(0, i as int));
    }
    assert(a.path@ =~= a.path@.subrange(0, a.path@.len() as int));
    assert(b.path@ =~= b.path@.subrange(0, b.path@.len() as int));
    true
}

fn highlight(highlighted: &Option<NodePath>, target: &Option<NodePath>, fastest: bool) -> (r:
    CompareKeyEffect)
    ensures
        r == highlight_effect(*highlighted, *target, fastest),
{
    match target {
        None => CompareKeyEffect::Nothing,
        Some(t) => {
            let on = match highlighted {
                Some(h) => same_node_path(h, t),
                None => false,
            };
            if on {
                CompareKeyEffect::ClearHighlight
            } else if fastest {
                CompareKeyEffect::HighlightFastest
            } else {
                CompareKeyEffect::HighlightSlowest
            }
        },
    }
}

/// Handles a key on the compare screen.
pub fn compare_key(
    key: Key,
    rows: Option<usize>,
    compare_row: usize,
    highlighted: &Option<NodePath>,
    fastest: &Option<NodePath>,
    slowest: &Option<NodePath>,
) -> (r: CompareKeyEffect)
    ensures
        r == compare_key_result(key, rows, compare_row, *highlighted, *fastest, *slowest),
{
    match rows {
        None => {
            if key == Key::Enter || key == Key::Esc {
                CompareKeyEffect::LeaveToBrowse
            } else {
                CompareKeyEffect::Nothing
            }
        },
        Some(n) => {
            let last = if n >= 1 { n - 1 } else { 0 };
            let row = if compare_row <= last { compare_row } else { last };
            if key_is(key, Key::Down, Key::Char('j')) {
                let next = if n == 0 { row } else if row + 1 <= n - 1 { row + 1 } else { n - 1 };
                CompareKeyEffect::SelectRow(next)
            } else if key_is(key, Key::Up, Key::Char('k')) {
                let next = if n == 0 { row } else if row >= 1 { row - 1 } else { 0 };
                CompareKeyEffect::SelectRow(next)
            } else if key == Key::Enter {
                CompareKeyEffect::RevealAndBrowse(row)
            } else if key == Key::Char('E') {
                CompareKeyEffect::ExpandAll
            } else if key == Key::Char('C') {
                CompareKeyEffect::CollapseAll
            } else if key == Key::Char('F') {
                CompareKeyEffect::ToggleFullPathPanel
            } else if key == Key::Char('B') {
                CompareKeyEffect::ToggleSiblingPanel
            } else if key == Key::Char('f') {
                highlight(highlighted, fastest, true)
            } else if key == Key::Char('s') {
                highlight(highlighted, slowest, false)
            } else if key == Key::Esc {
                CompareKeyEffect::ClearHighlight
            } else {
                CompareKeyEffect::Nothing
            }
        },
    }
}

} // verus!
