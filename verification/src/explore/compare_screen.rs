//! Compare-screen helpers: sticky-header scrolling and row text.

use vstd::prelude::*;

use crate::explore::fork_summary::{
    all_totals_fit, compared_at, comparison_at, shapes_as, ForkComparison, PathSummary, TraceNode,
};
use crate::explore::path_summary::HopTiming;
use crate::explore::tree::{height, TraceShape};
use crate::node_path::NodePath;
use crate::text::{chars_of, owned, push_char, push_str, views};

verus! {

/// The Compare pane: the sticky header's height and the inner height.
#[derive(Debug, Clone, Copy, PartialEq, Eq, Structural)]
pub struct CompareViewport {
    pub header_lines: usize,
    pub inner_height: u16,
}

pub open spec fn sat_sub(a: int, b: int) -> int {
    if a >= b { a - b } else { 0 }
}

pub open spec fn sat_add_u16(a: int, b: int) -> int {
    if a + b <= u16::MAX { a + b } else { u16::MAX as int }
}

/// The body height: inner height less the header (`as u16`, so modulo 2^16).
pub open spec fn body_height(viewport: CompareViewport) -> int {
    sat_sub(viewport.inner_height as int, (viewport.header_lines % 0x1_0000) as int)
}

/// The scroll that keeps `row` (taken modulo 2^16, as `as u16` does)
/// visible: unchanged when it is, else just enough to bring it in.
pub open spec fn spec_scroll_for_row(row: usize, viewport: CompareViewport, current: u16) -> int {
    let body = body_height(viewport);
    let r = (row % 0x1_0000) as int;
    if body == 0 {
        current as int
    } else if r < current {
        r
    } else if r > sat_add_u16(current as int, sat_sub(body, 1)) {
        sat_sub(r, sat_sub(body, 1))
    } else {
        current as int
    }
}

/// Keep `row` visible in the scrollable body beneath a sticky header.
pub fn scroll_for_row(row: usize, viewport: CompareViewport, current_scroll: u16) -> (r: u16)
    ensures
        r as int == spec_scroll_for_row(row, viewport, current_scroll),
        body_height(viewport) > 0 && current_scroll as int + body_height(viewport) - 1 <= u16::MAX
            ==> r <= (row % 0x1_0000) && (row % 0x1_0000) <= r + body_height(viewport) - 1,
{
    let header: u16 = (viewport.header_lines % 0x1_0000) as u16;
    let body_height: u16 = if viewport.inner_height >= header { viewport.inner_height - header } else { 0 };
    if body_height == 0 {
        return current_scroll;
    }
    let row16: u16 = (row % 0x1_0000) as u16;
    if row16 < current_scroll {
        return row16;
    }
    let span: u16 = body_height - 1;
    let last_visible: u16 = if current_scroll as u32 + span as u32 <= 65535 { current_scroll + span } else { 65535 };
    if row16 > last_visible {
        if row16 >= span { row16 - span } else { 0 }
    } else {
        current_scroll
    }
}

/// The text cut to `max` characters, the last one replaced by `…` when cut.
pub open spec fn truncated(value: Seq<char>, max: usize) -> Seq<char> {
    if value.len() <= max {
        value
    } else {
        value.subrange(0, sat_sub(max as int, 1)).push('…')
    }
}

/// Cuts `value` to at most `max` characters, marking a cut with `…`.
pub fn truncate(value: &str, max: usize) -> (s: String)
    ensures
        s@ == truncated(value@, max),
{
    let c = chars_of(value);
    if c.len() <= max {
        return owned(value);
    }
    let keep: usize = if max >= 1 { max - 1 } else { 0 };
    let mut out = String::new();
    let mut i: usize = 0;
    while i < keep
        invariant
            i <= keep < c@.len(),
            out@ == c@.subrange(0, i as int),
        decreases keep - i,
    {
        push_char(&mut out, c[i]);
        i = i + 1;
        assert(out@ =~= c@.subrange(0, i as int));
    }
    push_char(&mut out, '…');
    out
}

/// A name with a one-character prefix for each name, joined by spaces.
pub open spec fn referral_text(only_here: Seq<Seq<char>>, missing: Seq<Seq<char>>) -> Seq<char> {
    crate::text::join_with(
        only_here.map_values(|n: Seq<char>| "+"@ + n) + missing.map_values(|n: Seq<char>| "-"@ + n),
        " "@,
    )
}

/// The referral column: `+name` for each name only this path has, then
/// `-name` for each it lacks, separated by spaces.
pub fn format_referral(only_here: &Vec<String>, missing: &Vec<String>) -> (s: String)
    ensures
        s@ == referral_text(views(only_here@), views(missing@)),
{
    let mut parts: Vec<String> = Vec::new();
    let mut i: usize = 0;
    while i < only_here.len()
        invariant
            i <= only_here.len(),
            views(parts@) == views(only_here@).subrange(0, i as int).map_values(|n: Seq<char>| "+"@ + n),
        decreases only_here.len() - i,
    {
        let mut p = owned("+");
        push_str(&mut p, only_here[i].as_str());
        crate::text::push_string(&mut parts, p);
        i = i + 1;
        assert(views(parts@) =~= views(only_here@).subrange(0, i as int).map_values(|n: Seq<char>| "+"@ + n));
    }
    assert(views(only_here@).subrange(0, only_here@.len() as int) =~= views(only_here@));
    let mut j: usize = 0;
    let ghost first = views(parts@);
    while j < missing.len()
        invariant
            j <= missing.len(),
            views(parts@) == first + views(missing@).subrange(0, j as int).map_values(|n: Seq<char>| "-"@ + n),
        decreases missing.len() - j,
    {
        let mut p = owned("-");
        push_str(&mut p, missing[j].as_str());
        crate::text::push_string(&mut parts, p);
        j = j + 1;
        assert(views(parts@) =~= first + views(missing@).subrange(0, j as int).map_values(|n: Seq<char>| "-"@ + n));
    }
    assert(views(missing@).subrange(0, missing@.len() as int) =~= views(missing@));
    crate::text::join_strings(&parts, " ")
}

/// `a` opens `b`.
pub open spec fn is_prefix(a: Seq<usize>, b: Seq<usize>) -> bool {
    a.len() <= b.len() && b.subrange(0, a.len() as int) == a
}

/// The first row from `i` on whose path lies on the selection's line
/// (an ancestor of it or below it); none when no row does.
pub open spec fn related_row(rows: Seq<PathSummary>, sel: Seq<usize>, i: int) -> Option<int>
    decreases rows.len() - i,
{
    if i < 0 || i >= rows.len() {
        None
    } else if is_prefix(rows[i].path.path@, sel) || is_prefix(sel, rows[i].path.path@) {
        Some(i)
    } else {
        related_row(rows, sel, i + 1)
    }
}

/// The row Compare opens on: the first related row, else the first row.
pub open spec fn opening_row(rows: Seq<PathSummary>, sel: Seq<usize>) -> int {
    match related_row(rows, sel, 0) {
        Some(i) => i,
        None => 0,
    }
}

fn indices_open(a: &Vec<usize>, b: &Vec<usize>) -> (r: bool)
    ensures
        r == is_prefix(a@, b@),
{
    if a.len() > b.len() {
        return false;
    }
    let mut i: usize = 0;
    while i < a.len()
        invariant
            a@.len() <= b@.len(),
            i <= a.len(),
            b@.subrange(0, i as int) == a@.subrange(0, i as int),
        decreases a.len() - i,
    {
        if a[i] != b[i] {
            assert(b@.subrange(0, a@.len() as int)[i as int] != a@[i as int]);
            return false;
        }
        i = i + 1;
        assert(b@.subrange(0, i as int) =~= a@.subrange(0, i as int));
    }
    assert(a@.subrange(0, a@.len() as int) =~= a@);
    true
}

/// The Compare screen: the comparison and the selected row.
#[derive(Debug)]
pub struct CompareScreenModel {
    pub comparison: ForkComparison,
    pub row: usize,
}

impl CompareScreenModel {
    /// Opens Compare on a comparison, at the row of the selected node's
    /// line.
    pub fn from_comparison(comparison: ForkComparison, selection: &NodePath) -> (m: Self)
        ensures
            m.comparison == comparison,
            m.row == opening_row(comparison.paths@, selection.path@),
    {
        let mut i: usize = 0;
        while i < comparison.paths.len()
            invariant
                i <= comparison.paths@.len(),
                related_row(comparison.paths@, selection.path@, 0) == related_row(
                    comparison.paths@,
                    selection.path@,
                    i as int,
                ),
            decreases comparison.paths.len() - i,
        {
            let p = &comparison.paths[i].path.path;
            if indices_open(p, &selection.path) || indices_open(&selection.path, p) {
                return CompareScreenModel { comparison, row: i };
            }
            i = i + 1;
        }
        CompareScreenModel { comparison, row: 0 }
    }

    /// Opens Compare for `selection`, none when there is nothing to compare.
    pub fn from_tree(tree: &TraceNode, selection: &NodePath) -> (r: Option<Self>)
        requires
            all_totals_fit(*tree),
            forall|s: TraceShape| #[trigger] shapes_as(*tree, s) ==> height(s) < usize::MAX,
        ensures
            match r {
                Some(m) => compared_at(*tree, selection.tree, selection.path@, Some(m.comparison))
                    && m.row == opening_row(m.comparison.paths@, selection.path@),
                None => compared_at(*tree, selection.tree, selection.path@, None),
            },
    {
        match comparison_at(tree, selection) {
            Some(c) => Some(Self::from_comparison(c, selection)),
            None => None,
        }
    }

    /// The node of the selected row.
    pub fn selected_path(&self) -> (r: Option<&NodePath>)
        ensures
            self.row < self.comparison.paths@.len() ==> r == Some(&self.comparison.paths@[self.row as int].path),
            self.row >= self.comparison.paths@.len() ==> r is None,
    {
        if self.row < self.comparison.paths.len() {
            Some(&self.comparison.paths[self.row].path)
        } else {
            None
        }
    }

    /// Moves the selection by `delta` rows, stopping at the first and last.
    pub fn move_row(&mut self, delta: isize)
        ensures
            final(self).comparison == old(self).comparison,
            old(self).comparison.paths@.len() == 0 ==> final(self).row == old(self).row,
            old(self).comparison.paths@.len() > 0 ==> final(self).row == clamp_row(
                old(self).row as int + delta as int,
                old(self).comparison.paths@.len() - 1,
            ),
    {
        let n = self.comparison.paths.len();
        if n == 0 {
            return;
        }
        let max = n - 1;
        let row = self.row;
        self.row = step_row(row, delta, max);
    }

    /// The rows.
    pub fn rows(&self) -> (r: &Vec<PathSummary>)
        ensures
            r@ == self.comparison.paths@,
    {
        &self.comparison.paths
    }
}

/// `v` clamped to `0..=max`.
pub open spec fn clamp_row(v: int, max: int) -> int {
    if v < 0 {
        0
    } else if v > max {
        max
    } else {
        v
    }
}

fn step_row(row: usize, delta: isize, max: usize) -> (r: usize)
    ensures
        r == clamp_row(row as int + delta as int, max as int),
{
    if delta < 0 {
        let back: usize = if delta == isize::MIN { (isize::MAX as usize) + 1 } else { (-delta) as usize };
        if back >= row {
            0
        } else if row - back > max {
            max
        } else {
            row - back
        }
    } else {
        let ahead: usize = delta as usize;
        if ahead > max || row > max - ahead {
            max
        } else {
            row + ahead
        }
    }
}

/// A time capped to the `u32` range.
pub open spec fn capped_ms(ms: u64) -> int {
    if ms > u32::MAX {
        u32::MAX as int
    } else {
        ms as int
    }
}

/// The slowest of the hops (0 for none), each capped.
pub open spec fn slowest_hop(hops: Seq<HopTiming>) -> int
    decreases hops.len(),
{
    if hops.len() == 0 {
        0
    } else {
        let rest = slowest_hop(hops.drop_last());
        let t = capped_ms(hops.last().rtt_ms);
        if t > rest { t } else { rest }
    }
}

/// The slowest hop of any path.
pub open spec fn slowest_path_hop(paths: Seq<PathSummary>) -> int
    decreases paths.len(),
{
    if paths.len() == 0 {
        0
    } else {
        let rest = slowest_path_hop(paths.drop_last());
        let t = slowest_hop(paths.last().dns_rtt_per_hop@);
        if t > rest { t } else { rest }
    }
}

fn capped(ms: u64) -> (r: u32)
    ensures
        r == capped_ms(ms),
{
    if ms > 4294967295 {
        4294967295
    } else {
        ms as u32
    }
}

/// The bar scale of the per-hop lines: the slowest hop anywhere in the
/// comparison, at least 1, so hop bars stay comparable across rows.
pub fn hop_scale_ms(comparison: &ForkComparison) -> (r: u32)
    ensures
        r == (if slowest_path_hop(comparison.paths@) > 1 { slowest_path_hop(comparison.paths@) } else { 1 }),
{
    let paths = &comparison.paths;
    let mut best: u32 = 0;
    let mut i: usize = 0;
    while i < paths.len()
        invariant
            i <= paths@.len(),
            best == slowest_path_hop(paths@.subrange(0, i as int)),
        decreases paths.len() - i,
    {
        let hops = &paths[i].dns_rtt_per_hop;
        let mut inner: u32 = 0;
        let mut j: usize = 0;
        while j < hops.len()
            invariant
                j <= hops@.len(),
                inner == slowest_hop(hops@.subrange(0, j as int)),
            decreases hops.len() - j,
        {
            assert(hops@.subrange(0, j + 1).drop_last() =~= hops@.subrange(0, j as int));
            let t = capped(hops[j].rtt_ms);
            if t > inner {
                inner = t;
            }
            j = j + 1;
        }
        assert(hops@.subrange(0, j as int) =~= hops@);
        assert(paths@.subrange(0, i + 1).drop_last() =~= paths@.subrange(0, i as int));
        if inner > best {
            best = inner;
        }
        i = i + 1;
    }
    assert(paths@.subrange(0, i as int) =~= paths@);
    if best > 1 { best } else { 1 }
}

} // verus!
