//! Column widths of the compare screen's hop table, and its header.
//!
//! Each visible row contributes the width of its tree column (indent,
//! expand marker and hop identity) and of its response code; the table is
//! as wide as its widest row, with fixed columns for the RTT, the latency
//! bar and the ICMP time.

use vstd::prelude::*;

use super::hop_identity::{
    display_width, pad_left_display, pad_right_display, spaces, str_display_width,
    MAX_IDENTITY_COLUMN_WIDTH, MIN_IDENTITY_COLUMN_WIDTH,
};

verus! {

/// Columns of indentation per tree level.
pub const INDENT_WIDTH: usize = 2;

/// The narrowest response-code column.
pub const MIN_RCODE_WIDTH: usize = 7;

/// The widths of the compare table's columns.
#[derive(Debug, Clone, Copy, PartialEq, Eq, Structural)]
pub struct CompareColumns {
    /// Indent, tree marker and identity, left-aligned.
    pub tree_column_width: usize,
    pub rcode_width: usize,
    pub rtt_width: usize,
    pub rtt_bar_width: usize,
    pub icmp_width: usize,
}

/// What one visible row needs of the table: its depth, the display widths
/// of its marker and of its hop identity (already cut to the column's
/// maximum by the caller's formatting), and whether its query failed
/// (shown as `FAILED`) or else the width of its response code.
#[derive(Debug, Clone, Copy, PartialEq, Eq, Structural)]
pub struct ColumnRow {
    pub depth: usize,
    pub marker_width: usize,
    pub identity_width: usize,
    pub failed: bool,
    pub rcode_width: usize,
}

/// The identity's share of the tree column, at most the column maximum.
pub open spec fn capped_identity(r: ColumnRow) -> int {
    if r.identity_width <= MAX_IDENTITY_COLUMN_WIDTH {
        r.identity_width as int
    } else {
        MAX_IDENTITY_COLUMN_WIDTH as int
    }
}

/// The tree-column width of a row.
pub open spec fn row_tree_width(r: ColumnRow) -> int {
    r.depth * INDENT_WIDTH + r.marker_width + capped_identity(r)
}

/// The response-code width of a row.
pub open spec fn row_rcode_width(r: ColumnRow) -> int {
    if r.failed {
        str_display_width("FAILED"@) as int
    } else {
        r.rcode_width as int
    }
}

pub open spec fn max_int(a: int, b: int) -> int {
    if a >= b {
        a
    } else {
        b
    }
}

/// The widest tree column among the rows, starting from the header's.
pub open spec fn widest_tree(rows: Seq<ColumnRow>, start: int) -> int
    decreases rows.len(),
{
    if rows.len() == 0 {
        start
    } else {
        max_int(widest_tree(rows.drop_last(), start), row_tree_width(rows.last()))
    }
}

/// The widest response code among the rows, at least the minimum.
pub open spec fn widest_rcode(rows: Seq<ColumnRow>) -> int
    decreases rows.len(),
{
    if rows.len() == 0 {
        MIN_RCODE_WIDTH as int
    } else {
        max_int(widest_rcode(rows.drop_last()), row_rcode_width(rows.last()))
    }
}

/// Whether every row's tree-column width fits in a `usize`.
pub open spec fn rows_fit(rows: Seq<ColumnRow>) -> bool {
    forall|i: int| 0 <= i < rows.len() ==> #[trigger] row_tree_width(rows[i]) <= usize::MAX
}

/// The widest tree column (from the `identity` header up) and the widest
/// response code (from the minimum up) among the rows.
fn row_widths(rows: &Vec<ColumnRow>) -> (r: (usize, usize))
    requires
        rows_fit(rows@),
    ensures
        r.0 == widest_tree(rows@, str_display_width("identity"@) as int),
        r.1 == widest_rcode(rows@),
{
    let header = display_width("identity");
    let failed_width = display_width("FAILED");
    let mut tree_width = header;
    let mut rcode_width = MIN_RCODE_WIDTH;
    let mut i: usize = 0;
    while i < rows.len()
        invariant
            i <= rows@.len(),
            rows_fit(rows@),
            header == str_display_width("identity"@),
            failed_width == str_display_width("FAILED"@),
            tree_width == widest_tree(rows@.subrange(0, i as int), header as int),
            rcode_width == widest_rcode(rows@.subrange(0, i as int)),
        decreases rows@.len() - i,
    {
        let r = rows[i];
        assert(rows@.subrange(0, i + 1).drop_last() =~= rows@.subrange(0, i as int));
        assert(row_tree_width(rows@[i as int]) <= usize::MAX);
        let identity = if r.identity_width <= MAX_IDENTITY_COLUMN_WIDTH {
            r.identity_width
        } else {
            MAX_IDENTITY_COLUMN_WIDTH
        };
        let row_width = r.depth * INDENT_WIDTH + r.marker_width + identity;
        if row_width > tree_width {
            tree_width = row_width;
        }
        let code = if r.failed {
            failed_width
        } else {
            r.rcode_width
        };
        if code > rcode_width {
            rcode_width = code;
        }
        i = i + 1;
    }
    assert(rows@.subrange(0, rows@.len() as int) =~= rows@);
    (tree_width, rcode_width)
}

/// The tree column's width: the widest row or the `identity` header, and
/// at least the identity minimum.
pub open spec fn tree_column_of(rows: Seq<ColumnRow>) -> int {
    max_int(widest_tree(rows, str_display_width("identity"@) as int), MIN_IDENTITY_COLUMN_WIDTH as int)
}

/// The columns for the visible rows and a latency bar of `rtt_bar_width`:
/// the tree column as wide as the widest row or the `identity` header, and
/// at least the identity minimum; the response code as wide as the widest
/// code (or `FAILED`), at least seven; fixed RTT and ICMP columns.
pub fn columns_for_rows(rows: &Vec<ColumnRow>, rtt_bar_width: usize) -> (c: CompareColumns)
    requires
        rows_fit(rows@),
    ensures
        c.tree_column_width == tree_column_of(rows@),
        c.rcode_width == widest_rcode(rows@),
        c.rtt_width == 7,
        c.rtt_bar_width == rtt_bar_width,
        c.icmp_width == 6,
{
    let (tree_width, rcode_width) = row_widths(rows);
    CompareColumns {
        tree_column_width: if tree_width >= MIN_IDENTITY_COLUMN_WIDTH {
            tree_width
        } else {
            MIN_IDENTITY_COLUMN_WIDTH
        },
        rcode_width,
        rtt_width: 7,
        rtt_bar_width,
        icmp_width: 6,
    }
}

/// The text `text` left-aligned in `width` columns.
pub open spec fn padded_right(text: Seq<char>, width: usize) -> Seq<char> {
    if str_display_width(text) >= width {
        text
    } else {
        text + spaces((width - str_display_width(text)) as nat)
    }
}

/// The text `text` right-aligned in `width` columns.
pub open spec fn padded_left(text: Seq<char>, width: usize) -> Seq<char> {
    if str_display_width(text) >= width {
        text
    } else {
        spaces((width - str_display_width(text)) as nat) + text
    }
}

/// The table's header row: `identity` on the left, the other titles
/// right-aligned, two spaces between columns.
pub open spec fn header_text(c: CompareColumns) -> Seq<char> {
    padded_right("identity"@, c.tree_column_width) + "  "@ + padded_left("rcode"@, c.rcode_width)
        + "  "@ + padded_left("rtt"@, c.rtt_width) + "  "@ + padded_left(
        "rtt latency"@,
        c.rtt_bar_width,
    ) + "  "@ + padded_left("icmp"@, c.icmp_width)
}

impl CompareColumns {
    /// The header row of the table.
    pub fn header(self) -> (s: String)
        ensures
            s@ == header_text(self),
    {
        let mut s = pad_right_display("identity", self.tree_column_width);
        s.append("  ");
        s.append(pad_left_display("rcode", self.rcode_width).as_str());
        s.append("  ");
        s.append(pad_left_display("rtt", self.rtt_width).as_str());
        s.append("  ");
        s.append(pad_left_display("rtt latency", self.rtt_bar_width).as_str());
        s.append("  ");
        s.append(pad_left_display("icmp", self.icmp_width).as_str());
        s
    }
}

} // verus!
