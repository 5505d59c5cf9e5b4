use delve::explore::compare_columns::{columns_for_rows, ColumnRow, CompareColumns};

fn row(depth: usize, identity_width: usize, failed: bool, rcode_width: usize) -> ColumnRow {
    ColumnRow { depth, marker_width: 2, identity_width, failed, rcode_width }
}

#[test]
fn compare_columns_fit_widest_row() {
    let rows = vec![row(0, 10, false, 7), row(3, 30, false, 8), row(1, 12, true, 0)];
    let columns = columns_for_rows(&rows, 20);
    assert_eq!(columns.tree_column_width, 3 * 2 + 2 + 30);
    assert_eq!(columns.rcode_width, 8);
    assert_eq!(columns.rtt_width, 7);
    assert_eq!(columns.rtt_bar_width, 20);
    assert_eq!(columns.icmp_width, 6);
}

#[test]
fn compare_columns_have_minimums_and_cap_identity() {
    let empty = columns_for_rows(&vec![], 10);
    assert_eq!(empty.tree_column_width, 16);
    assert_eq!(empty.rcode_width, 7);
    let wide = columns_for_rows(&vec![row(0, 500, false, 3)], 10);
    assert_eq!(wide.tree_column_width, 2 + 56);
}

#[test]
fn compare_header_pads_titles() {
    let columns = CompareColumns { tree_column_width: 10, rcode_width: 7, rtt_width: 7, rtt_bar_width: 12, icmp_width: 6 };
    assert_eq!(columns.header(), "identity      rcode      rtt   rtt latency    icmp");
}
