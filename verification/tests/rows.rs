//! The selection of rows.

use quarry::rows::{copied_ranges, GridSelection, Modifiers, RowSelection};

const PLAIN: Modifiers = Modifiers { shift: false, command: false };
const SHIFT: Modifiers = Modifiers { shift: true, command: false };
const COMMAND: Modifiers = Modifiers { shift: false, command: true };

#[test]
fn row_selection_modifiers_are_compact_and_match_editor_conventions() {
    let mut selected = RowSelection::default();

    selected.select(2, PLAIN);
    assert_eq!(selected.ranges, vec![2..=2]);
    assert_eq!(selected.anchor, Some(2));

    selected.select(100_000_000, SHIFT);
    assert_eq!(selected.ranges, vec![2..=100_000_000]);
    assert_eq!(selected.count(), 99_999_999);
    assert_eq!(selected.ranges.len(), 1);
    assert_eq!(selected.anchor, Some(2));

    selected.select(10, PLAIN);
    selected.select(20, COMMAND);
    assert_eq!(selected.ranges, vec![10..=10, 20..=20]);
    assert_eq!(selected.anchor, Some(20));

    selected.select(10, COMMAND);
    assert_eq!(selected.ranges, vec![20..=20]);
    selected.select(20, COMMAND);
    assert!(selected.is_empty());
    assert_eq!(selected.anchor, None);
}

#[test]
fn rows_that_touch_make_one_range() {
    let mut selected = RowSelection::new();
    selected.toggle(5);
    selected.toggle(7);
    assert_eq!(selected.ranges, vec![5..=5, 7..=7]);
    selected.toggle(6);
    assert_eq!(selected.ranges, vec![5..=7]);
    assert_eq!(selected.count(), 3);
    assert_eq!(selected.first(), Some(5));
    assert!(selected.contains(6) && !selected.contains(8));
}

#[test]
fn a_row_inside_a_range_is_taken_out_and_put_back() {
    let mut selected = RowSelection::new();
    selected.select(1, PLAIN);
    selected.select(9, SHIFT);
    selected.toggle(4);
    assert_eq!(selected.ranges, vec![1..=3, 5..=9]);
    selected.toggle(4);
    assert_eq!(selected.ranges, vec![1..=9]);
    selected.toggle(1);
    selected.toggle(9);
    assert_eq!(selected.ranges, vec![2..=8]);
}

#[test]
fn the_whole_range_of_rows_is_counted() {
    let mut selected = RowSelection::new();
    selected.select(0, PLAIN);
    selected.select(u64::MAX, SHIFT);
    assert_eq!(selected.ranges, vec![0..=u64::MAX]);
    assert_eq!(selected.count(), u64::MAX);
    selected.clear();
    assert!(selected.is_empty());
    assert_eq!(selected.first(), None);
}

#[test]
fn a_shift_click_may_go_up() {
    let mut selected = RowSelection::new();
    selected.select(9, PLAIN);
    selected.select(4, SHIFT);
    assert_eq!(selected.ranges, vec![4..=9]);
    assert_eq!(selected.anchor, Some(9));
}

#[test]
fn copies_hold_the_same_ranges() {
    let ranges = vec![1..=2, 8..=8];
    assert_eq!(copied_ranges(&ranges), ranges);
}

#[test]
fn a_selected_row_selects_its_cells() {
    let row = GridSelection::Row { row: 3 };
    let cell = GridSelection::Cell { row: 3, column: 1 };
    assert_eq!((row.row(), cell.row()), (3, 3));
    assert!(row.selects_row(3) && !cell.selects_row(3));
    assert!(cell.selects_cell(3, 1) && !cell.selects_cell(3, 2));
}
