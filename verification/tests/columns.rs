//! The order and the selection of columns.

use quarry::columns::{column_drop_position, select_column, selected_split_column, validated_column_selection, ColumnView};
use quarry::rows::Modifiers;
use quarry::table::{rendered_columns, FitQueue, MAX_RENDERED_COLUMNS};
use std::collections::BTreeSet;

const PLAIN: Modifiers = Modifiers { shift: false, command: false };
const SHIFT: Modifiers = Modifiers { shift: true, command: false };
const COMMAND: Modifiers = Modifiers { shift: false, command: true };

#[test]
fn column_view_hides_reorders_resets_and_keeps_every_shown_column() {
    let mut view = ColumnView::new(40);
    assert_eq!(view.visible, (0..40).collect::<Vec<_>>());

    assert!(view.set_shown(5, false));
    assert!(!view.visible.contains(&5));
    assert_eq!(view.shown_count(), 39);
    assert!(view.move_column(39, 0));
    assert_eq!(&view.order[..3], &[39, 0, 1]);
    assert!(view.move_column(39, 39));
    assert_eq!(view.order, (0..40).collect::<Vec<_>>());
    assert!(view.move_column(0, 39));
    assert_eq!(&view.order[37..], &[38, 39, 0]);
    assert!(view.move_column(0, 0));
    assert_eq!(view.order, (0..40).collect::<Vec<_>>());
    assert!(view.move_column(39, 39));
    assert!(!view.move_column(40, 0));
    assert!(!view.move_column(39, 40));
    assert!(view.move_column(39, 0));

    assert_eq!(column_drop_position(0, 3, 4), 2);
    assert_eq!(column_drop_position(3, 1, 4), 1);
    assert_eq!(column_drop_position(2, 2, 4), 2);
    assert_eq!(column_drop_position(0, 4, 4), 3);

    assert!(view.view(39));
    assert!(view.visible.contains(&39));
    assert_eq!(view.visible.len(), 39);

    for column in 0..40 {
        assert!(view.set_shown(column, false));
    }
    assert!(view.visible.is_empty());
    assert_eq!(view.start, 0);

    view.extend_to(42);
    assert_eq!(&view.order[..3], &[39, 0, 1]);
    assert_eq!(&view.order[39..], &[38, 40, 41]);
    assert_eq!(view.visible, [40, 41]);

    view.reset();
    assert_eq!(view.order, (0..42).collect::<Vec<_>>());
    assert!(view.hidden.iter().all(|hidden| !hidden));
    assert_eq!(view.visible, (0..42).collect::<Vec<_>>());
}

#[test]
fn column_selection_modifiers_match_editor_conventions() {
    let columns = ColumnView::new(6);
    let mut selected = BTreeSet::new();
    let mut anchor = None;

    select_column(&columns, &mut selected, &mut anchor, 2, PLAIN);
    assert_eq!(selected, BTreeSet::from([2]));
    assert_eq!(anchor, Some(2));

    select_column(&columns, &mut selected, &mut anchor, 5, SHIFT);
    assert_eq!(selected, BTreeSet::from([2, 3, 4, 5]));
    assert_eq!(anchor, Some(2));

    select_column(&columns, &mut selected, &mut anchor, 1, PLAIN);
    select_column(&columns, &mut selected, &mut anchor, 4, COMMAND);
    assert_eq!(selected, BTreeSet::from([1, 4]));
    assert_eq!(anchor, Some(4));

    select_column(&columns, &mut selected, &mut anchor, 1, COMMAND);
    assert_eq!(selected, BTreeSet::from([4]));
    select_column(&columns, &mut selected, &mut anchor, 4, COMMAND);
    assert!(selected.is_empty());
    assert_eq!(anchor, None);
}

#[test]
fn a_shift_click_takes_the_shown_columns_between_in_display_order() {
    let mut columns = ColumnView::new(6);
    assert!(columns.move_column(5, 1));
    assert!(columns.set_shown(1, false));
    let mut selected = BTreeSet::new();
    let mut anchor = None;

    select_column(&columns, &mut selected, &mut anchor, 5, PLAIN);
    select_column(&columns, &mut selected, &mut anchor, 3, SHIFT);
    assert_eq!(selected.iter().copied().collect::<Vec<_>>(), vec![2, 3, 5]);
    assert!(!selected.contains(&1));
}

#[test]
fn a_second_command_click_takes_the_column_out_again() {
    let columns = ColumnView::new(4);
    let mut selected = BTreeSet::from([1, 3]);
    let mut anchor = Some(1);
    select_column(&columns, &mut selected, &mut anchor, 2, COMMAND);
    assert_eq!(selected, BTreeSet::from([1, 2, 3]));
    select_column(&columns, &mut selected, &mut anchor, 2, COMMAND);
    assert_eq!(selected, BTreeSet::from([1, 3]));
}

#[test]
fn a_column_moved_away_and_back_restores_the_order() {
    let mut view = ColumnView::new(7);
    assert!(view.move_column(2, 6));
    assert_eq!(view.order, [0, 1, 3, 4, 5, 6, 2]);
    assert!(view.move_column(2, 2));
    assert_eq!(view.order, [0, 1, 2, 3, 4, 5, 6]);
}

#[test]
fn only_one_selected_column_can_be_split() {
    assert_eq!(selected_split_column(&BTreeSet::new()), None);
    assert_eq!(selected_split_column(&BTreeSet::from([7])), Some(7));
    assert_eq!(selected_split_column(&BTreeSet::from([1, 7])), None);
}

#[test]
fn a_selection_for_a_change_is_checked() {
    assert_eq!(
        validated_column_selection(Vec::new(), 3).unwrap_err(),
        "Select at least one numbered column first."
    );
    assert_eq!(
        validated_column_selection(vec![0, 3], 3).unwrap_err(),
        "A selected column is outside this file."
    );
    assert_eq!(
        validated_column_selection(vec![1, 1], 3).unwrap_err(),
        "Select each column only once."
    );
    assert_eq!(validated_column_selection(vec![2, 0], 3).unwrap(), BTreeSet::from([0, 2]));
}

/// The place of the first column of which something is to the right of `x`.
fn first_visible(column_offsets: &[f32], x: f32) -> usize {
    column_offsets.partition_point(|offset| *offset <= x.max(0.0)).saturating_sub(1)
}

#[test]
fn very_wide_column_ranges_stay_bounded_and_reach_the_last_column() {
    let column_width = 80.0;
    let column_spacing = 4.0;
    let row_number_width = 74.0;
    let total_columns = 65_536;
    let mut column_offsets = (0..=total_columns)
        .map(|column| column as f32 * (column_width + column_spacing))
        .collect::<Vec<_>>();
    assert_eq!(
        rendered_columns(total_columns, first_visible(&column_offsets, -row_number_width - column_spacing), None),
        (0, MAX_RENDERED_COLUMNS)
    );

    let content_width = row_number_width + total_columns as f32 * (column_width + column_spacing);
    let last_x = content_width - 1_200.0 - row_number_width - column_spacing;
    let last = rendered_columns(total_columns, first_visible(&column_offsets, last_x), None);
    assert_eq!(last.1 - last.0, MAX_RENDERED_COLUMNS);
    assert_eq!(last.1, total_columns);

    let focused = rendered_columns(total_columns, 0, Some(40_000));
    assert!(focused.0 <= 40_000 && 40_000 < focused.1);
    assert_eq!(rendered_columns(42, 0, None), (0, 42));

    // A wide first column must not make scrolling skip narrow columns after it.
    for offset in &mut column_offsets[1..] {
        *offset += 4_000.0;
    }
    let shifted = first_visible(&column_offsets, 4_500.0 - row_number_width - column_spacing);
    assert_eq!(rendered_columns(total_columns, shifted, None).0, 4);
}

#[test]
fn columns_are_fitted_in_batches_and_hidden_ones_are_passed_over() {
    let mut queue = FitQueue::new();
    assert!(!queue.begin(&vec![0, 1, 2], false));
    queue.request();
    assert!(queue.begin(&vec![0, 1, 2], true));
    let mut fitted = Vec::new();
    loop {
        let batch = queue.next_batch(&vec![false, true, false]);
        if batch.is_empty() {
            break;
        }
        fitted.extend(batch);
    }
    assert_eq!(fitted, vec![0, 2]);
}
