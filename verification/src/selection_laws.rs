//! What clicks, dialogs and the display of work are for: the laws of what they select, propose and
//! show.

use crate::change_laws::{free, mode};
use crate::columns::{column_drop_position, selected_split_column, validated_column_selection};
use crate::dialogs::{ColumnCommand, StructuralDialog, StructuralRequest};
use crate::document::{shown, Document, DocumentView, JobView, SourceInfo};
use crate::edit_laws::{bytes_now, can_rename, name_now, titled};
use crate::format::{DelimiterMode, HeaderMode, OpenOptions};
use crate::jobs::{progress_fraction, Action, ActiveJobDisplay, ActiveJobKind, Fraction, StructuralProgressDisplay};
use crate::literal::CaseSensitivity;
use crate::model::{
    cell_edit_view, header_edit_view, CellEdit, Effect, FilterOperator, FilterQuery, HeaderEdit, JobProgress,
    SortDirection,
};
use crate::rows::{GridSelection, Modifiers, RowSelection};
use crate::session_laws::{has_to_stop, stops};
use crate::table::{focused_column, rendered_columns, value_filter, ColumnMenu, FitQueue, TableEvents, MAX_RENDERED_COLUMNS};
use crate::text::{parsed, trimmed};
use crate::view_laws::{least, most};
use std::collections::BTreeSet;
use vstd::prelude::*;
use vstd::utf8::*;

verus! {

/// A row lies between two rows, both included.
pub open spec fn lies_between(row: u64, one: u64, other: u64) -> bool {
    one <= row <= other || other <= row <= one
}

/// A plain click selects one row, a command click turns one row on or off, and a shift click selects
/// all rows from the anchor to the one that was clicked.
pub proof fn lemma_clicks_select_rows(selection: &mut RowSelection, row: u64, modifiers: Modifiers, other: u64)
    requires
        call_ensures(RowSelection::select, (selection, row, modifiers), ()),
    ensures
        ({
            let before = old(selection)@;
            let after = final(selection)@;
            &&& !modifiers.shift && !modifiers.command ==> (after.rows.contains(other) <==> other == row) && after.anchor
                == Some(row)
            &&& !modifiers.shift && modifiers.command ==> (after.rows.contains(other) <==> (if other == row {
                !before.rows.contains(row)
            } else {
                before.rows.contains(other)
            }))
            &&& modifiers.shift ==> {
                &&& before.anchor matches Some(anchor) ==> (after.rows.contains(other) <==> lies_between(other, anchor, row))
                    && after.anchor == Some(anchor)
                &&& before.anchor is None && before.rows.is_empty() ==> (after.rows.contains(other) <==> other == row)
            }
        }),
{
}

/// Turning a row on or off leaves all others as they are.
pub proof fn lemma_row_is_toggled(selection: &mut RowSelection, row: u64, other: u64)
    requires
        call_ensures(RowSelection::toggle, (selection, row), ()),
    ensures
        final(selection)@.rows.contains(row) <==> !old(selection)@.rows.contains(row),
        other != row ==> (final(selection)@.rows.contains(other) <==> old(selection)@.rows.contains(other)),
{
}

/// A selection tells which rows are in it, how many, and which comes first.
pub proof fn lemma_selection_is_told(
    selection: &RowSelection,
    row: u64,
    found: bool,
    empty: bool,
    first: Option<u64>,
    count: u64,
)
    requires
        call_ensures(RowSelection::contains, (selection, row), found),
        call_ensures(RowSelection::is_empty, (selection,), empty),
        call_ensures(RowSelection::first, (selection,), first),
        call_ensures(RowSelection::count, (selection,), count),
        selection@.rows.len() <= u64::MAX,
    ensures
        found <==> selection@.rows.contains(row),
        found ==> !empty,
        first is None <==> empty,
        count == selection@.rows.len(),
        count == 0 <==> empty,
        found ==> first is Some,
{
    if selection@.rows.len() == 0 {
        assert(selection@.rows =~= Set::empty());
    }
    if selection@.rows.is_empty() {
        assert(selection@.rows =~= Set::empty());
    }
}

/// A selection starts with no row, and has none once it is cleared.
pub proof fn lemma_no_rows(fresh: RowSelection, selection: &mut RowSelection, row: u64)
    requires
        call_ensures(RowSelection::new, (), fresh),
        call_ensures(RowSelection::clear, (selection,), ()),
    ensures
        !fresh@.rows.contains(row),
        fresh@.anchor is None,
        !final(selection)@.rows.contains(row),
        final(selection)@.anchor is None,
{
}

/// A cell is selected alone or with its row.
pub proof fn lemma_selection_of_cells(
    selection: GridSelection,
    row: u64,
    column: usize,
    place: u64,
    whole: bool,
    cell: bool,
)
    requires
        call_ensures(GridSelection::row, (selection,), place),
        call_ensures(GridSelection::selects_row, (selection, row), whole),
        call_ensures(GridSelection::selects_cell, (selection, row, column), cell),
    ensures
        match selection {
            GridSelection::Row { row: selected } => place == selected && (whole <==> row == selected) && (cell <==> row
                == selected),
            GridSelection::Cell { row: selected, column: chosen } => place == selected && !whole && (cell <==> row
                == selected && column == chosen),
        },
{
}

/// Whole rows, or one cell, are selected at a time, and no column with them.
pub proof fn lemma_one_kind_is_selected(
    rows: &mut Document,
    cell: &mut Document,
    chosen: RowSelection,
    active: Option<u64>,
    selection: GridSelection,
)
    requires
        call_ensures(Document::select_rows, (rows, chosen, active), ()),
        call_ensures(Document::select_cell, (cell, selection), ()),
    ensures
        final(rows)@.selection.rows == chosen@,
        final(rows)@.selection.columns == Set::<usize>::empty(),
        final(rows)@.selection.selection is Some <==> active is Some,
        active matches Some(row) ==> final(rows)@.selection.selection == Some(GridSelection::Row { row }),
        final(rows)@.edits == old(rows)@.edits,
        final(rows)@.grid == old(rows)@.grid,
        final(cell)@.selection.selection == Some(selection),
        final(cell)@.selection.columns == Set::<usize>::empty(),
        selection is Cell ==> final(cell)@.selection.rows.rows == Set::<u64>::empty(),
        selection is Row ==> final(cell)@.selection.rows == old(cell)@.selection.rows,
        final(cell)@.edits == old(cell)@.edits,
        final(cell)@.grid == old(cell)@.grid,
{
}

/// What is selected is drawn so.
pub proof fn lemma_selection_is_drawn(document: &Document, row: u64, column: usize, whole: bool, cell: bool)
    requires
        call_ensures(Document::row_is_selected, (document, row), whole),
        call_ensures(Document::cell_is_selected, (document, row, column), cell),
    ensures
        whole ==> cell,
        whole <==> document@.selection.rows.rows.contains(row) || document@.selection.selection == Some(
            GridSelection::Row { row },
        ),
        cell <==> whole || document@.selection.selection == Some(GridSelection::Cell { row, column }),
{
}

/// A click on the number of a column of the document selects columns as it does in a list of them,
/// and deselects rows and cells.
pub proof fn lemma_column_click(
    document: &mut Document,
    selected: &mut BTreeSet<usize>,
    anchor: &mut Option<usize>,
    columns: &crate::columns::ColumnView,
    column: usize,
    modifiers: Modifiers,
)
    requires
        old(document)@.selection.columns == old(selected)@,
        old(document)@.selection.anchor == *old(anchor),
        old(document)@.grid.order == columns.order@,
        old(document)@.grid.hidden == columns.hidden@,
        call_ensures(Document::click_column, (document, column, modifiers), ()),
        call_ensures(crate::columns::select_column, (columns, selected, anchor, column, modifiers), ()),
    ensures
        final(document)@.selection.columns == final(selected)@,
        final(document)@.selection.anchor == *final(anchor),
        final(document)@.selection.selection is None,
        final(document)@.selection.rows.rows == Set::<u64>::empty(),
        final(document)@.grid == old(document)@.grid,
        final(document)@.edits == old(document)@.edits,
{
}

/// The menu of a column is about the selected columns where that column is one of them, and else
/// about that column alone.
pub proof fn lemma_column_menu_opens(document: &mut Document, column: usize, other: usize)
    requires
        call_ensures(Document::open_column_menu, (document, column), ()),
    ensures
        final(document)@.selection.columns.contains(column),
        old(document)@.selection.columns.contains(column) ==> final(document)@ == old(document)@,
        !old(document)@.selection.columns.contains(column) ==> (final(document)@.selection.columns.contains(other)
            <==> other == column),
        final(document)@.edits == old(document)@.edits,
{
}

/// The menu lists the selected columns in file order, and offers what can be done with so many.
pub proof fn lemma_column_menu_lists(document: &Document, menu: ColumnMenu, column: usize)
    requires
        call_ensures(Document::column_menu, (document,), menu),
    ensures
        menu.columns@.contains(column) <==> document@.selection.columns.contains(column),
        forall|i: int, j: int| 0 <= i < j < menu.columns@.len() ==> menu.columns@[i] < menu.columns@[j],
        menu.can_combine <==> menu.columns@.len() >= 2,
        menu.can_move <==> menu.columns@.len() >= 1,
        menu.can_delete <==> 1 <= menu.columns@.len() < document@.grid.total_columns,
        menu.single matches Some(only) ==> (document@.selection.columns.contains(column) <==> column == only),
{
}

/// A click on the number of a row selects rows as it does in a selection of them; the clicked row is
/// active where it is selected.
pub proof fn lemma_row_click(
    document: &Document,
    rows: &mut RowSelection,
    row: u64,
    modifiers: Modifiers,
    clicked: (RowSelection, Option<u64>),
    menu: Option<(RowSelection, Option<u64>)>,
    other: u64,
)
    requires
        old(rows)@ == document@.selection.rows,
        call_ensures(Document::click_row, (document, row, modifiers), clicked),
        call_ensures(RowSelection::select, (rows, row, modifiers), ()),
        call_ensures(Document::open_row_menu, (document, row), menu),
    ensures
        clicked.0@ == final(rows)@,
        final(rows)@.rows.contains(row) ==> clicked.1 == Some(row),
        final(rows)@.rows.is_empty() ==> clicked.1 is None,
        menu is None <==> document@.selection.rows.rows.contains(row),
        menu matches Some((alone, active)) ==> (alone@.rows.contains(other) <==> other == row) && active == Some(row),
{
}

/// Rows can be deleted where some are selected and the document can be changed.
pub proof fn lemma_rows_can_be_deleted(document: &Document, rows: &RowSelection, reason: Option<&'static str>)
    requires
        call_ensures(Document::delete_rows_reason, (document, rows), reason),
    ensures
        reason is None <==> free(document@) && !rows@.rows.is_empty(),
{
}

/// Once the grid is drawn, an edit that was given up is gone, one that was committed is kept, and one
/// that was neither is still open.
#[verifier::rlimit(50)]
pub proof fn lemma_grid_is_drawn(
    document: &mut Document,
    header: Option<HeaderEdit>,
    cell: Option<CellEdit>,
    events: TableEvents,
)
    requires
        old(document)@.edits.header_edit is None,
        old(document)@.edits.cell_edit is None,
        events.begin_header is None,
        !events.begin_cell,
        call_ensures(Document::finish_table, (document, header, cell, events), ()),
    ensures
        ({
            let before = old(document)@;
            let after = final(document)@;
            &&& events.cancel_header ==> after.edits.header_edit is None && after.edits.renames == before.edits.renames
            &&& !events.cancel_header && events.commit_header ==> after.edits.header_edit is None && (header matches Some(
                edit,
            ) ==> (can_rename(before, edit.column) ==> name_now(after, edit.column) == Some(edit.draft@)))
            &&& !events.cancel_header && !events.commit_header ==> after.edits.header_edit == header_edit_view(header)
                && after.edits.renames == before.edits.renames
            &&& events.cancel_cell ==> after.edits.cell_edit is None && after.edits.cells == before.edits.cells
            &&& !events.cancel_cell && events.commit_cell && !before.save.running ==> after.edits.cell_edit is None && (
            cell matches Some(edit) ==> bytes_now(after, edit.row, edit.column, edit.source@) == encode_utf8(
                edit.draft@,
            ))
            &&& !events.cancel_cell && !events.commit_cell ==> after.edits.cell_edit == cell_edit_view(cell)
                && after.edits.cells == before.edits.cells
            &&& after.selection.cell_focus == events.restore_focus
            &&& after.source == before.source
        }),
{
    reveal(crate::table::with_header_tried);
    reveal(crate::table::with_cell_tried);
}

/// The edits that are open are taken out for the drawing and leave the document otherwise as it is.
pub proof fn lemma_edits_are_taken(
    document: &mut Document,
    focused: &mut Document,
    revealed: &mut Document,
    edits: (Option<HeaderEdit>, Option<CellEdit>),
    focus: (Option<(u64, usize)>, Option<usize>),
    cell: Option<(u64, usize)>,
)
    requires
        call_ensures(Document::take_edits, (document,), edits),
        call_ensures(Document::take_focus, (focused,), focus),
        call_ensures(Document::take_reveal_cell, (revealed,), cell),
    ensures
        header_edit_view(edits.0) == old(document)@.edits.header_edit,
        cell_edit_view(edits.1) == old(document)@.edits.cell_edit,
        final(document)@.edits.header_edit is None,
        final(document)@.edits.cell_edit is None,
        final(document)@.edits.renames == old(document)@.edits.renames,
        final(document)@.edits.cells == old(document)@.edits.cells,
        focus.0 == old(focused)@.selection.cell_focus,
        focus.1 == old(focused)@.selection.column_focus,
        final(focused)@.selection.cell_focus is None,
        final(focused)@.selection.column_focus is None,
        final(focused)@.selection.selection == old(focused)@.selection.selection,
        cell == old(revealed)@.selection.reveal_cell,
        final(revealed)@.selection.reveal_cell is None,
        final(revealed)@.selection.selection == old(revealed)@.selection.selection,
{
}

/// The columns that are drawn are columns of the grid, no more than may be, and take in the one in
/// focus, else the first one in view.
pub proof fn lemma_columns_are_drawn(
    total_columns: usize,
    first_visible: usize,
    focused: Option<usize>,
    range: (usize, usize),
)
    requires
        call_ensures(rendered_columns, (total_columns, first_visible, focused), range),
    ensures
        range.0 <= range.1 <= total_columns,
        range.1 - range.0 == least(total_columns as int, MAX_RENDERED_COLUMNS as int),
        focused matches Some(column) ==> (column < total_columns ==> range.0 <= column < range.1),
        focused is None && first_visible < total_columns ==> range.0 <= first_visible < range.1,
{
}

/// What is to be brought into view comes before what is being edited.
pub proof fn lemma_column_in_focus(
    reveal_cell: Option<(u64, usize)>,
    column_focus: Option<usize>,
    cell_focus: Option<(u64, usize)>,
    header: Option<&HeaderEdit>,
    cell: Option<&CellEdit>,
    column: Option<usize>,
)
    requires
        call_ensures(focused_column, (reveal_cell, column_focus, cell_focus, header, cell), column),
    ensures
        reveal_cell matches Some(revealed) ==> column == Some(revealed.1),
        reveal_cell is None && column_focus is Some ==> column == column_focus,
        reveal_cell is None && column_focus is None ==> (cell_focus matches Some(focused) ==> column == Some(focused.1)),
        reveal_cell is None && column_focus is None && cell_focus is None ==> (header matches Some(edit) ==> column == Some(
            edit.column,
        )),
        reveal_cell is None && column_focus is None && cell_focus is None && header is None ==> (cell matches Some(edit)
            ==> column == Some(edit.column)),
        reveal_cell is None && column_focus is None && cell_focus is None && header is None && cell is None ==> column
            is None,
{
}

/// The place of a column is where it is shown.
pub proof fn lemma_column_has_a_place(document: &Document, column: usize, place: Option<usize>)
    requires
        call_ensures(Document::focused_place, (document, Some(column)), place),
    ensures
        place matches Some(at) ==> at < shown(document@).len() && shown(document@)[at as int] == column,
        place is None ==> !shown(document@).contains(column),
{
}

/// A filter by a value has one rule: that value, in that column.
pub proof fn lemma_filter_by_value(
    column: usize,
    operator: FilterOperator,
    value: Vec<u8>,
    case_sensitivity: CaseSensitivity,
    query: FilterQuery,
)
    requires
        call_ensures(value_filter, (column, operator, value, case_sensitivity), query),
    ensures
        query.predicates@.len() == 1,
        query.predicates@[0].column == column,
        query.predicates@[0].operator == operator,
        query.predicates@[0].value@ == value@,
        query.case_sensitivity == case_sensitivity,
{
    assert(query@.predicates.len() == query.predicates@.len());
    assert(query@.predicates[0] == query.predicates@[0]@);
}

/// Columns wait to be fitted once that is asked for, and are taken in batches until none waits; no
/// hidden one is fitted.
pub proof fn lemma_columns_are_fitted(
    begun: &mut FitQueue,
    taken: &mut FitQueue,
    asked: &mut FitQueue,
    visible: &Vec<usize>,
    some_fitted: bool,
    requested: bool,
    hidden: &Vec<bool>,
    batch: Vec<usize>,
)
    requires
        call_ensures(FitQueue::request, (asked,), ()),
        call_ensures(FitQueue::begin, (begun, visible, some_fitted), requested),
        call_ensures(FitQueue::next_batch, (taken, hidden), batch),
    ensures
        final(asked).requested,
        final(asked).waiting@ == old(asked).waiting@,
        requested == old(begun).requested,
        !final(begun).requested,
        !requested ==> final(begun).waiting@ == old(begun).waiting@,
        requested && (some_fitted || visible@.len() > MAX_RENDERED_COLUMNS) ==> final(begun).waiting@ == visible@,
        requested && !some_fitted && visible@.len() <= MAX_RENDERED_COLUMNS ==> final(begun).waiting@.len() == 0,
        final(taken).waiting@.len() == most(0, old(taken).waiting@.len() - MAX_RENDERED_COLUMNS),
        forall|i: int|
            0 <= i < final(taken).waiting@.len() ==> #[trigger] final(taken).waiting@[i] == old(taken).waiting@[i
                + MAX_RENDERED_COLUMNS],
{
}

/// A dialog is about the columns that it was opened for, and proposes to sort upwards and to move to
/// where the first column stands.
pub proof fn lemma_dialogs_are_about_their_columns(
    column: usize,
    columns: Vec<usize>,
    split: StructuralDialog,
    combine: StructuralDialog,
    moving: StructuralDialog,
    sort: StructuralDialog,
)
    requires
        columns@.len() > 0,
        columns@[0] < usize::MAX,
        call_ensures(StructuralDialog::split, (column,), split),
        call_ensures(StructuralDialog::combine, (columns,), combine),
        call_ensures(StructuralDialog::move_columns, (columns,), moving),
        call_ensures(StructuralDialog::sort, (column,), sort),
    ensures
        split.request == StructuralRequest::Split,
        split.columns@.len() == 1 && split.columns@[0] == column,
        split.separator@.len() == 0,
        combine.request == StructuralRequest::Combine,
        combine.columns@ == columns@,
        combine.separator@.len() == 0,
        moving.request == StructuralRequest::Move,
        moving.columns@ == columns@,
        parsed(moving.position@, usize::MAX as nat) == Some((columns@[0] + 1) as nat),
        sort.request == StructuralRequest::Sort,
        sort.columns@.len() == 1 && sort.columns@[0] == column,
        sort.sort_direction == SortDirection::Ascending,
{
    crate::text::lemma_decimal_parses((columns@[0] + 1) as nat, usize::MAX as nat);
}

/// A dialog can be applied where what it needs is filled in.
pub proof fn lemma_dialog_can_be_applied(
    dialog: &StructuralDialog,
    total_columns: usize,
    space_known: bool,
    reason: Option<String>,
)
    requires
        call_ensures(StructuralDialog::disabled_reason, (dialog, total_columns, space_known), reason),
    ensures
        dialog.request == StructuralRequest::Split ==> (reason is None <==> dialog.separator@.len() > 0),
        dialog.request == StructuralRequest::Combine ==> reason is None,
        dialog.request == StructuralRequest::Sort ==> (reason is None <==> space_known),
        dialog.request == StructuralRequest::Move ==> (reason is None <==> 0 < dialog.columns@.len() <= total_columns && (
        parsed(trimmed(dialog.position@), usize::MAX as nat) matches Some(number) && 1 <= number <= total_columns
            - dialog.columns@.len() + 1)),
{
}

/// A column that is dropped ends up before the column that stood at the place of the drop; dropped
/// before or behind itself it stays.
pub proof fn lemma_dropped_column(source: usize, insertion: usize, total_columns: usize, target: usize)
    requires
        source < total_columns,
        insertion <= total_columns,
        call_ensures(column_drop_position, (source, insertion, total_columns), target),
    ensures
        insertion <= source ==> target == insertion,
        insertion > source ==> target + 1 == insertion,
        insertion == source || insertion == source + 1 ==> target == source,
        target < total_columns,
{
}

/// A dropped column asks for that column to be moved to where it was dropped.
pub proof fn lemma_drop_asks_for_a_move(
    document: &Document,
    column: usize,
    insertion: usize,
    command: Option<ColumnCommand>,
)
    requires
        document.wf(),
        insertion <= document@.grid.total_columns,
        call_ensures(Document::dropped_column, (document, column, insertion), command),
    ensures
        command is Some <==> column < document@.grid.total_columns,
        command matches Some(asked) ==> (asked matches ColumnCommand::Move { column: moved, position } && {
            let from = document@.grid.order.index_of(column);
            &&& moved == column
            &&& document@.grid.order[from] == column
            &&& insertion <= from ==> position == insertion
            &&& insertion > from ==> position + 1 == insertion
        }),
{
    if column < document@.grid.total_columns {
        assert(document@.grid.order.contains(column));
    }
}

/// One column is split where exactly one is selected, and columns are checked to be in the file and
/// to be named once.
pub proof fn lemma_selected_columns_are_checked(
    selected: &BTreeSet<usize>,
    only: Option<usize>,
    columns: Vec<usize>,
    total_columns: usize,
    result: Result<BTreeSet<usize>, String>,
    column: usize,
)
    requires
        call_ensures(selected_split_column, (selected,), only),
        call_ensures(validated_column_selection, (columns, total_columns), result),
    ensures
        only matches Some(single) ==> (selected@.contains(column) <==> column == single),
        result matches Ok(set) ==> (set@.contains(column) <==> columns@.contains(column)),
        result is Ok <==> crate::change_laws::names_columns(columns@, total_columns),
{
    if let Ok(set) = result {
        assert(columns@.to_set().contains(column) <==> columns@.contains(column));
    } else if crate::change_laws::names_columns(columns@, total_columns) {
        if exists|i: int| 0 <= i < columns@.len() && columns@[i] >= total_columns {
            let i = choose|i: int| 0 <= i < columns@.len() && columns@[i] >= total_columns;
            assert(columns@[i] < total_columns);
        }
    }
}

/// The option Match case makes letters count as they are.
pub proof fn lemma_match_case(match_case: bool, case_sensitivity: CaseSensitivity)
    requires
        call_ensures(crate::dialogs::case_sensitivity, (match_case,), case_sensitivity),
    ensures
        case_sensitivity == mode(match_case),
        case_sensitivity == CaseSensitivity::Sensitive <==> match_case,
{
}

/// The effect that tells a kind of work to stop.
pub open spec fn stop_of(kind: ActiveJobKind) -> Effect {
    match kind {
        ActiveJobKind::Change => Effect::CancelStructural,
        ActiveJobKind::Save => Effect::CancelSave,
        ActiveJobKind::Export => Effect::CancelExport,
        ActiveJobKind::Filter => Effect::CancelFilter,
        ActiveJobKind::Search => Effect::CancelSearch,
        ActiveJobKind::Index => Effect::CancelIndexing,
    }
}

/// The action that cancels a kind of work tells that kind to stop.
pub proof fn lemma_cancel_goes_to_its_work(document: &Document, kind: ActiveJobKind, action: Action, running: bool)
    requires
        call_ensures(ActiveJobKind::cancel_action, (kind,), action),
        call_ensures(Document::runs, (document, kind), running),
    ensures
        stops(action) == Some(stop_of(kind)),
        running <==> has_to_stop(document@, action),
{
}

/// How urgent a kind of work is to be shown: the lower the sooner.
pub open spec fn rank(kind: ActiveJobKind) -> int {
    match kind {
        ActiveJobKind::Change => 0,
        ActiveJobKind::Save => 1,
        ActiveJobKind::Export => 2,
        ActiveJobKind::Filter => 3,
        ActiveJobKind::Search => 4,
        ActiveJobKind::Index => 5,
    }
}

/// The work that is shown runs, and none that comes before it does; none is shown where none runs.
pub proof fn lemma_work_is_shown(
    document: &Document,
    shown: Option<ActiveJobKind>,
    kind: ActiveJobKind,
    running: bool,
    polled: bool,
)
    requires
        call_ensures(Document::active_job, (document,), shown),
        call_ensures(Document::runs, (document, kind), running),
        call_ensures(Document::work_runs, (document,), polled),
    ensures
        shown is None ==> !running,
        shown matches Some(first) ==> (kind == first ==> running) && (running ==> rank(first) <= rank(kind)),
        running ==> polled,
        polled <==> shown is Some || document@.filter.read is Some || document@.filter.pending is Some,
{
    let active = crate::jobs::active_kinds(document@);
    assert(active[0] == document@.structural.job is Some);
    assert(active[1] == document@.save.running);
    assert(active[2] == document@.export.running);
    assert(active[3] == document@.filter.running);
    assert(active[4] == document@.search.running);
    assert(active[5] == document@.index.running);
    let kinds = crate::jobs::kinds();
    assert(active[rank(kind)] == running);
    if let Some(first) = shown {
        let i = choose|i: int|
            0 <= i < 6 && kinds[i] == first && #[trigger] active[i] && forall|j: int| 0 <= j < i ==> !#[trigger] active[j];
        assert(rank(first) == i);
        if running && rank(kind) < i {
            assert(!active[rank(kind)]);
        }
    }
}

/// What is done of the work is never more than all, grows with what was read, and is all of it once
/// everything was read.
pub proof fn lemma_progress(
    scanned: u64,
    more: u64,
    total: u64,
    done: bool,
    progress: Fraction,
    further: Fraction,
)
    requires
        scanned <= more,
        call_ensures(progress_fraction, (scanned, total, done), progress),
        call_ensures(progress_fraction, (more, total, done), further),
    ensures
        progress.whole > 0,
        progress.whole == further.whole,
        progress.part <= further.part <= further.whole,
        total > 0 ==> progress.whole == total && (scanned <= total ==> progress.part == scanned) && (scanned >= total
            ==> progress.part == progress.whole),
        total == 0 ==> (progress.part == progress.whole <==> done),
{
}

/// Work that is shown can be cancelled once, by its own action.
pub proof fn lemma_shown_work_can_be_cancelled(
    document: &Document,
    kind: ActiveJobKind,
    progress: JobProgress,
    display: ActiveJobDisplay,
)
    requires
        kind == ActiveJobKind::Change ==> document@.structural.job is Some,
        call_ensures(Document::active_job_display, (document, kind, progress), display),
    ensures
        stops(display.cancel_action) == Some(stop_of(kind)),
        display.fraction.part <= display.fraction.whole,
        kind == ActiveJobKind::Change ==> (display.cancel_enabled <==> !document@.structural.cancel_requested),
        kind == ActiveJobKind::Save ==> (display.cancel_enabled <==> !document@.save.cancel_requested && !progress.done),
        kind == ActiveJobKind::Export ==> (display.cancel_enabled <==> !document@.export.cancel_requested
            && !progress.done),
        kind == ActiveJobKind::Filter || kind == ActiveJobKind::Search || kind == ActiveJobKind::Index ==> (
        display.cancel_enabled <==> !progress.cancelled && !progress.done),
{
}

/// A document is opened at its first data row, with its first rows at hand, every column shown in
/// file order, no edit, and nothing that runs.
pub proof fn lemma_document_is_opened(source: SourceInfo, document: Document)
    requires
        call_ensures(Document::prepare, (source,), document),
    ensures
        document@.source == source@,
        document@.grid.data_start == (if source@.has_header { 1 } else { 0int }),
        document@.grid.viewport_start == document@.grid.data_start,
        document@.edits.renames.dom() == Set::<usize>::empty(),
        document@.edits.cells.dom() == Set::<(u64, usize)>::empty(),
        document@.edits.header_edit is None,
        document@.edits.cell_edit is None,
        document@.filter.query is None,
        document@.index.indexed_rows is None,
        document@.working_copy is None,
        !document@.source_changed,
        crate::edit_laws::nothing_runs(document@),
        forall|i: int| 0 <= i < document@.grid.order.len() ==> #[trigger] document@.grid.order[i] == i,
        forall|i: int| 0 <= i < document@.grid.hidden.len() ==> !#[trigger] document@.grid.hidden[i],
        document@.grid.data_start <= source@.first_rows.len() ==> forall|i: int|
            0 <= i < document@.grid.rows.len() ==> #[trigger] document@.grid.rows[i] == source@.first_rows[i
                + document@.grid.data_start],
{
}

/// The file is read again as it is read now.
pub proof fn lemma_options_of_now(document: &Document, options: OpenOptions)
    requires
        call_ensures(Document::current_open_options, (document,), options),
    ensures
        options.delimiter == Some(document@.source.delimiter),
        options.header_mode == HeaderMode::FirstRow <==> document@.source.has_header,
        options.header_mode == HeaderMode::NoHeader <==> !document@.source.has_header,
{
}

/// Each delimiter that can be chosen is the character of its name, and no two are the same.
pub proof fn lemma_delimiters(one: DelimiterMode, other: DelimiterMode, first: Option<u8>, second: Option<u8>)
    requires
        call_ensures(DelimiterMode::delimiter, (one,), first),
        call_ensures(DelimiterMode::delimiter, (other,), second),
    ensures
        first == second <==> one == other,
        first is None <==> one == DelimiterMode::Auto,
        one == DelimiterMode::Comma ==> first == Some(','  as u8),
        one == DelimiterMode::Tab ==> first == Some('\t' as u8),
        one == DelimiterMode::Pipe ==> first == Some('|' as u8),
        one == DelimiterMode::Semicolon ==> first == Some(';' as u8),
{
}

/// The grid shows the names that columns have once its titles are brought up to date.
pub proof fn lemma_titles_are_brought_up_to_date(document: &mut Document)
    requires
        call_ensures(Document::refresh_column_headers, (document,), ()),
    ensures
        titled(final(document)@),
        final(document)@.edits == old(document)@.edits,
        final(document)@.grid.order == old(document)@.grid.order,
        final(document)@.grid.hidden == old(document)@.grid.hidden,
        final(document)@.grid.rows == old(document)@.grid.rows,
{
}

/// The title of a column is the name that is being typed, else the one that it has now, as one line.
pub proof fn lemma_title_of_column(document: &Document, column: usize, name: String, text: &str, line: String)
    requires
        call_ensures(Document::column_name, (document, column), name),
        call_ensures(crate::clipboard::rendered_text, (text,), line),
    ensures
        document@.edits.header_edit matches Some(edit) ==> (edit.column == column && edit.draft == text@ ==> name@
            == line@),
        !(document@.edits.header_edit matches Some(edit) && edit.column == column)
            && document@.edits.renames.dom().contains(column) && document@.edits.renames[column] == text@ ==> name@
            == line@,
{
}

/// Once another header is to be edited, the edits that were open are kept, and the header is open with
/// the name that it then has.
pub proof fn lemma_another_header_is_begun(
    document: &mut Document,
    header: Option<HeaderEdit>,
    column: usize,
    events: TableEvents,
)
    requires
        old(document)@.edits.header_edit is None,
        old(document)@.edits.cell_edit is None,
        events.begin_header == Some(column),
        !events.cancel_header && !events.commit_header && !events.cancel_cell && !events.commit_cell,
        can_rename(old(document)@, column),
        call_ensures(Document::finish_table, (document, header, None, events), ()),
    ensures
        ({
            let before = old(document)@;
            let after = final(document)@;
            &&& after.edits.header_edit matches Some(open) && open.column == column && Some(open.draft) == name_now(
                after,
                column,
            )
            &&& header matches Some(edit) ==> (can_rename(before, edit.column) ==> name_now(after, edit.column) == Some(
                edit.draft@,
            ))
            &&& after.edits.cells == before.edits.cells
        }),
{
    reveal(crate::table::with_header_tried);
    reveal(crate::table::with_cell_tried);
}

/// The rows of a selection stay the same where ranges that touch are joined, and then no two touch.
pub proof fn lemma_ranges_are_joined(selection: &mut RowSelection, row: u64)
    requires
        crate::rows::ascending(old(selection).ranges@),
        call_ensures(RowSelection::merge_adjacent, (selection,), ()),
    ensures
        final(selection)@.rows.contains(row) <==> old(selection)@.rows.contains(row),
        final(selection)@.anchor == old(selection)@.anchor,
        forall|i: int, j: int|
            0 <= i < j < final(selection).ranges@.len() ==> (#[trigger] final(selection).ranges@[i])@.end + 1 < (
            #[trigger] final(selection).ranges@[j])@.start,
{
}

/// The first kind of work that is active is the one that comes first in the list of kinds.
pub proof fn lemma_first_work(active: [bool; 6], first: Option<ActiveJobKind>, kind: ActiveJobKind)
    requires
        call_ensures(crate::jobs::first_active_job, (active,), first),
    ensures
        first matches Some(found) ==> active@[rank(found)] && (active@[rank(kind)] ==> rank(found) <= rank(kind)),
{
    let kinds = crate::jobs::kinds();
    assert(kinds[0] == ActiveJobKind::Change);
    assert(kinds[1] == ActiveJobKind::Save);
    assert(kinds[2] == ActiveJobKind::Export);
    assert(kinds[3] == ActiveJobKind::Filter);
    assert(kinds[4] == ActiveJobKind::Search);
    assert(kinds[5] == ActiveJobKind::Index);
    if let Some(found) = first {
        let i = choose|i: int|
            0 <= i < 6 && kinds[i] == found && #[trigger] active@[i] && forall|j: int|
                0 <= j < i ==> !#[trigger] active@[j];
        assert(rank(found) == i);
        if active@[rank(kind)] && rank(kind) < i {
            assert(!active@[rank(kind)]);
        }
    }
}

/// A sort that has read everything is shown as merging, nine tenths done, until it is over; other
/// work is shown as far as it has read.
pub proof fn lemma_progress_of_changes(
    document: &Document,
    progress: JobProgress,
    display: Option<StructuralProgressDisplay>,
    merge: Option<StructuralProgressDisplay>,
    fraction: Fraction,
)
    requires
        call_ensures(Document::structural_progress, (document, progress), display),
        call_ensures(
            crate::jobs::sort_merge_progress,
            (progress.bytes_scanned, progress.total_bytes, progress.done),
            merge,
        ),
        call_ensures(
            progress_fraction,
            (progress.bytes_scanned, progress.total_bytes, progress.done),
            fraction,
        ),
    ensures
        display is Some <==> document@.structural.job is Some,
        merge is Some <==> !progress.done && (progress.total_bytes == 0 || progress.bytes_scanned
            >= progress.total_bytes),
        merge matches Some(shown) ==> shown.fraction.part == 9 && shown.fraction.whole == 10 && shown.animate,
        document@.structural.job matches Some(JobView::Changing { kind, .. }) ==> (display matches Some(shown) && (kind is Sort
            && merge is Some ==> shown.fraction.part == 9 && shown.fraction.whole == 10) && (!(kind is Sort) || merge
            is None ==> shown.fraction == fraction)),
        document@.structural.job matches Some(JobView::AnalyzingSplit { .. }) ==> (display matches Some(shown)
            && shown.fraction == fraction),
{
}

/// A column that was not renamed is called as the file calls it, and where the file has no name for it
/// by its number, counted from one.
pub proof fn lemma_name_from_the_file(document: &Document, column: usize, name: String, header: Option<String>)
    requires
        document@.edits.header_edit is None,
        !document@.edits.renames.dom().contains(column),
        call_ensures(Document::column_name, (document, column), name),
        call_ensures(SourceInfo::header_name, (&document.source, column), header),
    ensures
        ({
            let named = document@.source.has_header && document@.source.first_rows.len() > 0 && column
                < document@.source.first_rows[0].len();
            &&& named ==> name@ == crate::document::line(
                crate::text::lossy_text(document@.source.first_rows[0][column as int]),
            )
            &&& !named ==> name@ == "Column "@ + crate::text::decimal((column + 1) as nat)
            &&& header is Some <==> named && valid_utf8(document@.source.first_rows[0][column as int])
            &&& header matches Some(text) ==> text@ == decode_utf8(document@.source.first_rows[0][column as int])
        }),
{
}

/// The column dialog lists the columns that go with what was typed, in display order, and all of them
/// where nothing was typed.
pub proof fn lemma_columns_are_searched(document: &Document, search: &str, places: Vec<usize>, place: usize)
    requires
        document.wf(),
        call_ensures(Document::managed_positions, (document, search), places),
    ensures
        places@.contains(place) <==> place < document@.grid.order.len() && crate::dialogs::goes_with(
            document@,
            document@.grid.order[place as int],
            search@,
        ),
        forall|i: int, j: int| 0 <= i < j < places@.len() ==> places@[i] < places@[j],
        crate::text::lowercase(trimmed(search@)).len() == 0 ==> (places@.contains(place) <==> place
            < document@.grid.total_columns),
{
    lemma_places(document@, search@, document@.grid.order.len() as int);
}

proof fn lemma_places(document: DocumentView, search: Seq<char>, count: int)
    requires
        0 <= count <= usize::MAX + 1,
    ensures
        ({
            let places = crate::dialogs::matching_places(document, search, count);
            &&& forall|place: usize| #[trigger]
                places.contains(place) <==> place < count && crate::dialogs::goes_with(
                    document,
                    document.grid.order[place as int],
                    search,
                )
            &&& forall|i: int, j: int| 0 <= i < j < places.len() ==> places[i] < places[j]
        }),
    decreases count,
{
    let places = crate::dialogs::matching_places(document, search, count);
    if count > 0 {
        lemma_places(document, search, count - 1);
        let before = crate::dialogs::matching_places(document, search, count - 1);
        let last = (count - 1) as usize;
        assert forall|i: int, j: int| 0 <= i < j < places.len() implies places[i] < places[j] by {
            if j == before.len() {
                assert(before.contains(before[i]));
            }
        }
        assert forall|place: usize| #[trigger] places.contains(place) <==> place < count && crate::dialogs::goes_with(
            document,
            document.grid.order[place as int],
            search,
        ) by {
            if places.contains(place) {
                let i = choose|i: int| 0 <= i < places.len() && places[i] == place;
                if i < before.len() {
                    assert(before[i] == place);
                    assert(before.contains(place));
                }
            }
            if place < count && crate::dialogs::goes_with(document, document.grid.order[place as int], search) {
                if place < count - 1 {
                    assert(before.contains(place));
                    let i = choose|i: int| 0 <= i < before.len() && before[i] == place;
                    assert(places[i] == place);
                } else {
                    assert(places[before.len() as int] == place);
                }
            }
        }
    }
}

} // verus!
