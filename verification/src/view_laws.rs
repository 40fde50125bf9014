//! What the grid is for: the laws of the rows, the columns and the matches that it shows.

use crate::browsing::{at_rest, lemma_rest};
use crate::columns::{shown_columns, ColumnView};
use crate::document::{Document, DocumentView};
use crate::edit_laws::titled;
use crate::edits::{committed, lemma_commit_frame};
use crate::filter::{match_navigation, match_window, rule_error, rules_error, scheduled};
use crate::grid::{navigation, with_rows, without_hidden, GridStep, ReadPurpose, RowRead, RowSource};
use crate::model::{
    rows_cells, Effect, FilterOperator, FilterProgress, FilterQuery, FilterReadWindow, IndexProgress, Row, SearchMatch,
};
use crate::rows::{GridSelection, Modifiers};
use crate::text::decimal;
use std::collections::BTreeSet;
use vstd::prelude::*;

verus! {

/// The number of rows of the file that are known: those of the index, or those that were scanned so
/// far, and at least the first rows.
pub open spec fn rows_known(document: DocumentView) -> int {
    let counted = match document.index.indexed_rows {
        Some(rows) => rows as int,
        None => document.index.progress.rows_scanned as int,
    };
    if document.source.first_rows.len() > counted {
        document.source.first_rows.len() as int
    } else {
        counted
    }
}

/// The larger of two numbers.
pub open spec fn most(one: int, other: int) -> int {
    if one >= other {
        one
    } else {
        other
    }
}

/// The smaller of two numbers.
pub open spec fn least(one: int, other: int) -> int {
    if one <= other {
        one
    } else {
        other
    }
}

/// The row at the top of the page that shows `requested`: that row itself, unless the page would
/// reach beyond the last row.
pub open spec fn top_for(document: DocumentView, requested: u64) -> int {
    let data_start = document.grid.data_start as int;
    let last = most(data_start, rows_known(document) - document.grid.visible_rows);
    least(most(requested as int, data_start), last)
}

/// The page that starts at a row, as far as there are rows for it, lies between two rows.
pub open spec fn lies_between(document: DocumentView, top: int, start: int, end: int) -> bool {
    start <= top && least(rows_known(document), top + document.grid.visible_rows) <= end
}

/// The contents of a document, whatever is in view of them.
pub open spec fn same_file(before: DocumentView, after: DocumentView) -> bool {
    &&& after.source == before.source
    &&& after.edits == before.edits
    &&& after.working_copy == before.working_copy
    &&& after.index == before.index
    &&& after.save == before.save
    &&& after.export == before.export
    &&& after.structural == before.structural
    &&& after.source_changed == before.source_changed
    &&& after.grid.data_start == before.grid.data_start
    &&& after.grid.visible_rows == before.grid.visible_rows
}

proof fn lemma_navigation(document: DocumentView, requested: u64)
    requires
        crate::document::sound(document),
        at_rest(document),
    ensures
        ({
            let (after, outcome) = navigation(document, requested, ReadPurpose::Viewport);
            let wanted = most(requested as int, document.grid.data_start as int);
            let top = top_for(document, requested);
            &&& wanted >= rows_known(document) ==> outcome is Err
            &&& wanted < rows_known(document) && (document.index.indexed_rows is Some || document.index.running)
                ==> outcome is Ok
            &&& outcome is Err ==> after == document
            &&& same_file(document, after)
            &&& after.filter == document.filter
            &&& match outcome {
                Ok(GridStep::Read(read)) => after == document && read.viewport_start == top && read.purpose
                    == ReadPurpose::Viewport,
                Ok(GridStep::ReadMatches(_)) => false,
                Ok(_) => after.grid.viewport_start == top,
                Err(_) => true,
            }
        }),
{
    lemma_rest(document);
    reveal(without_hidden);
    reveal(with_rows);
}

proof fn lemma_effects_stay(document: DocumentView, requested: u64)
    requires
        at_rest(document),
    ensures
        navigation(document, requested, ReadPurpose::Viewport).0.effects == document.effects,
{
    lemma_rest(document);
    reveal(without_hidden);
    reveal(with_rows);
}

proof fn lemma_scheduled(document: DocumentView, start: u64)
    ensures
        ({
            let (after, outcome) = scheduled(document, start);
            &&& after.edits == document.edits
            &&& after.source == document.source
            &&& after.grid == document.grid
            &&& after.search == document.search
            &&& after.index == document.index
            &&& after.filter.query == document.filter.query
            &&& after.filter.progress == document.filter.progress
            &&& after.filter.running == document.filter.running
            &&& after.filter.indexed_matches == document.filter.indexed_matches
            &&& after.filter.viewport_start == document.filter.viewport_start
            &&& outcome is Err ==> document.filter.indexed_matches is None && !document.filter.running
            &&& outcome matches Ok(Some(window)) ==> match_window(document, start) == Some(window)
        }),
{
    reveal(scheduled);
}

proof fn lemma_match_navigation(document: DocumentView, requested: u64)
    requires
        document.filter.query is Some,
    ensures
        ({
            let (after, outcome) = match_navigation(document, requested);
            let start = least(requested as int, most(0, rows_shown(document) - document.grid.visible_rows));
            &&& after.edits == document.edits
            &&& after.source == document.source
            &&& after.grid == document.grid
            &&& after.index == document.index
            &&& after.filter.query == document.filter.query
            &&& after.filter.progress == document.filter.progress
            &&& after.filter.running == document.filter.running
            &&& after.filter.indexed_matches == document.filter.indexed_matches
            &&& match outcome {
                Ok(GridStep::ReadMatches(read)) => rows_shown(document) > 0 && (read.viewport_start matches Some(top)
                    && top == start) && match_window(document, start as u64) == Some(read.window),
                Ok(GridStep::Read(_)) => false,
                Ok(_) => after.filter.viewport_start == start,
                Err(_) => rows_shown(document) > 0 && document.filter.indexed_matches is None
                    && !document.filter.running,
            }
        }),
{
    reveal(without_hidden);
    let start = least(requested as int, most(0, rows_shown(document) - document.grid.visible_rows));
    lemma_scheduled(document, start as u64);
}

/// Moving the grid to a row of the file shows a page with that row, or asks for its rows to be read;
/// a row that is not known is refused.
#[verifier::spinoff_prover]
#[verifier::rlimit(40)]
pub proof fn lemma_row_comes_into_view(document: &mut Document, requested: u64, result: Result<GridStep, String>)
    requires
        old(document).wf(),
        at_rest(old(document)@),
        call_ensures(Document::navigate, (document, requested), result),
    ensures
        ({
            let before = old(document)@;
            let after = final(document)@;
            let wanted = most(requested as int, before.grid.data_start as int);
            let top = top_for(before, requested);
            &&& wanted >= rows_known(before) ==> result is Err && after == before
            &&& wanted < rows_known(before) && (before.index.indexed_rows is Some || before.index.running) ==> result is Ok
            &&& result is Err ==> after == before
            &&& wanted < rows_known(before) ==> top <= wanted < top + before.grid.visible_rows
            &&& same_file(before, after)
            &&& after.filter == before.filter
            &&& match result {
                Ok(GridStep::Read(read)) => {
                    &&& after == before
                    &&& read.viewport_start == top
                    &&& read.purpose == ReadPurpose::Viewport
                    &&& read.source == RowSource::Index <==> before.index.indexed_rows is Some
                    &&& before.grid.data_start <= read.start
                    &&& before.grid.visible_rows < usize::MAX / 2 ==> lies_between(
                        before,
                        top,
                        read.start as int,
                        read.start + read.count,
                    )
                },
                Ok(GridStep::ReadMatches(_)) => false,
                Ok(GridStep::Covered) => after.grid.viewport_start == top && after.grid.rows == before.grid.rows
                    && after.grid.buffer_start == before.grid.buffer_start,
                Ok(GridStep::Filled) => after.grid.viewport_start == top && after.grid.buffer_start
                    + after.grid.rows.len() <= before.source.first_rows.len() && forall|i: int|
                    0 <= i < after.grid.rows.len() ==> #[trigger] after.grid.rows[i]
                        == before.source.first_rows[after.grid.buffer_start + i],
                Err(_) => true,
            }
        }),
{
    lemma_rest(old(document)@);
    reveal(without_hidden);
    reveal(with_rows);
}

/// Rows that were read are at hand under their places in the file, and the page that they were read
/// for is in view.
pub proof fn lemma_read_rows_are_shown(document: &mut Document, read: RowRead, rows: Vec<Row>)
    requires
        at_rest(old(document)@),
        call_ensures(Document::finish_row_read, (document, read, rows), ()),
    ensures
        ({
            let before = old(document)@;
            let after = final(document)@;
            &&& after.grid.buffer_start == read.start
            &&& after.grid.rows == rows_cells(rows@)
            &&& after.grid.viewport_start == if read.purpose == ReadPurpose::Buffer {
                before.grid.viewport_start
            } else {
                read.viewport_start
            }
            &&& read.purpose matches ReadPurpose::Match(found) ==> after.search.last_match == Some(found)
                && after.selection.selection == Some(GridSelection::Cell { row: found.row, column: found.column })
            &&& !(read.purpose is Match) ==> after.search == before.search
            &&& same_file(before, after)
        }),
{
    reveal(without_hidden);
    reveal(with_rows);
    let filled = with_rows(old(document)@, read.start, rows_cells(rows@));
    lemma_rest(crate::grid::at_row(filled, read.viewport_start));
}

/// The rows on the page are those of the buffer, from the row at the top of the page on, each under
/// its place in the file.
pub proof fn lemma_page_shows_rows(
    document: &Document,
    count: usize,
    index: usize,
    row: Option<(u64, &Vec<Vec<u8>>)>,
    top: u64,
)
    requires
        document@.filter.query is None,
        document@.grid.buffer_start <= document@.grid.viewport_start <= document@.grid.buffer_start
            + document@.grid.rows.len(),
        document@.grid.buffer_start + document@.grid.rows.len() <= u64::MAX,
        call_ensures(Document::visible_row_count, (document,), count),
        call_ensures(Document::visible_row, (document, index), row),
        call_ensures(Document::current_source_row, (document,), top),
    ensures
        count == least(
            document@.grid.visible_rows as int,
            document@.grid.buffer_start + document@.grid.rows.len() - document@.grid.viewport_start,
        ),
        row is Some <==> index < count,
        row matches Some((place, cells)) ==> place == document@.grid.viewport_start + index
            && crate::model::cells_of(cells@) == document@.grid.rows[place - document@.grid.buffer_start],
        top == document@.grid.viewport_start,
{
}

/// With a filter the rows on the page are the matches at hand, from the match at the top of the page
/// on.
pub proof fn lemma_page_shows_matches(
    document: &Document,
    count: usize,
    index: usize,
    row: Option<(u64, &Vec<Vec<u8>>)>,
)
    requires
        document@.filter.query is Some,
        document@.filter.buffer_start <= document@.filter.viewport_start <= document@.filter.buffer_start
            + document@.filter.rows.len(),
        call_ensures(Document::visible_row_count, (document,), count),
        call_ensures(Document::visible_row, (document, index), row),
    ensures
        count == least(
            document@.grid.visible_rows as int,
            document@.filter.buffer_start + document@.filter.rows.len() - document@.filter.viewport_start,
        ),
        row is Some <==> index < count,
        row matches Some((place, cells)) ==> {
            let found = document@.filter.rows[document@.filter.viewport_start + index - document@.filter.buffer_start];
            place == found.row && crate::model::cells_of(cells@) == found.cells
        },
{
}

/// A cell that is at hand is found under its row and column; an edit comes before what the file
/// holds.
pub proof fn lemma_cells_are_found(
    document: &Document,
    row: u64,
    column: usize,
    source: Option<&Vec<u8>>,
    now: Option<&Vec<u8>>,
)
    requires
        call_ensures(Document::source_cell, (document, row, column), source),
        call_ensures(Document::effective_cell, (document, row, column), now),
    ensures
        ({
            let place = row - document@.grid.buffer_start;
            let held = 0 <= place < document@.grid.rows.len() && column < document@.grid.rows[place].len();
            let edited = document@.edits.cells.dom().contains((row, column));
            &&& source is Some <==> held
            &&& source matches Some(bytes) ==> bytes@ == document@.grid.rows[place][column as int]
            &&& now is Some <==> held || edited
            &&& now matches Some(bytes) ==> bytes@ == if edited {
                document@.edits.cells[(row, column)]
            } else {
                document@.grid.rows[place][column as int]
            }
        }),
{
}

/// The number of rows that the grid can show: the data rows of the file, or the matches of the
/// filter.
pub open spec fn rows_shown(document: DocumentView) -> int {
    if document.filter.query is Some {
        let counted = match document.filter.progress {
            Some(progress) => progress.matches_found as int,
            None => 0,
        };
        most(counted, match document.filter.indexed_matches {
            Some(matches) => matches as int,
            None => 0,
        })
    } else {
        most(0, rows_known(document) - document.grid.data_start)
    }
}

/// The place of the page among the rows that the grid can show.
pub open spec fn place_of(document: DocumentView) -> int {
    if document.filter.query is Some {
        document.filter.viewport_start as int
    } else {
        document.grid.viewport_start - document.grid.data_start
    }
}

/// The grid is at a place, or will be once the rows for it are read.
pub open spec fn comes_to(before: DocumentView, after: DocumentView, result: Result<GridStep, String>, place: int) -> bool {
    match result {
        Ok(GridStep::Read(read)) => after == before && read.viewport_start - before.grid.data_start == place
            && read.purpose == ReadPurpose::Viewport,
        Ok(GridStep::ReadMatches(read)) => read.viewport_start matches Some(start) && start == place,
        Ok(_) => place_of(after) == place,
        Err(_) => true,
    }
}

/// Scrolling by a number of rows moves the page by as many, down for a positive number and up for a
/// negative one, but not beyond the first row or the last full page.
#[verifier::spinoff_prover]
#[verifier::rlimit(60)]
pub proof fn lemma_scroll_moves_by_rows(document: &mut Document, rows: i64, result: Result<GridStep, String>)
    requires
        old(document).wf(),
        at_rest(old(document)@),
        place_of(old(document)@) <= most(0, rows_shown(old(document)@) - old(document)@.grid.visible_rows),
        call_ensures(Document::scroll_rows, (document, rows), result),
    ensures
        ({
            let before = old(document)@;
            let last = most(0, rows_shown(before) - before.grid.visible_rows);
            let place = least(most(0, place_of(before) + rows), last);
            &&& place == place_of(before) ==> result == Ok::<GridStep, String>(GridStep::Covered) && final(document)@.grid
                == before.grid && final(document)@.filter == before.filter
            &&& comes_to(before, final(document)@, result, place)
            &&& before.filter.query is None && (before.index.indexed_rows is Some || before.index.running) ==> result is Ok
            &&& final(document)@.edits == before.edits
        }),
{
    let before = old(document)@;
    let target = crate::viewport::scroll_target(before, rows as int);
    if before.filter.query is Some {
        lemma_match_navigation(before, target);
    } else {
        lemma_navigation(before, (before.grid.data_start + target) as u64);
    }
}

/// Turning a page is scrolling by as many rows as fit on it.
pub proof fn lemma_page_is_a_scroll(
    paged: &mut Document,
    scrolled: &mut Document,
    direction: i64,
    rows: i64,
    page_result: Result<GridStep, String>,
    scroll_result: Result<GridStep, String>,
)
    requires
        old(paged)@ == old(scrolled)@,
        rows == direction * old(paged)@.grid.visible_rows,
        old(paged)@.grid.visible_rows <= i64::MAX,
        call_ensures(Document::page, (paged, direction), page_result),
        call_ensures(Document::scroll_rows, (scrolled, rows), scroll_result),
    ensures
        final(paged)@ == final(scrolled)@,
        page_result is Ok <==> scroll_result is Ok,
        page_result matches Ok(step) ==> scroll_result == Ok::<GridStep, String>(step),
{
}

/// Moving the grid to a place shows the page from that place on, or the last full page.
#[verifier::spinoff_prover]
#[verifier::rlimit(40)]
pub proof fn lemma_place_is_gone_to(document: &mut Document, place: u64, result: Result<GridStep, String>)
    requires
        old(document).wf(),
        at_rest(old(document)@),
        call_ensures(Document::navigate_grid_position, (document, place), result),
        place + old(document)@.grid.data_start <= u64::MAX,
    ensures
        ({
            let before = old(document)@;
            let last = most(0, rows_shown(before) - before.grid.visible_rows);
            rows_shown(before) > 0 ==> comes_to(before, final(document)@, result, least(place as int, last))
        }),
{
    let before = old(document)@;
    lemma_rest(before);
    if before.filter.query is Some {
        lemma_match_navigation(before, place);
    } else {
        lemma_navigation(before, (before.grid.data_start + place) as u64);
    }
}

/// The grid says how many rows it can show and where it is among them.
pub proof fn lemma_position_is_told(document: &Document, total: u64, place: u64, rows: u64, data: u64, matches: u64)
    requires
        document.wf(),
        call_ensures(Document::grid_total_rows, (document,), total),
        call_ensures(Document::grid_position, (document,), place),
        call_ensures(Document::available_rows, (document,), rows),
        call_ensures(Document::available_data_rows, (document,), data),
        call_ensures(Document::available_filter_rows, (document,), matches),
    ensures
        total == rows_shown(document@),
        place == place_of(document@),
        rows == rows_known(document@),
        data == most(0, rows_known(document@) - document@.grid.data_start),
        document@.filter.query is Some ==> total == matches,
        document@.filter.query is None ==> total == data,
{
}

/// A page has as many rows as fit, and at least one.
#[verifier::spinoff_prover]
#[verifier::rlimit(40)]
pub proof fn lemma_height_is_kept(document: &mut Document, visible_rows: usize, result: Result<GridStep, String>)
    requires
        old(document).wf(),
        at_rest(old(document)@),
        call_ensures(Document::set_visible_rows, (document, visible_rows), result),
    ensures
        final(document)@.grid.visible_rows == most(visible_rows as int, 1),
        final(document)@.edits == old(document)@.edits,
        final(document)@.source == old(document)@.source,
        final(document)@.filter.query == old(document)@.filter.query,
        old(document)@.filter.query is None && final(document)@.grid.visible_rows != old(document)@.grid.visible_rows
            && rows_known(old(document)@) > old(document)@.grid.data_start ==> ({
            let row = match old(document)@.selection.reveal_cell {
                Some((row, _)) => row,
                None => old(document)@.grid.viewport_start,
            };
            let taller = DocumentView {
                grid: crate::document::GridView {
                    visible_rows: final(document)@.grid.visible_rows,
                    ..old(document)@.grid
                },
                ..old(document)@
            };
            match result {
                Ok(GridStep::Read(read)) => read.viewport_start == top_for(taller, row),
                Ok(GridStep::ReadMatches(_)) => false,
                Ok(_) => final(document)@.grid.viewport_start == top_for(taller, row),
                Err(_) => true,
            }
        }),
{
    let before = old(document)@;
    let height: usize = if visible_rows == 0 { 1 } else { visible_rows };
    let resized = DocumentView { grid: crate::document::GridView { visible_rows: height, ..before.grid }, ..before };
    lemma_rest(before);
    lemma_rest(resized);
    if before.filter.query is Some {
        lemma_match_navigation(resized, before.filter.viewport_start);
    } else {
        let target = match resized.selection.reveal_cell {
            Some((row, _)) => row,
            None => resized.grid.viewport_start,
        };
        lemma_navigation(resized, target);
    }
}

/// Nothing but the columns in view, their titles and what of them is selected is touched.
pub open spec fn only_columns(before: DocumentView, after: DocumentView) -> bool {
    &&& same_file(committed(before), after)
    &&& after.grid.total_columns == before.grid.total_columns
    &&& after.grid.rows == before.grid.rows
    &&& after.grid.viewport_start == before.grid.viewport_start
    &&& after.filter == before.filter
    &&& titled(after)
}

/// Showing or hiding a column does so to that column alone.
pub proof fn lemma_column_is_shown(document: &mut Document, column: usize, is_shown: bool, result: Result<(), String>)
    requires
        old(document).wf(),
        call_ensures(Document::set_column_shown, (document, column, is_shown), result),
    ensures
        ({
            let before = old(document)@;
            let after = final(document)@;
            &&& result is Ok <==> column < before.grid.total_columns
            &&& result is Ok ==> only_columns(before, after) && after.grid.order == before.grid.order
                && after.grid.hidden.len() == before.grid.hidden.len() && forall|other: int|
                0 <= other < before.grid.hidden.len() ==> #[trigger] after.grid.hidden[other] == if other == column {
                    !is_shown
                } else {
                    before.grid.hidden[other]
                }
            &&& result is Err ==> after == committed(before)
        }),
{
    reveal(without_hidden);
    lemma_commit_frame(old(document)@);
}

/// A column that is moved in the display order stands in the place that was given, and the others
/// keep their order.
pub proof fn lemma_column_is_moved(document: &mut Document, column: usize, position: usize, result: Result<(), String>)
    requires
        old(document).wf(),
        call_ensures(Document::move_column, (document, column, position), result),
    ensures
        ({
            let before = old(document)@;
            let after = final(document)@;
            let from = before.grid.order.index_of(column);
            &&& result is Ok <==> column < before.grid.total_columns && position < before.grid.total_columns
            &&& result is Ok ==> {
                &&& only_columns(before, after)
                &&& after.grid.hidden == before.grid.hidden
                &&& after.grid.order.len() == before.grid.order.len()
                &&& after.grid.order[position as int] == column
                &&& after.grid.order.remove(position as int) == before.grid.order.remove(from)
                &&& before.grid.order[from] == column
            }
            &&& result is Err ==> after == committed(before)
        }),
{
    reveal(without_hidden);
    let before = old(document)@;
    lemma_commit_frame(before);
    if column < before.grid.total_columns && position < before.grid.total_columns {
        assert(before.grid.order.contains(column));
        let from = before.grid.order.index_of(column);
        let order = crate::columns::moved(before.grid.order, from, position as int);
        assert(order.remove(position as int) =~= before.grid.order.remove(from));
    }
}

/// Resetting the columns shows every one of them, in file order.
pub proof fn lemma_columns_are_reset(document: &mut Document)
    requires
        old(document).wf(),
        call_ensures(Document::reset_columns, (document,), ()),
    ensures
        ({
            let before = old(document)@;
            let after = final(document)@;
            &&& only_columns(before, after)
            &&& after.grid.order.len() == before.grid.total_columns
            &&& forall|i: int| 0 <= i < after.grid.order.len() ==> #[trigger] after.grid.order[i] == i
            &&& after.grid.hidden.len() == before.grid.total_columns
            &&& forall|i: int| 0 <= i < after.grid.hidden.len() ==> !#[trigger] after.grid.hidden[i]
        }),
{
    reveal(without_hidden);
    lemma_commit_frame(old(document)@);
}

/// What is selected out of view is deselected, and nothing else.
pub proof fn lemma_only_hidden_is_deselected(document: &mut Document, column: usize)
    requires
        call_ensures(Document::clear_hidden_selection, (document,), ()),
    ensures
        ({
            let before = old(document)@;
            let after = final(document)@;
            &&& after.selection.columns.contains(column) <==> before.selection.columns.contains(column) && column
                < before.grid.hidden.len() && !before.grid.hidden[column as int]
            &&& after.selection.selection is Some ==> after.selection.selection == before.selection.selection
            &&& after.selection.anchor matches Some(anchor) ==> after.selection.columns.contains(anchor)
            &&& after.grid == before.grid
            &&& after.edits == before.edits
            &&& after.selection.rows == before.selection.rows
        }),
{
    reveal(without_hidden);
    let before = old(document)@;
    lemma_first_selected(before.grid.order, crate::grid::shown_selection(before));
}

proof fn lemma_first_selected(order: Seq<usize>, selected: Set<usize>)
    ensures
        crate::columns::first_selected(order, selected) matches Some(first) ==> selected.contains(first),
    decreases order.len(),
{
    if order.len() > 0 {
        lemma_first_selected(order.skip(1), selected);
        lemma_first_selected(order.drop_first(), selected);
        lemma_first_selected(order.drop_last(), selected);
    }
}

/// The columns of a file are all shown at first, in file order; more of them come at the end.
pub proof fn lemma_columns_are_listed(
    total_columns: usize,
    fresh: ColumnView,
    columns: &mut ColumnView,
    width: usize,
    column: int,
)
    requires
        call_ensures(ColumnView::new, (total_columns,), fresh),
        old(columns).wf(),
        call_ensures(ColumnView::extend_to, (columns, width), ()),
    ensures
        fresh.order@.len() == total_columns,
        fresh.hidden@.len() == total_columns,
        0 <= column < total_columns ==> fresh.order@[column] == column && !fresh.hidden@[column],
        final(columns).hidden@.len() == most(width as int, old(columns).hidden@.len() as int),
        final(columns).order@.len() == final(columns).hidden@.len(),
        0 <= column < old(columns).hidden@.len() ==> final(columns).hidden@[column] == old(columns).hidden@[column]
            && final(columns).order@[column] == old(columns).order@[column],
        old(columns).hidden@.len() <= column < width ==> !final(columns).hidden@[column]
            && final(columns).order@[column] == column,
{
}

/// A column that is shown, hidden or moved in a list is so alone.
pub proof fn lemma_one_column_is_changed(
    viewed: &mut ColumnView,
    changed: &mut ColumnView,
    moved: &mut ColumnView,
    reset: &mut ColumnView,
    column: usize,
    shown: bool,
    target: usize,
    known: (bool, bool, bool),
    other: int,
)
    requires
        old(moved).wf(),
        call_ensures(ColumnView::view, (viewed, column), known.0),
        call_ensures(ColumnView::set_shown, (changed, column, shown), known.1),
        call_ensures(ColumnView::move_column, (moved, column, target), known.2),
        call_ensures(ColumnView::reset, (reset,), ()),
    ensures
        known.0 <==> column < old(viewed).hidden@.len(),
        known.0 ==> !final(viewed).hidden@[column as int] && final(viewed).order@ == old(viewed).order@,
        known.1 <==> column < old(changed).hidden@.len(),
        known.1 ==> final(changed).hidden@[column as int] == !shown && final(changed).order@ == old(changed).order@,
        known.1 && 0 <= other < old(changed).hidden@.len() && other != column ==> final(changed).hidden@[other]
            == old(changed).hidden@[other],
        known.2 <==> column < old(moved).hidden@.len() && target < old(moved).hidden@.len(),
        known.2 ==> final(moved).order@[target as int] == column && final(moved).order@.remove(target as int)
            == old(moved).order@.remove(old(moved).order@.index_of(column)) && final(moved).hidden@
            == old(moved).hidden@,
        0 <= other < old(reset).order@.len() && other <= usize::MAX ==> final(reset).order@[other] == other,
        0 <= other < old(reset).hidden@.len() ==> !final(reset).hidden@[other],
{
    if known.2 {
        let order = old(moved).order@;
        assert(order.contains(column));
        let from = order.index_of(column);
        assert(crate::columns::moved(order, from, target as int).remove(target as int) =~= order.remove(from));
    }
}

/// A column stands between two places of a list.
pub open spec fn stands_between(shown: Seq<usize>, column: usize, one: int, other: int) -> bool {
    exists|i: int| least(one, other) <= i <= most(one, other) && #[trigger] shown[i] == column
}

/// A plain click selects one column, a command click turns one column on or off, and a shift click
/// selects all shown columns from the anchor to the one that was clicked.
pub proof fn lemma_clicks_select_columns(
    columns: &ColumnView,
    selected: &mut BTreeSet<usize>,
    anchor: &mut Option<usize>,
    column: usize,
    modifiers: Modifiers,
    other: usize,
    from: int,
    to: int,
)
    requires
        columns.wf(),
        call_ensures(crate::columns::select_column, (columns, selected, anchor, column, modifiers), ()),
    ensures
        ({
            let listing = shown_columns(columns.order@, columns.hidden@);
            &&& !modifiers.shift && !modifiers.command ==> (final(selected)@.contains(other) <==> other == column)
                && *final(anchor) == Some(column)
            &&& !modifiers.shift && modifiers.command ==> (final(selected)@.contains(other) <==> (if other == column {
                !old(selected)@.contains(column)
            } else {
                old(selected)@.contains(other)
            }))
            &&& modifiers.shift && 0 <= from < listing.len() && 0 <= to < listing.len() && *old(anchor) == Some(
                listing[from],
            ) && column == listing[to] ==> (final(selected)@.contains(other) <==> stands_between(
                listing,
                other,
                from,
                to,
            )) && *final(anchor) == *old(anchor)
        }),
{
    let listing = shown_columns(columns.order@, columns.hidden@);
    crate::columns::lemma_shown_columns(columns.order@, columns.hidden@);
    if modifiers.shift && 0 <= from < listing.len() && 0 <= to < listing.len() && *old(anchor) == Some(listing[from])
        && column == listing[to] {
        assert(listing.contains(listing[from]));
        assert(listing.contains(listing[to]));
        let one = listing.index_of(listing[from]);
        let last = listing.index_of(column);
        assert(listing[one] == listing[from] && one == from);
        assert(listing[last] == listing[to] && last == to);
        let part = listing.subrange(least(from, to), most(from, to) + 1);
        assert(final(selected)@ == part.to_set());
        if part.contains(other) {
            let i = choose|i: int| 0 <= i < part.len() && part[i] == other;
            assert(listing[i + least(from, to)] == other);
            assert(stands_between(listing, other, from, to));
        }
        if stands_between(listing, other, from, to) {
            let i = choose|i: int| least(from, to) <= i <= most(from, to) && #[trigger] listing[i] == other;
            assert(part[i - least(from, to)] == other);
            assert(part.contains(other));
        }
    }
}

/// A rule can be used: its column is in the file, and it has a text to look for where it needs one.
pub open spec fn rule_is_usable(query: FilterQuery, index: int, total_columns: usize) -> bool {
    let rule = query.predicates@[index];
    rule.column < total_columns && (rule.operator == FilterOperator::Contains ==> rule.value@.len() > 0)
}

/// A filter can start where nothing stands in the way and each of its rules can be used.
pub proof fn lemma_filter_can_start(document: &mut Document, query: &FilterQuery, result: Result<(), String>)
    requires
        at_rest(old(document)@),
        old(document)@.edits.cell_edit is None,
        call_ensures(Document::start_filter, (document, query), result),
    ensures
        final(document)@ == old(document)@,
        result is Ok <==> crate::editor_laws::can_filter(old(document)@) && query.predicates@.len() > 0 && forall|i: int|
            0 <= i < query.predicates@.len() ==> #[trigger] rule_is_usable(
                *query,
                i,
                old(document)@.grid.total_columns,
            ),
{
    let before = old(document)@;
    lemma_rest(before);
    crate::change_laws::lemma_no_entries(before.edits.cells);
    let rules = query@.predicates;
    crate::editor_laws::lemma_rules_error(before, rules, 0);
    assert(rules.len() == query.predicates@.len());
    assert forall|i: int| 0 <= i < rules.len() implies (rule_error(before, #[trigger] rules[i], i) is None
        <==> rule_is_usable(*query, i, before.grid.total_columns)) by {
        assert(rules[i] == query.predicates@[i]@);
    }
    if rules_error(before, rules, 0) is None {
        assert forall|i: int| 0 <= i < query.predicates@.len() implies #[trigger] rule_is_usable(
            *query,
            i,
            before.grid.total_columns,
        ) by {
            assert(rule_error(before, rules[i], i) is None);
        }
    }
    if forall|i: int|
        0 <= i < query.predicates@.len() ==> #[trigger] rule_is_usable(*query, i, before.grid.total_columns) {
        assert forall|i: int| 0 <= i < rules.len() implies rule_error(before, #[trigger] rules[i], i) is None by {
            assert(rule_is_usable(*query, i, before.grid.total_columns));
        }
    }
}

/// A filter that has started is the one that was given, runs, and shows no row yet; nothing of the
/// document is touched.
pub proof fn lemma_filter_has_started(document: &mut Document, query: FilterQuery, progress: FilterProgress, matches: u64)
    requires
        call_ensures(Document::filter_started, (document, query, progress, matches), ()),
    ensures
        ({
            let before = old(document)@;
            let after = final(document)@;
            &&& after.filter.query == Some(query@)
            &&& after.filter.running
            &&& after.filter.progress == Some(progress)
            &&& after.filter.indexed_matches == Some(matches)
            &&& after.filter.rows.len() == 0
            &&& after.filter.viewport_start == 0
            &&& after.filter.read is None
            &&& after.filter.pending is None
            &&& after.selection.selection is None
            &&& after.edits == before.edits
            &&& after.grid == before.grid
            &&& after.source == before.source
        }),
{
}

/// Once the filter is cleared every row is shown again, from the same row on; while an export runs it
/// is kept.
#[verifier::spinoff_prover]
#[verifier::rlimit(40)]
pub proof fn lemma_filter_is_cleared(document: &mut Document, result: Result<GridStep, String>)
    requires
        old(document).wf(),
        at_rest(old(document)@),
        call_ensures(Document::clear_filter, (document,), result),
    ensures
        ({
            let before = old(document)@;
            let after = final(document)@;
            &&& before.export.running ==> result is Err && after == before
            &&& !before.export.running ==> {
                &&& after.filter.query is None
                &&& !after.filter.running
                &&& after.filter.rows.len() == 0
                &&& after.filter.progress is None
                &&& after.filter.read is None
                &&& before.filter.running ==> after.effects.contains(Effect::CancelFilter)
                &&& after.edits == before.edits
                &&& after.source == before.source
                &&& result matches Ok(GridStep::Read(read)) ==> read.viewport_start == top_for(
                    before,
                    before.grid.viewport_start,
                )
                &&& !(result matches Ok(GridStep::ReadMatches(_)))
            }
        }),
{
    let before = old(document)@;
    if !before.export.running {
        let stopped = crate::filter::without_read(before);
        let told = if stopped.filter.running {
            stopped.effects.push(Effect::CancelFilter)
        } else {
            stopped.effects
        };
        if before.filter.running {
            assert(told[stopped.effects.len() as int] == Effect::CancelFilter);
            assert(told.push(Effect::ResetScroll)[stopped.effects.len() as int] == Effect::CancelFilter);
        }
        let cleared = DocumentView {
            filter: crate::document::FilterView {
                running: false,
                indexed_matches: None,
                query: None,
                progress: None,
                status: None,
                ..crate::filter::without_matches_held(stopped.filter)
            },
            export: crate::document::ExportView { progress: None, status: None, cancel_requested: false, ..stopped.export },
            selection: crate::document::SelectionView {
                selection: None,
                rows: crate::document::no_rows(),
                reveal_cell: None,
                ..stopped.selection
            },
            effects: told.push(Effect::ResetScroll),
            ..stopped
        };
        lemma_navigation(cleared, before.grid.viewport_start);
        lemma_effects_stay(cleared, before.grid.viewport_start);
    }
}

/// Moving the grid to a match shows the page of matches from that match on, or the last full page of
/// them, once they are read.
pub proof fn lemma_match_comes_into_view(document: &mut Document, requested: u64, result: Result<GridStep, String>)
    requires
        old(document)@.filter.query is Some,
        rows_shown(old(document)@) > 0,
        call_ensures(Document::navigate_filter, (document, requested), result),
    ensures
        ({
            let before = old(document)@;
            let after = final(document)@;
            let start = least(requested as int, most(0, rows_shown(before) - before.grid.visible_rows));
            &&& match result {
                Ok(GridStep::ReadMatches(read)) => {
                    &&& read.viewport_start matches Some(top) && top == start
                    &&& before.grid.visible_rows < usize::MAX / 2 ==> read.window.start_match <= start && least(
                        rows_shown(before),
                        start + before.grid.visible_rows,
                    ) <= read.window.start_match + read.window.count
                    &&& read.window.start_match + read.window.count <= rows_shown(before)
                },
                Ok(GridStep::Read(_)) => false,
                Ok(_) => after.filter.viewport_start == start,
                Err(_) => before.filter.indexed_matches is None && !before.filter.running,
            }
            &&& after.filter.query == before.filter.query
            &&& after.edits == before.edits
            &&& after.grid.rows == before.grid.rows
            &&& after.grid.viewport_start == before.grid.viewport_start
        }),
{
    lemma_match_navigation(old(document)@, requested);
}

/// News of a filter tells how far it is; its end tells how many matches there are; its failure takes
/// it away.
pub proof fn lemma_filter_ends(document: &mut Document, outcome: Result<u64, String>, result: Result<GridStep, String>)
    requires
        old(document)@.filter.query is Some,
        call_ensures(Document::filter_finished, (document, outcome), result),
    ensures
        !final(document)@.filter.running,
        final(document)@.edits == old(document)@.edits,
        final(document)@.source == old(document)@.source,
        outcome matches Ok(matches) ==> final(document)@.filter.indexed_matches == Some(matches)
            && final(document)@.filter.query == old(document)@.filter.query && final(document)@.filter.progress
            == old(document)@.filter.progress,
        outcome matches Err(message) ==> (result matches Err(told) && told@ == message@)
            && final(document)@.filter.query is None && final(document)@.filter.rows.len() == 0,
{
    let before = old(document)@;
    if let Ok(matches) = outcome {
        let cancelled = before.filter.progress matches Some(progress) && progress.cancelled;
        let complete = DocumentView {
            filter: crate::document::FilterView {
                running: false,
                indexed_matches: Some(matches),
                status: Some(crate::filter::ended_message(cancelled, matches)),
                ..before.filter
            },
            ..before
        };
        if matches > 0 && before.filter.query is Some {
            lemma_match_navigation(complete, before.filter.viewport_start);
        }
    }
}

/// A filter that runs is told to stop, and keeps the matches that it has.
pub proof fn lemma_filter_is_cancelled(document: &mut Document)
    requires
        call_ensures(Document::cancel_filter, (document,), ()),
    ensures
        final(document)@ == (DocumentView { effects: final(document)@.effects, ..old(document)@ }),
        old(document)@.filter.running ==> final(document)@.effects == old(document)@.effects.push(Effect::CancelFilter),
        !old(document)@.filter.running ==> final(document)@.effects == old(document)@.effects,
{
}

/// The index tells how far it is while it runs, how many rows there are once it is complete, and
/// keeps nothing where it fails.
pub proof fn lemma_index_runs(
    started: &mut Document,
    progressed: &mut Document,
    ended: &mut Document,
    cancelled: &mut Document,
    progress: IndexProgress,
    outcome: Result<u64, String>,
    result: Result<GridStep, String>,
)
    requires
        call_ensures(Document::index_started, (started, progress), ()),
        call_ensures(Document::index_progressed, (progressed, progress), ()),
        call_ensures(Document::index_finished, (ended, outcome), result),
        call_ensures(Document::cancel, (cancelled,), ()),
    ensures
        final(started)@.index.running,
        final(started)@.index.progress == progress,
        final(started)@.edits == old(started)@.edits,
        final(progressed)@.index.progress == progress,
        final(progressed)@.index.running == old(progressed)@.index.running,
        final(progressed)@.index.indexed_rows == old(progressed)@.index.indexed_rows,
        !final(ended)@.index.running,
        outcome matches Ok(rows) ==> final(ended)@.index.indexed_rows == Some(rows),
        outcome is Err ==> result is Err && final(ended)@.index.indexed_rows == old(ended)@.index.indexed_rows,
        final(ended)@.index.progress == old(ended)@.index.progress,
        final(ended)@.edits == old(ended)@.edits,
        final(ended)@.grid.viewport_start == old(ended)@.grid.viewport_start,
        old(cancelled)@.index.running ==> final(cancelled)@.effects == old(cancelled)@.effects.push(
            Effect::CancelIndexing,
        ),
        !old(cancelled)@.index.running ==> final(cancelled)@.effects == old(cancelled)@.effects,
        final(cancelled)@.index.running == old(cancelled)@.index.running,
        final(cancelled)@.edits == old(cancelled)@.edits,
{
    reveal(with_rows);
}

/// The rows of a page are numbered as data rows, counted from one.
pub proof fn lemma_rows_are_numbered(document: &Document, first: u64, last: u64, count: usize)
    requires
        document.wf(),
        document@.filter.query is None,
        rows_known(document@) > document@.grid.data_start,
        document@.grid.viewport_start + document@.grid.visible_rows < u64::MAX,
        call_ensures(Document::display_start, (document,), first),
        call_ensures(Document::display_end, (document,), last),
        call_ensures(Document::visible_row_count, (document,), count),
    ensures
        first == document@.grid.viewport_start - document@.grid.data_start + 1,
        count > 0 ==> last - first + 1 == count,
        count == 0 ==> last == 0,
{
}

/// The page that shows a row starts at that row, or as late as a full page can.
pub proof fn lemma_page_starts(
    requested: u64,
    data_start: u64,
    total_rows: u64,
    visible_rows: usize,
    start: u64,
    last: u64,
)
    requires
        data_start + total_rows <= u64::MAX,
        call_ensures(crate::grid::logical_viewport_start, (requested, data_start, total_rows, visible_rows), start),
        call_ensures(crate::grid::max_viewport_start, (total_rows, visible_rows), last),
    ensures
        last == most(0, total_rows - visible_rows),
        start == least(most(requested as int, data_start as int), data_start + last),
{
}

/// A move of the grid for a purpose is the move for the page, and hands that purpose on to the read.
pub proof fn lemma_purpose_is_handed_on(
    plain: &mut Document,
    purposed: &mut Document,
    requested: u64,
    purpose: ReadPurpose,
    plain_result: Result<GridStep, String>,
    result: Result<GridStep, String>,
)
    requires
        old(plain)@ == old(purposed)@,
        call_ensures(Document::navigate, (plain, requested), plain_result),
        call_ensures(Document::navigate_for, (purposed, requested, purpose), result),
    ensures
        final(plain)@ == final(purposed)@,
        result is Ok <==> plain_result is Ok,
        result matches Ok(GridStep::Read(read)) ==> read.purpose == purpose && (plain_result matches Ok(GridStep::Read(same))
            && same.start == read.start && same.count == read.count && same.viewport_start == read.viewport_start
            && same.source == read.source),
{
}

/// Rows that are accepted are at hand under their places, and the columns reach as far as the widest
/// of them.
pub proof fn lemma_rows_are_accepted(document: &mut Document, start: u64, rows: Vec<Row>, i: int)
    requires
        old(document).wf(),
        call_ensures(Document::accept_rows, (document, start, rows), ()),
    ensures
        final(document)@.grid.buffer_start == start,
        final(document)@.grid.rows == rows_cells(rows@),
        final(document)@.grid.viewport_start == old(document)@.grid.viewport_start,
        final(document)@.grid.total_columns >= old(document)@.grid.total_columns,
        0 <= i < rows@.len() && crate::model::widest(rows_cells(rows@)) <= usize::MAX ==> rows_cells(rows@)[i].len()
            <= final(document)@.grid.total_columns,
        final(document)@.edits == old(document)@.edits,
        final(document)@.filter == old(document)@.filter,
{
    reveal(with_rows);
    crate::model::lemma_widest(rows_cells(rows@));
    if 0 <= i < rows@.len() {
        assert(rows_cells(rows@).len() == rows@.len());
        assert(rows_cells(rows@)[i].len() <= crate::model::widest(rows_cells(rows@)));
    }
}

/// There is room for as many columns as are asked for, and those that were there stay as they were.
pub proof fn lemma_columns_are_added(document: &mut Document, total_columns: usize, column: int)
    requires
        old(document).wf(),
        call_ensures(Document::ensure_column_count, (document, total_columns), ()),
    ensures
        final(document)@.grid.total_columns == most(
            total_columns as int,
            old(document)@.grid.total_columns as int,
        ),
        0 <= column < old(document)@.grid.total_columns ==> final(document)@.grid.hidden[column]
            == old(document)@.grid.hidden[column] && final(document)@.grid.order[column]
            == old(document)@.grid.order[column],
        old(document)@.grid.total_columns <= column < total_columns ==> !final(document)@.grid.hidden[column]
            && final(document)@.grid.order[column] == column,
        final(document)@.edits == old(document)@.edits,
{
}

/// A column that is brought into view is shown, and so is that of a match, which is selected.
pub proof fn lemma_column_comes_into_view(centered: &mut Document, revealed: &mut Document, column: usize, found: SearchMatch)
    requires
        old(centered).wf(),
        old(revealed).wf(),
        column < old(centered)@.grid.total_columns,
        found.column < old(revealed)@.grid.total_columns,
        call_ensures(Document::center_column, (centered, column), ()),
        call_ensures(Document::reveal_match, (revealed, found), ()),
    ensures
        !final(centered)@.grid.hidden[column as int],
        final(centered)@.grid.order == old(centered)@.grid.order,
        titled(final(centered)@),
        final(centered)@.grid.viewport_start == old(centered)@.grid.viewport_start,
        !final(revealed)@.grid.hidden[found.column as int],
        final(revealed)@.search.last_match == Some(found),
        final(revealed)@.selection.selection == Some(GridSelection::Cell { row: found.row, column: found.column }),
        final(revealed)@.selection.reveal_cell == Some((found.row, found.column)),
        final(revealed)@.selection.columns == Set::<usize>::empty(),
        final(revealed)@.edits.cells == committed(old(revealed)@).edits.cells,
{
    reveal(without_hidden);
    lemma_commit_frame(old(centered)@);
    lemma_commit_frame(old(revealed)@);
}

/// A column is one of the file where its number is below the number of columns.
pub proof fn lemma_column_is_checked(document: &Document, column: usize, result: Result<(), String>)
    requires
        call_ensures(Document::validate_column, (document, column), result),
    ensures
        result is Ok <==> column < document@.grid.total_columns,
{
}

/// Matches to be read take in the page that they are for, and are matches that there are.
pub proof fn lemma_matches_to_read(document: &Document, viewport_start: u64, window: Option<FilterReadWindow>)
    requires
        document@.filter.query is Some,
        viewport_start <= rows_shown(document@),
        document@.grid.visible_rows < usize::MAX / 2,
        call_ensures(Document::filter_read_window, (document, viewport_start), window),
    ensures
        window is Some <==> rows_shown(document@) > 0,
        window matches Some(part) ==> part.start_match <= viewport_start && part.start_match + part.count <= rows_shown(
            document@,
        ) && least(rows_shown(document@), viewport_start + document@.grid.visible_rows) <= part.start_match + part.count,
{
}

/// A read of matches that has started is noted, and the page that it is for comes into view.
pub proof fn lemma_matches_are_read(started: &mut Document, taken: &mut Document, read: crate::grid::FilterRead, matches: u64)
    requires
        call_ensures(Document::filter_read_started, (started, read), ()),
        call_ensures(Document::filter_snapshot_taken, (taken, matches), ()),
    ensures
        final(started)@.filter.read matches Some(active) && active.window == read.window && !active.cancel_requested,
        read.viewport_start matches Some(start) ==> final(started)@.filter.viewport_start == start,
        read.viewport_start is None ==> final(started)@.filter.viewport_start == old(started)@.filter.viewport_start,
        final(started)@.filter.query == old(started)@.filter.query,
        final(started)@.filter.rows == old(started)@.filter.rows,
        final(started)@.edits == old(started)@.edits,
        final(taken)@.filter.indexed_matches == Some(matches),
        final(taken)@.filter.query == old(taken)@.filter.query,
        final(taken)@.filter.rows == old(taken)@.filter.rows,
{
    reveal(without_hidden);
}

/// A read of matches that failed or was given up runs and waits no more, and says so where it runs
/// outside.
pub proof fn lemma_read_of_matches_is_given_up(document: &mut Document, failed: &mut Document, message: String, result: Result<GridStep, String>)
    requires
        call_ensures(Document::stop_filter_read, (document,), ()),
        call_ensures(
            Document::filter_read_finished,
            (failed, crate::filter::FilterReadOutcome::Failed(message)),
            result,
        ),
    ensures
        final(document)@.filter.read is None,
        final(document)@.filter.pending is None,
        final(document)@.filter.rows == old(document)@.filter.rows,
        old(document)@.filter.read is Some ==> final(document)@.effects == old(document)@.effects.push(
            Effect::AbandonFilterRead,
        ),
        old(document)@.filter.read is None ==> final(document)@.effects == old(document)@.effects,
        result matches Err(told) && told@ == message@,
        final(failed)@.filter.read is None,
        final(failed)@.filter.pending is None,
        final(failed)@.filter.rows == old(failed)@.filter.rows,
        final(failed)@.filter.query == old(failed)@.filter.query,
{
}

/// News of a filter is kept, and the page of matches stays where it was, as far as there are matches
/// for it.
pub proof fn lemma_filter_progresses(
    document: &mut Document,
    progress: FilterProgress,
    snapshot: Option<u64>,
    result: Result<GridStep, String>,
    before: &Document,
    wanted: bool,
)
    requires
        old(document)@.filter.query is Some,
        before@ == old(document)@,
        call_ensures(Document::filter_scanned, (document, progress, snapshot), result),
        call_ensures(Document::filter_snapshot_wanted, (before, progress), wanted),
    ensures
        final(document)@.filter.progress == Some(progress),
        final(document)@.filter.query == old(document)@.filter.query,
        final(document)@.filter.running == old(document)@.filter.running,
        final(document)@.edits == old(document)@.edits,
        wanted && snapshot is Some ==> final(document)@.filter.indexed_matches == snapshot,
        !wanted ==> final(document)@.filter.indexed_matches == old(document)@.filter.indexed_matches,
{
    let known = old(document)@;
    let noted = DocumentView {
        filter: crate::document::FilterView { progress: Some(progress), ..known.filter },
        ..known
    };
    let newer = DocumentView {
        filter: crate::document::FilterView { indexed_matches: snapshot, ..noted.filter },
        ..noted
    };
    lemma_match_navigation(noted, known.filter.viewport_start);
    lemma_match_navigation(newer, known.filter.viewport_start);
}

/// A filter is there where it has a query, can be applied where the file has columns and no change
/// runs, and loads rows where a read runs or waits.
pub proof fn lemma_filter_is_told(document: &Document, active: bool, ready: bool, loading: bool, searchable: bool)
    requires
        call_ensures(Document::filter_active, (document,), active),
        call_ensures(Document::is_filter_ready, (document,), ready),
        call_ensures(Document::filter_rows_loading, (document,), loading),
        call_ensures(Document::is_search_ready, (document,), searchable),
    ensures
        active <==> document@.filter.query is Some,
        ready <==> document@.grid.total_columns > 0 && document@.structural.job is None,
        loading <==> document@.filter.read is Some || document@.filter.pending is Some,
        searchable <==> document@.index.indexed_rows is Some && document@.index.progress.done
            && !document@.index.progress.cancelled && document@.structural.job is None,
{
}

/// Rows can be filtered by typed rules, or by the value of a cell, where a filter could start.
pub proof fn lemma_filters_can_be_applied(
    document: &Document,
    rules: &Vec<crate::dialogs::FilterRuleDraft>,
    can: bool,
    held: bool,
    by_cell: bool,
)
    requires
        document@.edits.cell_edit is None,
        call_ensures(Document::can_apply_filters, (document, rules), can),
        call_ensures(Document::can_filter_cell, (document, held), by_cell),
    ensures
        can ==> crate::editor_laws::can_filter(document@) && rules@.len() > 0 && forall|i: int|
            0 <= i < rules@.len() ==> crate::editor_laws::names_some_column(
                #[trigger] rules@[i],
                document@.grid.total_columns,
            ),
        by_cell <==> held && crate::editor_laws::can_filter(document@),
{
    crate::change_laws::lemma_no_entries(document@.edits.cells);
    if can {
        assert forall|i: int| 0 <= i < rules@.len() implies crate::editor_laws::names_some_column(
            #[trigger] rules@[i],
            document@.grid.total_columns,
        ) by {
            crate::editor_laws::lemma_named(rules@[i], document@.grid.total_columns);
        }
    }
}

/// The footer tells which data rows the page shows, counted from one, and of how many.
pub proof fn lemma_footer_counts_rows(document: &Document, range: String, first: u64, last: u64, total: u64)
    requires
        document@.filter.query is None,
        call_ensures(Document::footer_range_text, (document,), range),
        call_ensures(Document::display_start, (document,), first),
        call_ensures(Document::display_end, (document,), last),
        call_ensures(Document::available_data_rows, (document,), total),
    ensures
        range@ == "rows "@ + decimal(first as nat) + "–"@ + decimal(last as nat) + " of "@ + decimal(total as nat),
{
}

/// A column stands before another in an order.
pub open spec fn precedes(order: Seq<usize>, one: usize, other: usize) -> bool {
    exists|i: int, j: int| 0 <= i < j < order.len() && #[trigger] order[i] == one && #[trigger] order[j] == other
}

proof fn lemma_shown_in_order(order: Seq<usize>, hidden: Seq<bool>)
    ensures
        forall|i: int, j: int|
            0 <= i < j < shown_columns(order, hidden).len() ==> precedes(
                order,
                #[trigger] shown_columns(order, hidden)[i],
                #[trigger] shown_columns(order, hidden)[j],
            ),
        forall|i: int|
            0 <= i < shown_columns(order, hidden).len() ==> order.contains(#[trigger] shown_columns(order, hidden)[i]),
    decreases order.len(),
{
    reveal(Seq::filter);
    if order.len() > 0 {
        let rest = order.drop_last();
        lemma_shown_in_order(rest, hidden);
        let before = shown_columns(rest, hidden);
        let listing = shown_columns(order, hidden);
        assert(listing == if hidden[order.last() as int] {
            before
        } else {
            before.push(order.last())
        });
        assert forall|i: int| 0 <= i < before.len() implies exists|k: int|
            0 <= k < rest.len() && #[trigger] order[k] == #[trigger] before[i] by {
            assert(rest.contains(before[i]));
            let k = choose|k: int| 0 <= k < rest.len() && rest[k] == before[i];
            assert(order[k] == before[i]);
        }
        assert forall|i: int, j: int| 0 <= i < j < listing.len() implies precedes(
            order,
            #[trigger] listing[i],
            #[trigger] listing[j],
        ) by {
            if j < before.len() {
                assert(precedes(rest, before[i], before[j]));
                let (k, l) = choose|k: int, l: int|
                    0 <= k < l < rest.len() && #[trigger] rest[k] == before[i] && #[trigger] rest[l] == before[j];
                assert(order[k] == listing[i] && order[l] == listing[j]);
            } else {
                let k = choose|k: int| 0 <= k < rest.len() && #[trigger] order[k] == before[i];
                assert(order[k] == listing[i] && order[order.len() - 1] == listing[j]);
            }
        }
        assert forall|i: int| 0 <= i < listing.len() implies order.contains(#[trigger] listing[i]) by {
            if i < before.len() {
                let k = choose|k: int| 0 <= k < rest.len() && #[trigger] order[k] == before[i];
                assert(order[k] == listing[i]);
            } else {
                assert(order[order.len() - 1] == listing[i]);
            }
        }
    }
}

/// The columns in view are those that are not hidden, each once, in display order.
pub proof fn lemma_columns_in_view(columns: &mut ColumnView, count: usize, same: &ColumnView, column: usize, i: int, j: int)
    requires
        old(columns).wf(),
        call_ensures(ColumnView::refresh, (columns,), ()),
        same.wf(),
        call_ensures(ColumnView::shown_count, (same,), count),
    ensures
        final(columns).visible@.contains(column) <==> column < old(columns).hidden@.len()
            && !old(columns).hidden@[column as int],
        0 <= i < j < final(columns).visible@.len() ==> precedes(
            old(columns).order@,
            final(columns).visible@[i],
            final(columns).visible@[j],
        ),
        count == same.visible@.len(),
{
    crate::columns::lemma_shown_columns(old(columns).order@, old(columns).hidden@);
    lemma_shown_in_order(old(columns).order@, old(columns).hidden@);
}

/// Matches that were read are at hand where they are still those that the page needs.
pub proof fn lemma_read_matches_are_at_hand(
    document: &mut Document,
    before: &Document,
    rows: Vec<crate::model::FilterMatch>,
    needed: Option<FilterReadWindow>,
    result: Result<GridStep, String>,
)
    requires
        old(document)@ == before@,
        before@.filter.query is Some,
        before@.filter.read is Some,
        call_ensures(Document::filter_read_window, (before, before@.filter.viewport_start), needed),
        call_ensures(
            Document::filter_read_finished,
            (document, crate::filter::FilterReadOutcome::Complete(rows)),
            result,
        ),
        rows@.len() <= before@.filter.read->0.window.count,
    ensures
        ({
            let window = before@.filter.read->0.window;
            let after = final(document)@;
            &&& needed == Some(window) ==> after.filter.rows == crate::model::matches_of(rows@)
                && after.filter.buffer_start == window.start_match
            &&& after.filter.viewport_start == before@.filter.viewport_start
            &&& after.filter.query == before@.filter.query
            &&& after.edits == before@.edits
        }),
{
    let known = DocumentView { filter: crate::document::FilterView { read: None, ..before@.filter }, ..before@ };
    let window = before@.filter.read->0.window;
    let found = crate::model::matches_of(rows@);
    let filled = crate::filter::with_matches(known, window.start_match, found);
    assert(found.len() == rows@.len());
    reveal(crate::filter::with_matches);
    lemma_scheduled(filled, before@.filter.viewport_start);
    lemma_scheduled(known, before@.filter.viewport_start);
    if needed == Some(window) {
        lemma_rows_stay(filled, before@.filter.viewport_start, window);
    }
}

proof fn lemma_rows_stay(document: DocumentView, start: u64, window: FilterReadWindow)
    requires
        match_window(document, start) == Some(window),
        document.filter.rows.len() <= window.count,
    ensures
        scheduled(document, start).0.filter.rows == document.filter.rows,
        scheduled(document, start).0.filter.buffer_start == document.filter.buffer_start,
{
    reveal(scheduled);
}

/// The matches at hand take in a page where they start no later and end no earlier than it does.
pub proof fn lemma_matches_take_in_the_page(document: &Document, viewport_start: u64, covers: bool)
    requires
        document@.filter.query is Some,
        rows_shown(document@) > 0,
        viewport_start <= rows_shown(document@),
        document@.filter.buffer_start + document@.filter.rows.len() <= u64::MAX,
        call_ensures(Document::filter_buffer_covers, (document, viewport_start), covers),
    ensures
        covers ==> document@.filter.buffer_start <= viewport_start && least(
            rows_shown(document@),
            viewport_start + document@.grid.visible_rows,
        ) <= document@.filter.buffer_start + document@.filter.rows.len(),
{
}

/// The buffer is left as it is where it holds the page; else its rows come from the first rows of the
/// file or are to be read.
pub proof fn lemma_buffer_is_loaded(
    document: &mut Document,
    viewport_start: u64,
    result: Result<crate::grid::BufferStep, String>,
)
    requires
        old(document).wf(),
        old(document)@.grid.data_start <= viewport_start <= rows_known(old(document)@),
        old(document)@.grid.visible_rows < usize::MAX / 2,
        old(document)@.grid.buffer_start + old(document)@.grid.rows.len() <= u64::MAX,
        call_ensures(Document::load_buffer, (document, viewport_start), result),
    ensures
        ({
            let before = old(document)@;
            let after = final(document)@;
            &&& match result {
                Ok(crate::grid::BufferStep::Covered) => after == before && lies_between(
                    before,
                    viewport_start as int,
                    before.grid.buffer_start as int,
                    before.grid.buffer_start + before.grid.rows.len(),
                ),
                Ok(crate::grid::BufferStep::Filled { start, count }) => after.grid.buffer_start == start
                    && after.grid.rows.len() == count && lies_between(
                    before,
                    viewport_start as int,
                    start as int,
                    start + count,
                ) && forall|i: int|
                    0 <= i < after.grid.rows.len() ==> #[trigger] after.grid.rows[i] == before.source.first_rows[start + i],
                Ok(crate::grid::BufferStep::Read { start, count, source }) => after == before && lies_between(
                    before,
                    viewport_start as int,
                    start as int,
                    start + count,
                ) && (source == RowSource::Index <==> before.index.indexed_rows is Some),
                Err(_) => after == before && before.index.indexed_rows is None && !before.index.running,
            }
            &&& after.edits == before.edits
            &&& after.grid.viewport_start == before.grid.viewport_start
        }),
{
    reveal(with_rows);
}

/// Matches that a page needs and that are not at hand are read at once where no read runs; a read of
/// other matches is told to stop, and they come after it.
pub proof fn lemma_matches_are_scheduled(
    document: &mut Document,
    before: &Document,
    viewport_start: u64,
    window: FilterReadWindow,
    covers: bool,
    result: Result<Option<FilterReadWindow>, String>,
)
    requires
        old(document)@ == before@,
        before@.filter.rows.len() <= window.count,
        call_ensures(Document::filter_read_window, (before, viewport_start), Some(window)),
        call_ensures(Document::filter_buffer_covers, (before, viewport_start), covers),
        call_ensures(Document::schedule_filter_buffer, (document, viewport_start), result),
    ensures
        ({
            let after = final(document)@;
            &&& after.filter.rows == before@.filter.rows
            &&& after.filter.query == before@.filter.query
            &&& covers ==> result == Ok::<Option<FilterReadWindow>, String>(None) && after.filter.pending is None
            &&& !covers && before@.filter.read is None && (before@.filter.indexed_matches is Some
                || before@.filter.running) ==> result == Ok::<Option<FilterReadWindow>, String>(Some(window))
            &&& !covers ==> (before@.filter.read matches Some(read) ==> {
                &&& result == Ok::<Option<FilterReadWindow>, String>(None)
                &&& read.window == window && !read.cancel_requested ==> after.filter.read == Some(read)
                    && after.filter.pending is None
                &&& read.window != window || read.cancel_requested ==> after.filter.pending == Some(window) && (
                after.filter.read matches Some(told) && told.window == read.window && told.cancel_requested)
                &&& read.window != window && !read.cancel_requested ==> after.effects.len() > 0 && after.effects.last()
                    == Effect::CancelFilterRead
            })
        }),
{
    reveal(scheduled);
}

} // verus!
