//! What structural changes are for: the laws that a request for one, and its end, keep to.

use crate::columns::file_order;
use crate::document::{ChangeKind, Document, DocumentView, JobView};
use crate::edits::{committed, lemma_commit_frame, lemma_commit_is_idempotent};
use crate::literal::CaseSensitivity;
use crate::message::{AppMessage, MessageSeverity};
use crate::model::{edits_of, Effect, Failure, FileId, SnapshotView, SortDirection, WorkingCopySnapshot};
use crate::saving::{also, map_bytes, name_bytes};
use crate::structural::{
    chosen, combine_asked, delete_columns_asked, delete_rows_asked, lemma_rearranged, lemma_split_counts, move_asked,
    rearranged, remaining, replace_asked, rows_in, settled, sort_asked, split_asked, with_change_accepted,
    written_header, Change, ChangePlan, Preparation, PreparedChange, SplitAnalysis, StructuralOutcome, StructuralStep,
};
use std::collections::BTreeSet;
use std::ops::RangeInclusive;
use vstd::prelude::*;
use vstd::utf8::*;

verus! {

/// No work runs on the document, no filter is applied, and its file has not changed.
pub open spec fn free(document: DocumentView) -> bool {
    &&& !document.source_changed
    &&& document.filter.query is None
    &&& !document.filter.running
    &&& !document.save.running
    &&& !document.export.running
    &&& !document.search.running
    &&& document.structural.job is None
}

/// What asking for a change leaves as it is, once what is being typed is kept.
pub open spec fn only_kept(before: DocumentView, after: DocumentView) -> bool {
    &&& after.edits == committed(before).edits
    &&& after.working_copy == committed(before).working_copy
    &&& after.source == before.source
    &&& after.index == before.index
    &&& after.structural == before.structural
    &&& after.filter == before.filter
    &&& after.grid.rows == before.grid.rows
    &&& after.grid.total_columns == before.grid.total_columns
    &&& after.grid.order == before.grid.order
    &&& after.grid.hidden == before.grid.hidden
    &&& after.selection.columns == before.selection.columns
    &&& after.selection.rows == before.selection.rows
}

/// A warning that comes with no change of the document.
pub open spec fn only_warned<T>(before: DocumentView, after: DocumentView, result: Result<T, AppMessage>) -> bool {
    result matches Err(message) && message.severity == MessageSeverity::Warning && after == before
}

proof fn lemma_settled(document: DocumentView)
    requires
        free(document),
    ensures
        only_kept(document, settled(document)),
        settled(document).edits.header_edit is None,
        settled(document).edits.cell_edit is None,
{
    lemma_commit_frame(document);
    lemma_commit_is_idempotent(document);
}

/// A request to sort is answered with the sort that was asked for.
pub open spec fn sorts(
    before: DocumentView,
    after: DocumentView,
    column: usize,
    direction: SortDirection,
    case_sensitivity: CaseSensitivity,
    result: Result<ChangePlan, AppMessage>,
) -> bool {
    &&& result is Ok <==> free(before) && before.index.indexed_rows is Some && column < before.grid.total_columns
    &&& result is Err ==> only_warned(before, after, result)
    &&& result matches Ok(plan) ==> {
        &&& plan.change == (Change::Sort { column, direction, case_sensitivity })
        &&& plan.kind == (ChangeKind::Sort { column, direction })
        &&& forall|selected: usize| plan.selected_columns@.contains(selected) <==> selected == column
        &&& only_kept(before, after)
    }
}

/// What a request to sort comes to is the sort that was asked for.
pub proof fn lemma_sorts(
    before: DocumentView,
    after: DocumentView,
    column: usize,
    direction: SortDirection,
    case_sensitivity: CaseSensitivity,
    result: Result<ChangePlan, AppMessage>,
)
    requires
        sort_asked(before, after, column, direction, case_sensitivity, result),
    ensures
        sorts(before, after, column, direction, case_sensitivity, result),
{
    reveal(sort_asked);
    if free(before) {
        lemma_settled(before);
    }
}

/// A sort that can be made is by the column, in the direction and with the case mode that were
/// asked for; else nothing changes.
pub proof fn lemma_sort_is_what_was_asked(
    document: &mut Document,
    column: usize,
    direction: SortDirection,
    case_sensitivity: CaseSensitivity,
    result: Result<ChangePlan, AppMessage>,
)
    requires
        call_ensures(Document::start_sort_rows_with_case, (document, column, direction, case_sensitivity), result),
    ensures
        sorts(old(document)@, final(document)@, column, direction, case_sensitivity, result),
{
    lemma_sorts(old(document)@, final(document)@, column, direction, case_sensitivity, result);
}

/// Requests for two different sorts of one document ask for different changes, and equal ones for
/// equal changes.
pub proof fn lemma_sorts_differ(
    one_document: &mut Document,
    other_document: &mut Document,
    one: (usize, SortDirection, CaseSensitivity),
    other: (usize, SortDirection, CaseSensitivity),
    one_plan: ChangePlan,
    other_plan: ChangePlan,
)
    requires
        old(one_document)@ == old(other_document)@,
        call_ensures(Document::start_sort_rows_with_case, (one_document, one.0, one.1, one.2), Ok(one_plan)),
        call_ensures(Document::start_sort_rows_with_case, (other_document, other.0, other.1, other.2), Ok(other_plan)),
    ensures
        one_plan.change == other_plan.change <==> one == other,
        one.0 != other.0 || one.1 != other.1 ==> one_plan.kind != other_plan.kind,
{
    lemma_sort_is_what_was_asked(one_document, one.0, one.1, one.2, Ok(one_plan));
    lemma_sort_is_what_was_asked(other_document, other.0, other.1, other.2, Ok(other_plan));
}

/// The bytes of the header cell of a column with its new name, where it has one.
pub open spec fn header_now(document: DocumentView, column: usize) -> Seq<u8> {
    let header = document.source.first_rows[0];
    if document.source.first_rows.len() == 0 || column >= header.len() {
        Seq::empty()
    } else if document.edits.renames.dom().contains(column) {
        encode_utf8(document.edits.renames[column])
    } else {
        header[column as int]
    }
}

proof fn lemma_written_header(document: DocumentView, column: usize)
    requires
        document.edits.header_edit is None,
    ensures
        written_header(document, column) == if document.source.has_header {
            Some(header_now(document, column))
        } else {
            None
        },
{
}

/// A request to combine columns is answered with the columns and the separator that were given.
pub open spec fn joins(
    before: DocumentView,
    after: DocumentView,
    columns: Seq<usize>,
    separator: Seq<u8>,
    result: Result<ChangePlan, AppMessage>,
) -> bool {
    &&& result is Ok <==> free(before) && columns.len() >= 2 && columns.no_duplicates() && forall|i: int|
        0 <= i < columns.len() ==> #[trigger] columns[i] < before.grid.total_columns
    &&& result is Err ==> only_warned(before, after, result)
    &&& result matches Ok(plan) ==> {
        &&& plan.kind == ChangeKind::Columns
        &&& plan.change matches Change::Join { source_columns, separator: between, output_header } && {
            &&& source_columns@ == columns
            &&& between@ == separator
            &&& output_header is Some <==> before.source.has_header
            &&& output_header matches Some(header) ==> header@ == header_now(committed(before), columns[0])
        }
        &&& forall|selected: usize| plan.selected_columns@.contains(selected) ==> columns.contains(selected)
            && forall|i: int| 0 <= i < columns.len() ==> selected <= #[trigger] columns[i]
        &&& exists|selected: usize| plan.selected_columns@.contains(selected)
        &&& only_kept(before, after)
    }
}

/// What a request to combine columns comes to joins the columns that were given.
pub proof fn lemma_joins(
    before: DocumentView,
    after: DocumentView,
    columns: Seq<usize>,
    separator: Seq<u8>,
    result: Result<ChangePlan, AppMessage>,
)
    requires
        combine_asked(before, after, columns, separator, result),
    ensures
        joins(before, after, columns, separator, result),
{
    reveal(combine_asked);
    if free(before) {
        lemma_settled(before);
        if columns.len() >= 2 {
            lemma_written_header(settled(before), columns[0]);
        }
    }
    if let Ok(plan) = result {
        let first = choose|first: usize| crate::sets::is_least(columns.to_set(), first)
            && plan.selected_columns@ == set![first];
        assert(plan.selected_columns@.contains(first));
        assert(columns.to_set().contains(first));
        assert forall|i: int| 0 <= i < columns.len() implies first <= #[trigger] columns[i] by {
            assert(columns.to_set().contains(columns[i]));
        }
    }
}

/// Columns that can be combined are joined in the order in which they were given, with the
/// separator between them, under the header of the first of them.
pub proof fn lemma_combine_is_what_was_asked(
    document: &mut Document,
    columns: Vec<usize>,
    separator: Vec<u8>,
    result: Result<ChangePlan, AppMessage>,
)
    requires
        call_ensures(Document::start_combine, (document, columns, separator), result),
    ensures
        joins(old(document)@, final(document)@, columns@, separator@, result),
{
    lemma_joins(old(document)@, final(document)@, columns@, separator@, result);
}

/// A request to split a column is answered with that column, to be measured with every edit.
pub open spec fn measures(
    before: DocumentView,
    after: DocumentView,
    column: usize,
    separator: Seq<u8>,
    column_limit: usize,
    result: Result<SplitAnalysis, AppMessage>,
) -> bool {
    &&& result is Ok <==> free(before) && column < before.grid.total_columns && separator.len() > 0
        && before.grid.total_columns < column_limit
    &&& result matches Err(message) ==> message.severity == MessageSeverity::Warning
    &&& result matches Ok(analysis) ==> {
        &&& analysis.source_column == column
        &&& analysis.separator@ == separator
        &&& before.grid.total_columns - 1 + analysis.max_pieces == column_limit
        &&& analysis.cell_edits@.dom() == committed(before).edits.cells.dom()
        &&& forall|cell: (u64, usize)| #[trigger]
            analysis.cell_edits@.dom().contains(cell) ==> analysis.cell_edits@[cell]@
                == committed(before).edits.cells[cell]
        &&& only_kept(before, after)
    }
}

/// What a request to split a column comes to is a measuring of that column.
pub proof fn lemma_measures(
    before: DocumentView,
    after: DocumentView,
    column: usize,
    separator: Seq<u8>,
    column_limit: usize,
    result: Result<SplitAnalysis, AppMessage>,
)
    requires
        split_asked(before, after, column, separator, column_limit, result),
    ensures
        measures(before, after, column, separator, column_limit, result),
{
    reveal(split_asked);
    if free(before) {
        lemma_settled(before);
    }
    if let Ok(analysis) = result {
        lemma_edits_of(analysis.cell_edits@, committed(before).edits.cells);
    }
}

/// A column that can be split is measured with every edit of the document, for as many pieces as
/// the file then has room for.
pub proof fn lemma_split_is_what_was_asked(
    document: &mut Document,
    column: usize,
    separator: Vec<u8>,
    column_limit: usize,
    result: Result<SplitAnalysis, AppMessage>,
)
    requires
        call_ensures(Document::start_split, (document, column, separator, column_limit), result),
    ensures
        measures(old(document)@, final(document)@, column, separator@, column_limit, result),
{
    lemma_measures(old(document)@, final(document)@, column, separator@, column_limit, result);
}

/// The new bytes of cells are those that are held, each under its cell.
pub proof fn lemma_edits_of(held: Map<(u64, usize), Vec<u8>>, cells: Map<(u64, usize), Seq<u8>>)
    requires
        edits_of(held) == cells,
    ensures
        held.dom() == cells.dom(),
        forall|cell: (u64, usize)| #[trigger] held.dom().contains(cell) ==> held[cell]@ == cells[cell],
{
    assert(edits_of(held).dom() =~= held.dom());
    assert forall|cell: (u64, usize)| #[trigger] held.dom().contains(cell) implies held[cell]@ == cells[cell] by {
        assert(edits_of(held)[cell] == held[cell]@);
    }
}

/// The measuring of a split that has started is of the column and the separator that were given.
pub proof fn lemma_split_is_measured(
    document: &mut Document,
    column: usize,
    separator: Vec<u8>,
    outcome: Result<(), Failure>,
    result: Result<(), AppMessage>,
)
    requires
        call_ensures(Document::split_analysis_started, (document, column, separator, outcome), result),
    ensures
        result is Ok <==> outcome is Ok,
        outcome is Ok ==> final(document)@.structural.job == Some(
            JobView::AnalyzingSplit { source_column: column, separator: separator@ },
        ),
        outcome is Err ==> final(document)@.source_changed || final(document)@ == old(document)@,
        final(document)@.edits == old(document)@.edits,
        final(document)@.working_copy == old(document)@.working_copy,
{
    crate::saving::lemma_outdated_keeps_edits(old(document)@);
    reveal(crate::saving::outdated);
    reveal(crate::saving::stopped);
}

/// A split whose column holds the separator is made of that column, at that separator, into as
/// many columns as there are pieces, which are then the selected ones.
pub proof fn lemma_measured_split(
    document: &mut Document,
    column: usize,
    separator: Seq<u8>,
    max_pieces: usize,
    result: Result<StructuralStep, AppMessage>,
)
    requires
        old(document)@.structural.job == Some(JobView::AnalyzingSplit { source_column: column, separator }),
        old(document)@.edits.header_edit is None,
        column + max_pieces <= usize::MAX,
        call_ensures(
            Document::structural_finished,
            (document, StructuralOutcome::Measured { max_pieces }),
            result,
        ),
    ensures
        final(document)@.edits == old(document)@.edits,
        final(document)@.structural.job is None,
        max_pieces < 2 ==> result is Err,
        max_pieces >= 2 ==> (result matches Ok(StructuralStep::Plan(plan)) && {
            &&& plan.kind == ChangeKind::Columns
            &&& plan.change matches Change::Split { source_column, separator: at, pieces, source_header } && {
                &&& source_column == column
                &&& at@ == separator
                &&& pieces == max_pieces
                &&& source_header is Some <==> old(document)@.source.has_header
                &&& source_header matches Some(header) ==> header@ == header_now(old(document)@, column)
            }
            &&& forall|selected: usize|
                plan.selected_columns@.contains(selected) <==> column <= selected < column + max_pieces
        }),
{
    lemma_written_header(crate::structural::idle(old(document)@), column);
}

/// Every column of the file stands once in `order`.
pub open spec fn permutes(order: Seq<usize>, total_columns: usize) -> bool {
    &&& order.len() == total_columns
    &&& forall|i: int, j: int| 0 <= i < j < order.len() ==> order[i] != order[j]
    &&& forall|i: int| 0 <= i < order.len() ==> #[trigger] order[i] < total_columns
}

/// The columns of a request name columns of the file, each once.
pub open spec fn names_columns(columns: Seq<usize>, total_columns: usize) -> bool {
    &&& columns.len() > 0
    &&& columns.no_duplicates()
    &&& forall|i: int| 0 <= i < columns.len() ==> #[trigger] columns[i] < total_columns
}

proof fn lemma_selected_count(columns: Seq<usize>, total_columns: usize)
    requires
        names_columns(columns, total_columns),
    ensures
        chosen(total_columns, columns.to_set()).len() == columns.len(),
        remaining(total_columns, columns.to_set()).len() == total_columns - columns.len(),
{
    let selected = columns.to_set();
    lemma_split_counts(total_columns as nat, selected);
    let inside = chosen(total_columns, selected);
    columns.unique_seq_to_set();
    assert(inside.no_duplicates()) by {
        assert forall|i: int, j: int| 0 <= i < inside.len() && 0 <= j < inside.len() && i != j implies inside[i]
            != inside[j] by {
            if i < j {
                assert(inside[i] < inside[j]);
            } else {
                assert(inside[j] < inside[i]);
            }
        }
    }
    inside.unique_seq_to_set();
    assert(inside.to_set() =~= selected) by {
        assert forall|column: usize| inside.to_set().contains(column) <==> selected.contains(column) by {
            if inside.contains(column) {
                let i = choose|i: int| 0 <= i < inside.len() && inside[i] == column;
                assert(selected.contains(inside[i]));
            }
            if selected.contains(column) {
                assert(columns.contains(column));
                assert(column < total_columns);
                assert(inside.contains(column));
            }
        }
    }
}

/// A request to move columns is answered with an order in which they stand where asked.
pub open spec fn rearranges(
    before: DocumentView,
    after: DocumentView,
    columns: Seq<usize>,
    position: usize,
    result: Result<Option<ChangePlan>, AppMessage>,
) -> bool {
    &&& ({
        let total = before.grid.total_columns;
        &&& result is Ok <==> free(before) && names_columns(columns, total) && position <= total - columns.len()
        &&& result is Err ==> only_warned(before, after, result)
        &&& result matches Ok(Some(plan)) ==> {
            &&& plan.kind == ChangeKind::Columns
            &&& plan.change matches Change::Arrange { source_width, output_columns } && {
                &&& source_width == total
                &&& moves(output_columns@, columns, position as int, total)
            }
            &&& forall|selected: usize|
                plan.selected_columns@.contains(selected) <==> position <= selected < position + columns.len()
            &&& only_kept(before, after)
        }
        &&& result matches Ok(None) ==> moves(file_order(total as nat), columns, position as int, total)
            && after.edits == before.edits
    })
}

/// What a request to move columns comes to puts them where asked.
pub proof fn lemma_rearranges(
    before: DocumentView,
    after: DocumentView,
    columns: Seq<usize>,
    position: usize,
    result: Result<Option<ChangePlan>, AppMessage>,
)
    requires
        move_asked(before, after, columns, position, result),
    ensures
        rearranges(before, after, columns, position, result),
{
    reveal(move_asked);
    let total = before.grid.total_columns;
    let selected = columns.to_set();
    if free(before) {
        lemma_settled(before);
    }
    if names_columns(columns, total) {
        lemma_selected_count(columns, total);
        if position <= total - columns.len() {
            lemma_rearranged_moves(columns, position as int, total);
        }
    }
}

/// Columns that can be moved end up beside each other, in file order, from the place that was
/// asked for on, and the others keep their order around them.
pub proof fn lemma_move_is_what_was_asked(
    document: &mut Document,
    columns: Vec<usize>,
    position: usize,
    result: Result<Option<ChangePlan>, AppMessage>,
)
    requires
        call_ensures(Document::start_move_columns, (document, columns, position), result),
    ensures
        rearranges(old(document)@, final(document)@, columns@, position, result),
{
    lemma_rearranges(old(document)@, final(document)@, columns@, position, result);
}

/// The selected columns stand in `order` from `position` on, they and the others each in file
/// order.
pub open spec fn moves(order: Seq<usize>, columns: Seq<usize>, position: int, total_columns: usize) -> bool {
    &&& permutes(order, total_columns)
    &&& forall|i: int|
        0 <= i < order.len() ==> (columns.contains(#[trigger] order[i]) <==> position <= i < position + columns.len())
    &&& forall|i: int, j: int|
        0 <= i < j < order.len() && (columns.contains(order[i]) <==> columns.contains(order[j])) ==> order[i] < order[j]
}

proof fn lemma_rearranged_moves(columns: Seq<usize>, position: int, total_columns: usize)
    requires
        names_columns(columns, total_columns),
        0 <= position <= total_columns - columns.len(),
    ensures
        moves(rearranged(total_columns, columns.to_set(), position), columns, position, total_columns),
{
    let selected = columns.to_set();
    lemma_selected_count(columns, total_columns);
    lemma_split_counts(total_columns as nat, selected);
    lemma_rearranged(total_columns, selected, position);
    let inside = chosen(total_columns, selected);
    let outside = remaining(total_columns, selected);
    let order = rearranged(total_columns, selected, position);
    let count = columns.len() as int;
    assert forall|i: int| 0 <= i < order.len() implies order[i] == if i < position {
        outside[i]
    } else if i < position + count {
        inside[i - position]
    } else {
        outside[i - count]
    } by {}
    assert forall|i: int| 0 <= i < order.len() implies (columns.contains(#[trigger] order[i]) <==> position <= i < position
        + count) by {
        assert(columns.contains(order[i]) <==> selected.contains(order[i]));
        if i < position {
            assert(!selected.contains(outside[i]));
        } else if i < position + count {
            assert(selected.contains(inside[i - position]));
        } else {
            assert(!selected.contains(outside[i - count]));
        }
    }
    assert forall|i: int, j: int| 0 <= i < j < order.len() implies order[i] != order[j] by {
        assert(order.no_duplicates());
    }
    assert forall|i: int| 0 <= i < order.len() implies #[trigger] order[i] < total_columns by {
        assert(order.contains(order[i]));
    }
}

/// A request to delete columns is answered with the other columns, in file order.
pub open spec fn drops_columns(
    before: DocumentView,
    after: DocumentView,
    columns: Seq<usize>,
    result: Result<Option<ChangePlan>, AppMessage>,
) -> bool {
    &&& ({
        let total = before.grid.total_columns;
        &&& result is Ok <==> free(before) && names_columns(columns, total) && columns.len() < total
        &&& result is Err ==> only_warned(before, after, result)
        &&& result matches Ok(plan) ==> (plan matches Some(plan) && {
            &&& plan.kind == ChangeKind::Columns
            &&& plan.change matches Change::Arrange { source_width, output_columns } && {
                &&& source_width == total
                &&& output_columns@.len() == total - columns.len()
                &&& forall|i: int, j: int| 0 <= i < j < output_columns@.len() ==> output_columns@[i] < output_columns@[j]
                &&& forall|column: usize| #[trigger]
                    output_columns@.contains(column) <==> column < total && !columns.contains(column)
            }
            &&& forall|selected: usize|
                plan.selected_columns@.contains(selected) ==> selected < total - columns.len() && (selected == total
                    - columns.len() - 1 || columns.contains(selected))
            &&& exists|selected: usize| plan.selected_columns@.contains(selected)
            &&& forall|selected: usize, column: usize|
                plan.selected_columns@.contains(selected) && columns.contains(column) ==> selected <= column
            &&& only_kept(before, after)
        })
    })
}

/// What a request to delete columns comes to leaves the other columns.
pub proof fn lemma_drops_columns(
    before: DocumentView,
    after: DocumentView,
    columns: Seq<usize>,
    result: Result<Option<ChangePlan>, AppMessage>,
)
    requires
        delete_columns_asked(before, after, columns, result),
    ensures
        drops_columns(before, after, columns, result),
{
    reveal(delete_columns_asked);
    let total = before.grid.total_columns;
    let selected = columns.to_set();
    if free(before) {
        lemma_settled(before);
    }
    if names_columns(columns, total) {
        lemma_selected_count(columns, total);
        lemma_split_counts(total as nat, selected);
        let kept = remaining(total, selected);
        assert forall|column: usize| kept.contains(column) <==> column < total && !columns.contains(column) by {
            assert(columns.contains(column) <==> selected.contains(column));
            if kept.contains(column) {
                let i = choose|i: int| 0 <= i < kept.len() && kept[i] == column;
                assert(!selected.contains(kept[i]));
            }
        }
        assert(kept.len() < total);
        assert(kept != file_order(total as nat)) by {
            assert(file_order(total as nat).len() == total);
        }
        if let Ok(Some(plan)) = result {
            let first = choose|first: usize|
                crate::sets::is_least(selected, first) && #[trigger] crate::structural::arrangement_requested(
                    before,
                    after,
                    result,
                    kept,
                    set![crate::structural::nearest(first, kept.len())],
                );
            assert(columns.contains(first) <==> selected.contains(first));
            assert(plan.selected_columns@.contains(crate::structural::nearest(first, kept.len())));
            assert forall|column: usize| columns.contains(column) implies first <= column by {
                assert(selected.contains(column));
            }
        }
    }
}

/// Deleting columns leaves every other column, in file order.
pub proof fn lemma_delete_columns_is_what_was_asked(
    document: &mut Document,
    columns: Vec<usize>,
    result: Result<Option<ChangePlan>, AppMessage>,
)
    requires
        call_ensures(Document::start_delete_columns, (document, columns), result),
    ensures
        drops_columns(old(document)@, final(document)@, columns@, result),
{
    lemma_drops_columns(old(document)@, final(document)@, columns@, result);
}

/// A request to delete rows is answered with those rows.
pub open spec fn drops_rows(
    before: DocumentView,
    after: DocumentView,
    rows: Vec<RangeInclusive<u64>>,
    result: Result<ChangePlan, AppMessage>,
) -> bool {
    &&& result is Ok <==> free(before) && rows@.len() > 0
    &&& result is Err ==> only_warned(before, after, result)
    &&& result matches Ok(plan) ==> {
        &&& plan.change == (Change::DeleteRows { rows })
        &&& plan.kind matches ChangeKind::DeleteRows { count } && (rows_in(rows@) <= u64::MAX ==> count == rows_in(
            rows@,
        ))
        &&& forall|selected: usize| !plan.selected_columns@.contains(selected)
        &&& only_kept(before, after)
    }
}

/// What a request to delete rows comes to deletes the rows that were given.
pub proof fn lemma_drops_rows(
    before: DocumentView,
    after: DocumentView,
    rows: Vec<RangeInclusive<u64>>,
    result: Result<ChangePlan, AppMessage>,
)
    requires
        delete_rows_asked(before, after, rows, result),
    ensures
        drops_rows(before, after, rows, result),
{
    reveal(delete_rows_asked);
    if free(before) {
        lemma_settled(before);
    }
}

/// Deleting rows deletes the rows that were given.
pub proof fn lemma_delete_rows_is_what_was_asked(
    document: &mut Document,
    rows: Vec<RangeInclusive<u64>>,
    result: Result<ChangePlan, AppMessage>,
)
    requires
        call_ensures(Document::start_delete_rows, (document, rows), result),
    ensures
        drops_rows(old(document)@, final(document)@, rows, result),
{
    lemma_drops_rows(old(document)@, final(document)@, rows, result);
}

/// One range of rows more adds its rows to the count.
pub proof fn lemma_rows_are_counted(ranges: Seq<RangeInclusive<u64>>, more: RangeInclusive<u64>)
    requires
        more@.start <= more@.end,
    ensures
        rows_in(ranges.push(more)) == rows_in(ranges) + (more@.end - more@.start + 1),
        rows_in(Seq::<RangeInclusive<u64>>::empty()) == 0,
{
    assert(ranges.push(more).drop_last() =~= ranges);
}

/// A request to replace everywhere is answered with the texts and the case mode that were given.
pub open spec fn replaces(
    before: DocumentView,
    after: DocumentView,
    query: Seq<u8>,
    replacement: Seq<u8>,
    case_sensitivity: CaseSensitivity,
    result: Result<Option<ChangePlan>, AppMessage>,
) -> bool {
    &&& result is Ok <==> free(before) && query.len() > 0
    &&& result is Err ==> only_warned(before, after, result)
    &&& result matches Ok(plan) ==> (plan is None <==> query == replacement)
    &&& result matches Ok(Some(plan)) ==> {
        &&& plan.kind == ChangeKind::Replace
        &&& plan.change matches Change::Replace { query: sought, replacement: given, case_sensitivity: mode } && {
            &&& sought@ == query
            &&& given@ == replacement
            &&& mode == case_sensitivity
        }
        &&& plan.selected_columns@ == before.selection.columns
        &&& only_kept(before, after)
    }
    &&& result matches Ok(None) ==> after.edits == before.edits && after.structural.job is None
}

/// What a request to replace everywhere comes to replaces the text that was given.
pub proof fn lemma_replaces(
    before: DocumentView,
    after: DocumentView,
    query: Seq<u8>,
    replacement: Seq<u8>,
    case_sensitivity: CaseSensitivity,
    result: Result<Option<ChangePlan>, AppMessage>,
)
    requires
        replace_asked(before, after, query, replacement, case_sensitivity, result),
    ensures
        replaces(before, after, query, replacement, case_sensitivity, result),
{
    reveal(replace_asked);
    if free(before) {
        lemma_settled(before);
    }
}

/// Replacing everywhere looks for the text and puts in the text that were given, with the case
/// mode that was given.
pub proof fn lemma_replace_is_what_was_asked(
    document: &mut Document,
    query: &[u8],
    replacement: &[u8],
    case_sensitivity: CaseSensitivity,
    result: Result<Option<ChangePlan>, AppMessage>,
)
    requires
        call_ensures(Document::start_replace_all_with_case, (document, query, replacement, case_sensitivity), result),
    ensures
        replaces(old(document)@, final(document)@, query@, replacement@, case_sensitivity, result),
{
    lemma_replaces(old(document)@, final(document)@, query@, replacement@, case_sensitivity, result);
}

/// A change starts from the state that is shown: its names and cells are written, to a file that no
/// state has, and undo will go back to it.
pub proof fn lemma_change_is_prepared(document: &mut Document, prepared: PreparedChange)
    requires
        call_ensures(Document::prepare_materialization, (document,), prepared),
        old(document)@.working_copy is Some,
    ensures
        ({
            let before = old(document)@;
            &&& prepared.undo@.file == before.source.file
            &&& prepared.undo@.overlay.renames == before.edits.renames
            &&& prepared.undo@.overlay.cells == before.edits.cells
            &&& prepared.destination == FileId::Generation(before.working_copy->0.next_generation)
            &&& prepared.renames@.dom() == before.edits.renames.dom()
            &&& forall|column: usize| #[trigger]
                prepared.renames@.dom().contains(column) ==> prepared.renames@[column]@ == encode_utf8(
                    before.edits.renames[column],
                )
            &&& prepared.cell_edits@.dom() == before.edits.cells.dom()
            &&& forall|cell: (u64, usize)| #[trigger]
                prepared.cell_edits@.dom().contains(cell) ==> prepared.cell_edits@[cell]@ == before.edits.cells[cell]
            &&& final(document)@.edits == before.edits
            &&& final(document)@.source == before.source
            &&& final(document)@.working_copy matches Some(copies) && {
                &&& copies.undo == before.working_copy->0.undo
                &&& copies.redo == before.working_copy->0.redo
                &&& before.working_copy->0.next_generation < u64::MAX ==> copies.next_generation
                    == before.working_copy->0.next_generation + 1
            }
        }),
{
    lemma_renames_of(prepared.renames@, old(document)@.edits.renames);
    lemma_edits_of(prepared.cell_edits@, old(document)@.edits.cells);
}

/// The bytes of new names hold each name under its column.
pub proof fn lemma_renames_of(held: Map<usize, Vec<u8>>, renames: Map<usize, Seq<char>>)
    requires
        map_bytes(held) == name_bytes(renames),
    ensures
        held.dom() == renames.dom(),
        forall|column: usize| #[trigger] held.dom().contains(column) ==> held[column]@ == encode_utf8(renames[column]),
{
    assert(map_bytes(held).dom() =~= held.dom());
    assert(name_bytes(renames).dom() =~= renames.dom());
    assert forall|column: usize| #[trigger] held.dom().contains(column) implies held[column]@ == encode_utf8(
        renames[column],
    ) by {
        assert(map_bytes(held)[column] == held[column]@);
        assert(name_bytes(renames)[column] == encode_utf8(renames[column]));
    }
}

/// A change needs the file that was opened to be watched and a directory for working copies, and
/// the first of the two that is missing is asked for.
pub proof fn lemma_preparation(document: &Document, step: Preparation)
    requires
        call_ensures(Document::next_preparation, (document,), step),
    ensures
        step == Preparation::Ready <==> document@.has_original && document@.working_copy is Some,
        step == Preparation::CreateDirectory <==> document@.has_original && document@.working_copy is None,
{
}

/// A change that has started is the one that was given, and touches no edit; one that could not
/// start is not under way.
pub proof fn lemma_change_has_started(
    document: &mut Document,
    kind: ChangeKind,
    columns: BTreeSet<usize>,
    undo: WorkingCopySnapshot,
    destination: FileId,
    outcome: Result<(), Failure>,
    result: Result<(), AppMessage>,
)
    requires
        call_ensures(Document::change_started, (document, kind, columns, undo, destination, outcome), result),
        old(document)@.structural.job is None,
    ensures
        result is Ok <==> outcome is Ok,
        outcome is Ok ==> final(document)@.structural.job == Some(
            JobView::Changing { kind, destination, selected_columns: columns@, undo: undo@ },
        ) && !final(document)@.structural.cancel_requested && final(document)@.working_copy
            == old(document)@.working_copy,
        outcome is Err ==> final(document)@.structural.job is None,
        outcome matches Err(failure) ==> (final(document)@.source_changed <==> old(document)@.source_changed || !(
        failure is Other)),
        final(document)@.edits == old(document)@.edits,
        final(document)@.source == old(document)@.source,
{
    reveal(crate::structural::without_empty_copies);
    reveal(crate::saving::outdated);
    reveal(crate::saving::stopped);
}

/// A change that is made is shown from the file that it wrote, with the columns that it selects,
/// and undo goes back to the state that it started from.
pub proof fn lemma_change_is_installed(
    document: &mut Document,
    kind: ChangeKind,
    destination: FileId,
    columns: Set<usize>,
    start: SnapshotView,
    replacements: u64,
    result: Result<StructuralStep, AppMessage>,
)
    requires
        old(document)@.structural.job == Some(
            JobView::Changing { kind, destination, selected_columns: columns, undo: start },
        ),
        old(document)@.working_copy is Some,
        call_ensures(Document::structural_finished, (document, StructuralOutcome::Complete { replacements }), result),
    ensures
        result matches Ok(StructuralStep::Install(copy)) && copy.file == destination && copy.selected_columns@
            == columns,
        final(document)@.working_copy matches Some(copies) && copies.undo == Some(start) && copies.redo is None,
        final(document)@.structural.job is None,
        final(document)@.edits == old(document)@.edits,
        final(document)@.source == old(document)@.source,
{
    reveal(with_change_accepted);
}

/// A change that was cancelled, found nothing or failed leaves every edit and the file as they
/// are, and no file is installed.
pub proof fn lemma_unmade_change_is_not_shown(
    document: &mut Document,
    outcome: StructuralOutcome,
    result: Result<StructuralStep, AppMessage>,
)
    requires
        old(document)@.structural.job is Some,
        outcome is NoMatch || outcome is Cancelled || outcome is Failed,
        call_ensures(Document::structural_finished, (document, outcome), result),
        crate::structural::fits(old(document)@.structural.job->0, outcome),
    ensures
        final(document)@.edits == old(document)@.edits,
        final(document)@.source == old(document)@.source,
        final(document)@.structural.job is None,
        outcome is Failed <==> result is Err,
        result matches Ok(step) ==> step is Nothing,
{
    reveal(crate::structural::without_empty_copies);
    reveal(crate::saving::outdated);
    reveal(crate::saving::stopped);
}

/// A change that runs is told to stop, and stays under way until it has stopped.
pub proof fn lemma_change_is_cancelled(document: &mut Document)
    requires
        call_ensures(Document::cancel_structural_edit, (document,), ()),
    ensures
        final(document)@.structural.job == old(document)@.structural.job,
        final(document)@.edits == old(document)@.edits,
        final(document)@.source == old(document)@.source,
        final(document)@.grid == old(document)@.grid,
        old(document)@.structural.job is Some ==> final(document)@.structural.cancel_requested && final(document)@.effects == old(document)@.effects.push(Effect::CancelStructural),
        old(document)@.structural.job is None ==> final(document)@ == old(document)@,
{
}

/// Undo is offered where a change can be taken back and no edit would be lost by it; redo where
/// one can be made again and nothing is being typed.
pub proof fn lemma_undo_is_offered(document: &Document, can_undo: bool, can_redo: bool)
    requires
        call_ensures(Document::can_undo_structural, (document,), can_undo),
        call_ensures(Document::can_redo_structural, (document,), can_redo),
        document@.edits.header_edit is None,
        document@.edits.cell_edit is None,
        !document@.save.running,
        !document@.export.running,
        document@.structural.job is None,
    ensures
        can_undo <==> document@.working_copy is Some && document@.working_copy->0.undo is Some
            && document@.edits.renames.dom() == Set::<usize>::empty() && document@.edits.cells.dom() == Set::<
            (u64, usize),
        >::empty(),
        can_redo <==> document@.working_copy is Some && document@.working_copy->0.redo is Some,
{
    lemma_no_entries(document@.edits.renames);
    lemma_no_entries(document@.edits.cells);
}

/// A map is empty where it has no key.
pub proof fn lemma_no_entries<K, V>(map: Map<K, V>)
    ensures
        map == Map::<K, V>::empty() <==> map.dom() == Set::<K>::empty(),
{
    if map.dom() == Set::<K>::empty() {
        assert(map =~= Map::<K, V>::empty());
    }
}

/// The case mode of an option.
pub open spec fn mode(match_case: bool) -> CaseSensitivity {
    if match_case {
        CaseSensitivity::Sensitive
    } else {
        CaseSensitivity::Insensitive
    }
}

/// A change is refused with a reason exactly where work, a filter or a changed file stands in its
/// way.
pub proof fn lemma_change_is_refused(document: &Document, reason: Option<&'static str>)
    requires
        call_ensures(Document::structural_edit_disabled_reason, (document,), reason),
    ensures
        reason is None <==> free(document@),
{
}

/// The header row is written with the names that headers have now.
pub proof fn lemma_header_row_is_written(document: &Document, fields: Vec<Vec<u8>>, column: usize)
    requires
        document@.edits.header_edit is None,
        document@.source.first_rows.len() > 0,
        call_ensures(Document::current_header_fields, (document,), fields),
    ensures
        fields@.len() == document@.source.first_rows[0].len(),
        column < fields@.len() ==> fields@[column as int]@ == header_now(document@, column),
{
    let held = crate::model::cells_of(fields@);
    assert(held.len() == fields@.len());
    if column < fields@.len() {
        assert(held[column as int] == fields@[column as int]@);
    }
}

/// What a change needs is noted once it is there; where it cannot be had, the document is left
/// without it, and no edit is lost.
pub proof fn lemma_preparations_are_noted(
    guarded: &mut Document,
    created: &mut Document,
    guard: Result<(), Failure>,
    directory: Result<(), String>,
    results: (Result<(), AppMessage>, Result<(), AppMessage>),
)
    requires
        call_ensures(Document::original_guarded, (guarded, guard), results.0),
        call_ensures(Document::directory_created, (created, directory), results.1),
    ensures
        results.0 is Ok <==> guard is Ok,
        guard is Ok ==> final(guarded)@.has_original && final(guarded)@.working_copy == old(guarded)@.working_copy,
        guard matches Err(failure) ==> (final(guarded)@.source_changed <==> old(guarded)@.source_changed || !(failure
            is Other)),
        final(guarded)@.edits == old(guarded)@.edits,
        results.1 is Ok <==> directory is Ok,
        directory is Ok ==> (final(created)@.working_copy matches Some(copies) && copies.undo is None && copies.redo
            is None),
        directory is Err ==> final(created)@ == old(created)@,
        final(created)@.edits == old(created)@.edits,
{
    reveal(crate::saving::outdated);
    reveal(crate::saving::stopped);
}

/// Working copies are let go of where neither undo nor redo goes to one and none is shown, and only
/// there.
pub proof fn lemma_working_copies_are_let_go(document: &mut Document)
    requires
        call_ensures(Document::cleanup_empty_working_copy, (document,), ()),
    ensures
        ({
            let before = old(document)@;
            let after = final(document)@;
            let empty = before.source.file == FileId::Original && (before.working_copy matches Some(copies)
                && copies.undo is None && copies.redo is None);
            &&& empty ==> after.working_copy is None && !after.has_original
            &&& !empty ==> after == before
            &&& after.edits == before.edits
            &&& after.source == before.source
        }),
{
    reveal(crate::structural::without_empty_copies);
}

/// Each working copy has a file of its own.
pub proof fn lemma_working_copies_differ(
    first: &mut crate::model::WorkingCopyState,
    second: &mut crate::model::WorkingCopyState,
    one: FileId,
    other: FileId,
)
    requires
        old(first).next_generation < u64::MAX,
        call_ensures(crate::model::WorkingCopyState::next_file, (first,), one),
        final(first)@ == old(second)@,
        call_ensures(crate::model::WorkingCopyState::next_file, (second,), other),
    ensures
        one != other,
        one is Generation,
        other is Generation,
        final(second)@.undo == old(first)@.undo,
        final(second)@.redo == old(first)@.redo,
{
}

/// A change that is made removes the working copies that undo and redo went to before and that no
/// state needs any more; one that is not made removes the copy that it was to make.
pub proof fn lemma_unneeded_copies_are_removed(
    document: &mut Document,
    outcome: StructuralOutcome,
    result: Result<StructuralStep, AppMessage>,
    file: FileId,
)
    requires
        old(document)@.structural.job matches Some(JobView::Changing { .. }),
        old(document)@.working_copy is Some,
        outcome is Complete || outcome is Cancelled || outcome is NoMatch,
        call_ensures(Document::structural_finished, (document, outcome), result),
    ensures
        ({
            let before = old(document)@;
            let copies = before.working_copy->0;
            let removed = final(document)@.effects.contains(Effect::RemoveFile(file));
            let was_undo = copies.undo matches Some(state) && state.file == file;
            let was_redo = copies.redo matches Some(state) && state.file == file;
            &&& outcome is Complete && file is Generation && file != before.source.file && (was_undo || was_redo) ==> removed
            &&& outcome is Complete && removed ==> before.effects.contains(Effect::RemoveFile(file)) || (file is Generation
                && file != before.source.file && (was_undo || was_redo))
            &&& !(outcome is Complete) && before.structural.job->0->destination == file ==> removed
        }),
{
    reveal(with_change_accepted);
    reveal(crate::structural::without_empty_copies);
    let before = crate::structural::idle(old(document)@);
    let copies = before.working_copy->0;
    let effect = Effect::RemoveFile(file);
    if outcome is Complete {
        let first = crate::structural::obsolete(before, copies.undo);
        let second = crate::structural::obsolete(before, copies.redo);
        let once = also(before.effects, first, Effect::RemoveFile(copies.undo->0.file));
        let twice = also(once, second, Effect::RemoveFile(copies.redo->0.file));
        lemma_pushed(before.effects, Effect::RemoveFile(copies.undo->0.file), effect);
        lemma_pushed(once, Effect::RemoveFile(copies.redo->0.file), effect);
        assert(final(document)@.effects == twice);
    } else {
        lemma_pushed(before.effects, Effect::RemoveFile(old(document)@.structural.job->0->destination), effect);
    }
}

proof fn lemma_pushed(effects: Seq<Effect>, last: Effect, wanted: Effect)
    ensures
        effects.push(last).contains(wanted) <==> effects.contains(wanted) || last == wanted,
{
    let after = effects.push(last);
    if effects.contains(wanted) {
        let i = choose|i: int| 0 <= i < effects.len() && effects[i] == wanted;
        assert(after[i] == wanted);
    }
    if last == wanted {
        assert(after[effects.len() as int] == wanted);
    }
    if after.contains(wanted) {
        let i = choose|i: int| 0 <= i < after.len() && after[i] == wanted;
        if i < effects.len() {
            assert(effects[i] == wanted);
        }
    }
}

} // verus!
