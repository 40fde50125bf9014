//! What edits are for: the laws that names, cells and saves keep to.

use crate::browsing::at_rest;
use crate::change_laws::{lemma_no_entries, lemma_renames_of};
use crate::document::{shown, source_header, title, Document, DocumentView};
use crate::edits::{committed, lemma_commit_frame, lemma_commit_is_idempotent};
use crate::message::{AppMessage, MessageSeverity};
use crate::model::{edits_of, CellEditView, Effect, Failure, FileId, HeaderEditView, JobProgress};
use crate::rows::GridSelection;
use crate::saving::{
    also, asks_to_save, outdated, save_checked, stopped, ExportOutcome, SaveOutcome, SaveRequest, SaveTarget,
};
use std::collections::BTreeMap;
use vstd::prelude::*;
use vstd::utf8::*;

verus! {

/// The name that a header has now: its new one, else that of the file, where that is text.
pub open spec fn name_now(document: DocumentView, column: usize) -> Option<Seq<char>> {
    let header = document.source.first_rows[0];
    if document.edits.renames.dom().contains(column) {
        Some(document.edits.renames[column])
    } else if document.source.has_header && document.source.first_rows.len() > 0 && column < header.len() && valid_utf8(
        header[column as int],
    ) {
        Some(decode_utf8(header[column as int]))
    } else {
        None
    }
}

/// The header row of the file holds text in a column, and no work keeps it from being renamed.
pub open spec fn can_rename(document: DocumentView, column: usize) -> bool {
    &&& document.source.has_header
    &&& document.source.first_rows.len() > 0
    &&& column < document.source.first_rows[0].len()
    &&& valid_utf8(document.source.first_rows[0][column as int])
    &&& !document.save.running
    &&& !document.export.running
    &&& !document.search.running
    &&& document.structural.job is None
}

/// The grid shows the names that headers have now.
pub open spec fn titled(document: DocumentView) -> bool {
    &&& document.grid.headers.len() == shown(document).len()
    &&& forall|i: int|
        0 <= i < shown(document).len() ==> #[trigger] document.grid.headers[i] == title(document, shown(document)[i])
}

/// No new name is that of the file.
pub open spec fn names_are_new(document: DocumentView) -> bool {
    forall|column: usize| #[trigger]
        document.edits.renames.dom().contains(column) ==> source_header(document.source, column) != Some(
            document.edits.renames[column],
        )
}

/// Opening a header for editing shows the name that the header has now; what was being typed is
/// kept first.
pub proof fn lemma_header_opens_with_its_name(document: &mut Document, column: usize)
    requires
        call_ensures(Document::begin_header_edit, (document, column), ()),
    ensures
        ({
            let before = old(document)@;
            let after = final(document)@;
            &&& can_rename(before, column) ==> (after.edits.header_edit matches Some(edit) && edit.column == column
                && Some(edit.draft) == name_now(before, column) && edit.focus_requested)
            &&& !can_rename(before, column) ==> after == before
            &&& at_rest(before) ==> after.edits.renames == before.edits.renames && after.edits.cells == before.edits.cells
                && after.grid == before.grid && after.working_copy == before.working_copy
        }),
{
    reveal(committed);
}

/// A header that is opened and committed without typing keeps its name, as do all others, and
/// nothing else changes either: not the titles, not the cells, and not what redo goes to.
pub proof fn lemma_untouched_header_keeps_its_name(opened: &mut Document, kept: &mut Document, column: usize)
    requires
        at_rest(old(opened)@),
        names_are_new(old(opened)@),
        call_ensures(Document::begin_header_edit, (opened, column), ()),
        final(opened)@ == old(kept)@,
        call_ensures(Document::commit_header_edit, (kept,), ()),
    ensures
        final(kept)@ == old(opened)@,
        forall|other: usize| name_now(final(kept)@, other) == name_now(old(opened)@, other),
{
    assert(final(kept)@ =~= old(opened)@);
}

/// A name that is typed and committed is the name of its header from then on; no other header is
/// renamed, no cell is touched, and the grid shows the names as they are.
pub proof fn lemma_typed_name_is_kept(document: &mut Document, edit: HeaderEditView, other: usize)
    requires
        old(document)@.edits.header_edit == Some(edit),
        can_rename(old(document)@, edit.column),
        call_ensures(Document::commit_header_edit, (document,), ()),
    ensures
        ({
            let before = old(document)@;
            let after = final(document)@;
            &&& after.edits.header_edit is None
            &&& name_now(after, edit.column) == Some(edit.draft)
            &&& other != edit.column ==> name_now(after, other) == name_now(before, other)
            &&& after.edits.cells == before.edits.cells
            &&& after.edits.cell_edit == before.edits.cell_edit
            &&& name_now(before, edit.column) != Some(edit.draft) ==> titled(after)
            &&& after.source == before.source
        }),
{
}

/// A header that is renamed has the new name, and no other header is touched. One that gets the
/// name that it has in the file is as it was in the file.
pub proof fn lemma_header_is_renamed(
    document: &mut Document,
    column: usize,
    name: String,
    result: Result<(), String>,
    other: usize,
)
    requires
        call_ensures(Document::rename_header, (document, column, name), result),
    ensures
        ({
            let before = old(document)@;
            let after = final(document)@;
            &&& result is Ok <==> can_rename(before, column)
            &&& result is Err ==> after == before
            &&& result is Ok ==> {
                &&& name_now(after, column) == Some(name@)
                &&& other != column ==> name_now(after, other) == name_now(before, other)
                &&& after.edits.renames.dom().contains(column) <==> source_header(before.source, column) != Some(name@)
                &&& after.edits.cells == before.edits.cells
                &&& after.source == before.source
                &&& before.edits.renames != after.edits.renames ==> titled(after) && (after.working_copy matches Some(copies)
                    ==> copies.redo is None)
            }
        }),
{
}

/// The bytes of a cell that the file holds as `source`, with edits that were kept.
pub open spec fn bytes_now(document: DocumentView, row: u64, column: usize, source: Seq<u8>) -> Seq<u8> {
    if document.edits.cells.dom().contains((row, column)) {
        document.edits.cells[(row, column)]
    } else {
        source
    }
}

/// Cells can be edited: no work runs that stands in the way, no filter is applied, and the file has
/// not changed.
pub open spec fn can_edit_cells(document: DocumentView) -> bool {
    &&& !document.source_changed
    &&& document.filter.query is None
    &&& !document.filter.running
    &&& !document.save.running
    &&& !document.export.running
    &&& !document.search.running
    &&& document.structural.job is None
}

/// Opening a cell for editing shows what the cell holds now and selects it; what was being typed is
/// kept first.
pub proof fn lemma_cell_opens_with_its_bytes(
    document: &mut Document,
    row: u64,
    column: usize,
    source: Vec<u8>,
    result: Result<(), String>,
)
    requires
        call_ensures(Document::begin_cell_edit, (document, row, column, source), result),
    ensures
        ({
            let before = old(document)@;
            let after = final(document)@;
            let bytes = bytes_now(committed(before), row, column, source@);
            &&& result is Ok <==> can_edit_cells(before) && valid_utf8(source@)
            &&& result is Err ==> after == before
            &&& result is Ok ==> {
                &&& after.edits.cell_edit matches Some(edit) && edit.row == row && edit.column == column && edit.source
                    == source@ && (valid_utf8(bytes) ==> encode_utf8(edit.draft) == bytes)
                &&& after.edits.header_edit is None
                &&& after.selection.selection == Some(GridSelection::Cell { row, column })
                &&& after.edits.cells == committed(before).edits.cells
                &&& after.edits.renames == committed(before).edits.renames
                &&& after.source == before.source
                &&& after.grid.rows == before.grid.rows
            }
        }),
{
    reveal(committed);
    let before = old(document)@;
    let bytes = bytes_now(committed(before), row, column, source@);
    if valid_utf8(bytes) {
        decode_utf8_encode_utf8(bytes);
    }
    lemma_commit_frame(before);
    lemma_commit_is_idempotent(before);
}

/// A cell that is opened and committed without typing holds what it held, as do all others, and
/// redo goes where it went.
pub proof fn lemma_untouched_cell_keeps_its_bytes(
    opened: &mut Document,
    kept: &mut Document,
    row: u64,
    column: usize,
    source: Vec<u8>,
    result: Result<(), String>,
)
    requires
        at_rest(old(opened)@),
        valid_utf8(bytes_now(old(opened)@, row, column, source@)),
        old(opened)@.edits.cells.dom().contains((row, column)) ==> old(opened)@.edits.cells[(row, column)] != source@,
        call_ensures(Document::begin_cell_edit, (opened, row, column, source), result),
        result is Ok,
        final(opened)@ == old(kept)@,
        call_ensures(Document::commit_cell_edit, (kept,), ()),
    ensures
        final(kept)@.edits == old(opened)@.edits,
        final(kept)@.working_copy == old(opened)@.working_copy,
        final(kept)@.search == old(opened)@.search,
{
    decode_utf8_encode_utf8(bytes_now(old(opened)@, row, column, source@));
    assert(final(kept)@.edits =~= old(opened)@.edits);
}

/// What is typed into a cell and committed is what the cell holds; no other cell and no header is
/// touched. A cell that holds what the file holds is no edit.
pub proof fn lemma_typed_cell_is_kept(
    document: &mut Document,
    edit: CellEditView,
    other: (u64, usize),
    source: Seq<u8>,
)
    requires
        old(document)@.edits.cell_edit == Some(edit),
        !old(document)@.save.running,
        call_ensures(Document::commit_cell_edit, (document,), ()),
    ensures
        ({
            let before = old(document)@;
            let after = final(document)@;
            &&& after.edits.cell_edit is None
            &&& bytes_now(after, edit.row, edit.column, edit.source) == encode_utf8(edit.draft)
            &&& after.edits.cells.dom().contains((edit.row, edit.column)) <==> encode_utf8(edit.draft) != edit.source
            &&& other != (edit.row, edit.column) ==> bytes_now(after, other.0, other.1, source) == bytes_now(
                before,
                other.0,
                other.1,
                source,
            ) && (after.edits.cells.dom().contains(other) <==> before.edits.cells.dom().contains(other))
            &&& after.edits.renames == before.edits.renames
            &&& after.edits.header_edit == before.edits.header_edit
            &&& after.edits.cells != before.edits.cells ==> (after.working_copy matches Some(copies) ==> copies.redo
                is None) && after.search.history.len() == 0 && after.search.last_match is None
        }),
{
}

/// A commit keeps both the header and the cell that are being typed, as committing the one and then
/// the other does, and while a save runs it changes nothing.
pub proof fn lemma_commit_keeps_both(whole: &mut Document, header: &mut Document, cell: &mut Document)
    requires
        call_ensures(Document::commit_edits, (whole,), ()),
        old(header)@ == old(whole)@,
        call_ensures(Document::commit_header_edit, (header,), ()),
        final(header)@ == old(cell)@,
        call_ensures(Document::commit_cell_edit, (cell,), ()),
    ensures
        final(whole)@ == final(cell)@,
        old(whole)@.save.running ==> final(whole)@ == old(whole)@,
        !old(whole)@.save.running ==> final(whole)@.edits.header_edit is None && final(whole)@.edits.cell_edit is None,
{
    reveal(committed);
}

/// Discarding leaves no edit, the file that is shown and its rows, and the names of the file in
/// the grid; while a save runs it changes nothing.
pub proof fn lemma_discard_leaves_no_edit(document: &mut Document)
    requires
        call_ensures(Document::discard_edits, (document,), ()),
    ensures
        ({
            let before = old(document)@;
            let after = final(document)@;
            &&& before.save.running ==> after == before
            &&& !before.save.running ==> {
                &&& after.edits.renames.dom() == Set::<usize>::empty()
                &&& after.edits.cells.dom() == Set::<(u64, usize)>::empty()
                &&& after.edits.header_edit is None
                &&& after.edits.cell_edit is None
                &&& titled(after)
            }
            &&& after.source == before.source
            &&& after.grid.rows == before.grid.rows
            &&& after.index == before.index
            &&& after.filter == before.filter
            &&& before.source.file != FileId::Original ==> after.working_copy == before.working_copy
        }),
{
}

/// Discarding the names of headers leaves the cells as they are.
pub proof fn lemma_discarded_names(document: &mut Document)
    requires
        call_ensures(Document::discard_header_edits, (document,), ()),
        !old(document)@.save.running,
    ensures
        final(document)@.edits.renames.dom() == Set::<usize>::empty(),
        final(document)@.edits.header_edit is None,
        final(document)@.edits.cells == old(document)@.edits.cells,
        final(document)@.edits.cell_edit == old(document)@.edits.cell_edit,
        titled(final(document)@),
        final(document)@.working_copy == old(document)@.working_copy,
        final(document)@.selection == old(document)@.selection,
{
}

/// Where nothing is being typed, the document differs from its file where a header or a cell has an
/// edit or a working copy is shown.
pub proof fn lemma_what_is_dirty(document: &Document, dirty: bool, cells: bool, structure: bool)
    requires
        call_ensures(Document::is_dirty, (document,), dirty),
        call_ensures(Document::has_cell_edits, (document,), cells),
        call_ensures(Document::has_structural_edits, (document,), structure),
        document@.edits.header_edit is None,
        document@.edits.cell_edit is None,
    ensures
        dirty <==> document@.edits.renames.dom() != Set::<usize>::empty() || cells || structure,
        cells <==> document@.edits.cells.dom() != Set::<(u64, usize)>::empty(),
        structure <==> document@.source.file != FileId::Original,
{
    lemma_no_entries(document@.edits.renames);
    lemma_no_entries(document@.edits.cells);
}

/// The value of a cell is what is being typed into it, else what it holds now.
pub proof fn lemma_value_of_cell(document: &Document, row: u64, column: usize, source: &[u8], value: Vec<u8>)
    requires
        call_ensures(Document::cell_value, (document, row, column, source), value),
    ensures
        match document@.edits.cell_edit {
            Some(edit) if edit.row == row && edit.column == column => value@ == encode_utf8(edit.draft),
            _ => value@ == bytes_now(document@, row, column, source@),
        },
{
}

/// Each cell of a row has its value.
pub proof fn lemma_values_of_row(
    document: &Document,
    row: u64,
    fields: &[Vec<u8>],
    cells: Vec<Vec<u8>>,
    column: usize,
    source: &[u8],
    value: Vec<u8>,
)
    requires
        call_ensures(Document::row_with_edits, (document, row, fields), cells),
        column < fields@.len(),
        source@ == fields@[column as int]@,
        call_ensures(Document::cell_value, (document, row, column, source), value),
    ensures
        cells@.len() == fields@.len(),
        cells@[column as int]@ == value@,
{
    let held = crate::model::cells_of(cells@);
    assert(held.len() == cells@.len());
    assert(held.len() == fields@.len());
    assert(held[column as int] == cells@[column as int]@);
}

/// There is something to save once what is being typed is kept, and nothing stands in the way.
pub open spec fn can_save(document: DocumentView) -> bool {
    let kept = committed(document);
    &&& !document.source_changed
    &&& !document.save.running
    &&& !document.export.running
    &&& kept.edits.renames.dom() != Set::<usize>::empty() || kept.edits.cells.dom() != Set::<(u64, usize)>::empty()
        || document.source.file != FileId::Original
}

/// A save writes every new name, as bytes, and every new cell of a document, and no others.
pub open spec fn holds_every_edit(request: SaveRequest, document: DocumentView) -> bool {
    &&& request.renames@.dom() == document.edits.renames.dom()
    &&& forall|column: usize| #[trigger]
        request.renames@.dom().contains(column) ==> request.renames@[column]@ == encode_utf8(
            document.edits.renames[column],
        )
    &&& request.cell_edits@.dom() == document.edits.cells.dom()
    &&& forall|cell: (u64, usize)| #[trigger]
        request.cell_edits@.dom().contains(cell) ==> request.cell_edits@[cell]@ == document.edits.cells[cell]
}

/// A save that is asked for holds every edit, whether or not it goes to another file; where there
/// is none, nothing is lost.
pub open spec fn saves(
    before: DocumentView,
    after: DocumentView,
    to_another_file: bool,
    result: Result<SaveRequest, AppMessage>,
) -> bool {
    &&& result is Ok <==> can_save(before)
    &&& result matches Ok(request) ==> {
        &&& holds_every_edit(request, committed(before))
        &&& request.target == SaveTarget::Copy <==> to_another_file
        &&& request.target == SaveTarget::Original <==> !to_another_file && before.source.file != FileId::Original
        &&& after == committed(before)
    }
    &&& result matches Err(message) ==> message.severity == MessageSeverity::Warning && (after == before || after
        == committed(before))
}

/// A request to save a document holds every edit of it.
pub proof fn lemma_asks_to_save(document: DocumentView, to_another_file: bool, request: SaveRequest)
    requires
        asks_to_save(document, to_another_file, request),
    ensures
        holds_every_edit(request, document),
        request.target == SaveTarget::Copy <==> to_another_file,
        request.target == SaveTarget::Original <==> !to_another_file && document.source.file != FileId::Original,
{
    reveal(asks_to_save);
    lemma_renames_of(request.renames@, document.edits.renames);
    assert(edits_of(request.cell_edits@).dom() =~= request.cell_edits@.dom());
    assert forall|cell: (u64, usize)| #[trigger] request.cell_edits@.dom().contains(cell) implies request.cell_edits@[cell]@
        == document.edits.cells[cell] by {
        assert(edits_of(request.cell_edits@)[cell] == request.cell_edits@[cell]@);
    }
}

/// A save is refused exactly where there is nothing to save or something stands in the way.
pub proof fn lemma_save_check(document: DocumentView)
    ensures
        save_checked(document).1 is None <==> can_save(document),
        save_checked(document).0 == document || save_checked(document).0 == committed(document),
        can_save(document) ==> save_checked(document).0 == committed(document),
{
    reveal(save_checked);
    let kept = committed(document);
    lemma_commit_frame(document);
    lemma_commit_is_idempotent(document);
    lemma_no_entries(kept.edits.renames);
    lemma_no_entries(kept.edits.cells);
}

/// A save in place and one to another file write the same edits, all of them.
pub proof fn lemma_save_holds_every_edit(
    document: &mut Document,
    to_another_file: bool,
    result: Result<SaveRequest, AppMessage>,
)
    requires
        call_ensures(Document::start_save_operation, (document, to_another_file), result),
    ensures
        saves(old(document)@, final(document)@, to_another_file, result),
{
    lemma_save_check(old(document)@);
    lemma_commit_frame(old(document)@);
    if let Ok(request) = result {
        lemma_asks_to_save(final(document)@, to_another_file, request);
    }
}

/// Save and Save As of one document hold the same new names and the same new cells, and differ in
/// where they go.
pub proof fn lemma_save_and_save_as_agree(
    one: &mut Document,
    other: &mut Document,
    in_place: Result<SaveRequest, AppMessage>,
    elsewhere: Result<SaveRequest, AppMessage>,
)
    requires
        old(one)@ == old(other)@,
        call_ensures(Document::start_save, (one,), in_place),
        call_ensures(Document::start_save_as, (other,), elsewhere),
    ensures
        saves(old(one)@, final(one)@, false, in_place),
        saves(old(other)@, final(other)@, true, elsewhere),
        in_place is Ok <==> elsewhere is Ok,
        final(one)@ == final(other)@,
        in_place matches Ok(request) ==> (elsewhere matches Ok(copy) && {
            &&& request.target != copy.target
            &&& request.renames@.dom() == copy.renames@.dom()
            &&& request.cell_edits@.dom() == copy.cell_edits@.dom()
            &&& forall|column: usize| #[trigger]
                request.renames@.dom().contains(column) ==> request.renames@[column]@ == copy.renames@[column]@
            &&& forall|cell: (u64, usize)| #[trigger]
                request.cell_edits@.dom().contains(cell) ==> request.cell_edits@[cell]@ == copy.cell_edits@[cell]@
        }),
{
    lemma_save_check(old(one)@);
    lemma_commit_frame(old(one)@);
    if let Ok(request) = in_place {
        lemma_asks_to_save(final(one)@, false, request);
    }
    if let Ok(request) = elsewhere {
        lemma_asks_to_save(final(other)@, true, request);
    }
}

/// A save that has started runs until it ends, and is remembered as in place or not; one that could
/// not start is told of. No edit is touched.
pub proof fn lemma_save_has_started(
    document: &mut Document,
    in_place: bool,
    outcome: Result<(), Failure>,
    result: Result<(), AppMessage>,
)
    requires
        call_ensures(Document::save_started, (document, in_place, outcome), result),
    ensures
        result is Ok <==> outcome is Ok,
        outcome is Ok ==> final(document)@.save.running && final(document)@.save.in_place == in_place && !final(document)@.save.cancel_requested,
        outcome matches Err(failure) ==> (failure is SourceChanged && final(document)@.source_changed && !final(document)@.save.running) || (
        !(failure is SourceChanged) && final(document)@ == old(document)@),
        final(document)@.edits == old(document)@.edits,
        final(document)@.source == old(document)@.source,
        final(document)@.working_copy == old(document)@.working_copy,
{
    reveal(outdated);
    reveal(stopped);
}

/// A save that has ended runs no more, and touches no edit. A complete one is told apart as in
/// place or not; a failed one gives an error.
pub proof fn lemma_save_has_ended(document: &mut Document, outcome: SaveOutcome, result: Result<Option<bool>, AppMessage>)
    requires
        call_ensures(Document::save_finished, (document, outcome), result),
    ensures
        !final(document)@.save.running,
        !final(document)@.save.cancel_requested,
        final(document)@.edits == old(document)@.edits,
        final(document)@.source == old(document)@.source,
        final(document)@.working_copy == old(document)@.working_copy,
        match outcome {
            SaveOutcome::Complete => result matches Ok(Some(in_place)) && in_place == old(document)@.save.in_place,
            SaveOutcome::Cancelled => result matches Ok(None),
            SaveOutcome::Failed(failure) => result is Err && (final(document)@.source_changed <==> (failure
                is SourceChanged || old(document)@.source_changed)),
        },
{
    reveal(outdated);
    reveal(stopped);
}

/// A save that runs is told to stop, and runs on until it has stopped.
pub proof fn lemma_save_is_cancelled(document: &mut Document)
    requires
        call_ensures(Document::cancel_save, (document,), ()),
    ensures
        final(document)@.save.running == old(document)@.save.running,
        final(document)@.save.in_place == old(document)@.save.in_place,
        final(document)@.edits == old(document)@.edits,
        final(document)@.export == old(document)@.export,
        old(document)@.save.running ==> final(document)@.save.cancel_requested && final(document)@.effects
            == old(document)@.effects.push(Effect::CancelSave),
        !old(document)@.save.running ==> final(document)@ == old(document)@,
{
}

/// A filter has run over the whole file.
pub open spec fn filter_is_complete(document: DocumentView) -> bool {
    &&& document.filter.query is Some
    &&& !document.filter.running
    &&& document.filter.progress matches Some(progress) && progress.done && !progress.cancelled
}

/// Filtered rows can be exported where a filter has run over the whole file, the file has every
/// edit, and no save or export runs.
pub proof fn lemma_export_is_asked_for(document: &mut Document, result: Result<(), AppMessage>)
    requires
        call_ensures(Document::start_filtered_export, (document,), result),
    ensures
        ({
            let before = old(document)@;
            let kept = committed(before);
            &&& result is Ok <==> filter_is_complete(before) && !before.save.running && !before.export.running
                && kept.edits.renames.dom() == Set::<usize>::empty() && kept.edits.cells.dom() == Set::<
                (u64, usize),
            >::empty() && before.source.file == FileId::Original
            &&& result matches Err(message) ==> message.severity == MessageSeverity::Warning
            &&& final(document)@ == if before.save.running {
                before
            } else {
                kept
            }
        }),
{
    let before = old(document)@;
    let kept = committed(before);
    lemma_commit_frame(before);
    lemma_commit_is_idempotent(before);
    lemma_no_entries(kept.edits.renames);
    lemma_no_entries(kept.edits.cells);
}

/// An export that has started runs, tells how far it is, and ends with a message where it failed.
/// None of this touches the document itself.
pub proof fn lemma_export_runs(
    started: &mut Document,
    progressed: &mut Document,
    ended: &mut Document,
    cancelled: &mut Document,
    start: JobProgress,
    progress: JobProgress,
    outcome: ExportOutcome,
    result: Result<(), String>,
)
    requires
        call_ensures(Document::export_started, (started, start), ()),
        call_ensures(Document::export_progressed, (progressed, progress), ()),
        call_ensures(Document::export_finished, (ended, outcome), result),
        call_ensures(Document::cancel_filtered_export, (cancelled,), ()),
    ensures
        final(started)@.export.running,
        final(started)@.export.progress == Some(start),
        !final(started)@.export.cancel_requested,
        final(started)@ == (DocumentView { export: final(started)@.export, ..old(started)@ }),
        final(progressed)@.export.progress == Some(progress),
        final(progressed)@.export.running == old(progressed)@.export.running,
        final(progressed)@.export.cancel_requested == old(progressed)@.export.cancel_requested,
        final(progressed)@ == (DocumentView { export: final(progressed)@.export, ..old(progressed)@ }),
        !final(ended)@.export.running,
        !final(ended)@.export.cancel_requested,
        result is Err <==> outcome is Failed,
        outcome matches ExportOutcome::Failed(message) ==> result matches Err(told) && told@ == message@,
        final(ended)@ == (DocumentView { export: final(ended)@.export, ..old(ended)@ }),
        final(cancelled)@.export.running == old(cancelled)@.export.running,
        old(cancelled)@.export.running ==> final(cancelled)@.export.cancel_requested && final(cancelled)@.effects
            == old(cancelled)@.effects.push(Effect::CancelExport),
        final(cancelled)@.edits == old(cancelled)@.edits,
        final(cancelled)@.save == old(cancelled)@.save,
{
}

/// Save and export are offered where they would be done.
pub proof fn lemma_save_is_offered(document: &Document, save: bool, export: bool)
    requires
        call_ensures(Document::is_save_ready, (document,), save),
        call_ensures(Document::is_filtered_export_ready, (document,), export),
        document@.edits.header_edit is None,
        document@.edits.cell_edit is None,
    ensures
        save <==> can_save(document@) && document@.structural.job is None,
        export <==> filter_is_complete(document@) && document@.edits.cells.dom() == Set::<(u64, usize)>::empty()
            && !document@.save.running && !document@.export.running,
{
    crate::browsing::lemma_rest(document@);
    lemma_no_entries(document@.edits.renames);
    lemma_no_entries(document@.edits.cells);
}

/// Once its file has changed, nothing runs on a document and no row is at hand, but no edit is lost.
/// Work that ran is told to stop.
pub proof fn lemma_changed_file(document: &mut Document)
    requires
        call_ensures(Document::invalidate_changed_source, (document,), ()),
    ensures
        ({
            let before = old(document)@;
            let after = final(document)@;
            &&& after.source_changed
            &&& after.edits == before.edits
            &&& after.working_copy == before.working_copy
            &&& after.grid.rows.len() == 0
            &&& after.filter.query is None
            &&& after.filter.rows.len() == 0
            &&& after.index.indexed_rows is None
            &&& nothing_runs(after)
            &&& tells_to_stop(before, after)
        }),
{
    reveal(outdated);
    reveal(stopped);
    lemma_stops(old(document)@);
}

/// Shutting a document down stops all work on it, and leaves the document as it is.
pub proof fn lemma_shutdown(document: &mut Document)
    requires
        call_ensures(Document::shutdown, (document,), ()),
    ensures
        nothing_runs(final(document)@),
        tells_to_stop(old(document)@, final(document)@),
        final(document)@.edits == old(document)@.edits,
        final(document)@.source == old(document)@.source,
        final(document)@.working_copy == old(document)@.working_copy,
        final(document)@.grid == old(document)@.grid,
        final(document)@.selection == old(document)@.selection,
        final(document)@.source_changed == old(document)@.source_changed,
{
    reveal(stopped);
    lemma_stops(old(document)@);
}

proof fn lemma_also(effects: Seq<Effect>, needed: bool, effect: Effect)
    ensures
        needed ==> also(effects, needed, effect).contains(effect),
        forall|asked: Effect| effects.contains(asked) ==> #[trigger] also(effects, needed, effect).contains(asked),
{
    let after = also(effects, needed, effect);
    if needed {
        assert(after[effects.len() as int] == effect);
    }
    assert forall|asked: Effect| effects.contains(asked) implies #[trigger] after.contains(asked) by {
        let i = choose|i: int| 0 <= i < effects.len() && effects[i] == asked;
        assert(after[i] == asked);
    }
}

/// Once work is stopped none runs, and each kind that ran is told so.
pub proof fn lemma_stops(before: DocumentView)
    ensures
        nothing_runs(stopped(before)),
        tells_to_stop(before, stopped(before)),
{
    reveal(stopped);
    let first = crate::filter::without_read(before).effects;
    lemma_also(first, before.structural.job is Some, Effect::CancelStructural);
    let second = also(first, before.structural.job is Some, Effect::CancelStructural);
    lemma_also(second, before.save.running, Effect::CancelSave);
    let third = also(second, before.save.running, Effect::CancelSave);
    lemma_also(third, before.export.running, Effect::CancelExport);
    let fourth = also(third, before.export.running, Effect::CancelExport);
    lemma_also(fourth, before.filter.running, Effect::CancelFilter);
    let fifth = also(fourth, before.filter.running, Effect::CancelFilter);
    lemma_also(fifth, before.search.running, Effect::CancelSearch);
    let sixth = also(fifth, before.search.running, Effect::CancelSearch);
    lemma_also(sixth, before.index.running, Effect::DropIndexing);
    let last = also(sixth, before.index.running, Effect::DropIndexing);
    assert(stopped(before).effects == last);
}

/// No outside work runs on a document.
pub open spec fn nothing_runs(document: DocumentView) -> bool {
    &&& document.structural.job is None
    &&& !document.save.running
    &&& !document.export.running
    &&& !document.filter.running
    &&& !document.search.running
    &&& !document.index.running
    &&& document.filter.read is None
}

/// Each kind of work that ran is told to stop.
pub open spec fn tells_to_stop(before: DocumentView, after: DocumentView) -> bool {
    &&& before.structural.job is Some ==> after.effects.contains(Effect::CancelStructural)
    &&& before.save.running ==> after.effects.contains(Effect::CancelSave)
    &&& before.export.running ==> after.effects.contains(Effect::CancelExport)
    &&& before.filter.running ==> after.effects.contains(Effect::CancelFilter)
    &&& before.search.running ==> after.effects.contains(Effect::CancelSearch)
    &&& before.index.running ==> after.effects.contains(Effect::DropIndexing)
}

/// A header can be edited, and a cell of the file, where its edit would be begun.
pub proof fn lemma_what_can_be_edited(
    document: &Document,
    column: usize,
    header: bool,
    source: &[u8],
    cell: bool,
    reason: Option<&'static str>,
    missing: bool,
)
    requires
        call_ensures(Document::header_is_editable, (document, column), header),
        call_ensures(Document::cell_is_editable, (document, Some(source)), cell),
        call_ensures(Document::cell_edit_disabled_reason, (document, Some(source)), reason),
        call_ensures(Document::cell_is_editable, (document, None), missing),
    ensures
        header <==> can_rename(document@, column),
        cell <==> can_edit_cells(document@) && valid_utf8(source@),
        reason is None <==> cell,
        !missing,
{
}

/// Giving up redo leaves undo and the document as they are, and removes a working copy that nothing
/// goes to any more.
pub proof fn lemma_redo_is_given_up(document: &mut Document)
    requires
        call_ensures(Document::invalidate_structural_redo, (document,), ()),
    ensures
        final(document)@.working_copy is Some <==> old(document)@.working_copy is Some,
        final(document)@.working_copy matches Some(copies) ==> copies.redo is None && copies.undo
            == old(document)@.working_copy->0.undo && copies.next_generation
            == old(document)@.working_copy->0.next_generation,
        final(document)@.edits == old(document)@.edits,
        final(document)@.source == old(document)@.source,
        old(document)@.working_copy matches Some(copies) ==> (copies.redo matches Some(state) ==> (state.file
            != old(document)@.source.file && state.file is Generation ==> final(document)@.effects
            == old(document)@.effects.push(Effect::RemoveFile(state.file)))),
{
}

/// Forgetting the search leaves no match and no text to look for.
pub proof fn lemma_search_is_forgotten(document: &mut Document)
    requires
        call_ensures(Document::forget_matches, (document,), ()),
    ensures
        final(document)@.search.history.len() == 0,
        final(document)@.search.last_match is None,
        final(document)@.search.history_index is None,
        final(document)@.search.query.len() == 0,
        final(document)@.search.running == old(document)@.search.running,
        final(document)@ == (DocumentView { search: final(document)@.search, ..old(document)@ }),
{
}

/// Every new name is written as the bytes of its text.
pub proof fn lemma_names_as_bytes(document: &Document, renames: BTreeMap<usize, Vec<u8>>, column: usize)
    requires
        call_ensures(Document::renames_as_bytes, (document,), renames),
    ensures
        renames@.dom().contains(column) <==> document@.edits.renames.dom().contains(column),
        renames@.dom().contains(column) ==> renames@[column]@ == encode_utf8(document@.edits.renames[column]),
{
    lemma_renames_of(renames@, document@.edits.renames);
}

/// Two byte strings are equal where their bytes are.
pub proof fn lemma_bytes_are_compared(one: &[u8], other: &[u8], equal: bool)
    requires
        call_ensures(crate::edits::bytes_equal, (one, other), equal),
    ensures
        equal <==> one@ == other@,
{
}

/// A cell is text where the bytes that it holds now are.
pub proof fn lemma_cell_is_text(document: &Document, row: u64, column: usize, source: &[u8], is_text: bool)
    requires
        at_rest(document@),
        call_ensures(Document::cell_is_text, (document, row, column, source), is_text),
    ensures
        is_text <==> valid_utf8(bytes_now(document@, row, column, source@)),
{
    crate::browsing::lemma_rest(document@);
}

} // verus!
