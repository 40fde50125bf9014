//! What refusals are for: the laws of which obstacle each of them names, where several stand in the
//! way.

use crate::browsing::{at_rest, lemma_rest};
use crate::document::{Document, DocumentView};
use crate::edit_laws::can_rename;
use crate::edits::committed;
use crate::message::AppMessage;
use crate::model::{FilterQuery, SOURCE_CHANGED_NOTICE};
use crate::saving::SaveRequest;
use crate::search::SearchStep;
use vstd::prelude::*;
use vstd::utf8::*;

verus! {

/// A save is refused because the file has changed, a save or an export runs, or nothing was changed,
/// in this order.
pub proof fn lemma_refused_save(
    document: &mut Document,
    to_another_file: bool,
    message: AppMessage,
)
    requires
        call_ensures(Document::start_save_operation, (document, to_another_file), Err::<SaveRequest, AppMessage>(message)),
    ensures
        ({
            let before = old(document)@;
            &&& before.source_changed ==> message@.text == SOURCE_CHANGED_NOTICE@
            &&& !before.source_changed && before.save.running ==> message@.text == "A save operation is already running."@
            &&& !before.source_changed && !before.save.running && before.export.running ==> message@.text
                == "Cancel the active export before saving."@
            &&& !before.source_changed && !before.save.running && !before.export.running ==> message@.text
                == "Make a change before saving."@
        }),
{
    reveal(crate::saving::save_checked);
}

/// An export is refused because a save runs, something is unsaved, an export runs, there is no filter,
/// or the filter has not run to its end, in this order.
pub proof fn lemma_refused_export(document: &mut Document, message: AppMessage, dirty: bool, kept: &Document)
    requires
        kept@ == committed(old(document)@),
        call_ensures(Document::is_dirty, (kept,), dirty),
        call_ensures(Document::start_filtered_export, (document,), Err::<(), AppMessage>(message)),
    ensures
        ({
            let before = old(document)@;
            let running = before.save.running;
            &&& running ==> message@.text == "Cancel the active save before exporting filtered rows."@
            &&& !running && dirty ==> message@.text == "Save or discard your changes before exporting filtered rows."@
            &&& !running && !dirty && before.export.running ==> message@.text == "A filtered export is already running."@
            &&& !running && !dirty && !before.export.running && before.filter.query is None ==> message@.text
                == "Apply a filter before exporting rows."@
            &&& !running && !dirty && !before.export.running && before.filter.query is Some && before.filter.running
                ==> message@.text == "Wait for filtering to complete before exporting."@
        }),
{
    crate::edits::lemma_commit_frame(old(document)@);
}

/// A search is refused because nothing was typed, a filter is applied, a search runs, or the file is
/// not indexed, in this order.
pub proof fn lemma_refused_search(
    document: &mut Document,
    query: &[u8],
    case_sensitivity: crate::literal::CaseSensitivity,
    message: String,
)
    requires
        at_rest(old(document)@),
        !crate::find_laws::can_find(old(document)@, query@),
        call_ensures(
            Document::start_find_next_with_case,
            (document, query, case_sensitivity),
            Err::<SearchStep, String>(message),
        ),
    ensures
        ({
            let before = old(document)@;
            &&& query@.len() == 0 ==> message@ == "Enter text to find."@
            &&& query@.len() > 0 && before.filter.query is Some ==> message@ == "Clear the filter before using Find."@
            &&& query@.len() > 0 && before.filter.query is None && before.search.running ==> message@
                == "A search is already running."@
            &&& query@.len() > 0 && before.filter.query is None && !before.search.running ==> message@
                == "Search is available after indexing completes."@
        }),
{
    lemma_rest(old(document)@);
}

/// A filter is refused because an export, a filter or a search runs, or a cell is edited, in this
/// order.
pub proof fn lemma_refused_filter(document: &mut Document, query: &FilterQuery, message: String, edited: bool, same: &Document)
    requires
        same@ == old(document)@,
        call_ensures(Document::has_cell_edits, (same,), edited),
        call_ensures(Document::start_filter, (document, query), Err::<(), String>(message)),
    ensures
        ({
            let before = old(document)@;
            let export = before.export.running;
            let filter = before.filter.running;
            let search = before.search.running;
            &&& export ==> message@ == "Cancel the active export before changing filters."@
            &&& !export && filter ==> message@ == "A filter is already running."@
            &&& !export && !filter && search ==> message@ == "Cancel the active search before filtering."@
            &&& !export && !filter && !search && edited ==> message@
                == "Save or discard cell edits before filtering the source file."@
            &&& !export && !filter && !search && !edited && query.predicates@.len() == 0
                && before.grid.total_columns > 0 && before.structural.job is None ==> message@
                == "Add at least one filter rule."@
        }),
{
}

/// A header is not renamed because a save, an export or a search runs, in this order, or because the
/// header row of the file has no text for it.
pub proof fn lemma_refused_name(document: &mut Document, column: usize, name: String, message: String)
    requires
        call_ensures(Document::rename_header, (document, column, name), Err::<(), String>(message)),
    ensures
        ({
            let before = old(document)@;
            &&& !can_rename(before, column)
            &&& before.save.running ==> message@ == "Wait for the save to finish before editing headers."@
            &&& !before.save.running && before.export.running ==> message@
                == "Wait for the filtered export to finish before editing headers."@
            &&& !before.save.running && !before.export.running && before.search.running ==> message@
                == "Wait for the search to finish before editing headers."@
            &&& !before.save.running && !before.export.running && !before.search.running ==> message@
                == "Only columns in the source header row can be renamed."@
        }),
{
}

/// A cell is not edited because a filter is applied, the file has changed, work runs, or it is not
/// text, in this order.
pub proof fn lemma_refused_cell(document: &mut Document, row: u64, column: usize, source: Vec<u8>, message: String)
    requires
        call_ensures(Document::begin_cell_edit, (document, row, column, source), Err::<(), String>(message)),
    ensures
        ({
            let before = old(document)@;
            let busy = before.save.running || before.export.running || before.search.running || before.filter.running
                || before.structural.job is Some;
            &&& before.filter.query is Some ==> message@ == "Clear the filter before editing data cells."@
            &&& before.filter.query is None && before.source_changed ==> message@
                == "Reopen the changed source before editing data cells."@
            &&& before.filter.query is None && !before.source_changed && busy ==> message@
                == "Wait for the active file operation before editing data cells."@
            &&& before.filter.query is None && !before.source_changed && !busy ==> message@
                == "This cell is not valid UTF-8 and cannot be edited."@ && !valid_utf8(source@)
        }),
{
}

/// A change is refused because the file has changed, a filter is applied or work runs, in this order.
pub proof fn lemma_refused_change(document: &Document, reason: Option<&'static str>)
    requires
        call_ensures(Document::structural_edit_disabled_reason, (document,), reason),
    ensures
        ({
            let busy = document@.save.running || document@.export.running || document@.search.running
                || document@.filter.running || document@.structural.job is Some;
            &&& document@.source_changed ==> (reason matches Some(words) && words@
                == "Reopen the changed source before editing the document."@)
            &&& !document@.source_changed && document@.filter.query is Some ==> (reason matches Some(words) && words@
                == "Clear the filter before editing the document."@)
            &&& !document@.source_changed && document@.filter.query is None && busy ==> (reason matches Some(words)
                && words@ == "Wait for the active file operation to finish."@)
        }),
{
}

/// Another file is not opened because a save or a change runs, something is unsaved, or an export
/// runs, in this order.
pub proof fn lemma_refused_open(document: &mut Document, refusal: &'static str, dirty: bool, kept: &Document)
    requires
        kept@ == committed(old(document)@),
        call_ensures(Document::is_dirty, (kept,), dirty),
        call_ensures(Document::open_refusal, (document,), Some(refusal)),
    ensures
        ({
            let before = old(document)@;
            let busy = before.save.running || before.structural.job is Some;
            &&& before.save.running ==> refusal@ == "Cancel the active save before opening another file."@
            &&& !before.save.running && before.structural.job is Some ==> refusal@
                == "Cancel the active change before opening another file."@
            &&& !busy && dirty ==> refusal@ == "Discard or save your changes before opening another file."@
            &&& !busy && !dirty ==> before.export.running && refusal@
                == "Cancel the active export and wait for it to finish before opening another file."@
        }),
{
    crate::edits::lemma_commit_frame(old(document)@);
}

/// Undo is refused because edits would be lost, redo never for that; both because work runs or there is
/// no state to go to.
pub proof fn lemma_refused_history(
    workspace: &mut crate::workspace::Workspace,
    document: DocumentView,
    redo: bool,
    request: crate::actions::Request,
)
    requires
        old(workspace)@.document == Some(document),
        at_rest(document),
        !document.save.running,
        !crate::session_laws::can_go(document, redo),
        call_ensures(crate::workspace::Workspace::begin_history, (workspace, redo), request),
    ensures
        ({
            let edited = document.edits.renames.dom() != Set::<usize>::empty() || document.edits.cells.dom() != Set::<
                (u64, usize),
            >::empty();
            let busy = document.export.running || document.structural.job is Some;
            final(workspace)@.notice matches Some(notice) && {
                &&& !redo && edited ==> notice.text
                    == "Save or discard later header and cell edits before undoing the change."@
                &&& (redo || !edited) && busy ==> notice.text == "Wait for the active file operation to finish."@
                &&& (redo || !edited) && !busy && document.working_copy is None ==> notice.text
                    == "There is no change to undo or redo."@
                &&& !redo && !edited && !busy && document.working_copy is Some ==> notice.text
                    == "There is no change to undo."@
                &&& redo && !busy && document.working_copy is Some ==> notice.text == "There is no change to redo."@
            }
        }),
{
    lemma_rest(document);
    crate::change_laws::lemma_no_entries(document.edits.renames);
    crate::change_laws::lemma_no_entries(document.edits.cells);
}

} // verus!
