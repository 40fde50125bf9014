//! What a session of the editor keeps to: the laws of opening, saving, going back, closing, and of
//! work that is told to stop.

use crate::actions::Request;
use crate::change_laws::{
    drops_columns, free, lemma_drops_columns, lemma_drops_rows, lemma_joins, lemma_measures, lemma_no_entries,
    lemma_rearranges, lemma_sorts, mode, names_columns, rearranges,
};
use crate::commands::{change_stored, dialog_asked, planned, planned_if_needed};
use crate::dialogs::{ColumnCommand, StructuralDialog, StructuralDialogAction, StructuralRequest};
use crate::document::{Document, DocumentView};
use crate::edit_laws::{can_save, holds_every_edit, lemma_asks_to_save, lemma_save_check, nothing_runs, tells_to_stop};
use crate::editor_laws::{inputs_kept, shows_document};
use crate::edits::{committed, lemma_commit_frame, lemma_commit_is_idempotent};
use crate::format::{DelimiterMode, HeaderMode};
use crate::jobs::{Action, ActiveJobKind};
use crate::message::{AppMessage, MessageSeverity};
use crate::model::{Effect, Failure, FileId, FilterQuery, JobProgress, SnapshotView};
use crate::saving::{SaveRequest, SaveTarget};
use crate::structural::{
    delete_columns_asked, delete_rows_asked, move_asked, Change, ChangePlan, MaterializedWorkingCopy,
};
use crate::text::{parsed, trimmed};
use crate::workspace::{with_edits_kept, Workspace};
use std::ops::RangeInclusive;
use vstd::prelude::*;
use vstd::utf8::*;

verus! {

/// The actions that are done with the document alone.
pub open spec fn is_on_document(action: Action) -> bool {
    match action {
        Action::Choose | Action::ReopenWithFormat(_, _) | Action::ReloadFromDisk | Action::ChooseSaveAs | Action::Save
        | Action::ChooseFilteredExport | Action::DiscardChanges | Action::OpenColumns | Action::UndoStructuralEdit
        | Action::RedoStructuralEdit | Action::OpenFilters => false,
        _ => true,
    }
}

/// Every action first keeps what is being typed. An action on the document is then done as it is
/// without typing.
pub proof fn lemma_action_keeps_typing(
    whole: &mut Workspace,
    kept: &mut Workspace,
    acted: &mut Workspace,
    action: Action,
    request: Request,
    same: Request,
)
    requires
        is_on_document(action),
        action != Action::ReplaceAll,
        call_ensures(Workspace::apply, (whole, action), request),
        old(kept)@ == old(whole)@,
        call_ensures(Workspace::commit_edits, (kept,), ()),
        old(acted)@ == final(kept)@,
        call_ensures(Workspace::act, (acted, action), same),
    ensures
        final(whole)@ == final(acted)@,
        request@ == same@,
        final(kept)@.document is Some <==> old(kept)@.document is Some,
        old(kept)@.document matches Some(document) ==> final(kept)@.document == Some(committed(document)),
{
}

/// The work that an action tells to stop.
pub open spec fn stops(action: Action) -> Option<Effect> {
    match action {
        Action::CancelSearch => Some(Effect::CancelSearch),
        Action::CancelFilter => Some(Effect::CancelFilter),
        Action::CancelExport => Some(Effect::CancelExport),
        Action::CancelSave => Some(Effect::CancelSave),
        Action::CancelStructuralEdit => Some(Effect::CancelStructural),
        Action::Cancel => Some(Effect::CancelIndexing),
        _ => None,
    }
}

/// The work that an action tells to stop runs.
pub open spec fn has_to_stop(document: DocumentView, action: Action) -> bool {
    match action {
        Action::CancelSearch => document.search.running,
        Action::CancelFilter => document.filter.running,
        Action::CancelExport => document.export.running,
        Action::CancelSave => document.save.running,
        Action::CancelStructuralEdit => document.structural.job is Some,
        Action::Cancel => document.index.running,
        _ => false,
    }
}

/// An action that tells work to stop tells its own kind of work, where that runs, and no other; the
/// document stays as it is.
pub proof fn lemma_action_stops_its_work(workspace: &mut Workspace, document: DocumentView, action: Action, request: Request)
    requires
        shows_document(old(workspace)@, document),
        stops(action) is Some,
        call_ensures(Workspace::act, (workspace, action), request),
    ensures
        request is Nothing,
        inputs_kept(old(workspace)@, final(workspace)@),
        final(workspace)@.document matches Some(after) && {
            &&& after.effects == if has_to_stop(document, action) {
                document.effects.push(stops(action)->0)
            } else {
                document.effects
            }
            &&& after.edits == document.edits
            &&& after.grid == document.grid
            &&& after.selection == document.selection
            &&& after.filter == document.filter
            &&& after.search == document.search
            &&& after.save.running == document.save.running
            &&& after.export.running == document.export.running
            &&& after.structural.job == document.structural.job
            &&& after.save.cancel_requested == (document.save.cancel_requested || action == Action::CancelSave
                && document.save.running)
            &&& after.export.cancel_requested == (document.export.cancel_requested || action == Action::CancelExport
                && document.export.running)
            &&& after.structural.cancel_requested == (document.structural.cancel_requested || action
                == Action::CancelStructuralEdit && document.structural.job is Some)
        },
{
    reveal(crate::actions::cancelled);
}

/// Save of the editor saves in place: every edit of the document, what is being typed included.
pub proof fn lemma_editor_saves(workspace: &mut Workspace, document: DocumentView, request: Request)
    requires
        old(workspace)@.document == Some(document),
        call_ensures(Workspace::apply, (workspace, Action::Save), request),
    ensures
        inputs_kept(old(workspace)@, final(workspace)@),
        final(workspace)@.document == Some(committed(document)),
        request is Save <==> can_save(document),
        request is Save || request is Nothing,
        request matches Request::Save(asked) ==> holds_every_edit(asked, committed(document)) && asked.target
            != SaveTarget::Copy && (asked.target == SaveTarget::Original <==> document.source.file != FileId::Original),
        request is Nothing ==> (final(workspace)@.notice matches Some(notice) && notice.severity
            == MessageSeverity::Warning),
{
    let kept = committed(document);
    lemma_commit_frame(document);
    lemma_commit_is_idempotent(document);
    lemma_save_check(kept);
    if let Request::Save(asked) = request {
        lemma_asks_to_save(kept, false, asked);
    }
}

/// A save under another name that is begun writes every edit; one in place too.
pub proof fn lemma_save_is_begun(
    workspace: &mut Workspace,
    document: DocumentView,
    to_another_file: bool,
    request: Option<SaveRequest>,
)
    requires
        old(workspace)@.document == Some(document),
        call_ensures(Workspace::begin_save, (workspace, to_another_file), request),
    ensures
        inputs_kept(old(workspace)@, final(workspace)@),
        request is Some <==> can_save(document),
        request matches Some(asked) ==> holds_every_edit(asked, committed(document)) && (asked.target == SaveTarget::Copy
            <==> to_another_file) && final(workspace)@.document == Some(committed(document)),
        request is None ==> (final(workspace)@.notice matches Some(notice) && notice.severity == MessageSeverity::Warning),
{
    lemma_commit_frame(document);
    lemma_save_check(document);
    if let Some(asked) = request {
        lemma_asks_to_save(committed(document), to_another_file, asked);
    }
}

/// No file is asked for where none is open, and that is said.
pub proof fn lemma_nothing_to_save(workspace: &mut Workspace, to_another_file: bool, request: Option<SaveRequest>)
    requires
        old(workspace)@.document is None,
        call_ensures(Workspace::begin_save, (workspace, to_another_file), request),
    ensures
        request is None,
        final(workspace)@.document is None,
        final(workspace)@.notice is Some,
{
}

/// A save of the editor that has started runs, in place or not as it was begun; why one could not
/// is told.
pub proof fn lemma_editor_save_has_started(
    workspace: &mut Workspace,
    document: &mut Document,
    in_place: bool,
    outcome: Result<(), Failure>,
    done: bool,
    result: Result<(), AppMessage>,
)
    requires
        old(workspace)@.document == Some(old(document)@),
        call_ensures(Workspace::save_begun, (workspace, in_place, outcome), done),
        call_ensures(Document::save_started, (document, in_place, outcome), result),
    ensures
        done <==> result is Ok,
        final(workspace)@.document == Some(final(document)@),
        inputs_kept(old(workspace)@, final(workspace)@),
        result matches Err(message) ==> final(workspace)@.notice == Some(message@),
        done ==> final(workspace)@.notice is None,
{
    reveal(crate::workspace::save_start);
}

/// Filtered rows are exported by the filter that is applied.
pub proof fn lemma_export_is_by_the_filter(
    workspace: &mut Workspace,
    document: &mut Document,
    query: Option<FilterQuery>,
    result: Result<(), AppMessage>,
)
    requires
        old(workspace)@.document == Some(old(document)@),
        call_ensures(Workspace::begin_export, (workspace,), query),
        call_ensures(Document::start_filtered_export, (document,), result),
    ensures
        query is Some <==> result is Ok,
        final(workspace)@.document == Some(final(document)@),
        inputs_kept(old(workspace)@, final(workspace)@),
        query matches Some(rules) ==> old(document)@.filter.query == Some(rules@),
        result matches Err(message) ==> final(workspace)@.notice == Some(message@),
{
    lemma_commit_frame(old(document)@);
}

/// The options with which the file of a document was read.
pub open spec fn reads_as(document: DocumentView, request: Request, format: Option<(DelimiterMode, HeaderMode)>) -> bool {
    request matches Request::Open { options, format: given } && {
        &&& given == format
        &&& options.delimiter == Some(document.source.delimiter)
        &&& options.header_mode == if document.source.has_header {
            HeaderMode::FirstRow
        } else {
            HeaderMode::NoHeader
        }
    }
}

/// Another file can take the place of the document: it has no unsaved change, and no work writes a
/// file.
pub open spec fn can_be_left(document: DocumentView) -> bool {
    let kept = committed(document);
    &&& !document.save.running
    &&& document.structural.job is None
    &&& !document.export.running
    &&& kept.edits.renames.dom() == Set::<usize>::empty()
    &&& kept.edits.cells.dom() == Set::<(u64, usize)>::empty()
    &&& document.source.file == FileId::Original
}

proof fn lemma_left(document: DocumentView)
    ensures
        crate::workspace::open_refusal(document).1 is None <==> can_be_left(document),
        crate::workspace::open_refusal(document).0 == document || crate::workspace::open_refusal(document).0 == committed(
            document,
        ),
        can_be_left(document) ==> crate::workspace::open_refusal(document).0 == committed(document),
        can_be_left(committed(document)) == can_be_left(document),
        committed(committed(document)) == committed(document),
{
    let kept = committed(document);
    lemma_commit_frame(document);
    lemma_commit_is_idempotent(document);
    lemma_no_entries(kept.edits.renames);
    lemma_no_entries(kept.edits.cells);
}

/// Another file is opened over a document only where nothing of it is lost.
pub proof fn lemma_open_is_checked(workspace: &mut Workspace, document: DocumentView, result: Result<(), AppMessage>)
    requires
        old(workspace)@.document == Some(document),
        call_ensures(Workspace::check_open, (workspace,), result),
    ensures
        result is Ok <==> can_be_left(document),
        result matches Err(message) ==> message.severity == MessageSeverity::Warning,
        final(workspace)@.document == Some(document) || final(workspace)@.document == Some(committed(document)),
        inputs_kept(old(workspace)@, final(workspace)@),
{
    lemma_left(document);
}

/// The file is read again as it was read, and in another format as that format says; neither where a
/// change would be lost.
pub proof fn lemma_file_is_read_again(
    reload: &mut Workspace,
    reopen: &mut Workspace,
    document: DocumentView,
    delimiter: DelimiterMode,
    header: HeaderMode,
    reload_request: Request,
    reopen_request: Request,
)
    requires
        old(reload)@.document == Some(document),
        old(reopen)@.document == Some(document),
        call_ensures(Workspace::reload_document, (reload,), reload_request),
        call_ensures(Workspace::reopen_document, (reopen, delimiter, header), reopen_request),
    ensures
        can_be_left(document) ==> reads_as(document, reload_request, None),
        can_be_left(document) ==> (reopen_request matches Request::Open { options, format } && {
            &&& format == Some((delimiter, header))
            &&& options.header_mode == header
            &&& options.delimiter == match delimiter {
                DelimiterMode::Auto => None::<u8>,
                DelimiterMode::Comma => Some(44u8),
                DelimiterMode::Tab => Some(9u8),
                DelimiterMode::Semicolon => Some(59u8),
                DelimiterMode::Pipe => Some(124u8),
            }
        }),
        !can_be_left(document) ==> reload_request is Nothing && reopen_request is Nothing,
        !can_be_left(document) ==> final(reload)@.notice is Some && final(reopen)@.notice is Some,
{
    lemma_left(document);
}

/// A file that was opened is the document of the editor, in the format that was asked for; one that
/// could not be opened leaves the document, and why is said.
pub proof fn lemma_opened_file_is_shown(
    workspace: &mut Workspace,
    opened: Result<Document, String>,
    format: Option<(DelimiterMode, HeaderMode)>,
    retired: Option<Document>,
)
    requires
        call_ensures(Workspace::file_opened, (workspace, opened, format), retired),
    ensures
        ({
            let before = old(workspace)@;
            let after = final(workspace)@;
            match opened {
                Ok(document) => {
                    &&& after.document == Some(document@)
                    &&& after.notice is None
                    &&& after.structural_dialog is None
                    &&& format is None ==> after.delimiter_mode == before.delimiter_mode && after.header_mode
                        == before.header_mode
                    &&& format matches Some((delimiter, header)) ==> after.delimiter_mode == delimiter
                        && after.header_mode == header
                    &&& after.find_input == before.find_input
                    &&& after.find_match_case == before.find_match_case
                    &&& after.filter_match_case == before.filter_match_case
                    &&& after.sort_match_case == before.sort_match_case
                    &&& retired is Some <==> before.document is Some
                    &&& retired matches Some(gone) ==> nothing_runs(gone@) && tells_to_stop(before.document->0, gone@)
                        && gone@.edits == before.document->0.edits
                },
                Err(message) => {
                    &&& after.document == before.document
                    &&& inputs_kept(before, after)
                    &&& after.notice matches Some(notice) && notice.text == message@ && notice.severity
                        == MessageSeverity::Error
                    &&& retired is None
                },
            }
        }),
{
    if let Some(current) = old(workspace)@.document {
        crate::edit_laws::lemma_stops(current);
        reveal(crate::saving::stopped);
    }
}

/// Discarding the changes of the editor leaves a document without an edit, or asks for the file that
/// was opened where the document was restructured; while a change or a save runs it is refused.
pub proof fn lemma_editor_discards(workspace: &mut Workspace, document: DocumentView, request: Request)
    requires
        old(workspace)@.document == Some(document),
        call_ensures(Workspace::discard_changes, (workspace,), request),
    ensures
        inputs_kept(old(workspace)@, final(workspace)@),
        document.structural.job is Some ==> request is Nothing && final(workspace)@.document == Some(document)
            && final(workspace)@.notice is Some,
        document.structural.job is None && document.source.file != FileId::Original ==> reads_as(document, request, None),
        document.structural.job is None && document.source.file == FileId::Original ==> request is Nothing && (
        final(workspace)@.document matches Some(after) && (document.save.running ==> after == document) && (
        !document.save.running ==> after.edits.renames.dom() == Set::<usize>::empty() && after.edits.cells.dom() == Set::<
            (u64, usize),
        >::empty() && after.edits.header_edit is None && after.edits.cell_edit is None && after.source
            == document.source)),
{
}

/// The state that undo or redo goes to.
pub open spec fn goes_back_to(document: DocumentView, redo: bool) -> Option<SnapshotView> {
    match document.working_copy {
        None => None,
        Some(copies) => if redo {
            copies.redo
        } else {
            copies.undo
        },
    }
}

/// The document can go to another state: there is one, no work writes a file, and undo loses no edit.
pub open spec fn can_go(document: DocumentView, redo: bool) -> bool {
    &&& goes_back_to(document, redo) is Some
    &&& !document.save.running
    &&& !document.export.running
    &&& document.structural.job is None
    &&& redo || document.edits.renames.dom() == Set::<usize>::empty() && document.edits.cells.dom() == Set::<
        (u64, usize),
    >::empty()
}

/// Undo asks for the state before the last change, redo for the one that was undone; before undo goes
/// back to the file that was opened, that is checked.
pub proof fn lemma_history_is_asked_for(workspace: &mut Workspace, document: DocumentView, redo: bool, request: Request)
    requires
        old(workspace)@.document == Some(document),
        call_ensures(Workspace::begin_history, (workspace, redo), request),
    ensures
        ({
            let kept = committed(document);
            let to_original = !redo && goes_back_to(kept, redo)->0.file == FileId::Original;
            &&& inputs_kept(old(workspace)@, final(workspace)@)
            &&& final(workspace)@.document == Some(kept)
            &&& !can_go(kept, redo) ==> request is Nothing && final(workspace)@.notice is Some
            &&& can_go(kept, redo) && to_original ==> request is CheckOriginal
            &&& can_go(kept, redo) && !to_original ==> (request matches Request::OpenState { redo: forward, file, options }
                && forward == redo && file == goes_back_to(kept, redo)->0.file && options.delimiter == Some(
                document.source.delimiter,
            ))
        }),
{
    let kept = committed(document);
    lemma_commit_frame(document);
    lemma_commit_is_idempotent(document);
    lemma_no_entries(kept.edits.renames);
    lemma_no_entries(kept.edits.cells);
}

/// The Undo command of the editor goes back.
#[verifier::rlimit(40)]
pub proof fn lemma_undo_command(
    commanded: &mut Workspace,
    begun: &mut Workspace,
    request: Request,
    same: Request,
)
    requires
        old(commanded)@ == old(begun)@,
        call_ensures(Workspace::apply, (commanded, Action::UndoStructuralEdit), request),
        call_ensures(Workspace::begin_history, (begun, false), same),
    ensures
        final(commanded)@ == final(begun)@,
        request@ == same@,
{
    let before = old(begun)@;
    if let Some(document) = before.document {
        lemma_left(document);
        assert(with_edits_kept(with_edits_kept(before)) == with_edits_kept(before));
    }
}

/// The Redo command of the editor goes forward.
#[verifier::rlimit(40)]
pub proof fn lemma_redo_command(
    commanded: &mut Workspace,
    begun: &mut Workspace,
    request: Request,
    same: Request,
)
    requires
        old(commanded)@ == old(begun)@,
        call_ensures(Workspace::apply, (commanded, Action::RedoStructuralEdit), request),
        call_ensures(Workspace::begin_history, (begun, true), same),
    ensures
        final(commanded)@ == final(begun)@,
        request@ == same@,
{
    let before = old(begun)@;
    if let Some(document) = before.document {
        lemma_left(document);
        assert(with_edits_kept(with_edits_kept(before)) == with_edits_kept(before));
    }
}

/// The state that undo or redo went to is shown with its own edits, and the state that was left can
/// be gone back to the other way.
pub proof fn lemma_state_is_shown(
    workspace: &mut Workspace,
    document: DocumentView,
    redo: bool,
    opened: Document,
    retired: Option<Document>,
)
    requires
        old(workspace)@.document == Some(document),
        goes_back_to(document, redo) is Some,
        call_ensures(Workspace::history_opened, (workspace, redo, Ok(opened)), retired),
    ensures
        ({
            let target = goes_back_to(document, redo)->0;
            &&& final(workspace)@.notice is None
            &&& final(workspace)@.document matches Some(after) && {
                &&& after.source == opened@.source
                &&& after.edits.renames == target.overlay.renames
                &&& after.edits.cells == target.overlay.cells
                &&& after.has_original == document.has_original
                &&& goes_back_to(after, redo) is None
                &&& goes_back_to(after, !redo) matches Some(left) && {
                    &&& left.file == document.source.file
                    &&& left.overlay.renames == document.edits.renames
                    &&& left.overlay.cells == document.edits.cells
                }
                &&& after.working_copy->0.next_generation == document.working_copy->0.next_generation
            }
            &&& retired matches Some(gone) && nothing_runs(gone@) && gone@.working_copy is None
        }),
{
    reveal(crate::history::swapped);
    reveal(crate::history::restored);
    reveal(crate::history::left);
    reveal(crate::history::with_state_shown);
    crate::edit_laws::lemma_stops(DocumentView { working_copy: None, has_original: false, ..document });
    reveal(crate::saving::stopped);
}

/// A state whose file could not be opened is not gone to.
pub proof fn lemma_state_is_not_shown(
    workspace: &mut Workspace,
    redo: bool,
    message: String,
    retired: Option<Document>,
)
    requires
        call_ensures(Workspace::history_opened, (workspace, redo, Err(message)), retired),
    ensures
        final(workspace)@.document == old(workspace)@.document,
        final(workspace)@.notice matches Some(notice) && notice.text == message@,
        retired is None,
{
}

/// Undo goes back to the file that was opened where that has not changed.
pub proof fn lemma_original_is_checked(
    workspace: &mut Workspace,
    document: DocumentView,
    outcome: Result<(), Failure>,
    request: Request,
)
    requires
        old(workspace)@.document == Some(document),
        call_ensures(Workspace::original_checked, (workspace, outcome), request),
    ensures
        outcome is Ok ==> (request matches Request::OpenState { redo, file, options } && !redo && file
            == FileId::Original && options.delimiter == Some(document.source.delimiter)) && final(workspace)@
            == old(workspace)@,
        outcome is Err ==> request is Nothing && final(workspace)@.notice is Some,
        outcome matches Err(failure) ==> (final(workspace)@.document matches Some(after) && after.edits == document.edits
            && (failure is SourceChanged ==> after.source_changed) && (!(failure is SourceChanged) ==> after
            == document)),
{
    reveal(crate::saving::outdated);
    reveal(crate::saving::stopped);
}

/// The file that a change has made is shown with the changed columns selected, and undo goes where
/// the change said.
pub proof fn lemma_change_is_shown(
    workspace: &mut Workspace,
    document: DocumentView,
    ready: MaterializedWorkingCopy,
    opened: Document,
    retired: Option<Document>,
)
    requires
        old(workspace)@.document == Some(document),
        call_ensures(Workspace::install_materialized_working_copy, (workspace, ready, Ok(opened)), retired),
    ensures
        final(workspace)@.document matches Some(after) && {
            &&& after.source == opened@.source
            &&& after.edits == opened@.edits
            &&& after.working_copy == document.working_copy
            &&& after.has_original == document.has_original
            &&& after.selection.columns == ready.selected_columns@
            &&& after.selection.column_focus matches Some(first) ==> (first < opened@.grid.hidden.len()
                ==> !after.grid.hidden[first as int])
            &&& after.grid.order == opened@.grid.order
        },
        final(workspace)@.structural_dialog is None,
        final(workspace)@.notice is None,
        final(workspace)@.footer_status matches Some(status) && status.text == ready.notice@,
        retired matches Some(gone) && nothing_runs(gone@) && gone@.working_copy is None,
{
    reveal(crate::history::changed);
    reveal(crate::history::with_selected);
    reveal(crate::history::left);
    crate::edit_laws::lemma_stops(DocumentView { working_copy: None, has_original: false, ..document });
    reveal(crate::saving::stopped);
}

/// Closing the window is put off until a save has ended, and asked about where changes would be
/// lost; else the window closes.
pub proof fn lemma_close_is_asked_for(workspace: &mut Workspace, stays: bool)
    requires
        call_ensures(Workspace::close_requested, (workspace,), stays),
    ensures
        ({
            let before = old(workspace)@;
            let after = final(workspace)@;
            match before.document {
                None => !stays && after == before,
                Some(document) => {
                    let kept = committed(document);
                    let changed = kept.edits.renames.dom() != Set::<usize>::empty() || kept.edits.cells.dom() != Set::<
                        (u64, usize),
                    >::empty() || document.source.file != FileId::Original;
                    &&& stays <==> document.save.running || changed
                    &&& document.save.running ==> after.close_after_save && !after.close_confirmation_open
                    &&& !document.save.running && changed ==> after.close_confirmation_open
                    &&& !stays ==> after.close_confirmation_open == before.close_confirmation_open
                    &&& after.document == Some(kept)
                    &&& inputs_kept(before, after)
                },
            }
        }),
{
    if let Some(document) = old(workspace)@.document {
        let kept = committed(document);
        lemma_commit_frame(document);
        lemma_commit_is_idempotent(document);
        if document.save.running {
            crate::browsing::lemma_rest(document);
        }
        lemma_no_entries(kept.edits.renames);
        lemma_no_entries(kept.edits.cells);
    }
}

/// The question whether to close is answered: going on forgets it, saving first remembers to close
/// then, and discarding gives the document up with all its work stopped.
pub proof fn lemma_close_is_answered(
    kept: &mut Workspace,
    saving: &mut Workspace,
    discarded: &mut Workspace,
    retired: Option<Document>,
)
    requires
        call_ensures(Workspace::keep_editing, (kept,), ()),
        call_ensures(Workspace::close_after_saving, (saving,), ()),
        call_ensures(Workspace::discard_and_close, (discarded,), retired),
    ensures
        final(kept)@.document == old(kept)@.document,
        !final(kept)@.close_confirmation_open,
        !final(kept)@.close_after_save,
        final(saving)@.document == old(saving)@.document,
        !final(saving)@.close_confirmation_open,
        final(saving)@.close_after_save,
        final(discarded)@.document is None,
        !final(discarded)@.close_confirmation_open,
        !final(discarded)@.close_after_save,
        retired is Some <==> old(discarded)@.document is Some,
        retired matches Some(gone) ==> nothing_runs(gone@) && tells_to_stop(old(discarded)@.document->0, gone@),
{
    if let Some(document) = old(discarded)@.document {
        crate::edit_laws::lemma_stops(document);
    }
}

/// A save that made its file shows that file, and closes the window where it was to be closed after
/// the save; where the file cannot be opened again a save in place leaves no document that stands
/// for an old file.
pub proof fn lemma_saved_file_is_shown(
    workspace: &mut Workspace,
    reopened: Result<Document, AppMessage>,
    in_place: bool,
    path: &str,
    result: (bool, Option<Document>),
)
    requires
        call_ensures(Workspace::saved, (workspace, reopened, in_place, path), result),
    ensures
        ({
            let before = old(workspace)@;
            let after = final(workspace)@;
            &&& result.0 <==> before.close_after_save && (reopened is Ok || in_place)
            &&& reopened matches Ok(document) ==> after.document == Some(document@) && after.notice is None
                && !after.close_after_save
            &&& reopened is Err && in_place ==> after.document is None && !after.close_after_save
            &&& reopened is Err && !in_place ==> (after.document is Some <==> before.document is Some) && (
            after.document matches Some(document) ==> document.edits == before.document->0.edits && document.source
                == before.document->0.source) && (before.close_after_save ==> after.close_confirmation_open)
                && !after.close_after_save
            &&& reopened is Err ==> (after.notice matches Some(notice) && notice.severity == MessageSeverity::Error)
            &&& result.1 is Some <==> before.document is Some && (reopened is Ok || in_place)
            &&& result.1 matches Some(gone) ==> nothing_runs(gone@)
        }),
{
    reveal(crate::workspace::without_save_status);
    if let Some(document) = old(workspace)@.document {
        crate::edit_laws::lemma_stops(document);
    }
}

/// A save that ends without a file brings the question whether to close back, where the window was to
/// be closed after it.
pub proof fn lemma_failed_save_asks_again(
    failed: &mut Workspace,
    polled: &mut Workspace,
    again: &mut Workspace,
    message: AppMessage,
    was_running: bool,
)
    requires
        call_ensures(Workspace::save_failed, (failed, message), ()),
        call_ensures(Workspace::save_polled, (polled, was_running), ()),
        call_ensures(Workspace::ask_to_close_again, (again,), ()),
    ensures
        final(failed)@.notice == Some(message@),
        final(failed)@.document == old(failed)@.document,
        !final(failed)@.close_after_save,
        final(failed)@.close_confirmation_open <==> old(failed)@.close_confirmation_open || old(failed)@.close_after_save,
        final(again)@.document == old(again)@.document,
        !final(again)@.close_after_save,
        final(again)@.close_confirmation_open <==> old(again)@.close_confirmation_open || old(again)@.close_after_save,
        final(polled)@.document == old(polled)@.document,
        old(polled)@.document matches Some(document) ==> (document.save.running ==> final(polled)@ == old(polled)@) && (
        !document.save.running ==> !final(polled)@.close_after_save && (final(polled)@.close_confirmation_open
            <==> old(polled)@.close_confirmation_open || old(polled)@.close_after_save)),
{
}

/// A dialog is opened as it was asked for, where the document can be changed.
pub proof fn lemma_dialog_is_opened(workspace: &mut Workspace, document: DocumentView, dialog: StructuralDialog)
    requires
        old(workspace)@.document == Some(document),
        call_ensures(Workspace::open_structural_dialog, (workspace, dialog), ()),
    ensures
        free(document) ==> final(workspace)@.structural_dialog == Some(dialog@) && final(workspace)@.notice is None,
        !free(document) ==> final(workspace)@.structural_dialog == old(workspace)@.structural_dialog && (
        final(workspace)@.notice matches Some(notice) && notice.severity == MessageSeverity::Warning),
        final(workspace)@.document == Some(document),
{
}

/// A dialog that is cancelled is closed, and asks for nothing.
pub proof fn lemma_dialog_is_cancelled(workspace: &mut Workspace, column_limit: usize, request: Request)
    requires
        call_ensures(
            Workspace::apply_structural_dialog_action,
            (workspace, StructuralDialogAction::Cancel, column_limit),
            request,
        ),
    ensures
        request is Nothing,
        final(workspace)@.structural_dialog is None,
        final(workspace)@.document == old(workspace)@.document,
        final(workspace)@.notice == old(workspace)@.notice,
{
}

/// What the answer to a dialog asks for is what was filled in: the columns, the separator, the
/// position, the direction and the Match case option of the Sort tool. It is asked for wherever it
/// can be done.
pub proof fn lemma_dialog_asks_for_what_was_filled_in(
    workspace: &mut Workspace,
    document: DocumentView,
    dialog: crate::dialogs::DialogView,
    column_limit: usize,
    request: Request,
)
    requires
        old(workspace)@.document == Some(document),
        old(workspace)@.structural_dialog == Some(dialog),
        call_ensures(
            Workspace::apply_structural_dialog_action,
            (workspace, StructuralDialogAction::Apply, column_limit),
            request,
        ),
    ensures
        ({
            let total = document.grid.total_columns;
            let separator = encode_utf8(dialog.separator);
            let place = parsed(trimmed(dialog.position), usize::MAX as nat);
            match dialog.request {
                StructuralRequest::Split => {
                    &&& request is MeasureSplit <==> free(document) && dialog.columns[0] < total && separator.len() > 0
                        && total < column_limit
                    &&& request is MeasureSplit || request is Nothing
                    &&& request matches Request::MeasureSplit(analysis) ==> analysis.source_column == dialog.columns[0]
                        && analysis.separator@ == separator
                },
                StructuralRequest::Combine => {
                    &&& request is Change <==> free(document) && dialog.columns.len() >= 2 && names_columns(
                        dialog.columns,
                        total,
                    )
                    &&& request is Change || request is Nothing
                    &&& request matches Request::Change(plan) ==> (plan.change matches Change::Join {
                        source_columns,
                        separator: between,
                        ..
                    } && source_columns@ == dialog.columns && between@ == separator)
                },
                StructuralRequest::Move => {
                    &&& request is Change || request is Nothing
                    &&& request matches Request::Change(plan) ==> (plan.change matches Change::Arrange { output_columns, .. }
                        && (place matches Some(number) && number > 0 && crate::change_laws::moves(
                        output_columns@,
                        dialog.columns,
                        number - 1,
                        total,
                    )))
                },
                StructuralRequest::Sort => {
                    &&& request is Change <==> free(document) && document.index.indexed_rows is Some && dialog.columns[0]
                        < total
                    &&& request is Change || request is Nothing
                    &&& request matches Request::Change(plan) ==> plan.change == (Change::Sort {
                        column: dialog.columns[0],
                        direction: dialog.sort_direction,
                        case_sensitivity: mode(old(workspace)@.sort_match_case),
                    })
                },
            }
        }),
{
    let separator = encode_utf8(dialog.separator);
    let (changed, outcome) = choose|changed: DocumentView, outcome: Result<Request, AppMessage>|
        {
            &&& #[trigger] dialog_asked(document, changed, dialog, old(workspace)@.sort_match_case, column_limit, outcome)
            &&& (final(workspace)@, request) == change_stored(old(workspace)@, changed, outcome, true)
        };
    reveal(dialog_asked);
    match dialog.request {
        StructuralRequest::Split => {
            let result = choose|result: Result<crate::structural::SplitAnalysis, AppMessage>|
                {
                    &&& #[trigger] crate::structural::split_asked(
                        document,
                        changed,
                        dialog.columns[0],
                        separator,
                        column_limit,
                        result,
                    )
                    &&& outcome == match result {
                        Ok(analysis) => Ok(Request::MeasureSplit(analysis)),
                        Err(message) => Err(message),
                    }
                };
            lemma_measures(document, changed, dialog.columns[0], separator, column_limit, result);
        },
        StructuralRequest::Combine => {
            let result = choose|result: Result<ChangePlan, AppMessage>|
                {
                    &&& #[trigger] crate::structural::combine_asked(document, changed, dialog.columns, separator, result)
                    &&& outcome == planned(result)
                };
            lemma_joins(document, changed, dialog.columns, separator, result);
        },
        StructuralRequest::Move => {
            assert forall|position: usize, result: Result<Option<ChangePlan>, AppMessage>| #[trigger]
                move_asked(document, changed, dialog.columns, position, result) implies rearranges(
                document,
                changed,
                dialog.columns,
                position,
                result,
            ) by {
                lemma_rearranges(document, changed, dialog.columns, position, result);
            }
        },
        StructuralRequest::Sort => {
            let case = crate::dialogs::sensitivity(old(workspace)@.sort_match_case);
            let result = choose|result: Result<ChangePlan, AppMessage>|
                {
                    &&& #[trigger] crate::structural::sort_asked(
                        document,
                        changed,
                        dialog.columns[0],
                        dialog.sort_direction,
                        case,
                        result,
                    )
                    &&& outcome == planned(result)
                };
            lemma_sorts(document, changed, dialog.columns[0], dialog.sort_direction, case, result);
        },
    }
}

/// Deleting columns through the editor asks for those columns to be deleted.
pub proof fn lemma_editor_deletes_columns(
    workspace: &mut Workspace,
    document: DocumentView,
    columns: Vec<usize>,
    request: Request,
)
    requires
        old(workspace)@.document == Some(document),
        call_ensures(Workspace::apply_delete_columns, (workspace, columns), request),
    ensures
        request is Change <==> free(document) && names_columns(columns@, document.grid.total_columns) && columns@.len()
            < document.grid.total_columns,
        request is Change || request is Nothing,
        request matches Request::Change(plan) ==> (plan.change matches Change::Arrange { output_columns, .. } && forall|column: usize| #[trigger]
            output_columns@.contains(column) <==> column < document.grid.total_columns && !columns@.contains(column)),
{
    let (changed, result) = choose|changed: DocumentView, result: Result<Option<ChangePlan>, AppMessage>|
        {
            &&& #[trigger] delete_columns_asked(document, changed, columns@, result)
            &&& (final(workspace)@, request) == change_stored(
                old(workspace)@,
                changed,
                planned_if_needed(result),
                false,
            )
        };
    lemma_drops_columns(document, changed, columns@, result);
    if let Request::Change(plan) = request {
        assert(result == Ok::<Option<ChangePlan>, AppMessage>(Some(plan)));
        assert(drops_columns(document, changed, columns@, Ok(Some(plan))));
        assert(plan.change is Arrange);
    }
}

/// Deleting rows through the editor asks for those rows to be deleted.
pub proof fn lemma_editor_deletes_rows(
    workspace: &mut Workspace,
    document: DocumentView,
    rows: Vec<RangeInclusive<u64>>,
    request: Request,
)
    requires
        old(workspace)@.document == Some(document),
        call_ensures(Workspace::apply_delete_rows, (workspace, rows), request),
    ensures
        request is Change <==> free(document) && rows@.len() > 0,
        request is Change || request is Nothing,
        request matches Request::Change(plan) ==> plan.change == (Change::DeleteRows { rows }),
{
    let (changed, result) = choose|changed: DocumentView, result: Result<ChangePlan, AppMessage>|
        {
            &&& #[trigger] delete_rows_asked(document, changed, rows, result)
            &&& (final(workspace)@, request) == change_stored(old(workspace)@, changed, planned(result), false)
        };
    lemma_drops_rows(document, changed, rows, result);
}

/// A command on the columns through the editor does to the document what it says.
pub proof fn lemma_editor_commands_columns(
    workspace: &mut Workspace,
    document: &mut Document,
    command: ColumnCommand,
    request: Request,
    result: Result<(), String>,
)
    requires
        old(workspace)@.document == Some(old(document)@),
        call_ensures(Workspace::apply_column_command, (workspace, command), request),
        match command {
            ColumnCommand::SetShown { column, shown } => call_ensures(
                Document::set_column_shown,
                (document, column, shown),
                result,
            ),
            ColumnCommand::Move { column, position } => call_ensures(
                Document::move_column,
                (document, column, position),
                result,
            ),
            ColumnCommand::Reset => call_ensures(Document::reset_columns, (document,), ()) && result is Ok,
            ColumnCommand::AutoFit => false,
        },
    ensures
        request is Nothing,
        final(workspace)@.document == Some(final(document)@),
        inputs_kept(old(workspace)@, final(workspace)@),
        result is Ok ==> final(workspace)@.notice is None,
        result matches Err(message) ==> final(workspace)@.notice matches Some(notice) && notice.text == message@,
{
    reveal(crate::commands::columns_commanded);
}

/// The editor starts without a document, with nothing typed but the first row number and one empty
/// rule, and with letters of either case alike.
pub proof fn lemma_editor_starts_empty(workspace: Workspace)
    requires
        call_ensures(Workspace::new, (), workspace),
    ensures
        workspace@.document is None,
        workspace@.notice is None,
        workspace@.structural_dialog is None,
        workspace@.find_input.len() == 0,
        workspace@.replace_input.len() == 0,
        !workspace@.find_match_case,
        !workspace@.filter_match_case,
        !workspace@.sort_match_case,
        workspace@.filter_rules.len() == 1,
        workspace@.filter_rules[0].value_input.len() == 0,
        workspace@.delimiter_mode == DelimiterMode::Auto,
        workspace@.header_mode == HeaderMode::Auto,
        !workspace@.close_confirmation_open,
        !workspace@.close_after_save,
{
}

/// A document that takes the place of another is shown, and the other is handed back with all its
/// work stopped; rules and dialogs were about the other one.
pub proof fn lemma_document_takes_its_place(workspace: &mut Workspace, document: Document, retired: Option<Document>)
    requires
        call_ensures(Workspace::document_opened, (workspace, document), retired),
    ensures
        final(workspace)@.document == Some(document@),
        final(workspace)@.structural_dialog is None,
        final(workspace)@.filter_rules.len() == 1,
        final(workspace)@.find_match_case == old(workspace)@.find_match_case,
        final(workspace)@.filter_match_case == old(workspace)@.filter_match_case,
        final(workspace)@.sort_match_case == old(workspace)@.sort_match_case,
        final(workspace)@.find_input == old(workspace)@.find_input,
        final(workspace)@.close_after_save == old(workspace)@.close_after_save,
        retired is Some <==> old(workspace)@.document is Some,
        retired matches Some(gone) ==> nothing_runs(gone@) && tells_to_stop(old(workspace)@.document->0, gone@),
{
    if let Some(current) = old(workspace)@.document {
        crate::edit_laws::lemma_stops(current);
    }
}

/// A document has an unsaved change once what is being typed is kept.
pub open spec fn is_changed(document: DocumentView) -> bool {
    let kept = committed(document);
    kept.edits.renames.dom() != Set::<usize>::empty() || kept.edits.cells.dom() != Set::<(u64, usize)>::empty()
        || document.source.file != FileId::Original
}

proof fn lemma_changed(document: DocumentView)
    ensures
        !document.save.running ==> crate::edits::dirty(committed(document)) == is_changed(document),
        committed(document).save == document.save,
        committed(document).export == document.export,
        committed(document).structural == document.structural,
        committed(document).source_changed == document.source_changed,
        committed(document).filter == document.filter,
        document.save.running ==> committed(document) == document,
{
    let kept = committed(document);
    lemma_commit_frame(document);
    lemma_commit_is_idempotent(document);
    if document.save.running {
        crate::browsing::lemma_rest(document);
    } else {
        lemma_no_entries(kept.edits.renames);
        lemma_no_entries(kept.edits.cells);
    }
}

/// A file can be picked where no change would be lost: to open, where no save runs and nothing is
/// unsaved; to export to, likewise; to save a copy to, where there is something to save.
pub proof fn lemma_files_are_picked(
    open: &mut Workspace,
    export: &mut Workspace,
    copy: &mut Workspace,
    document: DocumentView,
    allowed: (bool, bool, bool),
)
    requires
        !document.save.running,
        old(open)@.document == Some(document),
        old(export)@.document == Some(document),
        old(copy)@.document == Some(document),
        call_ensures(Workspace::choose_file, (open,), allowed.0),
        call_ensures(Workspace::choose_filtered_export, (export,), allowed.1),
        call_ensures(Workspace::choose_save_as, (copy,), allowed.2),
    ensures
        allowed.0 <==> !is_changed(document),
        allowed.1 <==> !is_changed(document),
        allowed.2 <==> is_changed(document) && !document.export.running && !document.source_changed
            && document.structural.job is None,
        !allowed.0 ==> final(open)@.notice is Some,
        !allowed.1 ==> final(export)@.notice is Some,
        !allowed.2 ==> final(copy)@.notice is Some,
        final(open)@.document == Some(committed(document)),
        final(export)@.document == Some(committed(document)),
        final(copy)@.document == Some(committed(document)),
{
    lemma_changed(document);
}

/// No file is picked while a save runs.
pub proof fn lemma_nothing_is_picked_during_a_save(
    open: &mut Workspace,
    export: &mut Workspace,
    copy: &mut Workspace,
    document: DocumentView,
    allowed: (bool, bool, bool),
)
    requires
        document.save.running,
        old(open)@.document == Some(document),
        old(export)@.document == Some(document),
        old(copy)@.document == Some(document),
        call_ensures(Workspace::choose_file, (open,), allowed.0),
        call_ensures(Workspace::choose_filtered_export, (export,), allowed.1),
        call_ensures(Workspace::choose_save_as, (copy,), allowed.2),
    ensures
        !allowed.0 && !allowed.1 && !allowed.2,
        final(open)@.notice is Some && final(export)@.notice is Some && final(copy)@.notice is Some,
        final(open)@.document == Some(document),
        final(export)@.document == Some(document),
        final(copy)@.document == Some(document),
{
    lemma_changed(document);
}

/// With no document a file can be picked to open, and none to save or export to.
pub proof fn lemma_files_without_a_document(
    open: &mut Workspace,
    export: &mut Workspace,
    copy: &mut Workspace,
    allowed: (bool, bool, bool),
)
    requires
        old(open)@.document is None,
        old(export)@.document is None,
        old(copy)@.document is None,
        call_ensures(Workspace::choose_file, (open,), allowed.0),
        call_ensures(Workspace::choose_filtered_export, (export,), allowed.1),
        call_ensures(Workspace::choose_save_as, (copy,), allowed.2),
    ensures
        allowed.0 && !allowed.1 && !allowed.2,
{
}

/// The commands of the menu that pick a file do what picking it by itself does.
pub proof fn lemma_pick_commands(
    commanded: &mut Workspace,
    kept: &mut Workspace,
    picked: &mut Workspace,
    action: Action,
    request: Request,
    allowed: bool,
)
    requires
        old(kept)@ == old(commanded)@,
        call_ensures(Workspace::commit_edits, (kept,), ()),
        final(kept)@ == old(picked)@,
        call_ensures(Workspace::apply, (commanded, action), request),
        match action {
            Action::Choose => call_ensures(Workspace::choose_file, (picked,), allowed),
            Action::ChooseSaveAs => call_ensures(Workspace::choose_save_as, (picked,), allowed),
            Action::ChooseFilteredExport => call_ensures(Workspace::choose_filtered_export, (picked,), allowed),
            _ => false,
        },
    ensures
        final(commanded)@ == final(picked)@,
        allowed ==> match action {
            Action::Choose => request is PickFile,
            Action::ChooseSaveAs => request is PickSaveAs,
            _ => request is PickExport,
        },
        !allowed ==> request is Nothing,
{
}

/// The commands that open a panel open their own.
pub proof fn lemma_panels_are_opened(columns: &mut Workspace, filters: &mut Workspace, requests: (Request, Request))
    requires
        call_ensures(Workspace::apply, (columns, Action::OpenColumns), requests.0),
        call_ensures(Workspace::apply, (filters, Action::OpenFilters), requests.1),
    ensures
        final(columns)@.columns_open,
        final(columns)@.filters_open == old(columns)@.filters_open,
        requests.0 is ManageColumns,
        final(filters)@.filters_open,
        final(filters)@.columns_open == old(filters)@.columns_open,
        requests.1 is Nothing,
        inputs_kept(old(columns)@, final(columns)@),
        inputs_kept(old(filters)@, final(filters)@),
{
}

/// What goes wrong is told in the notice, and what went well clears it.
pub proof fn lemma_outcomes_are_told(
    reported: &mut Workspace,
    failed: &mut Workspace,
    warned: &mut Workspace,
    changed: &mut Workspace,
    result: Result<(), AppMessage>,
    message: AppMessage,
    text: &str,
    from_dialog: bool,
    done: bool,
)
    requires
        call_ensures(Workspace::report, (reported, result), done),
        call_ensures(Workspace::fail, (failed, message), ()),
        call_ensures(Workspace::warn, (warned, text), ()),
        call_ensures(Workspace::change_begun, (changed, result, from_dialog), ()),
    ensures
        done <==> result is Ok,
        result matches Err(told) ==> final(reported)@.notice == Some(told@) && final(changed)@.notice == Some(told@)
            && final(changed)@.structural_dialog == old(changed)@.structural_dialog,
        result is Ok ==> final(reported)@.notice is None && final(changed)@.notice is None && (from_dialog
            ==> final(changed)@.structural_dialog is None) && (!from_dialog ==> final(changed)@.structural_dialog
            == old(changed)@.structural_dialog),
        final(failed)@.notice == Some(message@),
        final(failed)@.footer_status is None,
        final(warned)@.notice matches Some(notice) && notice.text == text@ && notice.severity
            == MessageSeverity::Warning,
        final(reported)@.document == old(reported)@.document,
        final(failed)@.document == old(failed)@.document,
        final(warned)@.document == old(warned)@.document,
        final(changed)@.document == old(changed)@.document,
{
}

/// An export through the editor that has started runs; why one could not is told.
pub proof fn lemma_editor_export_has_started(
    workspace: &mut Workspace,
    document: &mut Document,
    progress: JobProgress,
    failed: &mut Workspace,
    message: String,
)
    requires
        old(workspace)@.document == Some(old(document)@),
        call_ensures(Workspace::export_begun, (workspace, Ok(progress)), ()),
        call_ensures(Document::export_started, (document, progress), ()),
        call_ensures(Workspace::export_begun, (failed, Err(message)), ()),
    ensures
        final(workspace)@.document == Some(final(document)@),
        final(workspace)@.notice is None,
        final(failed)@.document == old(failed)@.document,
        final(failed)@.notice matches Some(notice) && notice.text == message@ && notice.severity
            == MessageSeverity::Error,
{
}

/// The status of a kind of work is its own.
pub open spec fn own_status(document: DocumentView, kind: ActiveJobKind) -> Option<Seq<char>> {
    match kind {
        ActiveJobKind::Change => document.structural.status,
        ActiveJobKind::Save => document.save.status,
        ActiveJobKind::Export => document.export.status,
        ActiveJobKind::Filter => document.filter.status,
        ActiveJobKind::Search => document.search.status,
        ActiveJobKind::Index => None,
    }
}

/// Once work has ended its own status is shown; while it runs, or if it did not run before, nothing
/// is.
pub proof fn lemma_end_of_work_is_shown(
    workspace: &mut Workspace,
    document: &Document,
    kind: ActiveJobKind,
    was_running: bool,
    running: bool,
    status: Option<String>,
)
    requires
        old(workspace)@.document == Some(document@),
        call_ensures(Workspace::work_polled, (workspace, kind, was_running), ()),
        call_ensures(Document::runs, (document, kind), running),
        call_ensures(Document::status_text, (document, kind), status),
    ensures
        running || !was_running ==> final(workspace)@ == old(workspace)@,
        status is Some <==> own_status(document@, kind) is Some,
        status matches Some(words) ==> own_status(document@, kind) == Some(words@),
        !running && was_running && kind != ActiveJobKind::Export ==> final(workspace)@.notice is None && match status {
            Some(words) => final(workspace)@.footer_status matches Some(shown) && shown.text == words@,
            None => final(workspace)@.footer_status is None,
        },
        final(workspace)@.document == old(workspace)@.document,
{
}

/// Find is available where a file is open and not filtered; its keys work where nothing is open above
/// it.
pub proof fn lemma_keys_are_allowed(workspace: &Workspace, available: bool, find: bool, save: bool, escape: bool)
    requires
        call_ensures(Workspace::find_available, (workspace,), available),
        call_ensures(Workspace::find_key_allowed, (workspace,), find),
        call_ensures(Workspace::save_key_allowed, (workspace,), save),
        call_ensures(Workspace::find_escape_allowed, (workspace,), escape),
    ensures
        workspace@.document is None ==> !available && !find && !save,
        workspace@.document matches Some(document) ==> (available <==> document.filter.query is None),
        find <==> available && !workspace@.close_confirmation_open && workspace@.structural_dialog is None,
        save ==> !workspace@.close_confirmation_open,
        workspace@.document matches Some(document) ==> (save ==> !document.save.running && !document.export.running
            && !document.source_changed && document.structural.job is None),
        escape ==> !workspace@.columns_open && !workspace@.filters_open && !workspace@.close_confirmation_open
            && workspace@.structural_dialog is None,
        workspace@.document matches Some(document) ==> (escape ==> document.edits.cell_edit is None
            && document.edits.header_edit is None),
{
}

/// Dropped files of which one was opened are told of only where others were passed over or it could
/// not be opened.
pub proof fn lemma_dropped_files_are_told(
    workspace: &mut Workspace,
    nothing: &mut Workspace,
    result: Option<AppMessage>,
    ignored: usize,
    count: usize,
)
    requires
        call_ensures(Workspace::dropped, (workspace, result, ignored), ()),
        call_ensures(Workspace::nothing_dropped, (nothing, count), ()),
    ensures
        final(workspace)@.notice is None <==> result is None && ignored == 0,
        result matches Some(message) ==> (final(workspace)@.notice matches Some(notice) && notice.severity
            == message.severity && message@.text.len() <= notice.text.len() && notice.text.take(
            message@.text.len() as int,
        ) == message@.text),
        final(nothing)@.notice matches Some(notice) && notice.severity == MessageSeverity::Warning,
        final(workspace)@.document == old(workspace)@.document,
        final(nothing)@.document == old(nothing)@.document,
{
    if let Some(message) = result {
        let told = final(workspace)@.notice->0.text;
        assert(told.take(message@.text.len() as int) =~= message@.text);
    }
}

/// A document says why another file cannot take its place where that would lose something.
pub proof fn lemma_place_is_kept(document: &mut Document, refusal: Option<&'static str>)
    requires
        call_ensures(Document::open_refusal, (document,), refusal),
    ensures
        refusal is None <==> can_be_left(old(document)@),
        final(document)@ == old(document)@ || final(document)@ == committed(old(document)@),
{
    lemma_left(old(document)@);
}

/// An action that is done clears the notice; one that failed says why and leaves the footer.
pub proof fn lemma_action_is_finished(workspace: &mut Workspace, action: Action, result: Result<(), AppMessage>)
    requires
        call_ensures(Workspace::finish_action, (workspace, action, result), ()),
    ensures
        result is Ok ==> final(workspace)@.notice is None,
        result matches Err(message) ==> final(workspace)@.notice == Some(message@) && final(workspace)@.footer_status
            == old(workspace)@.footer_status,
        final(workspace)@.document == old(workspace)@.document,
        inputs_kept(old(workspace)@, final(workspace)@),
        result is Ok && (action == Action::FindNext || action == Action::FindPrevious) ==> (
        old(workspace)@.document matches Some(document) ==> (!document.search.running ==> match document.search.status {
            Some(words) => final(workspace)@.footer_status matches Some(shown) && shown.text == words,
            None => final(workspace)@.footer_status is None,
        })),
        result is Ok && (action == Action::ReplaceCurrent || action == Action::ReplaceAll || action == Action::ApplyFilter
            || action == Action::ClearFilter || stops(action) is Some) ==> final(workspace)@.footer_status is None,
        result is Ok && (action == Action::PageUp || action == Action::PageDown || action == Action::Jump)
            ==> final(workspace)@.footer_status == old(workspace)@.footer_status,
{
}

} // verus!
