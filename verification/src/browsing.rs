//! What looking through a document leaves alone.

use crate::actions::{acted, cancelled, idle, jump_row, jumped, performed, Asked, Request};
use crate::commands::{applied, columns_commanded};
use crate::dialogs::{sensitivity, ColumnCommand};
use crate::document::{shown, DocumentView, SearchView};
use crate::edits::{committed, dirty, lemma_commit_frame, lemma_commit_is_idempotent};
use crate::filter::{filter_cleared, match_navigation, scheduled};
use crate::grid::{navigation, with_match_shown, with_rows, with_visibility, without_hidden, ReadPurpose};
use crate::jobs::Action;
use crate::literal::CaseSensitivity;
use crate::model::SearchMatch;
use crate::parse::capped_sum;
use crate::rows::GridSelection;
use crate::search::{match_shown, next_found, next_known, previous_found, search_for};
use crate::viewport::{clamped, scroll_target, scrolled};
use crate::workspace::{with_edits_kept, WorkspaceView};
use vstd::prelude::*;
use vstd::utf8::*;

verus! {

/// Both documents hold the same: the file that is shown, what is edited in it, and the states
/// that undo and redo go to.
pub open spec fn same_contents(before: DocumentView, after: DocumentView) -> bool {
    &&& after.source == before.source
    &&& after.edits == before.edits
    &&& after.working_copy == before.working_copy
    &&& after.structural.job == before.structural.job
    &&& after.save.running == before.save.running
}

/// Nothing is being typed that a commit would keep.
pub open spec fn at_rest(document: DocumentView) -> bool {
    document.save.running || (document.edits.header_edit is None && document.edits.cell_edit is None)
}

/// The actions that look through a document, or tell work to stop.
pub open spec fn browses(action: Action) -> bool {
    match action {
        Action::PageUp | Action::PageDown | Action::AutoFitColumns | Action::OpenColumns | Action::OpenFilters
        | Action::Jump | Action::FindPrevious | Action::FindNext | Action::ApplyFilter | Action::ClearFilter
        | Action::CancelSearch | Action::CancelFilter | Action::CancelExport | Action::CancelSave
        | Action::CancelStructuralEdit | Action::Cancel => true,
        _ => false,
    }
}

/// The actions that put another file, or the same one again, in place of the document.
pub open spec fn replaces(action: Action) -> bool {
    action is Choose || action is ReopenWithFormat || action is ReloadFromDisk
}

/// A commit leaves a document alone in which nothing is being typed.
pub proof fn lemma_rest(document: DocumentView)
    requires
        at_rest(document),
    ensures
        committed(document) == document,
{
    reveal(committed);
}

/// Nothing is being typed once a commit is done.
pub proof fn lemma_kept_rests(document: DocumentView)
    ensures
        at_rest(committed(document)),
{
    lemma_commit_is_idempotent(document);
    lemma_commit_frame(document);
}

proof fn lemma_navigation_keeps(document: DocumentView, requested: u64, purpose: ReadPurpose)
    requires
        at_rest(document),
    ensures
        same_contents(document, navigation(document, requested, purpose).0),
{
    lemma_rest(document);
    reveal(without_hidden);
    reveal(with_rows);
}

proof fn lemma_schedule_keeps(document: DocumentView, start: u64)
    ensures
        same_contents(document, scheduled(document, start).0),
{
    reveal(scheduled);
}

proof fn lemma_match_navigation_keeps(document: DocumentView, requested: u64)
    ensures
        same_contents(document, match_navigation(document, requested).0),
{
    reveal(without_hidden);
    assert forall|start: u64| same_contents(document, (#[trigger] scheduled(document, start)).0) by {
        lemma_schedule_keeps(document, start);
    }
}

proof fn lemma_scroll_keeps(document: DocumentView, rows: int)
    requires
        at_rest(document),
    ensures
        same_contents(document, scrolled(document, rows).0),
{
    let target = scroll_target(document, rows);
    lemma_match_navigation_keeps(document, target);
    lemma_navigation_keeps(
        document,
        capped_sum(document.grid.data_start as int, target as int) as u64,
        ReadPurpose::Viewport,
    );
}

proof fn lemma_match_shown_keeps(document: DocumentView, found: SearchMatch)
    requires
        at_rest(document),
    ensures
        same_contents(document, match_shown(document, found).0),
{
    let purpose = ReadPurpose::Match(found);
    lemma_navigation_keeps(document, found.row, purpose);
    let moved = navigation(document, found.row, purpose).0;
    lemma_rest(moved);
    assert(same_contents(moved, with_match_shown(moved, found))) by {
        reveal(without_hidden);
    }
}

/// What an action that looks through a document comes to.
spec fn only_looks(workspace: WorkspaceView, action: Action) -> bool {
    &&& same_contents(workspace.document->0, performed(workspace, action).0)
    &&& performed(workspace, action).1 matches Ok(asked) ==> asks_to_look(asked)
}

proof fn lemma_moving_keeps(workspace: WorkspaceView, action: Action)
    requires
        workspace.document matches Some(document) && at_rest(document),
        action is PageUp || action is PageDown || action is Jump,
    ensures
        only_looks(workspace, action),
{
    let document = workspace.document->0;
    let height = clamped(document.grid.visible_rows as int);
    lemma_scroll_keeps(document, clamped(-1 * height));
    lemma_scroll_keeps(document, clamped(1 * height));
    lemma_jump_keeps(document, workspace.jump_input);
}

proof fn lemma_finding_keeps(workspace: WorkspaceView, action: Action)
    requires
        workspace.document matches Some(document) && at_rest(document),
        action is FindPrevious || action is FindNext,
    ensures
        only_looks(workspace, action),
{
    let document = workspace.document->0;
    let query = encode_utf8(workspace.find_input);
    let case = sensitivity(workspace.find_match_case);
    lemma_previous_keeps(document, query, case);
    lemma_next_keeps(document, query, case);
}

proof fn lemma_filtering_keeps(workspace: WorkspaceView, action: Action)
    requires
        workspace.document matches Some(document) && at_rest(document),
        action is ApplyFilter || action is ClearFilter,
    ensures
        only_looks(workspace, action),
{
    let document = workspace.document->0;
    lemma_rest(document);
    lemma_clearing_keeps(document);
}

proof fn lemma_stopping_keeps(workspace: WorkspaceView, action: Action)
    requires
        workspace.document is Some,
        action is AutoFitColumns || action is CancelSearch || action is CancelFilter || action is CancelExport
            || action is CancelSave || action is CancelStructuralEdit || action is Cancel,
    ensures
        only_looks(workspace, action),
{
    reveal(cancelled);
}

proof fn lemma_performed_keeps(workspace: WorkspaceView, action: Action)
    requires
        workspace.document matches Some(document) && at_rest(document),
        browses(action),
        !(action is OpenColumns),
        !(action is OpenFilters),
    ensures
        only_looks(workspace, action),
{
    if action is PageUp || action is PageDown || action is Jump {
        lemma_moving_keeps(workspace, action);
    } else if action is FindPrevious || action is FindNext {
        lemma_finding_keeps(workspace, action);
    } else if action is ApplyFilter || action is ClearFilter {
        lemma_filtering_keeps(workspace, action);
    } else {
        lemma_stopping_keeps(workspace, action);
    }
}

proof fn lemma_jump_keeps(document: DocumentView, input: Seq<char>)
    requires
        at_rest(document),
    ensures
        same_contents(document, jumped(document, input).0),
{
    if let Ok(row) = jump_row(input, document.grid.data_start) {
        lemma_navigation_keeps(document, row, ReadPurpose::Viewport);
    }
}

proof fn lemma_previous_keeps(document: DocumentView, query: Seq<u8>, case: CaseSensitivity)
    requires
        at_rest(document),
    ensures
        same_contents(document, previous_found(document, query, case).0),
{
    lemma_rest(document);
    let index: usize = match document.search.history_index {
        Some(index) => (index - 1) as usize,
        None => (document.search.history.len() - 1) as usize,
    };
    lemma_match_shown_keeps(at_found(document, Some(index)), document.search.history[index as int]);
}

/// The document with another match as the current one.
spec fn at_found(document: DocumentView, index: Option<usize>) -> DocumentView {
    DocumentView {
        search: SearchView { history_index: index, ..document.search },
        ..document
    }
}

proof fn lemma_next_keeps(document: DocumentView, query: Seq<u8>, case: CaseSensitivity)
    requires
        at_rest(document),
    ensures
        same_contents(document, next_found(document, query, case).0),
{
    lemma_rest(document);
    let asked = DocumentView { search: search_for(document.search, query, case), ..document };
    if let Some(index) = next_known(asked.search) {
        lemma_match_shown_keeps(at_found(asked, Some(index)), asked.search.history[index as int]);
    }
}

proof fn lemma_clearing_keeps(document: DocumentView)
    requires
        at_rest(document),
    ensures
        same_contents(document, filter_cleared(document).0),
{
    assert forall|cleared: DocumentView|
        same_contents(document, cleared) implies same_contents(
        document,
        (#[trigger] navigation(cleared, cleared.grid.viewport_start, ReadPurpose::Viewport)).0,
    ) by {
        lemma_navigation_keeps(cleared, cleared.grid.viewport_start, ReadPurpose::Viewport);
    }
}

/// The outside is asked for no more than rows, matches and widths.
pub open spec fn asks_to_look(asked: Asked) -> bool {
    match asked {
        Asked::Nothing | Asked::ManageColumns | Asked::FitColumns | Asked::Move(_) | Asked::Search(_) | Asked::Filter(
            _,
        ) => true,
        _ => false,
    }
}

/// Looking through a document changes nothing that it holds: whatever is paged to, found,
/// filtered or told to stop, the edits and the states to undo and redo stay as they are once what
/// is being typed is kept, and no file is asked to be opened, written or changed.
pub proof fn lemma_browsing_keeps_contents(before: WorkspaceView, action: Action, after: WorkspaceView, request: Request)
    requires
        browses(action),
        applied(with_edits_kept(before), action, after, request),
    ensures
        asks_to_look(request@),
        match (before.document, after.document) {
            (Some(old_document), Some(new_document)) => same_contents(committed(old_document), new_document),
            (None, None) => true,
            _ => false,
        },
{
    let kept = with_edits_kept(before);
    if let Some(document) = before.document {
        lemma_kept_rests(document);
        if !(action is OpenColumns) && !(action is OpenFilters) && idle(kept) is None {
            lemma_performed_keeps(kept, action);
        }
    }
}

/// Showing, hiding and moving columns changes nothing that a document holds, once what is being
/// typed is kept.
pub proof fn lemma_columns_keep_contents(document: DocumentView, command: ColumnCommand)
    requires
        at_rest(document),
    ensures
        same_contents(document, columns_commanded(document, command).0),
{
    lemma_rest(document);
    reveal(columns_commanded);
    reveal(without_hidden);
}

/// A document whose file changed on disk is left alone: an action on it only says so.
pub proof fn lemma_changed_file_is_left_alone(before: WorkspaceView, action: Action, after: WorkspaceView, request: Request)
    requires
        acted(before, action, after, request),
        before.document matches Some(document) && document.source_changed,
    ensures
        request == Request::Nothing,
        after.document == before.document,
{
}

/// No action puts another file in place of a document with unsaved changes: such an action asks
/// for nothing, and the document stays.
#[verifier::rlimit(50)]
pub proof fn lemma_unsaved_changes_stay(before: WorkspaceView, action: Action, after: WorkspaceView, request: Request)
    requires
        replaces(action),
        applied(with_edits_kept(before), action, after, request),
        before.document matches Some(document) && dirty(committed(document)),
    ensures
        request@ is Nothing,
        after.document == Some(committed(before.document->0)),
{
    let document = before.document->0;
    lemma_commit_is_idempotent(document);
    lemma_commit_frame(document);
}

/// What is selected is in view: no hidden column is, nor a cell of one.
pub proof fn lemma_selection_is_shown(document: DocumentView)
    ensures
        ({
            let after = without_hidden(document);
            &&& after.grid == document.grid
            &&& forall|column: usize| #[trigger]
                after.selection.columns.contains(column) ==> document.selection.columns.contains(column) && column
                    < after.grid.hidden.len() && !after.grid.hidden[column as int]
            &&& after.selection.selection matches Some(GridSelection::Cell { column, .. }) ==> shown(after).contains(
                column,
            )
        }),
{
    reveal(without_hidden);
}

/// A column that is hidden is no longer selected.
pub proof fn lemma_hidden_column_is_not_selected(document: DocumentView, column: usize)
    requires
        column < document.grid.hidden.len(),
    ensures
        with_visibility(document, column, false).grid.hidden[column as int],
        !with_visibility(document, column, false).selection.columns.contains(column),
{
    lemma_commit_frame(document);
    reveal(without_hidden);
}

} // verus!
