//! Undo, redo, and the working copies that are shown in place of the file.

use crate::actions::{Asked, Request};
use crate::document::{with_titles, Document, DocumentView, EditsView, SelectionView};
use crate::edits::{cells_edited, committed};
use crate::format::{HeaderMode, OpenOptions};
use crate::grid::with_column_shown;
use crate::message::AppMessage;
use crate::model::{
    error_view, status_view, Failure, FileId, MessageView, OverlayView, SnapshotView, StructuralOverlay,
    WorkingCopySnapshot, WorkingCopyState, WorkingCopyView, SOURCE_CHANGED_NOTICE,
};
use crate::saving::{outdated, stopped};
use crate::sets::{self, least};
use crate::structural::{current_state, MaterializedWorkingCopy};
use crate::workspace::{
    document_view, warned, with_edits_kept, with_failure, Workspace, WorkspaceView,
};
use std::collections::BTreeSet;
use vstd::prelude::*;
use vstd::string::*;

verus! {

/// The options that open a file as the document's file was opened.
pub open spec fn same_format(document: DocumentView) -> OpenOptions {
    OpenOptions {
        delimiter: Some(document.source.delimiter),
        header_mode: if document.source.has_header {
            HeaderMode::FirstRow
        } else {
            HeaderMode::NoHeader
        },
    }
}

/// The state that undo or redo goes to.
pub open spec fn history_target(document: DocumentView, redo: bool) -> Option<SnapshotView> {
    match document.working_copy {
        Some(copies) => if redo {
            copies.redo
        } else {
            copies.undo
        },
        None => None,
    }
}

/// Why the document cannot go to another state.
pub open spec fn history_refusal(document: DocumentView, redo: bool) -> Option<Seq<char>> {
    if !redo && (document.edits.renames != Map::<usize, Seq<char>>::empty() || cells_edited(document)) {
        Some("Save or discard later header and cell edits before undoing the change."@)
    } else if document.save.running || document.export.running || document.structural.job is Some {
        Some("Wait for the active file operation to finish."@)
    } else if document.working_copy is None {
        Some("There is no change to undo or redo."@)
    } else if history_target(document, redo) is None {
        Some(
            if redo {
                "There is no change to redo."@
            } else {
                "There is no change to undo."@
            },
        )
    } else {
        None
    }
}

/// What is asked for once the document may go to another state. Before undo goes back to the
/// file that was opened, it is seen whether that has changed.
pub open spec fn state_asked(document: DocumentView, redo: bool) -> Asked {
    let file = history_target(document, redo)->0.file;
    if !redo && file == FileId::Original {
        Asked::CheckOriginal
    } else {
        Asked::OpenState { redo, file, options: same_format(document) }
    }
}

/// What a request to undo or redo comes to.
pub open spec fn history_asked(workspace: WorkspaceView, redo: bool) -> (WorkspaceView, Asked) {
    match workspace.document {
        None => (warned(workspace, "Open a file before undoing a change."@), Asked::Nothing),
        Some(before) => {
            let kept = with_edits_kept(workspace);
            let document = committed(before);
            match history_refusal(document, redo) {
                Some(message) => (warned(kept, message), Asked::Nothing),
                None => (kept, state_asked(document, redo)),
            }
        },
    }
}

/// What is asked for once it is seen whether the file that was opened has changed.
pub open spec fn original_seen(workspace: WorkspaceView, outcome: Result<(), Failure>) -> (WorkspaceView, Asked) {
    let document = workspace.document->0;
    match outcome {
        Ok(()) => (
            workspace,
            Asked::OpenState { redo: false, file: FileId::Original, options: same_format(document) },
        ),
        Err(Failure::SourceChanged) => (
            warned(WorkspaceView { document: Some(outdated(document)), ..workspace }, SOURCE_CHANGED_NOTICE@),
            Asked::Nothing,
        ),
        Err(Failure::Missing(message)) => (
            WorkspaceView { notice: Some(error_view(message@)), ..workspace },
            Asked::Nothing,
        ),
        Err(Failure::Other(message)) => (
            WorkspaceView { notice: Some(error_view(message@)), ..workspace },
            Asked::Nothing,
        ),
    }
}

/// The document with the edits of another state.
#[verifier::opaque]
pub open spec fn restored(document: DocumentView, overlay: OverlayView) -> DocumentView {
    with_titles(
        DocumentView {
            edits: EditsView { renames: overlay.renames, cells: overlay.cells, ..document.edits },
            ..document
        },
    )
}

/// The working copies once the document has gone to another state: what it left can be gone
/// back to.
pub open spec fn swapped_copies(copies: WorkingCopyView, redo: bool, left: SnapshotView) -> WorkingCopyView {
    if redo {
        WorkingCopyView { redo: None, undo: Some(left), ..copies }
    } else {
        WorkingCopyView { undo: None, redo: Some(left), ..copies }
    }
}

/// The document that is shown once `current` has gone to another state, whose file was opened
/// as `opened`.
#[verifier::opaque]
pub open spec fn swapped(current: DocumentView, redo: bool, opened: DocumentView) -> DocumentView {
    DocumentView {
        has_original: current.has_original,
        working_copy: Some(swapped_copies(current.working_copy->0, redo, current_state(current))),
        ..restored(opened, history_target(current, redo)->0.overlay)
    }
}

/// The document that is no longer shown, which leaves its working copies to another one.
#[verifier::opaque]
pub open spec fn left(current: DocumentView) -> DocumentView {
    stopped(DocumentView { working_copy: None, has_original: false, ..current })
}

/// The editor once its document has gone to another state.
pub open spec fn with_state(workspace: WorkspaceView, redo: bool, opened: DocumentView) -> WorkspaceView {
    with_state_shown(
        WorkspaceView { document: Some(swapped(workspace.document->0, redo, opened)), ..workspace },
        redo,
    )
}

/// The editor with what was about another state put away.
#[verifier::opaque]
pub open spec fn with_state_shown(workspace: WorkspaceView, redo: bool) -> WorkspaceView {
    WorkspaceView {
        structural_dialog: None,
        columns_open: false,
        notice: None,
        footer_status: Some(history_status(redo)),
        ..workspace
    }
}

/// What is said once the document has gone to another state.
#[verifier::opaque]
pub open spec fn history_status(redo: bool) -> MessageView {
    status_view(
        if redo {
            "Change restored."@
        } else {
            "Change undone."@
        },
    )
}

fn history_message(redo: bool) -> (message: AppMessage)
    ensures
        message@ == history_status(redo),
{
    proof {
        reveal(history_status);
    }
    if redo {
        AppMessage::status("Change restored.".to_owned())
    } else {
        AppMessage::status("Change undone.".to_owned())
    }
}

/// The document with columns selected, the first of which is shown.
#[verifier::opaque]
pub open spec fn with_selected(document: DocumentView, columns: Set<usize>) -> DocumentView {
    let first = least(columns);
    let selected = DocumentView {
        selection: SelectionView { columns, anchor: first, column_focus: first, ..document.selection },
        ..document
    };
    match first {
        Some(column) if column < document.grid.hidden.len() => with_titles(with_column_shown(selected, column, true)),
        _ => selected,
    }
}

/// The document that is shown once a change of `current` has made a file, opened as `opened`.
#[verifier::opaque]
pub open spec fn changed(current: DocumentView, columns: Set<usize>, opened: DocumentView) -> DocumentView {
    DocumentView {
        has_original: current.has_original,
        working_copy: current.working_copy,
        ..with_selected(opened, columns)
    }
}

/// The editor once a change has made a file that is shown.
pub open spec fn with_change(workspace: WorkspaceView, columns: Set<usize>, notice: Seq<char>, opened: DocumentView) -> WorkspaceView {
    WorkspaceView {
        document: Some(changed(workspace.document->0, columns, opened)),
        format_draft: None,
        columns_open: false,
        structural_dialog: None,
        notice: None,
        footer_status: Some(status_view(notice)),
        ..workspace
    }
}

/// Undo and then redo gives back the file, the edits and the working copies that there were.
pub proof fn lemma_undo_then_redo(current: DocumentView, earlier: DocumentView, later: DocumentView)
    requires
        current.working_copy matches Some(copies) && copies.redo is None && copies.undo is Some,
        earlier.source.file == current.working_copy->0.undo->0.file,
        later.source.file == current.source.file,
    ensures
        ({
            let undone = swapped(current, false, earlier);
            let redone = swapped(undone, true, later);
            &&& history_target(undone, true) == Some(current_state(current))
            &&& current_state(undone) == current.working_copy->0.undo->0
            &&& current_state(redone) == current_state(current)
            &&& redone.working_copy == current.working_copy
            &&& redone.has_original == current.has_original
        }),
{
    reveal(swapped);
    reveal(restored);
}

/// Redo and then undo gives back the file, the edits and the working copies that there were.
pub proof fn lemma_redo_then_undo(current: DocumentView, later: DocumentView, earlier: DocumentView)
    requires
        current.working_copy matches Some(copies) && copies.undo is None && copies.redo is Some,
        later.source.file == current.working_copy->0.redo->0.file,
        earlier.source.file == current.source.file,
    ensures
        ({
            let redone = swapped(current, true, later);
            let undone = swapped(redone, false, earlier);
            &&& history_target(redone, false) == Some(current_state(current))
            &&& current_state(redone) == current.working_copy->0.redo->0
            &&& current_state(undone) == current_state(current)
            &&& undone.working_copy == current.working_copy
            &&& undone.has_original == current.has_original
        }),
{
    reveal(swapped);
    reveal(restored);
}

impl Document {
    /// Whether there is a state that undo or redo goes to, and its file.
    fn history_file(&self, redo: bool) -> (file: Option<FileId>)
        ensures
            match history_target(self@, redo) {
                Some(target) => file == Some(target.file),
                None => file is None,
            },
    {
        match &self.working_copy {
            Some(copies) => {
                let target = if redo {
                    &copies.redo
                } else {
                    &copies.undo
                };
                match target {
                    Some(target) => Some(target.file),
                    None => None,
                }
            },
            None => None,
        }
    }

    /// Why the document cannot go to another state.
    fn history_refusal(&self, redo: bool) -> (refusal: Option<&'static str>)
        requires
            self.wf(),
        ensures
            match history_refusal(self@, redo) {
                Some(message) => refusal matches Some(given) && given@ == message,
                None => refusal is None,
            },
    {
        broadcast use crate::sets::group_ordered_keys;

        let named = !self.edits.header_renames.is_empty();
        assert(self.edits.header_renames@.is_empty() <==> self@.edits.renames =~= Map::empty());
        if !redo && (named || self.has_cell_edits()) {
            return Some("Save or discard later header and cell edits before undoing the change.");
        }
        if self.save.running || self.export.running || self.structural.job.is_some() {
            return Some("Wait for the active file operation to finish.");
        }
        if self.working_copy.is_none() {
            return Some("There is no change to undo or redo.");
        }
        if self.history_file(redo).is_none() {
            return Some(
                if redo {
                    "There is no change to redo."
                } else {
                    "There is no change to undo."
                },
            );
        }
        None
    }

    /// The state of the document that can be gone back to.
    fn state(&self) -> (state: WorkingCopySnapshot)
        ensures
            state@ == current_state(self@),
    {
        WorkingCopySnapshot {
            file: self.source.file,
            overlay: StructuralOverlay {
                header_renames: self.edits.header_renames.clone(),
                cell_edits: self.edits.cell_edits.clone(),
            },
        }
    }

    /// Puts the edits of another state on the document.
    fn restore(&mut self, overlay: StructuralOverlay)
        requires
            old(self).wf(),
        ensures
            final(self).wf(),
            final(self)@ == restored(old(self)@, overlay@),
    {
        broadcast use crate::sets::group_ordered_keys;

        proof {
            reveal(restored);
        }
        self.edits.header_renames = overlay.header_renames;
        self.edits.cell_edits = overlay.cell_edits;
        assert(self@ =~= DocumentView {
            edits: EditsView { renames: overlay@.renames, cells: overlay@.cells, ..old(self)@.edits },
            ..old(self)@
        });
        assert(self@.edits.renames.dom() =~= self.edits.header_renames@.dom());
        assert(self@.edits.cells.dom() =~= self.edits.cell_edits@.dom());
        self.refresh_column_headers();
    }

    /// Gives the working copies to `next`, and stops all work.
    fn leave_to(&mut self, next: &mut Document)
        requires
            old(self).wf(),
            old(next).wf(),
        ensures
            final(self).wf(),
            final(next).wf(),
            final(self)@ == left(old(self)@),
            final(next)@ == (DocumentView {
                has_original: old(self)@.has_original,
                working_copy: old(self)@.working_copy,
                ..old(next)@
            }),
    {
        proof {
            reveal(left);
        }
        next.has_original = self.has_original;
        next.working_copy = self.working_copy.take();
        self.has_original = false;
        self.shutdown();
    }

    /// Goes on from `current`, which goes to another state, whose file was opened as this
    /// document.
    fn take_over(&mut self, current: &mut Document, redo: bool)
        requires
            old(self).wf(),
            old(current).wf(),
            history_target(old(current)@, redo) is Some,
        ensures
            final(self).wf(),
            final(current).wf(),
            final(self)@ == swapped(old(current)@, redo, old(self)@),
            final(current)@ == left(old(current)@),
    {
        proof {
            reveal(swapped);
        }
        let state = current.state();
        current.leave_to(self);
        let mut copies = match self.working_copy.take() {
            Some(copies) => copies,
            None => WorkingCopyState::new(),
        };
        let target = if redo {
            copies.redo.take()
        } else {
            copies.undo.take()
        };
        if redo {
            copies.undo = Some(state);
        } else {
            copies.redo = Some(state);
        }
        self.working_copy = Some(copies);
        match target {
            Some(target) => {
                self.restore(target.overlay);
                proof {
                    reveal(restored);
                }
            },
            None => {},
        }
    }

    /// Selects columns, and shows the first of them.
    fn select_changed(&mut self, columns: BTreeSet<usize>)
        requires
            old(self).wf(),
        ensures
            final(self).wf(),
            final(self)@ == with_selected(old(self)@, columns@),
    {
        proof {
            reveal(with_selected);
        }
        let first = first_member(&columns);
        self.selection.columns = columns;
        self.selection.anchor = first;
        self.selection.column_focus = first;
        let ghost selected = self@;
        if let Some(column) = first {
            if self.grid.columns.view(column) {
                assert(self@ =~= with_column_shown(selected, column, true));
                self.refresh_column_headers();
            }
        }
    }
}

/// The smallest member of a set.
fn first_member(set: &BTreeSet<usize>) -> (first: Option<usize>)
    ensures
        first == least(set@),
{
    let members = sets::listing(set);
    proof {
        sets::lemma_listing(members@, set@);
    }
    if members.len() == 0 {
        None
    } else {
        Some(members[0])
    }
}

impl Workspace {
    /// Asks for the state that undo or redo goes to.
    pub fn begin_history(&mut self, redo: bool) -> (request: Request)
        requires
            old(self).wf(),
        ensures
            final(self).wf(),
            (final(self)@, request@) == history_asked(old(self)@, redo),
    {
        if self.document.is_none() {
            self.warn("Open a file before undoing a change.");
            return Request::Nothing;
        }
        self.commit_edits();
        let refusal = match &self.document {
            Some(document) => document.history_refusal(redo),
            None => None,
        };
        if let Some(message) = refusal {
            self.warn(message);
            return Request::Nothing;
        }
        match &self.document {
            Some(document) => match document.history_file(redo) {
                Some(file) => match (redo, file) {
                    (false, FileId::Original) => Request::CheckOriginal,
                    _ => Request::OpenState { redo, file, options: document.current_open_options() },
                },
                None => Request::Nothing,
            },
            None => Request::Nothing,
        }
    }

    /// Takes in whether the file that was opened has changed, before undo goes back to it.
    #[verifier::rlimit(50)]
    pub fn original_checked(&mut self, outcome: Result<(), Failure>) -> (request: Request)
        requires
            old(self).wf(),
            old(self)@.document is Some,
        ensures
            final(self).wf(),
            (final(self)@, request@) == original_seen(old(self)@, outcome),
    {
        match outcome {
            Ok(()) => {
                match &self.document {
                    Some(document) => Request::OpenState {
                        redo: false,
                        file: FileId::Original,
                        options: document.current_open_options(),
                    },
                    None => Request::Nothing,
                }
            },
            Err(Failure::SourceChanged) => {
                if let Some(document) = &mut self.document {
                    document.invalidate_changed_source();
                }
                self.warn(SOURCE_CHANGED_NOTICE);
                Request::Nothing
            },
            Err(Failure::Missing(message)) => {
                self.say(AppMessage::error(message));
                Request::Nothing
            },
            Err(Failure::Other(message)) => {
                self.say(AppMessage::error(message));
                Request::Nothing
            },
        }
    }

    /// Shows the state that undo or redo goes to, whose file was opened or could not be. Hands
    /// back the document that was shown.
    pub fn history_opened(&mut self, redo: bool, opened: Result<Document, String>) -> (retired: Option<Document>)
        requires
            old(self).wf(),
            old(self)@.document matches Some(document) && history_target(document, redo) is Some,
            opened matches Ok(document) ==> document.wf(),
        ensures
            final(self).wf(),
            match opened {
                Ok(document) => final(self)@ == with_state(old(self)@, redo, document@) && document_view(retired)
                    == Some(left(old(self)@.document->0)),
                Err(message) => final(self)@ == (WorkspaceView {
                    notice: Some(error_view(message@)),
                    ..old(self)@
                }) && retired is None,
            },
    {
        match opened {
            Ok(next) => {
                let retired = self.exchange(next, redo);
                self.show_state(redo);
                retired
            },
            Err(message) => {
                self.say(AppMessage::error(message));
                None
            },
        }
    }

    fn show_state(&mut self, redo: bool)
        requires
            old(self).wf(),
        ensures
            final(self).wf(),
            final(self)@ == with_state_shown(old(self)@, redo),
    {
        proof {
            reveal(with_state_shown);
        }
        self.structural_dialog = None;
        self.columns_open = false;
        self.show_status(Some(history_message(redo)));
    }

    /// Puts the document that is opened for another state in place of the current one.
    #[verifier::rlimit(50)]
    fn exchange(&mut self, next: Document, redo: bool) -> (retired: Option<Document>)
        requires
            old(self).wf(),
            next.wf(),
            old(self)@.document matches Some(document) && history_target(document, redo) is Some,
        ensures
            final(self).wf(),
            final(self)@ == (WorkspaceView {
                document: Some(swapped(old(self)@.document->0, redo, next@)),
                ..old(self)@
            }),
            document_view(retired) == Some(left(old(self)@.document->0)),
    {
        let mut next = next;
        let mut retired = self.document.take();
        if let Some(current) = &mut retired {
            next.take_over(current, redo);
        }
        self.document = Some(next);
        retired
    }

    /// Puts the document that is opened for a change in place of the current one.
    fn replace_by(&mut self, next: Document, columns: BTreeSet<usize>) -> (retired: Option<Document>)
        requires
            old(self).wf(),
            next.wf(),
            old(self)@.document is Some,
        ensures
            final(self).wf(),
            final(self)@ == (WorkspaceView {
                document: Some(changed(old(self)@.document->0, columns@, next@)),
                ..old(self)@
            }),
            document_view(retired) == Some(left(old(self)@.document->0)),
    {
        proof {
            reveal(changed);
        }
        let mut next = next;
        let mut retired = self.document.take();
        next.select_changed(columns);
        if let Some(current) = &mut retired {
            current.leave_to(&mut next);
        }
        self.document = Some(next);
        retired
    }

    /// Shows the file that a change has made, which was opened or could not be. Hands back the
    /// document that was shown.
    pub fn install_materialized_working_copy(
        &mut self,
        ready: MaterializedWorkingCopy,
        opened: Result<Document, String>,
    ) -> (retired: Option<Document>)
        requires
            old(self).wf(),
            opened matches Ok(document) ==> document.wf(),
        ensures
            final(self).wf(),
            match (old(self)@.document, opened) {
                (Some(current), Ok(document)) => final(self)@ == with_change(
                    old(self)@,
                    ready.selected_columns@,
                    ready.notice@,
                    document@,
                ) && document_view(retired) == Some(left(current)),
                (None, _) => final(self)@ == with_failure(
                    old(self)@,
                    error_view("The document closed before the change finished."@),
                ) && retired is None,
                (Some(_), Err(message)) => final(self)@ == with_failure(old(self)@, error_view(message@))
                    && retired is None,
            },
    {
        if self.document.is_none() {
            self.fail(AppMessage::error("The document closed before the change finished.".to_owned()));
            return None;
        }
        match opened {
            Ok(next) => {
                let retired = self.replace_by(next, ready.selected_columns);
                self.format_draft = None;
                self.columns_open = false;
                self.structural_dialog = None;
                self.show_status(Some(AppMessage::status(ready.notice)));
                retired
            },
            Err(message) => {
                self.fail(AppMessage::error(message));
                None
            },
        }
    }
}

} // verus!
