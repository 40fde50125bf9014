//! The commands of the menus and dialogs: opening again, discarding, the columns, and the
//! structural changes.

use crate::actions::{acted, Asked, Request};
use crate::dialogs::{
    case_sensitivity, dialog_ready, sensitivity, ColumnCommand, DialogView, StructuralDialog, StructuralDialogAction,
    StructuralRequest,
};
use crate::document::{Document, DocumentView};
use crate::edits::{committed, restructured, without_edits};
use crate::format::{delimiter_byte, DelimiterMode, HeaderMode, OpenOptions};
use crate::grid::{no_such_column, with_column_moved, with_columns_reset, with_visibility};
use crate::history::{history_asked, same_format};
use crate::jobs::{Action, ActiveJobKind};
use crate::message::AppMessage;
use crate::model::{self, error_view, warning_view, MessageView};
use crate::parse::{move_position_error, parse_move_position};
use crate::saving::{save_ready, stopped};
use crate::structural::{
    combine_asked, delete_columns_asked, delete_rows_asked, move_asked, sort_asked, split_asked, structural_reason,
    ChangePlan, SplitAnalysis,
};
use crate::text::{decimal, parsed, trimmed};
use crate::workspace::{
    document_view, export_checked, footer, message_view, open_checked, pick_checked, save_as_checked, save_asked, warned,
    with_document, with_edits_kept, Workspace, WorkspaceView,
};
use std::ops::RangeInclusive;
use vstd::prelude::*;
use vstd::string::*;
use vstd::utf8::*;

verus! {

/// What opening the document's file again comes to, before it is opened.
pub open spec fn opening(workspace: WorkspaceView, options: OpenOptions, format: Option<(DelimiterMode, HeaderMode)>) -> (
    WorkspaceView,
    Asked,
) {
    let (checked, refusal) = open_checked(workspace);
    match refusal {
        Some(message) => (warned(checked, message), Asked::Nothing),
        None => (checked, Asked::Open { options, format }),
    }
}

/// The options that open a file in a format that was chosen.
pub open spec fn chosen_format(delimiter: DelimiterMode, header: HeaderMode) -> OpenOptions {
    OpenOptions { delimiter: delimiter_byte(delimiter), header_mode: header }
}

/// What a request to read the file in another format comes to.
pub open spec fn reopening(before: WorkspaceView, delimiter: DelimiterMode, header: HeaderMode) -> (WorkspaceView, Asked) {
    let workspace = WorkspaceView { format_draft: None, ..before };
    if workspace.document is None {
        (warned(workspace, "Open a file first."@), Asked::Nothing)
    } else {
        opening(workspace, chosen_format(delimiter, header), Some((delimiter, header)))
    }
}

/// What a request to read the file again comes to.
pub open spec fn reloading(workspace: WorkspaceView) -> (WorkspaceView, Asked) {
    match workspace.document {
        None => (warned(workspace, "Open a file first."@), Asked::Nothing),
        Some(document) => opening(workspace, same_format(document), None),
    }
}

/// What a request to discard the changes comes to: a file that was restructured is opened again.
pub open spec fn discarding(workspace: WorkspaceView) -> (WorkspaceView, Asked) {
    match workspace.document {
        None => (WorkspaceView { notice: None, ..workspace }, Asked::Nothing),
        Some(document) => if document.structural.job is Some {
            (warned(workspace, "Cancel the active change before discarding changes."@), Asked::Nothing)
        } else if restructured(document) {
            (workspace, Asked::Open { options: same_format(document), format: None })
        } else if document.save.running {
            (warned(workspace, "Wait for the save to finish before discarding changes."@), Asked::Nothing)
        } else {
            (
                WorkspaceView { document: Some(without_edits(document)), notice: None, ..workspace },
                Asked::Nothing,
            )
        },
    }
}

/// The editor once a file was opened, or could not be.
pub open spec fn with_opened(
    workspace: WorkspaceView,
    opened: Result<DocumentView, Seq<char>>,
    format: Option<(DelimiterMode, HeaderMode)>,
) -> WorkspaceView {
    match opened {
        Err(message) => WorkspaceView { notice: Some(error_view(message)), ..workspace },
        Ok(document) => {
            let shown = with_document(workspace, document);
            WorkspaceView {
                notice: None,
                delimiter_mode: match format {
                    Some((delimiter, _)) => delimiter,
                    None => workspace.delimiter_mode,
                },
                header_mode: match format {
                    Some((_, header)) => header,
                    None => workspace.header_mode,
                },
                ..shown
            }
        },
    }
}

pub open spec fn opened_view(opened: Result<Document, String>) -> Result<DocumentView, Seq<char>> {
    match opened {
        Ok(document) => Ok(document@),
        Err(message) => Err(message@),
    }
}

/// What an action comes to, once what is being typed is kept.
pub open spec fn applied(kept: WorkspaceView, action: Action, after: WorkspaceView, request: Request) -> bool {
    match action {
        Action::Choose => {
            let (checked, allowed) = pick_checked(
                kept,
                "Cancel the active save before opening another file."@,
                "Discard or save your changes before opening another file."@,
            );
            after == checked && request@ == if allowed {
                Asked::PickFile
            } else {
                Asked::Nothing
            }
        },
        Action::ReopenWithFormat(delimiter, header) => (after, request@) == reopening(kept, delimiter, header),
        Action::ReloadFromDisk => (after, request@) == reloading(kept),
        Action::ChooseSaveAs => after == save_as_checked(kept).0 && request@ == if save_as_checked(kept).1 {
            Asked::PickSaveAs
        } else {
            Asked::Nothing
        },
        Action::Save => match request {
            Request::Save(asked) => save_asked(kept, false, after, Some(asked)),
            _ => request@ == Asked::Nothing && save_asked(kept, false, after, None),
        },
        Action::ChooseFilteredExport => after == export_checked(kept).0 && request@ == if export_checked(kept).1 {
            Asked::PickExport
        } else {
            Asked::Nothing
        },
        Action::DiscardChanges => (after, request@) == discarding(kept),
        Action::OpenColumns => after == (WorkspaceView { columns_open: true, ..kept }) && request@
            == Asked::ManageColumns,
        Action::UndoStructuralEdit => (after, request@) == history_asked(kept, false),
        Action::RedoStructuralEdit => (after, request@) == history_asked(kept, true),
        Action::OpenFilters => after == (WorkspaceView { filters_open: true, ..kept }) && request@ == Asked::Nothing,
        _ => acted(kept, action, after, request),
    }
}

/// The document once a command on its columns is done, and why it is not.
#[verifier::opaque]
pub open spec fn columns_commanded(document: DocumentView, command: ColumnCommand) -> (DocumentView, Option<Seq<char>>) {
    let total = document.grid.total_columns;
    match command {
        ColumnCommand::SetShown { column, shown } => if column < total {
            (with_visibility(document, column, shown), None)
        } else {
            (committed(document), Some(no_such_column(total)))
        },
        ColumnCommand::Move { column, position } => if column >= total {
            (committed(document), Some(no_such_column(total)))
        } else if position >= total {
            (
                committed(document),
                Some("Display position must be between 1 and "@ + decimal(total as nat) + "."@),
            )
        } else {
            (with_column_moved(document, column, position), None)
        },
        ColumnCommand::Reset => (with_columns_reset(document), None),
        ColumnCommand::AutoFit => (document, None),
    }
}

/// The editor once a command on the columns is done.
pub open spec fn with_columns_commanded(workspace: WorkspaceView, command: ColumnCommand) -> WorkspaceView {
    match workspace.document {
        None => workspace,
        Some(document) => {
            let (after, refusal) = columns_commanded(document, command);
            WorkspaceView {
                document: Some(after),
                notice: match refusal {
                    Some(message) => Some(warning_view(message)),
                    None => None,
                },
                ..workspace
            }
        },
    }
}

/// The editor once a structural dialog is asked for.
pub open spec fn with_dialog(workspace: WorkspaceView, dialog: DialogView) -> WorkspaceView {
    match workspace.document {
        None => warned(workspace, "Open a file before editing columns."@),
        Some(document) => match structural_reason(document) {
            Some(message) => warned(workspace, message),
            None => WorkspaceView { structural_dialog: Some(dialog), notice: None, ..workspace },
        },
    }
}

/// The editor once a structural change has started, or was not needed, or why it was not made.
pub open spec fn with_change_begun(workspace: WorkspaceView, failure: Option<MessageView>, from_dialog: bool) -> WorkspaceView {
    match failure {
        Some(message) => WorkspaceView { notice: Some(message), ..workspace },
        None => WorkspaceView {
            structural_dialog: if from_dialog {
                None
            } else {
                workspace.structural_dialog
            },
            notice: None,
            footer_status: change_footer(workspace),
            ..workspace
        },
    }
}

/// What the footer says of structural work that does not run.
#[verifier::opaque]
pub open spec fn change_footer(workspace: WorkspaceView) -> Option<MessageView> {
    match workspace.document {
        Some(document) if document.structural.job is None => footer(document.structural.status),
        _ => None,
    }
}

/// The outcome of a request for a structural change is that of the request of a dialog.
#[verifier::opaque]
pub open spec fn dialog_asked(
    before: DocumentView,
    after: DocumentView,
    dialog: DialogView,
    match_case: bool,
    column_limit: usize,
    outcome: Result<Request, AppMessage>,
) -> bool {
    let separator = encode_utf8(dialog.separator);
    match dialog.request {
        StructuralRequest::Split => exists|result: Result<SplitAnalysis, AppMessage>|
            {
                &&& #[trigger] split_asked(before, after, dialog.columns[0], separator, column_limit, result)
                &&& outcome == match result {
                    Ok(analysis) => Ok(Request::MeasureSplit(analysis)),
                    Err(message) => Err(message),
                }
            },
        StructuralRequest::Combine => exists|result: Result<ChangePlan, AppMessage>|
            {
                &&& #[trigger] combine_asked(before, after, dialog.columns, separator, result)
                &&& outcome == planned(result)
            },
        StructuralRequest::Move => match move_position_error(
            dialog.position,
            before.grid.total_columns,
            dialog.columns.len(),
        ) {
            Some(message) => after == before && (outcome matches Err(given) && given@ == warning_view(message)),
            None => exists|position: usize, result: Result<Option<ChangePlan>, AppMessage>|
                {
                    &&& #[trigger] move_asked(before, after, dialog.columns, position, result)
                    &&& parsed(trimmed(dialog.position), usize::MAX as nat) == Some((position + 1) as nat)
                    &&& outcome == planned_if_needed(result)
                },
        },
        StructuralRequest::Sort => exists|result: Result<ChangePlan, AppMessage>|
            {
                &&& #[trigger] sort_asked(
                    before,
                    after,
                    dialog.columns[0],
                    dialog.sort_direction,
                    sensitivity(match_case),
                    result,
                )
                &&& outcome == planned(result)
            },
    }
}

pub open spec fn planned(result: Result<ChangePlan, AppMessage>) -> Result<Request, AppMessage> {
    match result {
        Ok(plan) => Ok(Request::Change(plan)),
        Err(message) => Err(message),
    }
}

pub open spec fn planned_if_needed(result: Result<Option<ChangePlan>, AppMessage>) -> Result<Request, AppMessage> {
    match result {
        Ok(Some(plan)) => Ok(Request::Change(plan)),
        Ok(None) => Ok(Request::Nothing),
        Err(message) => Err(message),
    }
}

/// The editor with the outcome of a request for a structural change, and what it asks for.
/// Where the outside has a part in it, the rest comes after it.
pub open spec fn change_stored(workspace: WorkspaceView, document: DocumentView, outcome: Result<Request, AppMessage>, from_dialog: bool) -> (
    WorkspaceView,
    Request,
) {
    let after = WorkspaceView { document: Some(document), ..workspace };
    match outcome {
        Err(message) => (with_change_begun(after, Some(message@), from_dialog), Request::Nothing),
        Ok(Request::Nothing) => (with_change_begun(after, None, from_dialog), Request::Nothing),
        Ok(request) => (after, request),
    }
}

/// What the answer to a structural dialog comes to.
pub open spec fn dialog_answered(
    before: WorkspaceView,
    answer: StructuralDialogAction,
    column_limit: usize,
    after: WorkspaceView,
    request: Request,
) -> bool {
    match (answer, before.structural_dialog) {
        (StructuralDialogAction::Cancel, _) => after == (WorkspaceView { structural_dialog: None, ..before }) && request
            == Request::Nothing,
        (StructuralDialogAction::Apply, None) => after == before && request == Request::Nothing,
        (StructuralDialogAction::Apply, Some(dialog)) => match before.document {
            None => after == warned(before, "Open a file before editing columns."@) && request == Request::Nothing,
            Some(document) => exists|changed: DocumentView, outcome: Result<Request, AppMessage>|
                {
                    &&& #[trigger] dialog_asked(
                        document,
                        changed,
                        dialog,
                        before.sort_match_case,
                        column_limit,
                        outcome,
                    )
                    &&& (after, request) == change_stored(before, changed, outcome, true)
                },
        },
    }
}

/// What a request to delete columns comes to.
pub open spec fn columns_deleted(before: WorkspaceView, columns: Seq<usize>, after: WorkspaceView, request: Request) -> bool {
    match before.document {
        None => after == warned(before, "Open a file before editing columns."@) && request == Request::Nothing,
        Some(document) => exists|changed: DocumentView, result: Result<Option<ChangePlan>, AppMessage>|
            {
                &&& #[trigger] delete_columns_asked(document, changed, columns, result)
                &&& (after, request) == change_stored(before, changed, planned_if_needed(result), false)
            },
    }
}

/// What a request to delete rows comes to.
pub open spec fn rows_deleted(before: WorkspaceView, rows: Vec<RangeInclusive<u64>>, after: WorkspaceView, request: Request) -> bool {
    match before.document {
        None => after == warned(before, "Open a file before deleting rows."@) && request == Request::Nothing,
        Some(document) => exists|changed: DocumentView, result: Result<ChangePlan, AppMessage>|
            {
                &&& #[trigger] delete_rows_asked(document, changed, rows, result)
                &&& (after, request) == change_stored(before, changed, planned(result), false)
            },
    }
}

impl Document {
    /// Does what a command asks of the columns.
    fn command_columns(&mut self, command: ColumnCommand) -> (result: Result<(), String>)
        requires
            old(self).wf(),
        ensures
            final(self).wf(),
            final(self)@ == columns_commanded(old(self)@, command).0,
            match columns_commanded(old(self)@, command).1 {
                Some(message) => result matches Err(given) && given@ == message,
                None => result is Ok,
            },
    {
        proof {
            reveal(columns_commanded);
        }
        match command {
            ColumnCommand::SetShown { column, shown } => self.set_column_shown(column, shown),
            ColumnCommand::Move { column, position } => self.move_column(column, position),
            ColumnCommand::Reset => {
                self.reset_columns();
                Ok(())
            },
            ColumnCommand::AutoFit => Ok(()),
        }
    }

    /// Asks for what a structural dialog is about.
    fn ask_for(&mut self, dialog: &StructuralDialog, match_case: bool, column_limit: usize) -> (outcome: Result<
        Request,
        AppMessage,
    >)
        requires
            old(self).wf(),
            dialog_ready(dialog@),
        ensures
            final(self).wf(),
            dialog_asked(old(self)@, final(self)@, dialog@, match_case, column_limit, outcome),
    {
        proof {
            reveal(dialog_asked);
        }
        let separator = model::copy_bytes(dialog.separator.as_str().as_bytes());
        match dialog.request {
            StructuralRequest::Split => {
                let result = self.start_split(dialog.columns[0], separator, column_limit);
                assert(split_asked(
                    old(self)@,
                    self@,
                    dialog@.columns[0],
                    encode_utf8(dialog@.separator),
                    column_limit,
                    result,
                ));
                match result {
                    Ok(analysis) => Ok(Request::MeasureSplit(analysis)),
                    Err(message) => Err(message),
                }
            },
            StructuralRequest::Combine => {
                let columns = copied(&dialog.columns);
                let result = self.start_combine(columns, separator);
                assert(combine_asked(old(self)@, self@, dialog@.columns, encode_utf8(dialog@.separator), result));
                plan_request(result)
            },
            StructuralRequest::Move => {
                match parse_move_position(dialog.position.as_str(), self.grid.total_columns, dialog.columns.len()) {
                    Ok(position) => {
                        let columns = copied(&dialog.columns);
                        let result = self.start_move_columns(columns, position);
                        assert(move_asked(old(self)@, self@, dialog@.columns, position, result));
                        needed_request(result)
                    },
                    Err(message) => Err(AppMessage::warning(message)),
                }
            },
            StructuralRequest::Sort => {
                let result = self.start_sort_rows_with_case(
                    dialog.columns[0],
                    dialog.sort_direction,
                    case_sensitivity(match_case),
                );
                assert(sort_asked(
                    old(self)@,
                    self@,
                    dialog@.columns[0],
                    dialog@.sort_direction,
                    sensitivity(match_case),
                    result,
                ));
                plan_request(result)
            },
        }
    }
}

/// A copy of a list of columns.
fn copied(columns: &Vec<usize>) -> (copy: Vec<usize>)
    ensures
        copy@ == columns@,
{
    let copy = columns.clone();
    assert(copy@ =~= columns@);
    copy
}

fn plan_request(result: Result<ChangePlan, AppMessage>) -> (outcome: Result<Request, AppMessage>)
    ensures
        outcome == planned(result),
{
    match result {
        Ok(plan) => Ok(Request::Change(plan)),
        Err(message) => Err(message),
    }
}

fn needed_request(result: Result<Option<ChangePlan>, AppMessage>) -> (outcome: Result<Request, AppMessage>)
    ensures
        outcome == planned_if_needed(result),
{
    match result {
        Ok(Some(plan)) => Ok(Request::Change(plan)),
        Ok(None) => Ok(Request::Nothing),
        Err(message) => Err(message),
    }
}

impl Workspace {
    /// Takes note of a file that was opened, or could not be. `format` is how it was asked to be
    /// read, where that was said. Hands back the document that was shown.
    pub fn file_opened(&mut self, opened: Result<Document, String>, format: Option<(DelimiterMode, HeaderMode)>) -> (retired: Option<
        Document,
    >)
        requires
            old(self).wf(),
            opened matches Ok(document) ==> document.wf(),
        ensures
            final(self).wf(),
            final(self)@ == with_opened(old(self)@, opened_view(opened), format),
            document_view(retired) == match old(self)@.document {
                Some(current) if opened is Ok => Some(stopped(current)),
                _ => None,
            },
    {
        match opened {
            Ok(document) => {
                let retired = self.document_opened(document);
                if let Some((delimiter, header)) = format {
                    self.delimiter_mode = delimiter;
                    self.header_mode = header;
                }
                self.notice = None;
                retired
            },
            Err(message) => {
                self.say(AppMessage::error(message));
                None
            },
        }
    }

    /// Checks that the document's file can be opened again.
    fn ask_to_open(&mut self, options: OpenOptions, format: Option<(DelimiterMode, HeaderMode)>) -> (request: Request)
        requires
            old(self).wf(),
        ensures
            final(self).wf(),
            (final(self)@, request@) == opening(old(self)@, options, format),
    {
        match self.check_open() {
            Ok(()) => Request::Open { options, format },
            Err(message) => {
                self.say(message);
                Request::Nothing
            },
        }
    }

    /// Asks for the document's file to be read in another format.
    pub fn reopen_document(&mut self, delimiter: DelimiterMode, header: HeaderMode) -> (request: Request)
        requires
            old(self).wf(),
        ensures
            final(self).wf(),
            (final(self)@, request@) == reopening(old(self)@, delimiter, header),
    {
        self.format_draft = None;
        if self.document.is_none() {
            self.warn("Open a file first.");
            return Request::Nothing;
        }
        let options = OpenOptions { delimiter: delimiter.delimiter(), header_mode: header };
        self.ask_to_open(options, Some((delimiter, header)))
    }

    /// Asks for the document's file to be read again.
    pub fn reload_document(&mut self) -> (request: Request)
        requires
            old(self).wf(),
        ensures
            final(self).wf(),
            (final(self)@, request@) == reloading(old(self)@),
    {
        let options = match &self.document {
            Some(document) => document.current_open_options(),
            None => {
                self.warn("Open a file first.");
                return Request::Nothing;
            },
        };
        self.ask_to_open(options, None)
    }

    /// Discards the changes, or asks for the file that was opened.
    #[verifier::rlimit(50)]
    pub fn discard_changes(&mut self) -> (request: Request)
        requires
            old(self).wf(),
        ensures
            final(self).wf(),
            (final(self)@, request@) == discarding(old(self)@),
    {
        let (changing, changed, saving, options) = match &self.document {
            Some(document) => (
                document.structural.job.is_some(),
                document.has_structural_edits(),
                document.save.running,
                document.current_open_options(),
            ),
            None => {
                self.notice = None;
                return Request::Nothing;
            },
        };
        if changing {
            self.warn("Cancel the active change before discarding changes.");
        } else if changed {
            return Request::Open { options, format: None };
        } else if saving {
            self.warn("Wait for the save to finish before discarding changes.");
        } else {
            self.discard_edits();
        }
        Request::Nothing
    }

    fn discard_edits(&mut self)
        requires
            old(self).wf(),
            old(self)@.document is Some,
        ensures
            final(self).wf(),
            final(self)@ == (WorkspaceView {
                document: Some(without_edits(old(self)@.document->0)),
                notice: None,
                ..old(self)@
            }),
    {
        if let Some(document) = &mut self.document {
            document.discard_edits();
        }
        self.notice = None;
    }

    /// Does what an action asks, and says what is left for the outside.
    pub fn apply(&mut self, action: Action) -> (request: Request)
        requires
            old(self).wf(),
        ensures
            final(self).wf(),
            applied(with_edits_kept(old(self)@), action, final(self)@, request),
    {
        self.commit_edits();
        match action {
            Action::Choose => if self.choose_file() {
                Request::PickFile
            } else {
                Request::Nothing
            },
            Action::ReopenWithFormat(delimiter, header) => self.reopen_document(delimiter, header),
            Action::ReloadFromDisk => self.reload_document(),
            Action::ChooseSaveAs => if self.choose_save_as() {
                Request::PickSaveAs
            } else {
                Request::Nothing
            },
            Action::Save => match self.begin_save(false) {
                Some(request) => Request::Save(request),
                None => Request::Nothing,
            },
            Action::ChooseFilteredExport => if self.choose_filtered_export() {
                Request::PickExport
            } else {
                Request::Nothing
            },
            Action::DiscardChanges => self.discard_changes(),
            Action::OpenColumns => {
                self.columns_open = true;
                Request::ManageColumns
            },
            Action::UndoStructuralEdit => self.begin_history(false),
            Action::RedoStructuralEdit => self.begin_history(true),
            Action::OpenFilters => {
                self.filters_open = true;
                Request::Nothing
            },
            _ => self.act(action),
        }
    }

    /// Does what a command asks of the columns.
    pub fn apply_column_command(&mut self, command: ColumnCommand) -> (request: Request)
        requires
            old(self).wf(),
        ensures
            final(self).wf(),
            if command == ColumnCommand::AutoFit {
                applied(with_edits_kept(old(self)@), Action::AutoFitColumns, final(self)@, request)
            } else {
                final(self)@ == with_columns_commanded(old(self)@, command) && request == Request::Nothing
            },
    {
        if command == ColumnCommand::AutoFit {
            return self.apply(Action::AutoFitColumns);
        }
        if self.document.is_some() {
            let result = self.command_columns(command);
            self.notice = match result {
                Ok(()) => None,
                Err(message) => Some(AppMessage::warning(message)),
            };
        }
        Request::Nothing
    }

    fn command_columns(&mut self, command: ColumnCommand) -> (result: Result<(), String>)
        requires
            old(self).wf(),
            old(self)@.document is Some,
        ensures
            final(self).wf(),
            final(self)@ == (WorkspaceView {
                document: Some(columns_commanded(old(self)@.document->0, command).0),
                ..old(self)@
            }),
            match columns_commanded(old(self)@.document->0, command).1 {
                Some(message) => result matches Err(given) && given@ == message,
                None => result is Ok,
            },
    {
        match &mut self.document {
            Some(document) => document.command_columns(command),
            None => Ok(()),
        }
    }

    /// Opens a structural dialog.
    pub fn open_structural_dialog(&mut self, dialog: StructuralDialog)
        requires
            old(self).wf(),
            dialog_ready(dialog@),
        ensures
            final(self).wf(),
            final(self)@ == with_dialog(old(self)@, dialog@),
    {
        let reason = match &self.document {
            Some(document) => document.structural_edit_disabled_reason(),
            None => Some("Open a file before editing columns."),
        };
        match reason {
            Some(reason) => self.warn(reason),
            None => {
                self.structural_dialog = Some(dialog);
                self.notice = None;
            },
        }
    }

    /// Takes note of a structural change that has started, or why it could not.
    pub fn change_begun(&mut self, result: Result<(), AppMessage>, from_dialog: bool)
        requires
            old(self).wf(),
        ensures
            final(self).wf(),
            final(self)@ == with_change_begun(
                old(self)@,
                match result {
                    Ok(()) => None,
                    Err(message) => Some(message@),
                },
                from_dialog,
            ),
    {
        match result {
            Ok(()) => {
                let status = self.change_footer();
                self.show_status(status);
                if from_dialog {
                    self.structural_dialog = None;
                }
            },
            Err(message) => self.say(message),
        }
    }

    fn change_footer(&self) -> (message: Option<AppMessage>)
        ensures
            message_view(message) == change_footer(self@),
    {
        proof {
            reveal(change_footer);
        }
        match &self.document {
            Some(document) => if document.structural.job.is_none() {
                match document.status_text(ActiveJobKind::Change) {
                    Some(status) => Some(AppMessage::status(status)),
                    None => None,
                }
            } else {
                None
            },
            None => None,
        }
    }

    /// Finishes a request for a structural change in which the outside has no part.
    fn store_change(&mut self, outcome: Result<Request, AppMessage>, from_dialog: bool) -> (request: Request)
        requires
            old(self).wf(),
            old(self)@.document is Some,
        ensures
            final(self).wf(),
            (final(self)@, request) == change_stored(
                old(self)@,
                old(self)@.document->0,
                outcome,
                from_dialog,
            ),
    {
        match outcome {
            Err(message) => {
                self.change_begun(Err(message), from_dialog);
                Request::Nothing
            },
            Ok(Request::Nothing) => {
                self.change_begun(Ok(()), from_dialog);
                Request::Nothing
            },
            Ok(request) => request,
        }
    }

    /// Answers the structural dialog. `column_limit` is the most columns that a file may have.
    #[verifier::rlimit(50)]
    pub fn apply_structural_dialog_action(&mut self, action: StructuralDialogAction, column_limit: usize) -> (request: Request)
        requires
            old(self).wf(),
        ensures
            final(self).wf(),
            dialog_answered(old(self)@, action, column_limit, final(self)@, request),
    {
        if action == StructuralDialogAction::Cancel {
            self.structural_dialog = None;
            return Request::Nothing;
        }
        if self.structural_dialog.is_none() {
            return Request::Nothing;
        }
        if self.document.is_none() {
            self.warn("Open a file before editing columns.");
            return Request::Nothing;
        }
        let ghost dialog = self@.structural_dialog->0;
        let ghost document = self@.document->0;
        let outcome = self.ask_for_dialog(column_limit);
        let ghost changed = self@.document->0;
        let ghost given = outcome;
        let request = self.store_change(outcome, true);
        proof {
            assert(dialog_asked(document, changed, dialog, old(self)@.sort_match_case, column_limit, given));
            assert((self@, request) == change_stored(old(self)@, changed, given, true));
        }
        request
    }

    fn ask_for_dialog(&mut self, column_limit: usize) -> (outcome: Result<Request, AppMessage>)
        requires
            old(self).wf(),
            old(self)@.document is Some,
            old(self)@.structural_dialog is Some,
        ensures
            final(self).wf(),
            final(self)@.document is Some,
            final(self)@ == (WorkspaceView { document: final(self)@.document, ..old(self)@ }),
            dialog_asked(
                old(self)@.document->0,
                final(self)@.document->0,
                old(self)@.structural_dialog->0,
                old(self)@.sort_match_case,
                column_limit,
                outcome,
            ),
    {
        match (&mut self.document, &self.structural_dialog) {
            (Some(document), Some(dialog)) => document.ask_for(dialog, self.sort_match_case, column_limit),
            _ => Ok(Request::Nothing),
        }
    }

    /// Asks for columns to be deleted.
    pub fn apply_delete_columns(&mut self, columns: Vec<usize>) -> (request: Request)
        requires
            old(self).wf(),
        ensures
            final(self).wf(),
            columns_deleted(old(self)@, columns@, final(self)@, request),
    {
        if self.document.is_none() {
            self.warn("Open a file before editing columns.");
            return Request::Nothing;
        }
        let ghost asked = columns@;
        let result = match &mut self.document {
            Some(document) => document.start_delete_columns(columns),
            None => Ok(None),
        };
        let ghost changed = self@.document->0;
        let ghost given = result;
        let request = self.store_change(needed_request(result), false);
        proof {
            assert(delete_columns_asked(old(self)@.document->0, changed, asked, given));
            assert((self@, request) == change_stored(old(self)@, changed, planned_if_needed(given), false));
        }
        request
    }

    /// Asks for rows to be deleted.
    pub fn apply_delete_rows(&mut self, rows: Vec<RangeInclusive<u64>>) -> (request: Request)
        requires
            old(self).wf(),
            forall|i: int| 0 <= i < rows@.len() ==> !(#[trigger] rows@[i])@.exhausted,
        ensures
            final(self).wf(),
            rows_deleted(old(self)@, rows, final(self)@, request),
    {
        if self.document.is_none() {
            self.warn("Open a file before deleting rows.");
            return Request::Nothing;
        }
        let ghost asked = rows;
        let result = match &mut self.document {
            Some(document) => document.start_delete_rows(rows),
            None => Err(AppMessage::warning("Open a file before deleting rows.".to_owned())),
        };
        let ghost changed = self@.document->0;
        let ghost given = result;
        let request = self.store_change(plan_request(result), false);
        proof {
            assert(delete_rows_asked(old(self)@.document->0, changed, asked, given));
            assert((self@, request) == change_stored(old(self)@, changed, planned(given), false));
        }
        request
    }

    /// Whether the find bar can be opened by its key.
    pub fn find_key_allowed(&self) -> (allowed: bool)
        ensures
            allowed == ((self@.document matches Some(document) && document.filter.query is None)
                && !self.close_confirmation_open && self.structural_dialog is None),
    {
        self.find_available() && !self.close_confirmation_open && self.structural_dialog.is_none()
    }

    /// Whether the document can be saved by its key.
    pub fn save_key_allowed(&self) -> (allowed: bool)
        requires
            self.wf(),
        ensures
            allowed == (!self.close_confirmation_open && (self@.document matches Some(document)
                && save_ready(document))),
    {
        !self.close_confirmation_open && match &self.document {
            Some(document) => document.is_save_ready(),
            None => false,
        }
    }
}

} // verus!
