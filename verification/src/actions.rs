//! What the editor does when it is asked to do something, and what it then asks of the outside.

use crate::dialogs::{case_sensitivity, drafted, filter_predicates, sensitivity};
use crate::document::{Document, DocumentView, ExportView, SaveView, StructuralView};
use crate::edits::committed;
use crate::filter::{filter_cleared, filter_refusal};
use crate::format::{DelimiterMode, HeaderMode, OpenOptions};
use crate::grid::{navigation, step_view, GridStep, ReadPurpose};
use crate::jobs::Action;
use crate::message::AppMessage;
use crate::model::{
    error_view, warning_view, Effect, FileId, FilterQuery, MessageView, QueryView, SearchPosition,
    SOURCE_CHANGED_NOTICE,
};
use crate::parse::{capped_sum, parse_data_row};
use crate::saving::SaveRequest;
use crate::search::{next_found, previous_found, replaced, search_step_view, with_search_cancelled, SearchStep};
use crate::structural::{replace_asked, ChangePlan, SplitAnalysis};
use crate::text::{parsed, trimmed};
use crate::viewport::{clamped, scrolled};
use crate::workspace::{footer, warned, Workspace, WorkspaceView};
use vstd::prelude::*;
use vstd::string::*;
use vstd::utf8::*;

verus! {

/// What is asked of the outside.
#[derive(Debug, PartialEq, Eq)]
pub enum Request {
    Nothing,
    PickFile,
    PickSaveAs,
    PickExport,
    /// Open the file of the document again.
    Open { options: OpenOptions, format: Option<(DelimiterMode, HeaderMode)> },
    Save(SaveRequest),
    ManageColumns,
    FitColumns,
    Move(GridStep),
    Search(SearchPosition),
    Filter(FilterQuery),
    Change(ChangePlan),
    MeasureSplit(SplitAnalysis),
    CheckOriginal,
    /// Open a state of the document that undo or redo goes to.
    OpenState { redo: bool, file: FileId, options: OpenOptions },
}

/// What a [`Request`] stands for. What is to be saved, and how the file is to be changed, is
/// left out.
pub enum Asked {
    Nothing,
    PickFile,
    PickSaveAs,
    PickExport,
    Open { options: OpenOptions, format: Option<(DelimiterMode, HeaderMode)> },
    Save,
    ManageColumns,
    FitColumns,
    Move(GridStep),
    Search(SearchPosition),
    Filter(QueryView),
    Change,
    MeasureSplit,
    CheckOriginal,
    OpenState { redo: bool, file: FileId, options: OpenOptions },
}

impl View for Request {
    type V = Asked;

    open spec fn view(&self) -> Asked {
        match *self {
            Request::Nothing => Asked::Nothing,
            Request::PickFile => Asked::PickFile,
            Request::PickSaveAs => Asked::PickSaveAs,
            Request::PickExport => Asked::PickExport,
            Request::Open { options, format } => Asked::Open { options, format },
            Request::Save(_) => Asked::Save,
            Request::ManageColumns => Asked::ManageColumns,
            Request::FitColumns => Asked::FitColumns,
            Request::Move(step) => Asked::Move(step),
            Request::Search(position) => Asked::Search(position),
            Request::Filter(query) => Asked::Filter(query@),
            Request::Change(_) => Asked::Change,
            Request::MeasureSplit(_) => Asked::MeasureSplit,
            Request::CheckOriginal => Asked::CheckOriginal,
            Request::OpenState { redo, file, options } => Asked::OpenState { redo, file, options },
        }
    }
}

/// A step for which rows are to be read.
pub open spec fn reads(step: GridStep) -> bool {
    step is Read || step is ReadMatches
}

/// What a move of the grid asks for.
pub open spec fn asked_move(step: GridStep) -> Asked {
    if reads(step) {
        Asked::Move(step)
    } else {
        Asked::Nothing
    }
}

/// The outcome of a move whose failure is an error.
pub open spec fn moved_or_error(outcome: (DocumentView, Result<GridStep, Seq<char>>)) -> (
    DocumentView,
    Result<Asked, MessageView>,
) {
    (
        outcome.0,
        match outcome.1 {
            Ok(step) => Ok(asked_move(step)),
            Err(message) => Err(error_view(message)),
        },
    )
}

/// The outcome of a move whose failure is a warning.
pub open spec fn moved_or_warning(outcome: (DocumentView, Result<GridStep, Seq<char>>)) -> (
    DocumentView,
    Result<Asked, MessageView>,
) {
    (
        outcome.0,
        match outcome.1 {
            Ok(step) => Ok(asked_move(step)),
            Err(message) => Err(warning_view(message)),
        },
    )
}

/// The outcome of a request to find.
pub open spec fn found_or_warning(outcome: (DocumentView, Result<SearchStep, Seq<char>>)) -> (
    DocumentView,
    Result<Asked, MessageView>,
) {
    (
        outcome.0,
        match outcome.1 {
            Ok(SearchStep::Move(step)) => Ok(asked_move(step)),
            Ok(SearchStep::Start(position)) => Ok(Asked::Search(position)),
            Err(message) => Err(warning_view(message)),
        },
    )
}

/// The row that a typed row number asks for.
pub open spec fn jump_row(input: Seq<char>, data_start: u64) -> Result<u64, Seq<char>> {
    match parsed(trimmed(input), u64::MAX as nat) {
        None => Err("Data row must be a positive whole number."@),
        Some(row) => if row == 0 {
            Err("Data rows start at 1."@)
        } else {
            Ok(capped_sum(data_start as int, row - 1) as u64)
        },
    }
}

/// What a request to show a row comes to.
pub open spec fn jumped(document: DocumentView, input: Seq<char>) -> (DocumentView, Result<Asked, MessageView>) {
    match jump_row(input, document.grid.data_start) {
        Err(message) => (document, Err(warning_view(message))),
        Ok(row) => moved_or_error(navigation(document, row, ReadPurpose::Viewport)),
    }
}

/// What a request to filter comes to.
pub open spec fn filter_asked(workspace: WorkspaceView, document: DocumentView) -> (
    DocumentView,
    Result<Asked, MessageView>,
) {
    match drafted(workspace.filter_rules, document.grid.total_columns) {
        Err(message) => (document, Err(warning_view(message))),
        Ok(predicates) => {
            let query = QueryView { predicates, case_sensitivity: sensitivity(workspace.filter_match_case) };
            match filter_refusal(document, query) {
                Some(message) => (document, Err(warning_view(message))),
                None => (committed(document), Ok(Asked::Filter(query))),
            }
        },
    }
}

/// The document with work told to stop.
#[verifier::opaque]
pub open spec fn cancelled(document: DocumentView, action: Action) -> DocumentView {
    match action {
        Action::CancelSearch => with_search_cancelled(document),
        Action::CancelFilter if document.filter.running => DocumentView {
            effects: document.effects.push(Effect::CancelFilter),
            ..document
        },
        Action::CancelExport if document.export.running => DocumentView {
            export: ExportView {
                cancel_requested: true,
                status: Some("Cancelling export… Wait for it to finish before opening or reapplying the file."@),
                ..document.export
            },
            effects: document.effects.push(Effect::CancelExport),
            ..document
        },
        Action::CancelSave if document.save.running => DocumentView {
            save: SaveView {
                cancel_requested: true,
                status: Some(
                    if document.save.in_place {
                        "Cancelling Save…"@
                    } else {
                        "Cancelling Save As…"@
                    },
                ),
                ..document.save
            },
            effects: document.effects.push(Effect::CancelSave),
            ..document
        },
        Action::CancelStructuralEdit if document.structural.job is Some => DocumentView {
            structural: StructuralView {
                cancel_requested: true,
                status: Some("Cancelling change…"@),
                ..document.structural
            },
            effects: document.effects.push(Effect::CancelStructural),
            ..document
        },
        Action::Cancel if document.index.running => DocumentView {
            effects: document.effects.push(Effect::CancelIndexing),
            ..document
        },
        _ => document,
    }
}

/// What an action on the document comes to. Replacing everywhere is left out.
pub open spec fn performed(workspace: WorkspaceView, action: Action) -> (DocumentView, Result<Asked, MessageView>) {
    let document = workspace.document->0;
    let height = clamped(document.grid.visible_rows as int);
    let query = encode_utf8(workspace.find_input);
    let case = sensitivity(workspace.find_match_case);
    match action {
        Action::PageUp => moved_or_error(scrolled(document, clamped(-1 * height))),
        Action::PageDown => moved_or_error(scrolled(document, clamped(1 * height))),
        Action::AutoFitColumns => (document, Ok(Asked::FitColumns)),
        Action::Jump => jumped(document, workspace.jump_input),
        Action::FindPrevious => moved_or_warning(previous_found(document, query, case)),
        Action::FindNext => found_or_warning(next_found(document, query, case)),
        Action::ReplaceCurrent => found_or_warning(
            replaced(document, query, encode_utf8(workspace.replace_input), case),
        ),
        Action::ApplyFilter => filter_asked(workspace, document),
        Action::ClearFilter => moved_or_warning(filter_cleared(document)),
        _ => (cancelled(document, action), Ok(Asked::Nothing)),
    }
}

/// The actions whose success is seen in the footer.
pub open spec fn tells(action: Action) -> bool {
    match action {
        Action::FindPrevious | Action::FindNext | Action::ReplaceCurrent | Action::ReplaceAll | Action::ApplyFilter
        | Action::ClearFilter | Action::CancelSearch | Action::CancelFilter | Action::CancelExport
        | Action::CancelSave | Action::CancelStructuralEdit | Action::Cancel => true,
        _ => false,
    }
}

/// The editor once an action is done, or has failed.
pub open spec fn finished(workspace: WorkspaceView, action: Action, failure: Option<MessageView>) -> WorkspaceView {
    WorkspaceView {
        footer_status: if failure is Some || !tells(action) {
            workspace.footer_status
        } else if action == Action::FindPrevious || action == Action::FindNext {
            match workspace.document {
                Some(document) if !document.search.running => footer(document.search.status),
                _ => None,
            }
        } else {
            None
        },
        notice: failure,
        ..workspace
    }
}

/// The editor once its part of an action is done: where the outside has a part too, the rest
/// comes after it.
pub open spec fn stored(workspace: WorkspaceView, action: Action, outcome: (DocumentView, Result<Asked, MessageView>)) -> (
    WorkspaceView,
    Asked,
) {
    let after = WorkspaceView { document: Some(outcome.0), ..workspace };
    match outcome.1 {
        Err(message) => (finished(after, action, Some(message)), Asked::Nothing),
        Ok(asked) => if asked == Asked::Nothing || asked == Asked::FitColumns {
            (finished(after, action, None), asked)
        } else {
            (after, asked)
        },
    }
}

/// Nothing can be done with the document: none is open, or its file has changed.
pub open spec fn idle(workspace: WorkspaceView) -> Option<WorkspaceView> {
    match workspace.document {
        None => Some(workspace),
        Some(document) => if document.source_changed {
            Some(warned(workspace, SOURCE_CHANGED_NOTICE@))
        } else {
            None
        },
    }
}

/// The outcome of a request to replace everywhere, as that of an action.
pub open spec fn replaced_all(result: Result<Option<ChangePlan>, AppMessage>) -> Result<Asked, MessageView> {
    match result {
        Ok(Some(_)) => Ok(Asked::Change),
        Ok(None) => Ok(Asked::Nothing),
        Err(message) => Err(message@),
    }
}

/// What a request to replace everywhere comes to.
pub open spec fn replace_all_applied(before: WorkspaceView, after: WorkspaceView, request: Request) -> bool {
    exists|document: DocumentView, result: Result<Option<ChangePlan>, AppMessage>|
        {
            &&& #[trigger] replace_asked(
                before.document->0,
                document,
                encode_utf8(before.find_input),
                encode_utf8(before.replace_input),
                sensitivity(before.find_match_case),
                result,
            )
            &&& (after, request@) == stored(before, Action::ReplaceAll, (document, replaced_all(result)))
            &&& result matches Ok(Some(plan)) ==> request == Request::Change(plan)
        }
}

/// What an action on the document comes to.
pub open spec fn acted(before: WorkspaceView, action: Action, after: WorkspaceView, request: Request) -> bool {
    match idle(before) {
        Some(idle) => after == idle && request == Request::Nothing,
        None => if action == Action::ReplaceAll {
            replace_all_applied(before, after, request)
        } else {
            (after, request@) == stored(before, action, performed(before, action))
        },
    }
}

/// What to ask of the outside for a move of the grid.
fn move_request(step: GridStep) -> (request: Request)
    ensures
        request@ == asked_move(step),
{
    match step {
        GridStep::Read(_) | GridStep::ReadMatches(_) => Request::Move(step),
        _ => Request::Nothing,
    }
}

/// The outcome of an action with its message as characters.
pub open spec fn outcome_view(result: Result<Request, AppMessage>) -> Result<Asked, MessageView> {
    match result {
        Ok(request) => Ok(request@),
        Err(message) => Err(message@),
    }
}

fn or_error(result: Result<GridStep, String>) -> (outcome: Result<Request, AppMessage>)
    ensures
        outcome_view(outcome) == match step_view(result) {
            Ok(step) => Ok(asked_move(step)),
            Err(message) => Err(error_view(message)),
        },
{
    match result {
        Ok(step) => Ok(move_request(step)),
        Err(message) => Err(AppMessage::error(message)),
    }
}

fn or_warning(result: Result<GridStep, String>) -> (outcome: Result<Request, AppMessage>)
    ensures
        outcome_view(outcome) == match step_view(result) {
            Ok(step) => Ok(asked_move(step)),
            Err(message) => Err(warning_view(message)),
        },
{
    match result {
        Ok(step) => Ok(move_request(step)),
        Err(message) => Err(AppMessage::warning(message)),
    }
}

fn search_or_warning(result: Result<SearchStep, String>) -> (outcome: Result<Request, AppMessage>)
    ensures
        outcome_view(outcome) == match search_step_view(result) {
            Ok(SearchStep::Move(step)) => Ok(asked_move(step)),
            Ok(SearchStep::Start(position)) => Ok(Asked::Search(position)),
            Err(message) => Err(warning_view(message)),
        },
{
    match result {
        Ok(SearchStep::Move(step)) => Ok(move_request(step)),
        Ok(SearchStep::Start(position)) => Ok(Request::Search(position)),
        Err(message) => Err(AppMessage::warning(message)),
    }
}

impl Document {
    /// Tells work to stop.
    fn cancel_work(&mut self, action: Action)
        requires
            old(self).wf(),
        ensures
            final(self).wf(),
            final(self)@ == cancelled(old(self)@, action),
    {
        proof {
            reveal(cancelled);
        }
        match action {
            Action::CancelSearch => self.cancel_search(),
            Action::CancelFilter => self.cancel_filter(),
            Action::CancelExport => self.cancel_filtered_export(),
            Action::CancelSave => self.cancel_save(),
            Action::CancelStructuralEdit => self.cancel_structural_edit(),
            Action::Cancel => self.cancel(),
            _ => {},
        }
    }

    /// Shows the row that a typed row number asks for.
    fn jump(&mut self, input: &str) -> (result: Result<Request, AppMessage>)
        requires
            old(self).wf(),
        ensures
            final(self).wf(),
            (final(self)@, outcome_view(result)) == jumped(old(self)@, input@),
    {
        match parse_data_row(input, self.grid.data_start) {
            Ok(row) => or_error(self.navigate(row)),
            Err(message) => Err(AppMessage::warning(message)),
        }
    }
}

impl Workspace {
    /// Does what an action asks of the document, replacing everywhere left out.
    #[verifier::rlimit(50)]
    fn perform(&mut self, action: Action) -> (result: Result<Request, AppMessage>)
        requires
            old(self).wf(),
            old(self)@.document is Some,
            action != Action::ReplaceAll,
        ensures
            final(self).wf(),
            final(self)@ == (WorkspaceView { document: Some(performed(old(self)@, action).0), ..old(self)@ }),
            outcome_view(result) == performed(old(self)@, action).1,
    {
        match action {
            Action::PageUp | Action::PageDown | Action::Jump | Action::ClearFilter => self.perform_move(action),
            Action::FindPrevious | Action::FindNext | Action::ReplaceCurrent => self.perform_search(action),
            Action::ApplyFilter => self.perform_filter(),
            Action::AutoFitColumns => Ok(Request::FitColumns),
            _ => {
                if let Some(document) = &mut self.document {
                    document.cancel_work(action);
                }
                Ok(Request::Nothing)
            },
        }
    }

    #[verifier::rlimit(50)]
    fn perform_move(&mut self, action: Action) -> (result: Result<Request, AppMessage>)
        requires
            old(self).wf(),
            old(self)@.document is Some,
            action == Action::PageUp || action == Action::PageDown || action == Action::Jump || action
                == Action::ClearFilter,
        ensures
            final(self).wf(),
            final(self)@ == (WorkspaceView { document: Some(performed(old(self)@, action).0), ..old(self)@ }),
            outcome_view(result) == performed(old(self)@, action).1,
    {
        match &mut self.document {
            Some(document) => match action {
                Action::PageUp => or_error(document.page(-1)),
                Action::PageDown => or_error(document.page(1)),
                Action::Jump => document.jump(self.jump_input.as_str()),
                _ => or_warning(document.clear_filter()),
            },
            None => Ok(Request::Nothing),
        }
    }

    #[verifier::rlimit(50)]
    fn perform_search(&mut self, action: Action) -> (result: Result<Request, AppMessage>)
        requires
            old(self).wf(),
            old(self)@.document is Some,
            action == Action::FindPrevious || action == Action::FindNext || action == Action::ReplaceCurrent,
        ensures
            final(self).wf(),
            final(self)@ == (WorkspaceView { document: Some(performed(old(self)@, action).0), ..old(self)@ }),
            outcome_view(result) == performed(old(self)@, action).1,
    {
        let case = case_sensitivity(self.find_match_case);
        let query = self.find_input.as_str().as_bytes();
        match &mut self.document {
            Some(document) => match action {
                Action::FindPrevious => or_warning(document.start_find_previous_with_case(query, case)),
                Action::FindNext => search_or_warning(document.start_find_next_with_case(query, case)),
                _ => search_or_warning(
                    document.replace_current_match_with_case(query, self.replace_input.as_str().as_bytes(), case),
                ),
            },
            None => Ok(Request::Nothing),
        }
    }

    #[verifier::rlimit(50)]
    fn perform_filter(&mut self) -> (result: Result<Request, AppMessage>)
        requires
            old(self).wf(),
            old(self)@.document is Some,
        ensures
            final(self).wf(),
            ({
                let (document, outcome) = filter_asked(old(self)@, old(self)@.document->0);
                &&& final(self)@ == (WorkspaceView { document: Some(document), ..old(self)@ })
                &&& outcome_view(result) == outcome
            }),
    {
        match &mut self.document {
            Some(document) => match filter_predicates(&self.filter_rules, document.grid.total_columns) {
                Err(message) => Err(AppMessage::warning(message)),
                Ok(predicates) => {
                    let query = FilterQuery {
                        predicates,
                        case_sensitivity: case_sensitivity(self.filter_match_case),
                    };
                    match document.start_filter(&query) {
                        Ok(()) => Ok(Request::Filter(query)),
                        Err(message) => Err(AppMessage::warning(message)),
                    }
                },
            },
            None => Ok(Request::Nothing),
        }
    }

    fn perform_replace_all(&mut self) -> (result: Result<Option<ChangePlan>, AppMessage>)
        requires
            old(self).wf(),
            old(self)@.document is Some,
        ensures
            final(self).wf(),
            final(self)@.document is Some,
            final(self)@ == (WorkspaceView { document: final(self)@.document, ..old(self)@ }),
            replace_asked(
                old(self)@.document->0,
                final(self)@.document->0,
                encode_utf8(old(self)@.find_input),
                encode_utf8(old(self)@.replace_input),
                sensitivity(old(self)@.find_match_case),
                result,
            ),
    {
        let case = case_sensitivity(self.find_match_case);
        match &mut self.document {
            Some(document) => document.start_replace_all_with_case(
                self.find_input.as_str().as_bytes(),
                self.replace_input.as_str().as_bytes(),
                case,
            ),
            None => Ok(None),
        }
    }

    /// Takes note that an action is done, or why it has failed.
    pub fn finish_action(&mut self, action: Action, result: Result<(), AppMessage>)
        requires
            old(self).wf(),
        ensures
            final(self).wf(),
            final(self)@ == finished(
                old(self)@,
                action,
                match result {
                    Ok(()) => None,
                    Err(message) => Some(message@),
                },
            ),
    {
        match result {
            Ok(()) => {
                match action {
                    Action::FindPrevious | Action::FindNext => {
                        self.footer_status = match &self.document {
                            Some(document) if !document.search.running => match &document.search.status {
                                Some(status) => Some(AppMessage::status(status.clone())),
                                None => None,
                            },
                            _ => None,
                        };
                    },
                    Action::ReplaceCurrent | Action::ReplaceAll | Action::ApplyFilter | Action::ClearFilter
                    | Action::CancelSearch | Action::CancelFilter | Action::CancelExport | Action::CancelSave
                    | Action::CancelStructuralEdit | Action::Cancel => {
                        self.footer_status = None;
                    },
                    _ => {},
                }
                self.notice = None;
            },
            Err(message) => {
                self.notice = Some(message);
            },
        }
    }

    /// Does what an action asks of the document, and says what is left for the outside.
    #[verifier::rlimit(50)]
    pub fn act(&mut self, action: Action) -> (request: Request)
        requires
            old(self).wf(),
        ensures
            final(self).wf(),
            acted(old(self)@, action, final(self)@, request),
    {
        let changed = match &self.document {
            Some(document) => document.source_changed,
            None => {
                return Request::Nothing;
            },
        };
        if changed {
            self.warn(SOURCE_CHANGED_NOTICE);
            return Request::Nothing;
        }
        let result = match action {
            Action::ReplaceAll => {
                return self.act_replace_all();
            },
            _ => self.perform(action),
        };
        self.store(action, result)
    }

    #[verifier::rlimit(50)]
    fn act_replace_all(&mut self) -> (request: Request)
        requires
            old(self).wf(),
            old(self)@.document is Some,
        ensures
            final(self).wf(),
            replace_all_applied(old(self)@, final(self)@, request),
    {
        let result = self.perform_replace_all();
        let ghost document = self@.document->0;
        let ghost given = result;
        let outcome = match result {
            Ok(Some(plan)) => Ok(Request::Change(plan)),
            Ok(None) => Ok(Request::Nothing),
            Err(message) => Err(message),
        };
        let request = self.store(Action::ReplaceAll, outcome);
        proof {
            assert(replace_asked(
                old(self)@.document->0,
                document,
                encode_utf8(old(self)@.find_input),
                encode_utf8(old(self)@.replace_input),
                sensitivity(old(self)@.find_match_case),
                given,
            ));
            assert((self@, request@) == stored(old(self)@, Action::ReplaceAll, (document, replaced_all(given))));
        }
        request
    }

    /// Finishes an action in which the outside has no part.
    #[verifier::rlimit(50)]
    fn store(&mut self, action: Action, result: Result<Request, AppMessage>) -> (request: Request)
        requires
            old(self).wf(),
            old(self)@.document is Some,
        ensures
            final(self).wf(),
            (final(self)@, request@) == stored(
                old(self)@,
                action,
                (old(self)@.document->0, outcome_view(result)),
            ),
            match result {
                Ok(given) => request == given,
                Err(_) => request == Request::Nothing,
            },
    {
        match result {
            Ok(request) => {
                match &request {
                    Request::Nothing | Request::FitColumns => {
                        self.finish_action(action, Ok(()));
                    },
                    _ => {},
                }
                request
            },
            Err(message) => {
                self.finish_action(action, Err(message));
                Request::Nothing
            },
        }
    }
}

} // verus!
