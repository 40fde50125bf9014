//! The editor around the document: its inputs, its messages, and what is opened and closed.

use crate::dialogs::{dialog_ready, dialog_view, rules_of, DialogView, FilterRuleDraft, RuleView, StructuralDialog};
use crate::document::{Document, DocumentView, SaveView};
use crate::edits::{committed, dirty};
use crate::format::{DelimiterMode, HeaderMode};
use crate::jobs::ActiveJobKind;
use crate::message::AppMessage;
use crate::model::{
    error_view, status_view, text_view, warning_view, Failure, FilterOperator, FilterQuery, JobProgress, MessageView,
    SOURCE_CHANGED_NOTICE,
};
use crate::saving::{asks_to_save, outdated, save_checked, stopped, SaveRequest};
use crate::text::{self, decimal};
use vstd::prelude::*;
use vstd::string::*;

verus! {

/// The editor: the document that is open, what is typed beside it, and what is said.
#[derive(Debug, PartialEq, Eq)]
pub struct Workspace {
    pub jump_input: String,
    pub find_input: String,
    pub replace_input: String,
    pub find_match_case: bool,
    pub find_bar_open: bool,
    pub replace_expanded: bool,
    pub filter_match_case: bool,
    pub sort_match_case: bool,
    pub column_search_input: String,
    pub columns_open: bool,
    pub structural_dialog: Option<StructuralDialog>,
    pub filter_rules: Vec<FilterRuleDraft>,
    pub filters_open: bool,
    pub delimiter_mode: DelimiterMode,
    pub header_mode: HeaderMode,
    pub format_draft: Option<(DelimiterMode, HeaderMode)>,
    pub document: Option<Document>,
    pub notice: Option<AppMessage>,
    pub footer_status: Option<AppMessage>,
    pub close_confirmation_open: bool,
    pub close_after_save: bool,
}

pub open spec fn message_view(message: Option<AppMessage>) -> Option<MessageView> {
    match message {
        Some(message) => Some(message@),
        None => None,
    }
}

pub open spec fn document_view(document: Option<Document>) -> Option<DocumentView> {
    match document {
        Some(document) => Some(document@),
        None => None,
    }
}

/// What a [`Workspace`] stands for.
pub struct WorkspaceView {
    pub jump_input: Seq<char>,
    pub find_input: Seq<char>,
    pub replace_input: Seq<char>,
    pub find_match_case: bool,
    pub find_bar_open: bool,
    pub replace_expanded: bool,
    pub filter_match_case: bool,
    pub sort_match_case: bool,
    pub column_search_input: Seq<char>,
    pub columns_open: bool,
    pub structural_dialog: Option<DialogView>,
    pub filter_rules: Seq<RuleView>,
    pub filters_open: bool,
    pub delimiter_mode: DelimiterMode,
    pub header_mode: HeaderMode,
    pub format_draft: Option<(DelimiterMode, HeaderMode)>,
    pub document: Option<DocumentView>,
    pub notice: Option<MessageView>,
    pub footer_status: Option<MessageView>,
    pub close_confirmation_open: bool,
    pub close_after_save: bool,
}

impl View for Workspace {
    type V = WorkspaceView;

    open spec fn view(&self) -> WorkspaceView {
        WorkspaceView {
            jump_input: self.jump_input@,
            find_input: self.find_input@,
            replace_input: self.replace_input@,
            find_match_case: self.find_match_case,
            find_bar_open: self.find_bar_open,
            replace_expanded: self.replace_expanded,
            filter_match_case: self.filter_match_case,
            sort_match_case: self.sort_match_case,
            column_search_input: self.column_search_input@,
            columns_open: self.columns_open,
            structural_dialog: dialog_view(self.structural_dialog),
            filter_rules: rules_of(self.filter_rules@),
            filters_open: self.filters_open,
            delimiter_mode: self.delimiter_mode,
            header_mode: self.header_mode,
            format_draft: self.format_draft,
            document: document_view(self.document),
            notice: message_view(self.notice),
            footer_status: message_view(self.footer_status),
            close_confirmation_open: self.close_confirmation_open,
            close_after_save: self.close_after_save,
        }
    }
}

/// The rule that a new list of filter rules starts with.
pub open spec fn first_rule() -> RuleView {
    RuleView { column_input: "1"@, operator: FilterOperator::Contains, value_input: Seq::empty() }
}

/// The editor before anything is opened.
pub open spec fn empty_workspace() -> WorkspaceView {
    WorkspaceView {
        jump_input: "1"@,
        find_input: Seq::empty(),
        replace_input: Seq::empty(),
        find_match_case: false,
        find_bar_open: false,
        replace_expanded: false,
        filter_match_case: false,
        sort_match_case: false,
        column_search_input: Seq::empty(),
        columns_open: false,
        structural_dialog: None,
        filter_rules: seq![first_rule()],
        filters_open: false,
        delimiter_mode: DelimiterMode::Auto,
        header_mode: HeaderMode::Auto,
        format_draft: None,
        document: None,
        notice: None,
        footer_status: None,
        close_confirmation_open: false,
        close_after_save: false,
    }
}

/// The editor with another document in place of the one that is open.
pub open spec fn with_document(workspace: WorkspaceView, document: DocumentView) -> WorkspaceView {
    WorkspaceView {
        jump_input: "1"@,
        column_search_input: Seq::empty(),
        columns_open: false,
        find_bar_open: false,
        replace_expanded: false,
        structural_dialog: None,
        filter_rules: seq![first_rule()],
        filters_open: false,
        format_draft: None,
        document: Some(document),
        footer_status: None,
        ..workspace
    }
}

/// The editor with what is being typed into the document kept.
pub open spec fn with_edits_kept(workspace: WorkspaceView) -> WorkspaceView {
    WorkspaceView {
        document: match workspace.document {
            Some(document) => Some(committed(document)),
            None => None,
        },
        ..workspace
    }
}

/// The editor with a warning.
pub open spec fn warned(workspace: WorkspaceView, text: Seq<char>) -> WorkspaceView {
    WorkspaceView { notice: Some(warning_view(text)), ..workspace }
}

/// Why no other file can be opened, and the document then.
pub open spec fn open_refusal(before: DocumentView) -> (DocumentView, Option<Seq<char>>) {
    if before.save.running {
        (before, Some("Cancel the active save before opening another file."@))
    } else if before.structural.job is Some {
        (before, Some("Cancel the active change before opening another file."@))
    } else {
        let document = committed(before);
        (
            document,
            if dirty(document) {
                Some("Discard or save your changes before opening another file."@)
            } else if document.export.running {
                Some("Cancel the active export and wait for it to finish before opening another file."@)
            } else {
                None
            },
        )
    }
}

/// The editor and the message, once it is known whether another file can be opened.
pub open spec fn open_checked(workspace: WorkspaceView) -> (WorkspaceView, Option<Seq<char>>) {
    match workspace.document {
        None => (workspace, None),
        Some(document) => (
            WorkspaceView { document: Some(open_refusal(document).0), ..workspace },
            open_refusal(document).1,
        ),
    }
}

/// The editor, and whether a file can be picked: not while a save runs, nor with unsaved changes.
pub open spec fn pick_checked(workspace: WorkspaceView, saving: Seq<char>, unsaved: Seq<char>) -> (WorkspaceView, bool) {
    match workspace.document {
        None => (workspace, true),
        Some(document) => if document.save.running {
            (warned(workspace, saving), false)
        } else {
            let kept = with_edits_kept(workspace);
            if dirty(committed(document)) {
                (warned(kept, unsaved), false)
            } else {
                (kept, true)
            }
        },
    }
}

/// Why the document cannot be saved under another name.
pub open spec fn save_as_refusal(document: DocumentView) -> Option<Seq<char>> {
    if document.save.running {
        Some("A save operation is already running."@)
    } else if document.export.running {
        Some("Cancel the active export before using Save As."@)
    } else if document.source_changed {
        Some(SOURCE_CHANGED_NOTICE@)
    } else if !dirty(document) || document.structural.job is Some {
        Some("Make a change before using Save As."@)
    } else {
        None
    }
}

/// The editor, and whether a name for a copy can be picked.
pub open spec fn save_as_checked(workspace: WorkspaceView) -> (WorkspaceView, bool) {
    match workspace.document {
        None => (warned(workspace, "Open a file before using Save As."@), false),
        Some(document) => {
            let kept = with_edits_kept(workspace);
            match save_as_refusal(committed(document)) {
                Some(message) => (warned(kept, message), false),
                None => (kept, true),
            }
        },
    }
}

/// What a request to save comes to.
pub open spec fn save_asked(before: WorkspaceView, to_another_file: bool, after: WorkspaceView, request: Option<SaveRequest>) -> bool {
    match before.document {
        None => request is None && after == warned(
            before,
            if to_another_file {
                "Open a file before using Save As."@
            } else {
                "Open a file before saving."@
            },
        ),
        Some(document) => {
            let (checked, refusal) = save_checked(document);
            let stored = WorkspaceView { document: Some(checked), ..before };
            match refusal {
                Some(message) => request is None && after == warned(stored, message),
                None => after == stored && (request matches Some(asked) && asks_to_save(
                    checked,
                    to_another_file,
                    asked,
                )),
            }
        },
    }
}

/// The editor, and whether a file to export filtered rows to can be picked.
pub open spec fn export_checked(workspace: WorkspaceView) -> (WorkspaceView, bool) {
    if workspace.document is None {
        (warned(workspace, "Open and filter a file before exporting."@), false)
    } else {
        pick_checked(
            workspace,
            "Cancel the active save before exporting filtered rows."@,
            "Save or discard your changes before exporting filtered rows."@,
        )
    }
}

/// The message after some dropped files: that of the one that was opened, and how many were
/// passed over.
pub open spec fn drop_message(result: Option<MessageView>, ignored: usize) -> Option<MessageView> {
    if ignored == 0 {
        result
    } else {
        match result {
            None => Some(
                warning_view(
                    "Opened one file and ignored "@ + decimal(ignored as nat) + " additional dropped item(s)."@,
                ),
            ),
            Some(message) => Some(
                MessageView {
                    text: message.text + " Ignored "@ + decimal(ignored as nat) + " additional dropped item(s)."@,
                    severity: message.severity,
                },
            ),
        }
    }
}

/// The message of `result` in the notice; where there is none, nothing in the footer either.
pub open spec fn reported(workspace: WorkspaceView, result: Option<MessageView>) -> WorkspaceView {
    WorkspaceView {
        notice: result,
        footer_status: if result is None {
            None
        } else {
            workspace.footer_status
        },
        ..workspace
    }
}

/// The document once a save of it has started, or could not start, and why.
#[verifier::opaque]
pub open spec fn save_start(document: DocumentView, in_place: bool, outcome: Result<(), Failure>) -> (
    DocumentView,
    Option<MessageView>,
) {
    match outcome {
        Ok(()) => (
            DocumentView {
                save: SaveView {
                    running: true,
                    status: Some("Saving edited file…"@),
                    cancel_requested: false,
                    in_place,
                },
                ..document
            },
            None,
        ),
        Err(Failure::SourceChanged) => (outdated(document), Some(warning_view(SOURCE_CHANGED_NOTICE@))),
        Err(Failure::Missing(message)) => (document, Some(error_view(message@))),
        Err(Failure::Other(message)) => (document, Some(error_view(message@))),
    }
}

/// The editor with a failure in the notice and nothing in the footer.
pub open spec fn with_failure(workspace: WorkspaceView, message: MessageView) -> WorkspaceView {
    WorkspaceView { notice: Some(message), footer_status: None, ..workspace }
}

/// The status as a message for the footer.
pub open spec fn footer(status: Option<Seq<char>>) -> Option<MessageView> {
    match status {
        Some(status) => Some(status_view(status)),
        None => None,
    }
}

/// The status of a kind of work.
pub open spec fn status_of(document: DocumentView, kind: ActiveJobKind) -> Option<Seq<char>> {
    match kind {
        ActiveJobKind::Change => document.structural.status,
        ActiveJobKind::Save => document.save.status,
        ActiveJobKind::Export => document.export.status,
        ActiveJobKind::Filter => document.filter.status,
        ActiveJobKind::Search => document.search.status,
        ActiveJobKind::Index => None,
    }
}

/// A status that says that an export failed.
pub open spec fn says_failed(status: Option<Seq<char>>) -> bool {
    let start = "Export failed"@;
    status is Some && start.len() <= status->0.len() && status->0.take(start.len() as int) == start
}

/// The editor once work of a kind has ended: its status in the footer.
pub open spec fn with_end_shown(workspace: WorkspaceView, kind: ActiveJobKind) -> WorkspaceView {
    let status = match workspace.document {
        Some(document) => status_of(document, kind),
        None => None,
    };
    if kind == ActiveJobKind::Export && says_failed(status) {
        with_failure(workspace, error_view(status->0))
    } else {
        WorkspaceView { notice: None, footer_status: footer(status), ..workspace }
    }
}

/// The editor once a save has ended without a new file: where the window was to be closed after
/// it, the question is asked again.
pub open spec fn with_close_asked(workspace: WorkspaceView) -> WorkspaceView {
    if workspace.close_after_save {
        WorkspaceView { close_after_save: false, close_confirmation_open: true, ..workspace }
    } else {
        workspace
    }
}

/// A kind of work of the document does not run.
pub open spec fn ended(workspace: WorkspaceView, kind: ActiveJobKind) -> bool {
    workspace.document matches Some(document) && !runs(document, kind)
}

/// A kind of work runs.
pub open spec fn runs(document: DocumentView, kind: ActiveJobKind) -> bool {
    match kind {
        ActiveJobKind::Change => document.structural.job is Some,
        ActiveJobKind::Save => document.save.running,
        ActiveJobKind::Export => document.export.running,
        ActiveJobKind::Filter => document.filter.running,
        ActiveJobKind::Search => document.search.running,
        ActiveJobKind::Index => document.index.running,
    }
}

/// The editor once it is seen whether a save still runs.
pub open spec fn with_save_polled(workspace: WorkspaceView, was_running: bool) -> WorkspaceView {
    if !ended(workspace, ActiveJobKind::Save) {
        workspace
    } else if was_running {
        with_close_asked(with_end_shown(workspace, ActiveJobKind::Save))
    } else {
        with_close_asked(workspace)
    }
}

/// The editor with nothing said of a save of its document.
#[verifier::opaque]
pub open spec fn without_save_status(workspace: WorkspaceView) -> WorkspaceView {
    match workspace.document {
        Some(document) => WorkspaceView {
            document: Some(DocumentView { save: SaveView { status: None, ..document.save }, ..document }),
            ..workspace
        },
        None => workspace,
    }
}

/// The editor once a save has made its file, and it was opened again or could not be.
pub open spec fn with_saved(workspace: WorkspaceView, reopened: Result<DocumentView, Seq<char>>, in_place: bool, path: Seq<char>) -> WorkspaceView {
    match reopened {
        Ok(document) => {
            let shown = with_document(workspace, document);
            WorkspaceView {
                notice: None,
                footer_status: Some(
                    status_view(
                        if in_place {
                            "Saved "@ + path + "."@
                        } else {
                            "Saved as "@ + path + "."@
                        },
                    ),
                ),
                close_after_save: false,
                ..shown
            }
        },
        Err(message) => if in_place {
            WorkspaceView {
                document: None,
                find_bar_open: false,
                replace_expanded: false,
                footer_status: None,
                notice: Some(
                    error_view(
                        "Saved "@ + path + " but could not reload it: "@ + message
                            + ". Reopen the file to continue."@,
                    ),
                ),
                close_after_save: false,
                ..workspace
            }
        } else {
            with_close_asked(
                with_failure(
                    without_save_status(workspace),
                    error_view("Saved "@ + path + " but could not open it: "@ + message),
                ),
            )
        },
    }
}

/// The editor, and whether the window stays open, once it is asked to close.
pub open spec fn close_asked(workspace: WorkspaceView) -> (WorkspaceView, bool) {
    match workspace.document {
        None => (workspace, false),
        Some(document) => if document.save.running {
            (WorkspaceView { close_confirmation_open: false, close_after_save: true, ..workspace }, true)
        } else {
            let kept = with_edits_kept(workspace);
            if dirty(committed(document)) {
                (WorkspaceView { close_confirmation_open: true, ..kept }, true)
            } else {
                (kept, false)
            }
        },
    }
}

/// A document with unsaved changes is never closed without a question or a save.
pub proof fn lemma_close_keeps_changes(workspace: WorkspaceView)
    requires
        workspace.document matches Some(document) && (document.save.running || dirty(committed(document))),
    ensures
        close_asked(workspace).1,
        close_asked(workspace).0.close_confirmation_open || close_asked(workspace).0.close_after_save,
        close_asked(workspace).0.document is Some,
{
}

/// No other file is opened over unsaved changes or work that writes a file.
pub proof fn lemma_open_keeps_changes(workspace: WorkspaceView)
    ensures
        open_checked(workspace).1 is None && workspace.document is Some ==> {
            let document = open_checked(workspace).0.document->0;
            &&& !dirty(document)
            &&& !document.save.running
            &&& document.structural.job is None
            &&& !document.export.running
        },
{
    if workspace.document is Some {
        crate::edits::lemma_commit_frame(workspace.document->0);
    }
}

impl Workspace {
    pub open spec fn wf(self) -> bool {
        &&& self.document matches Some(document) ==> document.wf()
        &&& self.structural_dialog matches Some(dialog) ==> dialog_ready(dialog@)
    }

    /// The editor before anything is opened.
    pub fn new() -> (workspace: Self)
        ensures
            workspace.wf(),
            workspace@ == empty_workspace(),
    {
        let mut filter_rules: Vec<FilterRuleDraft> = Vec::new();
        filter_rules.push(FilterRuleDraft::default());
        let workspace = Workspace {
            jump_input: "1".to_owned(),
            find_input: String::new(),
            replace_input: String::new(),
            find_match_case: false,
            find_bar_open: false,
            replace_expanded: false,
            filter_match_case: false,
            sort_match_case: false,
            column_search_input: String::new(),
            columns_open: false,
            structural_dialog: None,
            filter_rules,
            filters_open: false,
            delimiter_mode: DelimiterMode::Auto,
            header_mode: HeaderMode::Auto,
            format_draft: None,
            document: None,
            notice: None,
            footer_status: None,
            close_confirmation_open: false,
            close_after_save: false,
        };
        proof {
            reveal(rules_of);
        }
        assert(workspace@.filter_rules =~= seq![first_rule()]);
        assert(workspace@.find_input =~= Seq::empty());
        workspace
    }

    /// Says something in the notice.
    pub(crate) fn say(&mut self, message: AppMessage)
        requires
            old(self).wf(),
        ensures
            final(self).wf(),
            final(self)@ == (WorkspaceView { notice: Some(message@), ..old(self)@ }),
    {
        self.notice = Some(message);
    }

    /// Says a warning.
    pub fn warn(&mut self, text: &str)
        requires
            old(self).wf(),
        ensures
            final(self).wf(),
            final(self)@ == warned(old(self)@, text@),
    {
        self.notice = Some(AppMessage::warning(text.to_owned()));
        assert(self@ == warned(old(self)@, text@));
    }

    /// Keeps what is being typed into the document.
    pub fn commit_edits(&mut self)
        requires
            old(self).wf(),
        ensures
            final(self).wf(),
            final(self)@ == with_edits_kept(old(self)@),
    {
        if let Some(document) = &mut self.document {
            document.commit_edits();
        }
    }

    /// Checks that another file can be opened.
    pub fn check_open(&mut self) -> (result: Result<(), AppMessage>)
        requires
            old(self).wf(),
        ensures
            final(self).wf(),
            final(self)@ == open_checked(old(self)@).0,
            match open_checked(old(self)@).1 {
                Some(message) => result matches Err(given) && given@ == warning_view(message),
                None => result is Ok,
            },
    {
        let refusal = match &mut self.document {
            Some(document) => document.open_refusal(),
            None => None,
        };
        match refusal {
            Some(message) => Err(AppMessage::warning(message.to_owned())),
            None => Ok(()),
        }
    }

    /// Shows another document. Hands the one that was open back, with all its work stopped.
    pub fn document_opened(&mut self, document: Document) -> (retired: Option<Document>)
        requires
            old(self).wf(),
            document.wf(),
        ensures
            final(self).wf(),
            final(self)@ == with_document(old(self)@, document@),
            document_view(retired) == match old(self)@.document {
                Some(current) => Some(stopped(current)),
                None => None,
            },
    {
        let retired = self.retire();
        let mut filter_rules: Vec<FilterRuleDraft> = Vec::new();
        filter_rules.push(FilterRuleDraft::default());
        self.jump_input = "1".to_owned();
        self.column_search_input = String::new();
        self.columns_open = false;
        self.find_bar_open = false;
        self.replace_expanded = false;
        self.structural_dialog = None;
        self.filter_rules = filter_rules;
        self.filters_open = false;
        self.format_draft = None;
        self.document = Some(document);
        self.footer_status = None;
        proof {
            reveal(rules_of);
        }
        assert(self@.filter_rules =~= seq![first_rule()]);
        assert(self@.column_search_input =~= Seq::empty());
        retired
    }

    /// Whether a file can be picked to open.
    pub fn choose_file(&mut self) -> (allowed: bool)
        requires
            old(self).wf(),
        ensures
            final(self).wf(),
            (final(self)@, allowed) == pick_checked(
                old(self)@,
                "Cancel the active save before opening another file."@,
                "Discard or save your changes before opening another file."@,
            ),
    {
        self.check_pick(
            "Cancel the active save before opening another file.",
            "Discard or save your changes before opening another file.",
        )
    }

    fn check_pick(&mut self, saving: &str, unsaved: &str) -> (allowed: bool)
        requires
            old(self).wf(),
        ensures
            final(self).wf(),
            (final(self)@, allowed) == pick_checked(old(self)@, saving@, unsaved@),
    {
        let running = match &self.document {
            Some(document) => document.save.running,
            None => {
                return true;
            },
        };
        if running {
            self.warn(saving);
            return false;
        }
        self.commit_edits();
        let unsaved_changes = match &self.document {
            Some(document) => document.is_dirty(),
            None => false,
        };
        if unsaved_changes {
            self.warn(unsaved);
            return false;
        }
        true
    }

    /// Whether a file can be picked to export filtered rows to.
    pub fn choose_filtered_export(&mut self) -> (allowed: bool)
        requires
            old(self).wf(),
        ensures
            final(self).wf(),
            (final(self)@, allowed) == export_checked(old(self)@),
    {
        if self.document.is_none() {
            self.warn("Open and filter a file before exporting.");
            return false;
        }
        self.check_pick(
            "Cancel the active save before exporting filtered rows.",
            "Save or discard your changes before exporting filtered rows.",
        )
    }

    /// Whether a name can be picked to save a copy under.
    pub fn choose_save_as(&mut self) -> (allowed: bool)
        requires
            old(self).wf(),
        ensures
            final(self).wf(),
            (final(self)@, allowed) == save_as_checked(old(self)@),
    {
        if self.document.is_none() {
            self.warn("Open a file before using Save As.");
            return false;
        }
        self.commit_edits();
        let refusal: Option<&'static str> = match &self.document {
            Some(document) => if document.is_save_ready() {
                None
            } else if document.save.running {
                Some("A save operation is already running.")
            } else if document.export.running {
                Some("Cancel the active export before using Save As.")
            } else if document.source_changed {
                Some(SOURCE_CHANGED_NOTICE)
            } else {
                Some("Make a change before using Save As.")
            },
            None => None,
        };
        match refusal {
            Some(message) => {
                self.warn(message);
                false
            },
            None => true,
        }
    }

    /// What to save, in place or under another name; nothing where it cannot be, which is said.
    pub fn begin_save(&mut self, to_another_file: bool) -> (request: Option<SaveRequest>)
        requires
            old(self).wf(),
        ensures
            final(self).wf(),
            save_asked(old(self)@, to_another_file, final(self)@, request),
    {
        if self.document.is_none() {
            if to_another_file {
                self.warn("Open a file before using Save As.");
            } else {
                self.warn("Open a file before saving.");
            }
            return None;
        }
        match self.ask_to_save(to_another_file) {
            Ok(request) => Some(request),
            Err(message) => {
                self.say(message);
                None
            },
        }
    }

    fn ask_to_save(&mut self, to_another_file: bool) -> (result: Result<SaveRequest, AppMessage>)
        requires
            old(self).wf(),
            old(self)@.document is Some,
        ensures
            final(self).wf(),
            final(self)@ == (WorkspaceView {
                document: Some(save_checked(old(self)@.document->0).0),
                ..old(self)@
            }),
            match save_checked(old(self)@.document->0).1 {
                Some(message) => result matches Err(given) && given@ == warning_view(message),
                None => result matches Ok(request) && asks_to_save(
                    save_checked(old(self)@.document->0).0,
                    to_another_file,
                    request,
                ),
            },
    {
        match &mut self.document {
            Some(document) => document.start_save_operation(to_another_file),
            None => Err(AppMessage::warning("Open a file before saving.".to_owned())),
        }
    }

    /// Puts the message of a request, where it has one, into the notice.
    pub fn report(&mut self, result: Result<(), AppMessage>) -> (done: bool)
        requires
            old(self).wf(),
        ensures
            final(self).wf(),
            done == result is Ok,
            final(self)@ == reported(
                old(self)@,
                match result {
                    Ok(()) => None,
                    Err(message) => Some(message@),
                },
            ),
    {
        match result {
            Ok(()) => {
                self.notice = None;
                self.footer_status = None;
                assert(self@ == reported(old(self)@, None));
                true
            },
            Err(message) => {
                self.notice = Some(message);
                assert(self@ == reported(old(self)@, Some(message@)));
                false
            },
        }
    }

    /// Takes note of a save that has started, or that could not start. Says whether it has.
    #[verifier::rlimit(50)]
    pub fn save_begun(&mut self, in_place: bool, outcome: Result<(), Failure>) -> (done: bool)
        requires
            old(self).wf(),
            old(self)@.document is Some,
        ensures
            final(self).wf(),
            done == outcome is Ok,
            ({
                let (after, message) = save_start(old(self)@.document->0, in_place, outcome);
                final(self)@ == reported(WorkspaceView { document: Some(after), ..old(self)@ }, message)
            }),
    {
        proof {
            reveal(save_start);
        }
        let result = match &mut self.document {
            Some(document) => document.save_started(in_place, outcome),
            None => Ok(()),
        };
        self.report(result)
    }

    /// The filter whose rows to export; nothing where they cannot be, which is said.
    pub fn begin_export(&mut self) -> (query: Option<FilterQuery>)
        requires
            old(self).wf(),
        ensures
            final(self).wf(),
            match old(self)@.document {
                None => query is None && final(self)@ == warned(
                    old(self)@,
                    "Open and filter a file before exporting."@,
                ),
                Some(document) => {
                    let (after, outcome) = crate::saving::export_requested(document);
                    let stored = WorkspaceView { document: Some(after), ..old(self)@ };
                    match outcome {
                        Ok(()) => final(self)@ == stored && (query matches Some(rules) && after.filter.query == Some(
                            rules@,
                        )),
                        Err(message) => query is None && final(self)@ == (WorkspaceView {
                            notice: Some(message),
                            ..stored
                        }),
                    }
                },
            },
    {
        if self.document.is_none() {
            self.warn("Open and filter a file before exporting.");
            return None;
        }
        match self.ask_to_export() {
            Ok(query) => query,
            Err(message) => {
                self.say(message);
                None
            },
        }
    }

    fn ask_to_export(&mut self) -> (result: Result<Option<FilterQuery>, AppMessage>)
        requires
            old(self).wf(),
            old(self)@.document is Some,
        ensures
            final(self).wf(),
            ({
                let (after, outcome) = crate::saving::export_requested(old(self)@.document->0);
                &&& final(self)@ == (WorkspaceView { document: Some(after), ..old(self)@ })
                &&& match outcome {
                    Ok(()) => result matches Ok(query) && crate::model::query_view(query) == after.filter.query,
                    Err(message) => result matches Err(given) && given@ == message,
                }
            }),
    {
        match &mut self.document {
            Some(document) => {
                match document.start_filtered_export() {
                    Ok(()) => Ok(
                        match &document.filter.query {
                            Some(query) => Some(crate::model::copy_query(query)),
                            None => None,
                        },
                    ),
                    Err(message) => Err(message),
                }
            },
            None => Ok(None),
        }
    }

    /// Takes note of an export that has started, or why it could not start.
    pub fn export_begun(&mut self, outcome: Result<JobProgress, String>)
        requires
            old(self).wf(),
            old(self)@.document is Some,
        ensures
            final(self).wf(),
            match outcome {
                Ok(progress) => final(self)@ == reported(
                    WorkspaceView {
                        document: Some(
                            DocumentView {
                                export: crate::document::ExportView {
                                    running: true,
                                    progress: Some(progress),
                                    status: Some(
                                        "Export in progress. To open or reapply a file, cancel this export and wait for it to finish."@,
                                    ),
                                    cancel_requested: false,
                                },
                                ..old(self)@.document->0
                            },
                        ),
                        ..old(self)@
                    },
                    None,
                ),
                Err(message) => final(self)@ == (WorkspaceView {
                    notice: Some(error_view(message@)),
                    ..old(self)@
                }),
            },
    {
        match outcome {
            Ok(progress) => {
                if let Some(document) = &mut self.document {
                    document.export_started(progress);
                }
                self.report(Ok(()));
            },
            Err(message) => {
                self.report(Err(AppMessage::error(message)));
            },
        }
    }

    /// The message after dropped files, of which one was opened or could not be.
    pub fn dropped(&mut self, result: Option<AppMessage>, ignored: usize)
        requires
            old(self).wf(),
        ensures
            final(self).wf(),
            final(self)@ == (WorkspaceView { notice: drop_message(message_view(result), ignored), ..old(self)@ }),
    {
        let ghost given = message_view(result);
        if ignored == 0 {
            self.notice = result;
        } else {
            let number = text::count(ignored);
            self.notice = Some(
                match result {
                    None => AppMessage::warning(
                        "Opened one file and ignored ".to_owned().concat(number.as_str()).concat(
                            " additional dropped item(s).",
                        ),
                    ),
                    Some(message) => AppMessage::new(
                        message.text.concat(" Ignored ").concat(number.as_str()).concat(
                            " additional dropped item(s).",
                        ),
                        message.severity,
                    ),
                },
            );
        }
        assert(self@ == WorkspaceView { notice: drop_message(given, ignored), ..old(self)@ });
    }

    /// Says that none of the dropped items is a file that can be opened.
    pub fn nothing_dropped(&mut self, count: usize)
        requires
            old(self).wf(),
        ensures
            final(self).wf(),
            final(self)@ == warned(
                old(self)@,
                "Ignored "@ + decimal(count as nat) + " dropped item(s); Quarry can only open a local file."@,
            ),
    {
        let message = "Ignored ".to_owned().concat(text::count(count).as_str()).concat(
            " dropped item(s); Quarry can only open a local file.",
        );
        self.warn(message.as_str());
    }

    /// Says that something failed.
    pub fn fail(&mut self, message: AppMessage)
        requires
            old(self).wf(),
        ensures
            final(self).wf(),
            final(self)@ == with_failure(old(self)@, message@),
    {
        self.footer_status = None;
        self.notice = Some(message);
        assert(self@ == with_failure(old(self)@, message@));
    }

    /// Shows the status of work that has ended.
    #[verifier::rlimit(50)]
    fn show_end(&mut self, kind: ActiveJobKind)
        requires
            old(self).wf(),
        ensures
            final(self).wf(),
            final(self)@ == with_end_shown(old(self)@, kind),
    {
        let status: Option<String> = match &self.document {
            Some(document) => document.status_text(kind),
            None => None,
        };
        match status {
            Some(status) => {
                if kind == ActiveJobKind::Export && text::starts_with(status.as_str(), "Export failed") {
                    self.fail(AppMessage::error(status));
                } else {
                    self.show_status(Some(AppMessage::status(status)));
                }
            },
            None => {
                self.show_status(None);
            },
        }
    }

    /// Shows a status in the footer, and no notice.
    pub(crate) fn show_status(&mut self, status: Option<AppMessage>)
        requires
            old(self).wf(),
        ensures
            final(self).wf(),
            final(self)@ == (WorkspaceView { notice: None, footer_status: message_view(status), ..old(self)@ }),
    {
        self.notice = None;
        self.footer_status = status;
    }

    /// Shows the status of work that ran and has ended.
    pub fn work_polled(&mut self, kind: ActiveJobKind, was_running: bool)
        requires
            old(self).wf(),
        ensures
            final(self).wf(),
            final(self)@ == if was_running && ended(old(self)@, kind) {
                with_end_shown(old(self)@, kind)
            } else {
                old(self)@
            },
    {
        if was_running && self.has_ended(kind) {
            self.show_end(kind);
        }
    }

    fn has_ended(&self, kind: ActiveJobKind) -> (result: bool)
        ensures
            result == ended(self@, kind),
    {
        match &self.document {
            Some(document) => !document.runs(kind),
            None => false,
        }
    }

    /// Shows the status of a save that ran and made no file, and asks again whether to close.
    pub fn save_polled(&mut self, was_running: bool)
        requires
            old(self).wf(),
        ensures
            final(self).wf(),
            final(self)@ == with_save_polled(old(self)@, was_running),
    {
        let ended = self.has_ended(ActiveJobKind::Save);
        if ended {
            if was_running {
                self.show_end(ActiveJobKind::Save);
            }
            self.ask_to_close_again();
        }
    }

    /// Says why a save failed, and asks again whether to close.
    pub fn save_failed(&mut self, message: AppMessage)
        requires
            old(self).wf(),
        ensures
            final(self).wf(),
            final(self)@ == with_close_asked(with_failure(old(self)@, message@)),
    {
        self.fail(message);
        self.ask_to_close_again();
    }

    /// Asks again whether to close, where the window was to be closed after a save that did not
    /// make its file.
    pub fn ask_to_close_again(&mut self)
        requires
            old(self).wf(),
        ensures
            final(self).wf(),
            final(self)@ == with_close_asked(old(self)@),
    {
        if self.close_after_save {
            self.close_after_save = false;
            self.close_confirmation_open = true;
        }
    }

    /// Takes note of a file that a save has made and that was opened again, or could not be.
    /// Says whether the window is now to be closed, and hands back the document that was open.
    pub fn saved(&mut self, reopened: Result<Document, AppMessage>, in_place: bool, path: &str) -> (result: (
        bool,
        Option<Document>,
    ))
        requires
            old(self).wf(),
            reopened matches Ok(document) ==> document.wf(),
        ensures
            final(self).wf(),
            final(self)@ == with_saved(
                old(self)@,
                match reopened {
                    Ok(document) => Ok(document@),
                    Err(message) => Err(message.text@),
                },
                in_place,
                path@,
            ),
            result.0 == (old(self)@.close_after_save && (reopened is Ok || in_place)),
            document_view(result.1) == match old(self)@.document {
                Some(current) if reopened is Ok || in_place => Some(stopped(current)),
                _ => None,
            },
    {
        let close = self.close_after_save;
        match reopened {
            Ok(document) => {
                let retired = self.document_opened(document);
                let start = if in_place {
                    "Saved "
                } else {
                    "Saved as "
                };
                self.show_status(Some(AppMessage::status(start.to_owned().concat(path).concat("."))));
                self.close_after_save = false;
                (close, retired)
            },
            Err(message) => {
                if in_place {
                    let retired = self.retire();
                    self.find_bar_open = false;
                    self.replace_expanded = false;
                    self.close_after_save = false;
                    self.fail(
                        AppMessage::error(
                            "Saved ".to_owned().concat(path).concat(" but could not reload it: ").concat(
                                message.text.as_str(),
                            ).concat(". Reopen the file to continue."),
                        ),
                    );
                    (close, retired)
                } else {
                    self.forget_save_status();
                    self.fail(
                        AppMessage::error(
                            "Saved ".to_owned().concat(path).concat(" but could not open it: ").concat(
                                message.text.as_str(),
                            ),
                        ),
                    );
                    self.ask_to_close_again();
                    (false, None)
                }
            },
        }
    }

    /// Takes the document out and stops all its work.
    fn retire(&mut self) -> (retired: Option<Document>)
        requires
            old(self).wf(),
        ensures
            final(self).wf(),
            final(self)@ == (WorkspaceView { document: None, ..old(self)@ }),
            document_view(retired) == match old(self)@.document {
                Some(current) => Some(stopped(current)),
                None => None,
            },
    {
        match self.document.take() {
            Some(mut current) => {
                current.shutdown();
                Some(current)
            },
            None => None,
        }
    }

    fn forget_save_status(&mut self)
        requires
            old(self).wf(),
        ensures
            final(self).wf(),
            final(self)@ == without_save_status(old(self)@),
    {
        proof {
            reveal(without_save_status);
        }
        if let Some(document) = &mut self.document {
            document.forget_save_status();
        }
    }

    /// Whether the window stays open once it is asked to close.
    pub fn close_requested(&mut self) -> (stays: bool)
        requires
            old(self).wf(),
        ensures
            final(self).wf(),
            (final(self)@, stays) == close_asked(old(self)@),
    {
        let saving = match &self.document {
            Some(document) => document.save.running,
            None => {
                return false;
            },
        };
        if saving {
            self.close_confirmation_open = false;
            self.close_after_save = true;
            return true;
        }
        self.commit_edits();
        let unsaved = match &self.document {
            Some(document) => document.is_dirty(),
            None => false,
        };
        if unsaved {
            self.close_confirmation_open = true;
        }
        unsaved
    }

    /// Goes on editing instead of closing.
    pub fn keep_editing(&mut self)
        requires
            old(self).wf(),
        ensures
            final(self).wf(),
            final(self)@ == (WorkspaceView {
                close_confirmation_open: false,
                close_after_save: false,
                ..old(self)@
            }),
    {
        self.close_confirmation_open = false;
        self.close_after_save = false;
    }

    /// Closes the window once a save, which is about to start, has made its file.
    pub fn close_after_saving(&mut self)
        requires
            old(self).wf(),
        ensures
            final(self).wf(),
            final(self)@ == (WorkspaceView {
                close_confirmation_open: false,
                close_after_save: true,
                ..old(self)@
            }),
    {
        self.close_confirmation_open = false;
        self.close_after_save = true;
    }

    /// Gives the document up. Hands it back with all its work stopped.
    pub fn discard_and_close(&mut self) -> (retired: Option<Document>)
        requires
            old(self).wf(),
        ensures
            final(self).wf(),
            final(self)@ == (WorkspaceView {
                document: None,
                close_confirmation_open: false,
                close_after_save: false,
                ..old(self)@
            }),
            document_view(retired) == match old(self)@.document {
                Some(document) => Some(stopped(document)),
                None => None,
            },
    {
        let retired = self.retire();
        self.close_confirmation_open = false;
        self.close_after_save = false;
        assert(self@ == WorkspaceView {
            document: None,
            close_confirmation_open: false,
            close_after_save: false,
            ..old(self)@
        });
        retired
    }

    /// The selection as text for the clipboard; nothing where it cannot be copied, which is
    /// said.
    pub fn copy_selection(&mut self) -> (copied: Option<String>)
        requires
            old(self).wf(),
        ensures
            final(self).wf(),
            match old(self)@.document {
                None => copied is None && final(self)@ == warned(old(self)@, "Open a file before copying."@),
                Some(document) => match crate::grid::selection_copy(document) {
                    Ok(chars) => text_view(copied) == Some(chars) && final(self)@ == (WorkspaceView {
                        notice: None,
                        ..old(self)@
                    }),
                    Err(message) => copied is None && final(self)@ == warned(old(self)@, message),
                },
            },
    {
        let result = match &self.document {
            Some(document) => document.copy_selection_text(),
            None => Err("Open a file before copying.".to_owned()),
        };
        match result {
            Ok(copied) => {
                self.notice = None;
                Some(copied)
            },
            Err(message) => {
                self.warn(message.as_str());
                None
            },
        }
    }

    /// Whether Find can be used: a file is open and not filtered.
    pub fn find_available(&self) -> (available: bool)
        ensures
            available == (self@.document matches Some(document) && document.filter.query is None),
    {
        match &self.document {
            Some(document) => document.filter.query.is_none(),
            None => false,
        }
    }

    /// Whether the escape key closes the find bar: nothing else that it would close is open.
    pub fn find_escape_allowed(&self) -> (allowed: bool)
        ensures
            allowed == (!self.columns_open && !self.filters_open && !self.close_confirmation_open
                && self.structural_dialog is None && (self@.document matches Some(document)
                ==> document.edits.cell_edit is None && document.edits.header_edit is None)),
    {
        !self.columns_open && !self.filters_open && !self.close_confirmation_open && self.structural_dialog.is_none()
            && match &self.document {
            Some(document) => document.edits.cell_edit.is_none() && document.edits.header_edit.is_none(),
            None => true,
        }
    }
}

impl Document {
    /// Why no other file can be opened in place of this one. Keeps what is being typed, unless
    /// a save or a change runs.
    pub fn open_refusal(&mut self) -> (refusal: Option<&'static str>)
        requires
            old(self).wf(),
        ensures
            final(self).wf(),
            final(self)@ == open_refusal(old(self)@).0,
            match open_refusal(old(self)@).1 {
                Some(message) => refusal matches Some(given) && given@ == message,
                None => refusal is None,
            },
    {
        if self.save.running {
            return Some("Cancel the active save before opening another file.");
        }
        if self.structural.job.is_some() {
            return Some("Cancel the active change before opening another file.");
        }
        self.commit_edits();
        if self.is_dirty() {
            Some("Discard or save your changes before opening another file.")
        } else if self.export.running {
            Some("Cancel the active export and wait for it to finish before opening another file.")
        } else {
            None
        }
    }

    /// Whether a kind of work runs.
    pub fn runs(&self, kind: ActiveJobKind) -> (running: bool)
        ensures
            running == runs(self@, kind),
    {
        match kind {
            ActiveJobKind::Change => self.structural.job.is_some(),
            ActiveJobKind::Save => self.save.running,
            ActiveJobKind::Export => self.export.running,
            ActiveJobKind::Filter => self.filter.running,
            ActiveJobKind::Search => self.search.running,
            ActiveJobKind::Index => self.index.running,
        }
    }

    fn forget_save_status(&mut self)
        requires
            old(self).wf(),
        ensures
            final(self).wf(),
            final(self)@ == (DocumentView { save: SaveView { status: None, ..old(self)@.save }, ..old(self)@ }),
    {
        self.save.status = None;
    }

    /// The status of a kind of work.
    pub fn status_text(&self, kind: ActiveJobKind) -> (status: Option<String>)
        ensures
            text_view(status) == status_of(self@, kind),
    {
        let status = match kind {
            ActiveJobKind::Change => &self.structural.status,
            ActiveJobKind::Save => &self.save.status,
            ActiveJobKind::Export => &self.export.status,
            ActiveJobKind::Filter => &self.filter.status,
            ActiveJobKind::Search => &self.search.status,
            ActiveJobKind::Index => {
                return None;
            },
        };
        match status {
            Some(status) => Some(status.clone()),
            None => None,
        }
    }
}

} // verus!
