//! Saving the edited file, exporting filtered rows, and what happens when the file changes
//! under the editor.

use crate::bytes::{self, size_text};
use crate::document::{
    no_rows, Document, DocumentView, ExportView, FilterView, GridView, IndexState, SaveView, SearchView,
    SelectionView, StructuralView,
};
use crate::edits::{cells_edited, committed, dirty, restructured};
use crate::filter::without_read;
use crate::message::AppMessage;
use crate::model::{
    self, edits_of, error_view, warning_view, Effect, Failure, JobProgress, MessageView, SOURCE_CHANGED_NOTICE,
};
use crate::text::{self, decimal};
use std::collections::BTreeMap;
use vstd::prelude::*;
use vstd::std_specs::iter::IteratorSpec;
use vstd::string::*;
use vstd::utf8::*;

verus! {

/// The result of a request, with its message as it stands for.
pub open spec fn refusal_view<T>(result: Result<T, AppMessage>) -> Result<T, MessageView> {
    match result {
        Ok(value) => Ok(value),
        Err(message) => Err(message@),
    }
}

/// `effects` with one more where `needed` holds.
pub open spec fn also(effects: Seq<Effect>, needed: bool, effect: Effect) -> Seq<Effect> {
    if needed {
        effects.push(effect)
    } else {
        effects
    }
}

/// The document with no outside work that runs.
#[verifier::opaque]
pub open spec fn stopped(before: DocumentView) -> DocumentView {
    let document = without_read(before);
    let effects = document.effects;
    let effects = also(effects, document.structural.job is Some, Effect::CancelStructural);
    let effects = also(effects, document.save.running, Effect::CancelSave);
    let effects = also(effects, document.export.running, Effect::CancelExport);
    let effects = also(effects, document.filter.running, Effect::CancelFilter);
    let effects = also(effects, document.search.running, Effect::CancelSearch);
    let effects = also(effects, document.index.running, Effect::DropIndexing);
    DocumentView {
        structural: StructuralView { job: None, cancel_requested: false, ..document.structural },
        save: SaveView { running: false, cancel_requested: false, in_place: false, ..document.save },
        export: ExportView { running: false, cancel_requested: false, ..document.export },
        filter: FilterView { running: false, ..document.filter },
        search: SearchView { running: false, ..document.search },
        index: IndexState { running: false, ..document.index },
        effects,
        ..document
    }
}

/// The document once its file is known to have changed: nothing runs, no row is at hand, and
/// the edits are kept.
#[verifier::opaque]
pub open spec fn outdated(before: DocumentView) -> DocumentView {
    let document = stopped(before);
    DocumentView {
        source_changed: true,
        index: IndexState { indexed_rows: None, ..document.index },
        filter: FilterView {
            indexed_matches: None,
            query: None,
            progress: None,
            rows: Seq::empty(),
            ..document.filter
        },
        grid: GridView { rows: Seq::empty(), ..document.grid },
        selection: SelectionView { selection: None, rows: no_rows(), reveal_cell: None, ..document.selection },
        save: SaveView { status: Some(SOURCE_CHANGED_NOTICE@), ..document.save },
        ..document
    }
}

/// Why filtered rows cannot be exported, before edits are looked at.
pub open spec fn export_refusal(document: DocumentView) -> Option<Seq<char>> {
    if dirty(document) {
        Some("Save or discard your changes before exporting filtered rows."@)
    } else if document.export.running {
        Some("A filtered export is already running."@)
    } else if document.filter.query is None {
        Some("Apply a filter before exporting rows."@)
    } else if document.filter.running || document.filter.progress is None || !document.filter.progress->0.done {
        Some("Wait for filtering to complete before exporting."@)
    } else if document.filter.progress->0.cancelled {
        Some("Run the filter to completion before exporting."@)
    } else {
        None
    }
}

/// What a request to export filtered rows comes to.
pub open spec fn export_requested(before: DocumentView) -> (DocumentView, Result<(), MessageView>) {
    if before.save.running {
        (before, Err(warning_view("Cancel the active save before exporting filtered rows."@)))
    } else {
        let document = committed(before);
        match export_refusal(document) {
            Some(message) => (document, Err(warning_view(message))),
            None => (document, Ok(())),
        }
    }
}

/// A filter has run to its end, and nothing stands in the way of an export.
pub open spec fn export_ready(document: DocumentView) -> bool {
    &&& document.filter.query is Some
    &&& !cells_edited(document)
    &&& !document.filter.running
    &&& !document.export.running
    &&& !document.save.running
    &&& document.filter.progress matches Some(progress) && progress.done && !progress.cancelled
}

/// How an export ended.
#[derive(Debug, PartialEq, Eq)]
pub enum ExportOutcome {
    Complete { rows_written: u64, bytes_written: u64, destination: String },
    Cancelled,
    Failed(String),
}

/// The status of an export that has ended.
pub open spec fn export_status(outcome: ExportOutcome) -> Seq<char> {
    match outcome {
        ExportOutcome::Complete { rows_written, bytes_written, destination } => "Export complete: "@ + decimal(
            rows_written as nat,
        ) + " rows ("@ + size_text(bytes_written as nat) + ") saved to "@ + destination@ + "."@,
        ExportOutcome::Cancelled => "Export cancelled. No output file was created."@,
        ExportOutcome::Failed(_) => "Export failed. No output file was created."@,
    }
}

/// Which file a save writes.
#[derive(Clone, Copy, Debug, PartialEq, Eq, Structural)]
pub enum SaveTarget {
    Copy,
    Original,
    InPlace,
}

/// A save to be started: the new names of headers, the new bytes of cells, and where to.
#[derive(Debug, PartialEq, Eq)]
pub struct SaveRequest {
    pub renames: BTreeMap<usize, Vec<u8>>,
    pub cell_edits: BTreeMap<(u64, usize), Vec<u8>>,
    pub target: SaveTarget,
}

/// The bytes of new names.
pub open spec fn name_bytes(renames: Map<usize, Seq<char>>) -> Map<usize, Seq<u8>> {
    renames.map_values(|name: Seq<char>| encode_utf8(name))
}

/// The bytes that a map holds.
pub open spec fn map_bytes(map: Map<usize, Vec<u8>>) -> Map<usize, Seq<u8>> {
    map.map_values(|value: Vec<u8>| value@)
}

/// Why the document cannot be saved, before edits are looked at.
pub open spec fn save_refusal(document: DocumentView) -> Option<Seq<char>> {
    if document.source_changed {
        Some(SOURCE_CHANGED_NOTICE@)
    } else if document.save.running {
        Some("A save operation is already running."@)
    } else if document.export.running {
        Some("Cancel the active export before saving."@)
    } else {
        None
    }
}

/// There is something to save, and nothing stands in the way.
pub open spec fn save_ready(document: DocumentView) -> bool {
    &&& !document.source_changed
    &&& dirty(document)
    &&& !document.save.running
    &&& !document.export.running
    &&& document.structural.job is None
}

/// The document once a save is asked for, and why there is none.
#[verifier::opaque]
pub open spec fn save_checked(before: DocumentView) -> (DocumentView, Option<Seq<char>>) {
    match save_refusal(before) {
        Some(message) => (before, Some(message)),
        None => (
            committed(before),
            if dirty(committed(before)) {
                None
            } else {
                Some("Make a change before saving."@)
            },
        ),
    }
}

/// A request that holds the edits of a document, and says what they are put on.
#[verifier::opaque]
pub open spec fn asks_to_save(document: DocumentView, to_another_file: bool, request: SaveRequest) -> bool {
    &&& map_bytes(request.renames@) == name_bytes(document.edits.renames)
    &&& edits_of(request.cell_edits@) == document.edits.cells
    &&& request.target == if to_another_file {
        SaveTarget::Copy
    } else if restructured(document) {
        SaveTarget::Original
    } else {
        SaveTarget::InPlace
    }
}

/// How a save ended.
#[derive(Debug, PartialEq, Eq)]
pub enum SaveOutcome {
    Complete,
    Cancelled,
    Failed(Failure),
}

/// What the end of a save comes to. Where it is complete, whether the file was saved in place.
pub open spec fn save_ended(before: DocumentView, outcome: SaveOutcome) -> (
    DocumentView,
    Result<Option<bool>, MessageView>,
) {
    let in_place = before.save.in_place;
    let document = DocumentView {
        save: SaveView { running: false, cancel_requested: false, in_place: false, ..before.save },
        ..before
    };
    let failed = DocumentView {
        save: SaveView {
            status: Some(
                if in_place {
                    "Save failed. Quarry did not replace the current file."@
                } else {
                    "Save As failed. No output file was created."@
                },
            ),
            ..document.save
        },
        ..document
    };
    match outcome {
        SaveOutcome::Complete => (document, Ok(Some(in_place))),
        SaveOutcome::Cancelled => (
            DocumentView {
                save: SaveView {
                    status: Some(
                        if in_place {
                            "Save cancelled. Quarry did not replace the current file."@
                        } else {
                            "Save As cancelled. No output file was created."@
                        },
                    ),
                    ..document.save
                },
                ..document
            },
            Ok(None),
        ),
        SaveOutcome::Failed(Failure::SourceChanged) => (
            outdated(document),
            Err(warning_view(SOURCE_CHANGED_NOTICE@)),
        ),
        SaveOutcome::Failed(Failure::Missing(message)) => (failed, Err(error_view(message@))),
        SaveOutcome::Failed(Failure::Other(message)) => (failed, Err(error_view(message@))),
    }
}

/// Once the file has changed, nothing runs and nothing can be saved, but no edit is lost.
pub proof fn lemma_outdated_keeps_edits(document: DocumentView)
    ensures
        outdated(document).edits == document.edits,
        outdated(document).source_changed,
        outdated(document).structural.job is None,
        !outdated(document).save.running,
        !outdated(document).export.running,
        !outdated(document).filter.running,
        !outdated(document).search.running,
        !outdated(document).index.running,
        save_refusal(outdated(document)) == Some(SOURCE_CHANGED_NOTICE@),
        dirty(outdated(document)) == dirty(document),
{
    reveal(outdated);
    reveal(stopped);
}

/// A save that is cancelled, or that fails for another reason than a changed file, leaves the
/// edits and the rows as they are.
pub proof fn lemma_failed_save_changes_nothing(document: DocumentView, outcome: SaveOutcome)
    requires
        !(outcome is Complete),
        outcome != SaveOutcome::Failed(Failure::SourceChanged),
    ensures
        save_ended(document, outcome).0 == (DocumentView { save: save_ended(document, outcome).0.save, ..document }),
        !save_ended(document, outcome).0.save.running,
{
}

impl Document {
    /// Asks for outside work where it is needed.
    fn ask(&mut self, needed: bool, effect: Effect)
        ensures
            final(self)@ == (DocumentView { effects: also(old(self)@.effects, needed, effect), ..old(self)@ }),
            *final(self) == (Document { effects: final(self).effects, ..*old(self) }),
    {
        if needed {
            self.effects.push(effect);
        }
    }

    /// Stops all outside work.
    pub fn shutdown(&mut self)
        requires
            old(self).wf(),
        ensures
            final(self).wf(),
            final(self)@ == stopped(old(self)@),
    {
        self.stop_filter_read();
        self.ask(self.structural.job.is_some(), Effect::CancelStructural);
        self.ask(self.save.running, Effect::CancelSave);
        self.ask(self.export.running, Effect::CancelExport);
        self.ask(self.filter.running, Effect::CancelFilter);
        self.ask(self.search.running, Effect::CancelSearch);
        self.ask(self.index.running, Effect::DropIndexing);
        self.structural.job = None;
        self.structural.cancel_requested = false;
        self.save.running = false;
        self.save.cancel_requested = false;
        self.save.in_place = false;
        self.export.running = false;
        self.export.cancel_requested = false;
        self.filter.running = false;
        self.search.running = false;
        self.index.running = false;
        proof {
            reveal(stopped);
            assert(self@ =~= stopped(old(self)@));
        }
    }

    /// Takes note that the file has changed outside the editor.
    pub fn invalidate_changed_source(&mut self)
        requires
            old(self).wf(),
        ensures
            final(self).wf(),
            final(self)@ == outdated(old(self)@),
    {
        self.shutdown();
        self.source_changed = true;
        self.index.indexed_rows = None;
        self.filter.indexed_matches = None;
        self.filter.query = None;
        self.filter.progress = None;
        self.filter.rows = Vec::new();
        self.grid.rows = Vec::new();
        self.selection.selection = None;
        self.selection.rows.clear();
        self.selection.reveal_cell = None;
        self.save.status = Some(SOURCE_CHANGED_NOTICE.to_owned());
        proof {
            reveal(outdated);
            assert(self@ =~= outdated(old(self)@));
        }
    }

    /// Checks that filtered rows can be exported, and keeps what is being typed.
    pub fn start_filtered_export(&mut self) -> (result: Result<(), AppMessage>)
        requires
            old(self).wf(),
        ensures
            final(self).wf(),
            (final(self)@, refusal_view(result)) == export_requested(old(self)@),
    {
        if self.save.running {
            return Err(
                AppMessage::warning("Cancel the active save before exporting filtered rows.".to_owned()),
            );
        }
        self.commit_edits();
        if self.is_dirty() {
            return Err(
                AppMessage::warning("Save or discard your changes before exporting filtered rows.".to_owned()),
            );
        }
        if self.export.running {
            return Err(AppMessage::warning("A filtered export is already running.".to_owned()));
        }
        if self.filter.query.is_none() {
            return Err(AppMessage::warning("Apply a filter before exporting rows.".to_owned()));
        }
        let (done, cancelled) = match self.filter.progress {
            Some(progress) => (progress.done, progress.cancelled),
            None => (false, false),
        };
        if self.filter.running || !done {
            return Err(AppMessage::warning("Wait for filtering to complete before exporting.".to_owned()));
        }
        if cancelled {
            return Err(AppMessage::warning("Run the filter to completion before exporting.".to_owned()));
        }
        Ok(())
    }

    /// Takes note of an export that has started.
    pub fn export_started(&mut self, progress: JobProgress)
        requires
            old(self).wf(),
        ensures
            final(self).wf(),
            final(self)@ == (DocumentView {
                export: ExportView {
                    running: true,
                    progress: Some(progress),
                    status: Some(
                        "Export in progress. To open or reapply a file, cancel this export and wait for it to finish."@,
                    ),
                    cancel_requested: false,
                },
                ..old(self)@
            }),
    {
        self.export.progress = Some(progress);
        self.export.running = true;
        self.export.status = Some(
            "Export in progress. To open or reapply a file, cancel this export and wait for it to finish.".to_owned(),
        );
        self.export.cancel_requested = false;
    }

    /// Takes in news of the export.
    pub fn export_progressed(&mut self, progress: JobProgress)
        requires
            old(self).wf(),
        ensures
            final(self).wf(),
            final(self)@ == (DocumentView {
                export: ExportView { progress: Some(progress), ..old(self)@.export },
                ..old(self)@
            }),
    {
        self.export.progress = Some(progress);
    }

    /// Takes in the end of an export.
    pub fn export_finished(&mut self, outcome: ExportOutcome) -> (result: Result<(), String>)
        requires
            old(self).wf(),
        ensures
            final(self).wf(),
            final(self)@ == (DocumentView {
                export: ExportView {
                    running: false,
                    cancel_requested: false,
                    status: Some(export_status(outcome)),
                    ..old(self)@.export
                },
                ..old(self)@
            }),
            match outcome {
                ExportOutcome::Failed(message) => result matches Err(given) && given@ == message@,
                _ => result is Ok,
            },
    {
        self.export.running = false;
        self.export.cancel_requested = false;
        match outcome {
            ExportOutcome::Complete { rows_written, bytes_written, destination } => {
                self.export.status = Some(
                    "Export complete: ".to_owned().concat(text::number(rows_written).as_str()).concat(" rows (").concat(
                        bytes::format_bytes(bytes_written).as_str(),
                    ).concat(") saved to ").concat(destination.as_str()).concat("."),
                );
                Ok(())
            },
            ExportOutcome::Cancelled => {
                self.export.status = Some("Export cancelled. No output file was created.".to_owned());
                Ok(())
            },
            ExportOutcome::Failed(message) => {
                self.export.status = Some("Export failed. No output file was created.".to_owned());
                Err(message)
            },
        }
    }

    /// Tells a running export to stop.
    pub fn cancel_filtered_export(&mut self)
        requires
            old(self).wf(),
        ensures
            final(self).wf(),
            !old(self)@.export.running ==> final(self)@ == old(self)@,
            old(self)@.export.running ==> final(self)@ == (DocumentView {
                export: ExportView {
                    cancel_requested: true,
                    status: Some(
                        "Cancelling export… Wait for it to finish before opening or reapplying the file."@,
                    ),
                    ..old(self)@.export
                },
                effects: old(self)@.effects.push(Effect::CancelExport),
                ..old(self)@
            }),
    {
        if self.export.running {
            self.effects.push(Effect::CancelExport);
            self.export.cancel_requested = true;
            self.export.status = Some(
                "Cancelling export… Wait for it to finish before opening or reapplying the file.".to_owned(),
            );
        }
    }

    pub fn is_filtered_export_ready(&self) -> (ready: bool)
        ensures
            ready == export_ready(self@),
    {
        self.filter.query.is_some() && !self.has_cell_edits() && !self.filter.running && !self.export.running
            && !self.save.running && match self.filter.progress {
            Some(progress) => progress.done && !progress.cancelled,
            None => false,
        }
    }

    pub fn is_save_ready(&self) -> (ready: bool)
        requires
            self.wf(),
        ensures
            ready == save_ready(self@),
    {
        !self.source_changed && self.is_dirty() && !self.save.running && !self.export.running
            && self.structural.job.is_none()
    }

    /// The new names of headers as bytes.
    pub fn renames_as_bytes(&self) -> (renames: BTreeMap<usize, Vec<u8>>)
        ensures
            map_bytes(renames@) == name_bytes(self@.edits.renames),
    {
        broadcast use crate::sets::group_ordered_keys;
        broadcast use vstd::std_specs::btree::axiom_spec_btree_map_iter;

        let mut renames: BTreeMap<usize, Vec<u8>> = BTreeMap::new();
        let source = &self.edits.header_renames;
        let order = source.iter();
        let ghost walk = order.remaining();
        for entry in iter: order
            invariant
                walk == iter.seq(),
                forall|i: int|
                    0 <= i < walk.len() ==> source@.contains_key(*(#[trigger] walk[i]).0) && source@[*walk[i].0]
                        == *walk[i].1,
                forall|column: usize| #[trigger] renames@.contains_key(column) ==> source@.contains_key(column)
                    && renames@[column]@ == encode_utf8(source@[column]@),
                forall|i: int| 0 <= i < iter.index() ==> renames@.contains_key(*(#[trigger] walk[i]).0),
        {
            let (column, name) = entry;
            assert(walk[iter.index()] == (column, name));
            renames.insert(*column, model::copy_bytes(name.as_str().as_bytes()));
        }
        proof {
            assert forall|column: usize| source@.contains_key(column) implies renames@.contains_key(column) by {
                assert(walk.contains((&column, &source@[column])));
                let i = choose|i: int| 0 <= i < walk.len() && walk[i] == (&column, &source@[column]);
                assert(renames@.contains_key(*walk[i].0));
            }
            assert(map_bytes(renames@) =~= name_bytes(self@.edits.renames));
        }
        renames
    }

    /// Checks that the document can be saved, and says what to save: to another file where one
    /// is given, else to the file that was opened.
    pub fn start_save_operation(&mut self, to_another_file: bool) -> (result: Result<SaveRequest, AppMessage>)
        requires
            old(self).wf(),
        ensures
            final(self).wf(),
            final(self)@ == save_checked(old(self)@).0,
            match save_checked(old(self)@).1 {
                Some(message) => result matches Err(given) && given@ == warning_view(message),
                None => result matches Ok(request) && asks_to_save(final(self)@, to_another_file, request),
            },
    {
        proof {
            reveal(save_checked);
            reveal(asks_to_save);
        }
        if self.source_changed {
            return Err(AppMessage::warning(SOURCE_CHANGED_NOTICE.to_owned()));
        }
        if self.save.running {
            return Err(AppMessage::warning("A save operation is already running.".to_owned()));
        }
        if self.export.running {
            return Err(AppMessage::warning("Cancel the active export before saving.".to_owned()));
        }
        self.commit_edits();
        if !self.is_dirty() {
            return Err(AppMessage::warning("Make a change before saving.".to_owned()));
        }
        let renames = self.renames_as_bytes();
        let cell_edits = self.edits.cell_edits.clone();
        let target = if to_another_file {
            SaveTarget::Copy
        } else if self.has_structural_edits() {
            SaveTarget::Original
        } else {
            SaveTarget::InPlace
        };
        Ok(SaveRequest { renames, cell_edits, target })
    }

    /// What to save in place.
    pub fn start_save(&mut self) -> (result: Result<SaveRequest, AppMessage>)
        requires
            old(self).wf(),
        ensures
            final(self).wf(),
            final(self)@ == save_checked(old(self)@).0,
            match save_checked(old(self)@).1 {
                Some(message) => result matches Err(given) && given@ == warning_view(message),
                None => result matches Ok(request) && asks_to_save(final(self)@, false, request),
            },
    {
        self.start_save_operation(false)
    }

    /// What to save under another name.
    pub fn start_save_as(&mut self) -> (result: Result<SaveRequest, AppMessage>)
        requires
            old(self).wf(),
        ensures
            final(self).wf(),
            final(self)@ == save_checked(old(self)@).0,
            match save_checked(old(self)@).1 {
                Some(message) => result matches Err(given) && given@ == warning_view(message),
                None => result matches Ok(request) && asks_to_save(final(self)@, true, request),
            },
    {
        self.start_save_operation(true)
    }

    /// Takes note of a save that has started, or that could not start.
    pub fn save_started(&mut self, in_place: bool, outcome: Result<(), Failure>) -> (result: Result<(), AppMessage>)
        requires
            old(self).wf(),
        ensures
            final(self).wf(),
            match outcome {
                Ok(()) => result is Ok && final(self)@ == (DocumentView {
                    save: SaveView {
                        running: true,
                        status: Some("Saving edited file…"@),
                        cancel_requested: false,
                        in_place,
                    },
                    ..old(self)@
                }),
                Err(Failure::SourceChanged) => (result matches Err(message) && message@ == warning_view(
                    SOURCE_CHANGED_NOTICE@,
                )) && final(self)@ == outdated(old(self)@),
                Err(Failure::Missing(text)) => (result matches Err(message) && message@ == error_view(text@)) && final(self)@ == old(self)@,
                Err(Failure::Other(text)) => (result matches Err(message) && message@ == error_view(text@)) && final(self)@ == old(self)@,
            },
    {
        match outcome {
            Ok(()) => {
                self.save.running = true;
                self.save.status = Some("Saving edited file…".to_owned());
                self.save.cancel_requested = false;
                self.save.in_place = in_place;
                Ok(())
            },
            Err(Failure::SourceChanged) => {
                self.invalidate_changed_source();
                Err(AppMessage::warning(SOURCE_CHANGED_NOTICE.to_owned()))
            },
            Err(Failure::Missing(message)) => Err(AppMessage::error(message)),
            Err(Failure::Other(message)) => Err(AppMessage::error(message)),
        }
    }

    /// Takes in the end of a save. Where it is complete, says whether it was in place.
    pub fn save_finished(&mut self, outcome: SaveOutcome) -> (result: Result<Option<bool>, AppMessage>)
        requires
            old(self).wf(),
        ensures
            final(self).wf(),
            (final(self)@, refusal_view(result)) == save_ended(old(self)@, outcome),
    {
        let in_place = self.save.in_place;
        self.save.running = false;
        self.save.cancel_requested = false;
        self.save.in_place = false;
        let ghost document = DocumentView {
            save: SaveView { running: false, cancel_requested: false, in_place: false, ..old(self)@.save },
            ..old(self)@
        };
        assert(self@ =~= document);
        let ghost ended = outcome;
        let message = match outcome {
            SaveOutcome::Complete => {
                return Ok(Some(in_place));
            },
            SaveOutcome::Cancelled => {
                self.save.status = Some(
                    if in_place {
                        "Save cancelled. Quarry did not replace the current file.".to_owned()
                    } else {
                        "Save As cancelled. No output file was created.".to_owned()
                    },
                );
                assert(self@ =~= save_ended(old(self)@, ended).0);
                return Ok(None);
            },
            SaveOutcome::Failed(Failure::SourceChanged) => {
                self.invalidate_changed_source();
                return Err(AppMessage::warning(SOURCE_CHANGED_NOTICE.to_owned()));
            },
            SaveOutcome::Failed(Failure::Missing(message)) => message,
            SaveOutcome::Failed(Failure::Other(message)) => message,
        };
        self.save.status = Some(
            if in_place {
                "Save failed. Quarry did not replace the current file.".to_owned()
            } else {
                "Save As failed. No output file was created.".to_owned()
            },
        );
        assert(self@ =~= save_ended(old(self)@, ended).0);
        Err(AppMessage::error(message))
    }

    /// Tells a running save to stop.
    pub fn cancel_save(&mut self)
        requires
            old(self).wf(),
        ensures
            final(self).wf(),
            !old(self)@.save.running ==> final(self)@ == old(self)@,
            old(self)@.save.running ==> final(self)@ == (DocumentView {
                save: SaveView {
                    cancel_requested: true,
                    status: Some(
                        if old(self)@.save.in_place {
                            "Cancelling Save…"@
                        } else {
                            "Cancelling Save As…"@
                        },
                    ),
                    ..old(self)@.save
                },
                effects: old(self)@.effects.push(Effect::CancelSave),
                ..old(self)@
            }),
    {
        if self.save.running {
            self.effects.push(Effect::CancelSave);
            self.save.cancel_requested = true;
            self.save.status = Some(
                if self.save.in_place {
                    "Cancelling Save…".to_owned()
                } else {
                    "Cancelling Save As…".to_owned()
                },
            );
        }
    }
}

} // verus!
