//! Changes that make a new working copy of the file: splitting, combining, moving and deleting
//! columns, deleting and sorting rows, and replacing text everywhere.

use crate::columns::{arranges, column_outside, column_repeated, file_order, no_column_chosen};
use crate::document::{ChangeKind, DocumentView, JobView, StructuralView};
use crate::edits::{cells_edited, committed, found};
use crate::grid::{less, no_such_column};
use crate::literal::CaseSensitivity;
use crate::message::AppMessage;
use crate::model::{
    edits_of, error_view, warning_view, Effect, Failure, FileId, MessageView, OverlayView, SnapshotView, SortDirection,
    WorkingCopySnapshot, WorkingCopyView, SOURCE_CHANGED_NOTICE,
};
use crate::saving::{also, outdated};
use crate::search::with_search_cancelled;
use crate::sets;
use crate::text::decimal;
use std::collections::{BTreeMap, BTreeSet};
use std::ops::RangeInclusive;
use vstd::prelude::*;
use vstd::utf8::*;

verus! {

/// A change for which a new working copy is made.
#[derive(Debug, PartialEq, Eq)]
pub enum Change {
    Split { source_column: usize, separator: Vec<u8>, pieces: usize, source_header: Option<Vec<u8>> },
    Join { source_columns: Vec<usize>, separator: Vec<u8>, output_header: Option<Vec<u8>> },
    Arrange { source_width: usize, output_columns: Vec<usize> },
    DeleteRows { rows: Vec<RangeInclusive<u64>> },
    Sort { column: usize, direction: SortDirection, case_sensitivity: CaseSensitivity },
    Replace { query: Vec<u8>, replacement: Vec<u8>, case_sensitivity: CaseSensitivity },
}

/// A change, with what it is called and the columns to select once it is made.
#[derive(Debug, PartialEq, Eq)]
pub struct ChangePlan {
    pub change: Change,
    pub kind: ChangeKind,
    pub selected_columns: BTreeSet<usize>,
}

/// A split whose width is to be found out first.
#[derive(Debug, PartialEq, Eq)]
pub struct SplitAnalysis {
    pub cell_edits: BTreeMap<(u64, usize), Vec<u8>>,
    pub source_column: usize,
    pub separator: Vec<u8>,
    pub max_pieces: usize,
}

/// What is missing before a change can be made.
#[derive(Clone, Copy, Debug, PartialEq, Eq, Structural)]
pub enum Preparation {
    GuardOriginal,
    CreateDirectory,
    Ready,
}

/// What a change starts from, where it leads, and what undo goes back to.
#[derive(Debug, PartialEq, Eq)]
pub struct PreparedChange {
    pub undo: WorkingCopySnapshot,
    pub destination: FileId,
    pub renames: BTreeMap<usize, Vec<u8>>,
    pub cell_edits: BTreeMap<(u64, usize), Vec<u8>>,
}

/// How structural work ended.
#[derive(Debug, PartialEq, Eq)]
pub enum StructuralOutcome {
    Measured { max_pieces: usize },
    Complete { replacements: u64 },
    NoMatch,
    Cancelled,
    Failed(Failure),
}

/// A working copy to be shown in place of the file.
#[derive(Debug, PartialEq, Eq)]
pub struct MaterializedWorkingCopy {
    pub file: FileId,
    pub selected_columns: BTreeSet<usize>,
    pub notice: String,
}

/// What the end of structural work leads to.
#[derive(Debug, PartialEq, Eq)]
pub enum StructuralStep {
    Nothing,
    Plan(ChangePlan),
    Install(MaterializedWorkingCopy),
}

/// Why the document cannot be restructured.
pub open spec fn structural_reason(document: DocumentView) -> Option<Seq<char>> {
    if document.source_changed {
        Some("Reopen the changed source before editing the document."@)
    } else if document.filter.query is Some {
        Some("Clear the filter before editing the document."@)
    } else if document.save.running || document.export.running || document.structural.job is Some
        || document.search.running || document.filter.running {
        Some("Wait for the active file operation to finish."@)
    } else {
        None
    }
}

/// The document ready for a change: what is being typed kept, and a search told to stop.
pub open spec fn settled(document: DocumentView) -> DocumentView {
    with_search_cancelled(committed(document))
}

/// The message of a result, where it is one.
pub open spec fn refused<T>(result: Result<T, AppMessage>, message: MessageView) -> bool {
    result matches Err(given) && given@ == message
}

/// The most pieces that a split of one column may have in a file of so many columns.
pub open spec fn most_pieces(total_columns: usize, column_limit: usize) -> int {
    let room = less(column_limit as int, total_columns as int) + 1;
    if room <= column_limit {
        room
    } else {
        column_limit as int
    }
}

/// Why a column cannot be split.
pub open spec fn split_refusal(document: DocumentView, source_column: usize, separator: Seq<u8>) -> Option<Seq<char>> {
    if structural_reason(document) is Some {
        structural_reason(document)
    } else if source_column >= document.grid.total_columns {
        Some(
            "Column "@ + decimal(
                if source_column < usize::MAX {
                    (source_column + 1) as nat
                } else {
                    usize::MAX as nat
                },
            ) + " is outside this file."@,
        )
    } else if separator.len() == 0 {
        Some("Enter a non-empty separator."@)
    } else {
        None
    }
}

/// Why columns cannot be combined.
pub open spec fn combine_refusal(document: DocumentView, source_columns: Seq<usize>) -> Option<Seq<char>> {
    if structural_reason(document) is Some {
        structural_reason(document)
    } else if source_columns.len() < 2 {
        Some("Select at least two columns to combine."@)
    } else if exists|i: int| 0 <= i < source_columns.len() && source_columns[i] >= document.grid.total_columns {
        Some("A selected column is outside this file."@)
    } else if !source_columns.no_duplicates() {
        Some("Select each column only once."@)
    } else {
        None
    }
}

/// The cells of the header row as they would be written now.
pub open spec fn header_fields(document: DocumentView) -> Seq<Seq<u8>> {
    if document.source.first_rows.len() == 0 {
        Seq::empty()
    } else {
        let cells = document.source.first_rows[0];
        Seq::new(
            cells.len(),
            |column: int|
                if document.edits.header_edit is Some && document.edits.header_edit->0.column == column {
                    encode_utf8(document.edits.header_edit->0.draft)
                } else if document.edits.renames.dom().contains(column as usize) {
                    encode_utf8(document.edits.renames[column as usize])
                } else {
                    cells[column]
                },
        )
    }
}

/// The header cell of a column as it would be written now, where the file has a header row.
pub open spec fn written_header(document: DocumentView, column: usize) -> Option<Seq<u8>> {
    if !document.source.has_header {
        None
    } else if column < header_fields(document).len() {
        Some(header_fields(document)[column as int])
    } else {
        Some(Seq::empty())
    }
}

/// Bytes that may be absent.
pub open spec fn bytes_view(bytes: Option<Vec<u8>>) -> Option<Seq<u8>> {
    match bytes {
        Some(bytes) => Some(bytes@),
        None => None,
    }
}

/// The columns of the file that are not in `selected`, in file order.
pub open spec fn remaining(total_columns: usize, selected: Set<usize>) -> Seq<usize> {
    file_order(total_columns as nat).filter(|column: usize| !selected.contains(column))
}

/// The columns of the file that are in `selected`, in file order.
pub open spec fn chosen(total_columns: usize, selected: Set<usize>) -> Seq<usize> {
    file_order(total_columns as nat).filter(|column: usize| selected.contains(column))
}

/// The order of the file's columns with those in `selected` put before place `position` of the
/// others.
pub open spec fn rearranged(total_columns: usize, selected: Set<usize>, position: int) -> Seq<usize> {
    remaining(total_columns, selected).take(position) + chosen(total_columns, selected) + remaining(
        total_columns,
        selected,
    ).skip(position)
}

/// The number of rows in ranges. A range that ends before it starts counts as one row.
pub open spec fn rows_in(ranges: Seq<RangeInclusive<u64>>) -> nat
    decreases ranges.len(),
{
    if ranges.len() == 0 {
        0
    } else {
        rows_in(ranges.drop_last()) + (less(ranges.last()@.end as int, ranges.last()@.start as int) + 1) as nat
    }
}

pub open spec fn capped(value: nat) -> u64 {
    if value <= u64::MAX {
        value as u64
    } else {
        u64::MAX
    }
}

/// An `s` for all numbers but one.
pub open spec fn plural(count: u64) -> Seq<char> {
    if count == 1 {
        ""@
    } else {
        "s"@
    }
}

/// The status of a change that runs.
pub open spec fn change_status(kind: ChangeKind) -> Seq<char> {
    match kind {
        ChangeKind::Columns => "Applying column edit…"@,
        ChangeKind::Replace => "Replacing matches…"@,
        ChangeKind::Sort { .. } => "Sorting rows…"@,
        ChangeKind::DeleteRows { count } => "Deleting "@ + decimal(count as nat) + " selected row"@ + plural(count)
            + "…"@,
    }
}

/// The document without working copies, where none is needed.
#[verifier::opaque]
pub open spec fn without_empty_copies(document: DocumentView) -> DocumentView {
    match document.working_copy {
        Some(copies) if copies.undo is None && copies.redo is None && document.source.file == FileId::Original => DocumentView {
            working_copy: None,
            has_original: false,
            ..document
        },
        _ => document,
    }
}

/// What is missing before a change can be made.
pub open spec fn preparation(document: DocumentView) -> Preparation {
    if !document.has_original {
        Preparation::GuardOriginal
    } else if document.working_copy is None {
        Preparation::CreateDirectory
    } else {
        Preparation::Ready
    }
}

/// The state of the document that undo goes back to.
pub open spec fn current_state(document: DocumentView) -> SnapshotView {
    SnapshotView {
        file: document.source.file,
        overlay: OverlayView { renames: document.edits.renames, cells: document.edits.cells },
    }
}

/// The outcome of the start of a change.
pub open spec fn change_begun(
    document: DocumentView,
    kind: ChangeKind,
    selected_columns: Set<usize>,
    undo: SnapshotView,
    destination: FileId,
    outcome: Result<(), Failure>,
) -> (DocumentView, Result<(), MessageView>) {
    match outcome {
        Ok(()) => (
            DocumentView {
                structural: StructuralView {
                    job: Some(JobView::Changing { kind, destination, selected_columns, undo }),
                    status: Some(change_status(kind)),
                    cancel_requested: false,
                },
                ..document
            },
            Ok(()),
        ),
        Err(Failure::SourceChanged) => (
            outdated(without_empty_copies(document)),
            Err(warning_view(SOURCE_CHANGED_NOTICE@)),
        ),
        Err(Failure::Missing(_)) => (
            outdated(without_empty_copies(document)),
            Err(warning_view(SOURCE_CHANGED_NOTICE@)),
        ),
        Err(Failure::Other(message)) => (without_empty_copies(document), Err(error_view(message@))),
    }
}

/// A working copy that nothing goes to any more.
pub open spec fn obsolete(document: DocumentView, snapshot: Option<SnapshotView>) -> bool {
    snapshot matches Some(state) && state.file != document.source.file && state.file is Generation
}

/// The document with a change accepted that undo takes back.
#[verifier::opaque]
pub open spec fn with_change_accepted(document: DocumentView, undo: SnapshotView) -> DocumentView {
    let copies = document.working_copy->0;
    let effects = also(document.effects, obsolete(document, copies.undo), Effect::RemoveFile(copies.undo->0.file));
    let effects = also(effects, obsolete(document, copies.redo), Effect::RemoveFile(copies.redo->0.file));
    DocumentView {
        working_copy: Some(WorkingCopyView { undo: Some(undo), redo: None, ..copies }),
        structural: StructuralView { status: None, ..document.structural },
        effects,
        ..document
    }
}

/// What is said once a change is made.
pub open spec fn change_notice(kind: ChangeKind, replacements: u64) -> Seq<char> {
    match kind {
        ChangeKind::Columns => "Column edit applied. Save to keep it, or discard changes."@,
        ChangeKind::DeleteRows { count } => "Deleted "@ + decimal(count as nat) + " row"@ + plural(count)
            + ". Save to keep it, or discard changes."@,
        ChangeKind::Replace => "Replaced "@ + decimal(replacements as nat) + " occurrence"@ + plural(replacements)
            + ". Save to keep it, or discard changes."@,
        ChangeKind::Sort { column, direction } => "Sorted rows by column "@ + decimal(
            if column < usize::MAX {
                (column + 1) as nat
            } else {
                usize::MAX as nat
            },
        ) + " "@ + direction_word(direction) + ". Save to keep it, or discard changes."@,
    }
}

pub open spec fn direction_word(direction: SortDirection) -> Seq<char> {
    match direction {
        SortDirection::Ascending => "ascending"@,
        SortDirection::Descending => "descending"@,
    }
}

/// What is said once a change is cancelled.
pub open spec fn cancelled_status(kind: ChangeKind) -> Seq<char> {
    match kind {
        ChangeKind::Columns => "Column edit cancelled. The document was not changed."@,
        ChangeKind::DeleteRows { .. } => "Row deletion cancelled. The document was not changed."@,
        ChangeKind::Replace => "Replace All cancelled. The document was not changed."@,
        ChangeKind::Sort { .. } => "Sort cancelled. The document was not changed."@,
    }
}

/// What is said once a change has failed.
pub open spec fn failed_status(kind: ChangeKind) -> Seq<char> {
    match kind {
        ChangeKind::Columns => "Column edit failed. The document was not changed."@,
        ChangeKind::DeleteRows { .. } => "Row deletion failed. The document was not changed."@,
        ChangeKind::Replace => "Replace All failed. The document was not changed."@,
        ChangeKind::Sort { .. } => "Sort failed. The document was not changed."@,
    }
}

/// The document with another structural status.
pub open spec fn with_status(document: DocumentView, status: Option<Seq<char>>) -> DocumentView {
    DocumentView { structural: StructuralView { status, ..document.structural }, ..document }
}

/// The document with the file of a change that was not made removed.
pub open spec fn without_file(document: DocumentView, file: FileId) -> DocumentView {
    DocumentView { effects: document.effects.push(Effect::RemoveFile(file)), ..document }
}

/// The document with no structural work.
pub open spec fn idle(document: DocumentView) -> DocumentView {
    DocumentView {
        structural: StructuralView { job: None, cancel_requested: false, ..document.structural },
        ..document
    }
}

/// The outcome is one that the work can have.
pub open spec fn fits(job: JobView, outcome: StructuralOutcome) -> bool {
    match job {
        JobView::AnalyzingSplit { .. } => outcome is Measured || outcome is Cancelled || outcome is Failed,
        JobView::Changing { kind, .. } => match outcome {
            StructuralOutcome::Measured { .. } => false,
            StructuralOutcome::NoMatch => kind is Replace,
            _ => true,
        },
    }
}

/// What the end of structural work leads to, as it stands for.
#[verifier::ext_equal]
pub enum StepView {
    Nothing,
    Split {
        source_column: usize,
        separator: Seq<u8>,
        pieces: usize,
        source_header: Option<Seq<u8>>,
        selected_columns: Set<usize>,
    },
    Install { file: FileId, selected_columns: Set<usize>, notice: Seq<char> },
    Other,
}

impl View for StructuralStep {
    type V = StepView;

    open spec fn view(&self) -> StepView {
        match *self {
            StructuralStep::Nothing => StepView::Nothing,
            StructuralStep::Plan(plan) => match (plan.change, plan.kind) {
                (
                    Change::Split { source_column, separator, pieces, source_header },
                    ChangeKind::Columns,
                ) => StepView::Split {
                    source_column,
                    separator: separator@,
                    pieces,
                    source_header: bytes_view(source_header),
                    selected_columns: plan.selected_columns@,
                },
                _ => StepView::Other,
            },
            StructuralStep::Install(copy) => StepView::Install {
                file: copy.file,
                selected_columns: copy.selected_columns@,
                notice: copy.notice@,
            },
        }
    }
}

pub open spec fn step_outcome(result: Result<StructuralStep, AppMessage>) -> Result<StepView, MessageView> {
    match result {
        Ok(step) => Ok(step@),
        Err(message) => Err(message@),
    }
}

/// What the end of the measuring of a split comes to.
pub open spec fn split_measured(
    document: DocumentView,
    source_column: usize,
    separator: Seq<u8>,
    outcome: StructuralOutcome,
) -> (DocumentView, Result<StepView, MessageView>) {
    match outcome {
        StructuralOutcome::Measured { max_pieces } => if max_pieces >= 2 {
            (
                document,
                Ok(
                    StepView::Split {
                        source_column,
                        separator,
                        pieces: max_pieces,
                        source_header: written_header(document, source_column),
                        selected_columns: sets::span(
                            source_column as int,
                            if source_column + max_pieces <= usize::MAX {
                                source_column + max_pieces
                            } else {
                                usize::MAX as int
                            },
                        ),
                    },
                ),
            )
        } else {
            (
                with_status(document, None),
                Err(warning_view("The separator was not found in the selected column."@)),
            )
        },
        StructuralOutcome::Failed(Failure::SourceChanged) => (
            outdated(document),
            Err(warning_view(SOURCE_CHANGED_NOTICE@)),
        ),
        StructuralOutcome::Failed(Failure::Missing(message)) => (
            with_status(document, Some("Split failed. The document was not changed."@)),
            Err(error_view(message@)),
        ),
        StructuralOutcome::Failed(Failure::Other(message)) => (
            with_status(document, Some("Split failed. The document was not changed."@)),
            Err(error_view(message@)),
        ),
        _ => (
            with_status(document, Some("Split cancelled. The document was not changed."@)),
            Ok(StepView::Nothing),
        ),
    }
}

/// What the end of a change comes to.
pub open spec fn change_ended(
    document: DocumentView,
    kind: ChangeKind,
    destination: FileId,
    selected_columns: Set<usize>,
    undo: SnapshotView,
    outcome: StructuralOutcome,
) -> (DocumentView, Result<StepView, MessageView>) {
    let removed = without_file(document, destination);
    match outcome {
        StructuralOutcome::Complete { replacements } => (
            with_change_accepted(document, undo),
            Ok(
                StepView::Install {
                    file: destination,
                    selected_columns,
                    notice: change_notice(kind, replacements),
                },
            ),
        ),
        StructuralOutcome::NoMatch => (
            with_status(
                without_empty_copies(removed),
                Some("No matches found. The document was not changed."@),
            ),
            Ok(StepView::Nothing),
        ),
        StructuralOutcome::Failed(Failure::SourceChanged) => (
            outdated(removed),
            Err(warning_view(SOURCE_CHANGED_NOTICE@)),
        ),
        StructuralOutcome::Failed(Failure::Missing(message)) => (
            with_status(without_empty_copies(removed), Some(failed_status(kind))),
            Err(error_view(message@)),
        ),
        StructuralOutcome::Failed(Failure::Other(message)) => (
            with_status(without_empty_copies(removed), Some(failed_status(kind))),
            Err(error_view(message@)),
        ),
        _ => (
            with_status(without_empty_copies(removed), Some(cancelled_status(kind))),
            Ok(StepView::Nothing),
        ),
    }
}

/// What the end of structural work comes to.
pub open spec fn structural_ended(before: DocumentView, outcome: StructuralOutcome) -> (
    DocumentView,
    Result<StepView, MessageView>,
) {
    let document = idle(before);
    match before.structural.job {
        None => (before, Ok(StepView::Nothing)),
        Some(JobView::AnalyzingSplit { source_column, separator }) => split_measured(
            document,
            source_column,
            separator,
            outcome,
        ),
        Some(JobView::Changing { kind, destination, selected_columns, undo }) => change_ended(
            document,
            kind,
            destination,
            selected_columns,
            undo,
            outcome,
        ),
    }
}

/// Undo goes back where a working copy keeps a state for it and nothing is being edited.
pub open spec fn can_undo(document: DocumentView) -> bool {
    &&& document.working_copy matches Some(copies) && copies.undo is Some
    &&& document.edits.renames == Map::<usize, Seq<char>>::empty()
    &&& !cells_edited(document)
    &&& document.edits.header_edit is None
    &&& document.edits.cell_edit is None
    &&& !document.save.running
    &&& !document.export.running
    &&& document.structural.job is None
}

/// Redo goes forward where a working copy keeps a state for it and nothing is being typed.
pub open spec fn can_redo(document: DocumentView) -> bool {
    &&& document.working_copy matches Some(copies) && copies.redo is Some
    &&& document.edits.header_edit is None
    &&& document.edits.cell_edit is None
    &&& !document.save.running
    &&& !document.export.running
    &&& document.structural.job is None
}

/// A change that is cancelled, or that finds nothing to do, leaves what is edited and shown as it
/// is.
pub proof fn lemma_cancelled_change_changes_nothing(before: DocumentView, outcome: StructuralOutcome)
    requires
        before.structural.job is Some,
        fits(before.structural.job->0, outcome),
        outcome is Cancelled || outcome is NoMatch,
    ensures
        ({
            let after = structural_ended(before, outcome).0;
            &&& after.edits == before.edits
            &&& after.grid == before.grid
            &&& after.source == before.source
            &&& after.selection == before.selection
            &&& after.structural.job is None
            &&& structural_ended(before, outcome).1 == Ok::<StepView, MessageView>(StepView::Nothing)
        }),
{
    reveal(without_empty_copies);
}

/// A change that is made can be undone, and cannot be redone.
pub proof fn lemma_change_can_be_undone(before: DocumentView, replacements: u64)
    requires
        before.structural.job matches Some(JobView::Changing { .. }),
        before.working_copy is Some,
    ensures
        ({
            let after = structural_ended(before, StructuralOutcome::Complete { replacements }).0;
            &&& after.working_copy is Some
            &&& after.working_copy->0.redo is None
            &&& before.structural.job matches Some(JobView::Changing { undo, .. }) && after.working_copy->0.undo == Some(
                undo,
            )
        }),
{
    reveal(with_change_accepted);
}

proof fn lemma_filter_last(order: Seq<usize>, keep: spec_fn(usize) -> bool)
    requires
        order.len() > 0,
    ensures
        order.filter(keep) == if keep(order.last()) {
            order.drop_last().filter(keep).push(order.last())
        } else {
            order.drop_last().filter(keep)
        },
{
    reveal(Seq::filter);
}

/// Splitting the first columns into those in and out of `selected` loses none.
pub proof fn lemma_split_counts(total: nat, selected: Set<usize>)
    requires
        total <= usize::MAX,
    ensures
        ({
            let inside = file_order(total).filter(|column: usize| selected.contains(column));
            let outside = file_order(total).filter(|column: usize| !selected.contains(column));
            &&& inside.len() + outside.len() == total
            &&& forall|i: int, j: int| 0 <= i < j < inside.len() ==> inside[i] < inside[j]
            &&& forall|i: int, j: int| 0 <= i < j < outside.len() ==> outside[i] < outside[j]
            &&& forall|i: int| 0 <= i < inside.len() ==> (#[trigger] inside[i]) < total && selected.contains(inside[i])
            &&& forall|i: int| 0 <= i < outside.len() ==> (#[trigger] outside[i]) < total && !selected.contains(
                outside[i],
            )
            &&& forall|column: usize|
                column < total ==> (#[trigger] selected.contains(column) ==> inside.contains(column)) && (
                !selected.contains(column) ==> outside.contains(column))
        }),
    decreases total,
{
    let within = |column: usize| selected.contains(column);
    let without = |column: usize| !selected.contains(column);
    let order = file_order(total);
    if total == 0 {
        reveal(Seq::filter);
        assert(order =~= Seq::empty());
    } else {
        lemma_split_counts((total - 1) as nat, selected);
        lemma_filter_last(order, within);
        lemma_filter_last(order, without);
        assert(order.drop_last() =~= file_order((total - 1) as nat));
        let before_in = file_order((total - 1) as nat).filter(within);
        let before_out = file_order((total - 1) as nat).filter(without);
        let inside = order.filter(within);
        let outside = order.filter(without);
        let last = (total - 1) as usize;
        assert(order.last() == last);
        assert forall|column: usize| column < total implies (#[trigger] selected.contains(column) ==> inside.contains(
            column,
        )) && (!selected.contains(column) ==> outside.contains(column)) by {
            if column == last {
                if selected.contains(column) {
                    assert(inside[inside.len() - 1] == column);
                } else {
                    assert(outside[outside.len() - 1] == column);
                }
            } else if selected.contains(column) {
                let i = choose|i: int| 0 <= i < before_in.len() && before_in[i] == column;
                assert(before_in.contains(column));
                assert(inside[i] == column);
            } else {
                assert(before_out.contains(column));
                let i = choose|i: int| 0 <= i < before_out.len() && before_out[i] == column;
                assert(outside[i] == column);
            }
        }
    }
}

/// Moving columns keeps every column of the file, each once, and puts the moved ones, in file
/// order, where they were asked for.
pub proof fn lemma_rearranged(total_columns: usize, selected: Set<usize>, position: int)
    requires
        0 <= position <= remaining(total_columns, selected).len(),
    ensures
        arranges(rearranged(total_columns, selected, position), total_columns as nat),
        forall|i: int|
            0 <= i < chosen(total_columns, selected).len() ==> rearranged(total_columns, selected, position)[position + i]
                == #[trigger] chosen(total_columns, selected)[i],
        remaining(total_columns, selected).len() + chosen(total_columns, selected).len() == total_columns,
{
    lemma_split_counts(total_columns as nat, selected);
    let inside = chosen(total_columns, selected);
    let outside = remaining(total_columns, selected);
    let result = rearranged(total_columns, selected, position);
    assert forall|i: int, j: int| 0 <= i < result.len() && 0 <= j < result.len() && i != j implies result[i]
        != result[j] by {
        let k = inside.len() as int;
        let source_i = if i < position { i } else { i - k };
        let source_j = if j < position { j } else { j - k };
        let inside_i = position <= i < position + k;
        let inside_j = position <= j < position + k;
        if inside_i && inside_j {
            assert(result[i] == inside[i - position]);
            assert(result[j] == inside[j - position]);
        } else if inside_i {
            assert(result[i] == inside[i - position]);
            assert(result[j] == outside[source_j]);
            assert(selected.contains(inside[i - position]));
            assert(!selected.contains(outside[source_j]));
        } else if inside_j {
            assert(result[j] == inside[j - position]);
            assert(result[i] == outside[source_i]);
            assert(selected.contains(inside[j - position]));
            assert(!selected.contains(outside[source_i]));
        } else {
            assert(result[i] == outside[source_i]);
            assert(result[j] == outside[source_j]);
        }
    }
    assert forall|column: usize| #[trigger] result.contains(column) <==> column < total_columns by {
        let k = inside.len() as int;
        if result.contains(column) {
            let i = choose|i: int| 0 <= i < result.len() && result[i] == column;
            if position <= i < position + k {
                assert(result[i] == inside[i - position]);
            } else {
                let source = if i < position { i } else { i - k };
                assert(result[i] == outside[source]);
            }
        }
        if column < total_columns {
            if selected.contains(column) {
                assert(inside.contains(column));
                let i = choose|i: int| 0 <= i < inside.len() && inside[i] == column;
                assert(result[position + i] == column);
            } else {
                assert(outside.contains(column));
                let i = choose|i: int| 0 <= i < outside.len() && outside[i] == column;
                let place = if i < position { i } else { i + k };
                assert(result[place] == column);
            }
        }
    }
}

/// The place to select once columns are deleted: that of the first, or the last one left.
pub open spec fn nearest(first: usize, left: nat) -> usize {
    if first <= left - 1 {
        first
    } else {
        (left - 1) as usize
    }
}

/// What a request for another arrangement of the columns comes to.
pub open spec fn arrangement_requested(
    before: DocumentView,
    after: DocumentView,
    result: Result<Option<ChangePlan>, AppMessage>,
    output_columns: Seq<usize>,
    selected_columns: Set<usize>,
) -> bool {
    if structural_reason(before) is Some {
        refused(result, warning_view(structural_reason(before)->0)) && after == before
    } else if output_columns == file_order(before.grid.total_columns as nat) {
        result == Ok::<Option<ChangePlan>, AppMessage>(None) && after == with_status(
            before,
            Some("Columns are already in that position."@),
        )
    } else {
        &&& after == settled(before)
        &&& result matches Ok(Some(plan)) && plan.kind == ChangeKind::Columns && plan.selected_columns@
            == selected_columns && {
            plan.change matches Change::Arrange { source_width, output_columns: order } && source_width
                == before.grid.total_columns && order@ == output_columns
        }
    }
}

/// What a request to split a column comes to.
#[verifier::opaque]
pub open spec fn split_asked(
    before: DocumentView,
    after: DocumentView,
    source_column: usize,
    separator: Seq<u8>,
    column_limit: usize,
    result: Result<SplitAnalysis, AppMessage>,
) -> bool {
    match split_refusal(before, source_column, separator) {
        Some(message) => refused(result, warning_view(message)) && after == before,
        None => {
            let most = most_pieces(before.grid.total_columns, column_limit);
            &&& after == settled(before)
            &&& most < 2 ==> refused(
                result,
                warning_view(
                    "Splitting would exceed the "@ + decimal(column_limit as nat) + "-column file limit."@,
                ),
            )
            &&& most >= 2 ==> (result matches Ok(analysis) && edits_of(analysis.cell_edits@)
                == after.edits.cells && analysis.source_column == source_column
                && analysis.separator@ == separator && analysis.max_pieces == most)
        },
    }
}

/// What a request to combine columns comes to.
#[verifier::opaque]
pub open spec fn combine_asked(
    before: DocumentView,
    after: DocumentView,
    source_columns: Seq<usize>,
    separator: Seq<u8>,
    result: Result<ChangePlan, AppMessage>,
) -> bool {
    match combine_refusal(before, source_columns) {
        Some(message) => refused(result, warning_view(message)) && after == before,
        None => after == settled(before) && match result {
            Ok(plan) => {
                &&& plan.kind == ChangeKind::Columns
                &&& plan.change matches Change::Join { source_columns: sources, separator: between, output_header }
                    && sources@ == source_columns && between@ == separator && bytes_view(output_header)
                    == written_header(after, source_columns[0])
                &&& exists|first: usize| sets::is_least(source_columns.to_set(), first)
                    && plan.selected_columns@ == set![first]
            },
            Err(_) => false,
        },
    }
}

/// What a request to move columns comes to.
#[verifier::opaque]
pub open spec fn move_asked(
    before: DocumentView,
    after: DocumentView,
    columns: Seq<usize>,
    position: usize,
    result: Result<Option<ChangePlan>, AppMessage>,
) -> bool {
    let total = before.grid.total_columns;
    let selected = columns.to_set();
    if columns.len() == 0 {
        refused(result, warning_view(no_column_chosen())) && after == before
    } else if exists|i: int| 0 <= i < columns.len() && columns[i] >= total {
        refused(result, warning_view(column_outside())) && after == before
    } else if !columns.no_duplicates() {
        refused(result, warning_view(column_repeated())) && after == before
    } else if position > remaining(total, selected).len() {
        refused(
            result,
            warning_view(
                "Destination position must be between 1 and "@ + decimal(
                    (remaining(total, selected).len() + 1) as nat,
                ) + "."@,
            ),
        ) && after == before
    } else {
        arrangement_requested(
            before,
            after,
            result,
            rearranged(total, selected, position as int),
            sets::span(position as int, (position + chosen(total, selected).len()) as int),
        )
    }
}

/// What a request to delete columns comes to.
#[verifier::opaque]
pub open spec fn delete_columns_asked(
    before: DocumentView,
    after: DocumentView,
    columns: Seq<usize>,
    result: Result<Option<ChangePlan>, AppMessage>,
) -> bool {
    let total = before.grid.total_columns;
    let selected = columns.to_set();
    if columns.len() == 0 {
        refused(result, warning_view(no_column_chosen())) && after == before
    } else if exists|i: int| 0 <= i < columns.len() && columns[i] >= total {
        refused(result, warning_view(column_outside())) && after == before
    } else if !columns.no_duplicates() {
        refused(result, warning_view(column_repeated())) && after == before
    } else if remaining(total, selected).len() == 0 {
        refused(result, warning_view("At least one column must remain."@)) && after == before
    } else {
        exists|first: usize|
            sets::is_least(selected, first) && #[trigger] arrangement_requested(
                before,
                after,
                result,
                remaining(total, selected),
                set![nearest(first, remaining(total, selected).len())],
            )
    }
}

/// What a request to delete rows comes to.
#[verifier::opaque]
pub open spec fn delete_rows_asked(
    before: DocumentView,
    after: DocumentView,
    rows: Vec<RangeInclusive<u64>>,
    result: Result<ChangePlan, AppMessage>,
) -> bool {
    if structural_reason(before) is Some {
        refused(result, warning_view(structural_reason(before)->0)) && after == before
    } else if rows@.len() == 0 {
        refused(result, warning_view("Select at least one numbered row first."@)) && after == before
    } else {
        &&& after == settled(before)
        &&& result matches Ok(plan) && plan.change == (Change::DeleteRows { rows }) && plan.kind
            == (ChangeKind::DeleteRows { count: capped(rows_in(rows@)) }) && plan.selected_columns@
            == Set::<usize>::empty()
    }
}

/// What a request to sort the rows comes to.
#[verifier::opaque]
pub open spec fn sort_asked(
    before: DocumentView,
    after: DocumentView,
    column: usize,
    direction: SortDirection,
    case_sensitivity: CaseSensitivity,
    result: Result<ChangePlan, AppMessage>,
) -> bool {
    if structural_reason(before) is Some {
        refused(result, warning_view(structural_reason(before)->0)) && after == before
    } else if before.index.indexed_rows is None {
        refused(
            result,
            warning_view("Wait for indexing to finish so Quarry can calculate temporary disk space."@),
        ) && after == before
    } else if column >= before.grid.total_columns {
        refused(result, warning_view(no_such_column(before.grid.total_columns))) && after == before
    } else {
        &&& after == settled(before)
        &&& result matches Ok(plan) && plan.change == (Change::Sort { column, direction, case_sensitivity })
            && plan.kind == (ChangeKind::Sort { column, direction }) && plan.selected_columns@ == set![column]
    }
}

/// What a request to replace text everywhere comes to.
#[verifier::opaque]
pub open spec fn replace_asked(
    before: DocumentView,
    after: DocumentView,
    query: Seq<u8>,
    replacement: Seq<u8>,
    case_sensitivity: CaseSensitivity,
    result: Result<Option<ChangePlan>, AppMessage>,
) -> bool {
    if structural_reason(before) is Some {
        refused(result, warning_view(structural_reason(before)->0)) && after == before
    } else if query.len() == 0 {
        refused(result, warning_view("Enter text to find."@)) && after == before
    } else if query == replacement {
        result == Ok::<Option<ChangePlan>, AppMessage>(None) && after == with_status(
            before,
            Some("Search and replacement text are identical. The document was not changed."@),
        )
    } else {
        &&& after == settled(before)
        &&& result matches Ok(Some(plan)) && plan.kind == ChangeKind::Replace && plan.selected_columns@
            == before.selection.columns && {
            plan.change matches Change::Replace { query: sought, replacement: given, case_sensitivity: cased }
                && sought@ == query && given@ == replacement && cased == case_sensitivity
        }
    }
}

} // verus!
