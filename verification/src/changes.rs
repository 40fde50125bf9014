//! The requests for structural changes, and what their outcomes do to the document.

use crate::columns::{self, file_order};
use crate::document::{ChangeKind, Document, DocumentView, JobView, StructuralJob, StructuralView};
use crate::edits::{bytes_equal, found};
use crate::literal::CaseSensitivity;
use crate::message::AppMessage;
use crate::model::{
    self, cells_of, edits_of, error_view, warning_view, Effect, Failure, FileId, SortDirection, StructuralOverlay,
    WorkingCopySnapshot, WorkingCopyState, WorkingCopyView, SOURCE_CHANGED_NOTICE,
};
use crate::saving::{map_bytes, name_bytes, outdated, refusal_view};
use crate::sets;
use crate::structural::{
    arrangement_requested, bytes_view, can_redo, can_undo, cancelled_status, capped, change_begun, change_notice,
    change_status, chosen, combine_asked, current_state, delete_columns_asked, delete_rows_asked, failed_status, fits,
    header_fields, idle, move_asked, nearest, obsolete, plural, preparation, rearranged, refused, remaining,
    replace_asked, rows_in, settled, sort_asked, split_asked, step_outcome, structural_ended, structural_reason,
    with_change_accepted, with_status, without_empty_copies, without_file, written_header, Change, ChangePlan,
    MaterializedWorkingCopy, Preparation, PreparedChange, SplitAnalysis, StructuralOutcome, StructuralStep,
};
use crate::text;
use std::collections::BTreeSet;
use std::ops::RangeInclusive;
use vstd::prelude::*;
use vstd::string::*;

verus! {

/// A set of one number.
fn only(member: usize) -> (set: BTreeSet<usize>)
    ensures
        set@ == set![member],
{
    broadcast use crate::sets::group_ordered_keys;

    let mut set: BTreeSet<usize> = BTreeSet::new();
    set.insert(member);
    assert(set@ =~= set![member]);
    set
}

/// The numbers from `first` up to but not including `end`.
fn numbers(first: usize, end: usize) -> (set: BTreeSet<usize>)
    ensures
        set@ == sets::span(first as int, end as int),
{
    broadcast use crate::sets::group_ordered_keys;

    let mut set: BTreeSet<usize> = BTreeSet::new();
    let mut next: usize = first;
    assert(set@ =~= sets::span(first as int, next as int));
    while next < end
        invariant
            first <= next,
            first <= end ==> next <= end,
            first > end ==> next == first,
            set@ == sets::span(first as int, next as int),
        decreases end - next,
    {
        set.insert(next);
        next = next + 1;
        assert(set@ =~= sets::span(first as int, next as int));
    }
    assert(set@ =~= sets::span(first as int, end as int));
    set
}

/// The columns of the file in and out of `selected`, each in file order.
fn divided(total_columns: usize, selected: &BTreeSet<usize>) -> (parts: (Vec<usize>, Vec<usize>))
    ensures
        parts.0@ == chosen(total_columns, selected@),
        parts.1@ == remaining(total_columns, selected@),
        parts.0@.len() + parts.1@.len() == total_columns,
{
    broadcast use crate::sets::group_ordered_keys;

    let mut inside: Vec<usize> = Vec::new();
    let mut outside: Vec<usize> = Vec::new();
    let ghost within = |column: usize| selected@.contains(column);
    let ghost without = |column: usize| !selected@.contains(column);
    proof {
        reveal(Seq::filter);
        assert(file_order(0).filter(within) =~= Seq::empty());
        assert(file_order(0).filter(without) =~= Seq::empty());
    }
    for column in 0..total_columns
        invariant
            within == |column: usize| selected@.contains(column),
            without == |column: usize| !selected@.contains(column),
            inside@ == file_order(column as nat).filter(within),
            outside@ == file_order(column as nat).filter(without),
            inside@.len() + outside@.len() == column,
    {
        proof {
            reveal(Seq::filter);
            let next = file_order((column + 1) as nat);
            assert(next.drop_last() =~= file_order(column as nat));
            assert(next.last() == column);
        }
        if selected.contains(&column) {
            inside.push(column);
        } else {
            outside.push(column);
        }
    }
    (inside, outside)
}

/// The number of rows in ranges that no iteration has used up, at most `u64::MAX`.
fn count_rows(ranges: &Vec<RangeInclusive<u64>>) -> (count: u64)
    requires
        forall|i: int| 0 <= i < ranges@.len() ==> !(#[trigger] ranges@[i])@.exhausted,
    ensures
        count == capped(rows_in(ranges@)),
{
    let mut count: u64 = 0;
    for i in 0..ranges.len()
        invariant
            forall|i: int| 0 <= i < ranges@.len() ==> !(#[trigger] ranges@[i])@.exhausted,
            count == capped(rows_in(ranges@.take(i as int))),
    {
        assert(ranges@.take(i + 1).drop_last() =~= ranges@.take(i as int));
        assert(ranges@.take(i + 1).last() == ranges@[i as int]);
        assert(!ranges@[i as int]@.exhausted);
        let rows: u64 = ranges[i].end().saturating_sub(*ranges[i].start()).saturating_add(1);
        count = count.saturating_add(rows);
    }
    assert(ranges@.take(ranges@.len() as int) =~= ranges@);
    count
}

fn warning<T>(text: &str) -> (result: Result<T, AppMessage>)
    ensures
        refused(result, warning_view(text@)),
{
    Err(AppMessage::warning(text.to_owned()))
}

impl Document {
    pub fn structural_edit_disabled_reason(&self) -> (reason: Option<&'static str>)
        ensures
            match reason {
                Some(reason) => structural_reason(self@) == Some(reason@),
                None => structural_reason(self@) == None::<Seq<char>>,
            },
    {
        if self.source_changed {
            Some("Reopen the changed source before editing the document.")
        } else if self.filter.query.is_some() {
            Some("Clear the filter before editing the document.")
        } else if self.save.running || self.export.running || self.structural.job.is_some() || self.search.running
            || self.filter.running {
            Some("Wait for the active file operation to finish.")
        } else {
            None
        }
    }

    /// Keeps what is being typed, and tells a search to stop.
    fn settle(&mut self)
        requires
            old(self).wf(),
        ensures
            final(self).wf(),
            final(self)@ == settled(old(self)@),
            crate::edits::commit_frame(old(self)@, final(self)@),
    {
        self.commit_edits();
        self.cancel_search();
    }

    /// Asks for the width of a split.
    pub fn start_split(&mut self, source_column: usize, separator: Vec<u8>, column_limit: usize) -> (result: Result<
        SplitAnalysis,
        AppMessage,
    >)
        requires
            old(self).wf(),
        ensures
            final(self).wf(),
            split_asked(old(self)@, final(self)@, source_column, separator@, column_limit, result),
    {
        proof {
            reveal(split_asked);
        }
        match self.structural_edit_disabled_reason() {
            Some(reason) => {
                return warning(reason);
            },
            None => {},
        }
        if source_column >= self.grid.total_columns {
            let number = text::count(source_column.saturating_add(1));
            let message = "Column ".to_owned().concat(number.as_str()).concat(" is outside this file.");
            return warning(message.as_str());
        }
        if separator.len() == 0 {
            return warning("Enter a non-empty separator.");
        }
        self.settle();
        let room: usize = column_limit.saturating_sub(self.grid.total_columns).saturating_add(1);
        let max_pieces: usize = if room <= column_limit { room } else { column_limit };
        if max_pieces < 2 {
            let message = "Splitting would exceed the ".to_owned().concat(text::count(column_limit).as_str()).concat(
                "-column file limit.",
            );
            return warning(message.as_str());
        }
        let cell_edits = self.edits.cell_edits.clone();
        Ok(SplitAnalysis { cell_edits, source_column, separator, max_pieces })
    }

    /// Takes note of the measuring of a split that has started, or that could not start.
    pub fn split_analysis_started(&mut self, source_column: usize, separator: Vec<u8>, outcome: Result<(), Failure>) -> (result: Result<
        (),
        AppMessage,
    >)
        requires
            old(self).wf(),
        ensures
            final(self).wf(),
            match outcome {
                Ok(()) => result is Ok && final(self)@ == (DocumentView {
                    structural: StructuralView {
                        job: Some(JobView::AnalyzingSplit { source_column, separator: separator@ }),
                        status: Some("Checking split width…"@),
                        cancel_requested: false,
                    },
                    ..old(self)@
                }),
                Err(Failure::SourceChanged) => refused(result, warning_view(SOURCE_CHANGED_NOTICE@)) && final(self)@
                    == outdated(old(self)@),
                Err(Failure::Missing(message)) => refused(result, error_view(message@)) && final(self)@ == old(self)@,
                Err(Failure::Other(message)) => refused(result, error_view(message@)) && final(self)@ == old(self)@,
            },
    {
        match outcome {
            Ok(()) => {
                self.structural.job = Some(StructuralJob::AnalyzingSplit { source_column, separator });
                self.structural.status = Some("Checking split width…".to_owned());
                self.structural.cancel_requested = false;
                Ok(())
            },
            Err(Failure::SourceChanged) => {
                self.invalidate_changed_source();
                warning(SOURCE_CHANGED_NOTICE)
            },
            Err(Failure::Missing(message)) => Err(AppMessage::error(message)),
            Err(Failure::Other(message)) => Err(AppMessage::error(message)),
        }
    }

    /// The cells of the header row as they would be written now.
    pub fn current_header_fields(&self) -> (fields: Vec<Vec<u8>>)
        ensures
            cells_of(fields@) == header_fields(self@),
    {
        broadcast use crate::sets::group_ordered_keys;

        let mut fields: Vec<Vec<u8>> = Vec::new();
        if self.source.first_rows.len() == 0 {
            assert(cells_of(fields@) =~= header_fields(self@));
            return fields;
        }
        let source = &self.source.first_rows[0].fields;
        proof {
            assert(self@.source.first_rows[0] == cells_of(source@));
            assert(self@.edits.renames.dom() =~= self.edits.header_renames@.dom());
        }
        for column in 0..source.len()
            invariant
                fields@.len() == column,
                header_fields(self@).len() == source@.len(),
                self@.source.first_rows.len() > 0,
                self@.source.first_rows[0] == cells_of(source@),
                self@.edits.renames.dom() == self.edits.header_renames@.dom(),
                forall|j: int| 0 <= j < column ==> (#[trigger] fields@[j])@ == header_fields(self@)[j],
        {
            let typed = match &self.edits.header_edit {
                Some(edit) if edit.column == column => Some(model::copy_bytes(edit.draft.as_str().as_bytes())),
                _ => None,
            };
            let field = match typed {
                Some(field) => field,
                None => match self.edits.header_renames.get(&column) {
                    Some(name) => model::copy_bytes(name.as_str().as_bytes()),
                    None => model::copy_bytes(source[column].as_slice()),
                },
            };
            assert(field@ == header_fields(self@)[column as int]);
            fields.push(field);
        }
        assert(cells_of(fields@) =~= header_fields(self@));
        fields
    }

    /// The header cell of a column as it would be written now, where the file has a header row.
    fn output_header(&self, column: usize) -> (header: Option<Vec<u8>>)
        ensures
            bytes_view(header) == written_header(self@, column),
    {
        if !self.source.has_header {
            return None;
        }
        let fields = self.current_header_fields();
        proof {
            assert(cells_of(fields@).len() == fields@.len());
            if column < fields@.len() {
                assert(cells_of(fields@)[column as int] == fields@[column as int]@);
            }
        }
        if column < fields.len() {
            Some(model::copy_bytes(fields[column].as_slice()))
        } else {
            let empty: Vec<u8> = Vec::new();
            assert(empty@ =~= Seq::empty());
            Some(empty)
        }
    }

    /// Asks for columns to be combined into one.
    pub fn start_combine(&mut self, source_columns: Vec<usize>, separator: Vec<u8>) -> (result: Result<ChangePlan, AppMessage>)
        requires
            old(self).wf(),
        ensures
            final(self).wf(),
            combine_asked(old(self)@, final(self)@, source_columns@, separator@, result),
    {
        proof {
            reveal(combine_asked);
        }
        match self.structural_edit_disabled_reason() {
            Some(reason) => {
                return warning(reason);
            },
            None => {},
        }
        if source_columns.len() < 2 {
            return warning("Select at least two columns to combine.");
        }
        let total_columns: usize = self.grid.total_columns;
        for i in 0..source_columns.len()
            invariant
                self.wf(),
                *self == *old(self),
                total_columns == self.grid.total_columns,
                structural_reason(self@) is None,
                source_columns@.len() >= 2,
                forall|j: int| 0 <= j < i ==> source_columns@[j] < total_columns,
        {
            if source_columns[i] >= total_columns {
                proof {
                    reveal(combine_asked);
                }
                return warning("A selected column is outside this file.");
            }
        }
        let (distinct, insertion) = distinct_and_least(&source_columns);
        if !distinct {
            return warning("Select each column only once.");
        }
        self.settle();
        let output_header = self.output_header(source_columns[0]);
        let selected_columns = only(insertion);
        Ok(
            ChangePlan {
                change: Change::Join { source_columns, separator, output_header },
                kind: ChangeKind::Columns,
                selected_columns,
            },
        )
    }

    /// Asks for columns to be moved before place `position` of the others.
    pub fn start_move_columns(&mut self, columns: Vec<usize>, position: usize) -> (result: Result<
        Option<ChangePlan>,
        AppMessage,
    >)
        requires
            old(self).wf(),
        ensures
            final(self).wf(),
            move_asked(old(self)@, final(self)@, columns@, position, result),
    {
        proof {
            reveal(move_asked);
        }
        let ghost given = columns@;
        let total_columns: usize = self.grid.total_columns;
        let selected = match columns::validated_column_selection(columns, total_columns) {
            Ok(selected) => selected,
            Err(message) => {
                return Err(AppMessage::warning(message));
            },
        };
        let (inside, outside) = divided(total_columns, &selected);
        proof {
            crate::structural::lemma_rearranged(total_columns, selected@, 0);
            lemma_some_chosen(total_columns, given);
        }
        if position > outside.len() {
            let message = "Destination position must be between 1 and ".to_owned().concat(
                text::count(outside.len() + 1).as_str(),
            ).concat(".");
            return warning(message.as_str());
        }
        let mut output_columns: Vec<usize> = Vec::new();
        output_columns.extend_from_slice(vstd::slice::slice_subrange(outside.as_slice(), 0, position));
        output_columns.extend_from_slice(inside.as_slice());
        output_columns.extend_from_slice(
            vstd::slice::slice_subrange(outside.as_slice(), position, outside.len()),
        );
        assert(output_columns@ =~= rearranged(total_columns, selected@, position as int));
        let selected_columns = numbers(position, position + inside.len());
        self.start_arrangement(output_columns, selected_columns)
    }

    /// Asks for columns to be deleted.
    pub fn start_delete_columns(&mut self, columns: Vec<usize>) -> (result: Result<Option<ChangePlan>, AppMessage>)
        requires
            old(self).wf(),
        ensures
            final(self).wf(),
            delete_columns_asked(old(self)@, final(self)@, columns@, result),
    {
        proof {
            reveal(delete_columns_asked);
        }
        let ghost given = columns@;
        let total_columns: usize = self.grid.total_columns;
        let selected = match columns::validated_column_selection(columns, total_columns) {
            Ok(selected) => selected,
            Err(message) => {
                return Err(AppMessage::warning(message));
            },
        };
        let (inside, outside) = divided(total_columns, &selected);
        proof {
            lemma_some_chosen(total_columns, given);
            crate::structural::lemma_rearranged(total_columns, selected@, 0);
        }
        if outside.len() == 0 {
            return warning("At least one column must remain.");
        }
        let first: usize = inside[0];
        let place: usize = if first <= outside.len() - 1 { first } else { outside.len() - 1 };
        assert(sets::is_least(selected@, first));
        let selected_columns = only(place);
        let result = self.start_arrangement(outside, selected_columns);
        assert(place == nearest(first, remaining(total_columns, selected@).len()));
        result
    }

    /// Asks for the columns to be put in another order, or for some of them only.
    fn start_arrangement(&mut self, output_columns: Vec<usize>, selected_columns: BTreeSet<usize>) -> (result: Result<
        Option<ChangePlan>,
        AppMessage,
    >)
        requires
            old(self).wf(),
        ensures
            final(self).wf(),
            arrangement_requested(old(self)@, final(self)@, result, output_columns@, selected_columns@),
    {
        match self.structural_edit_disabled_reason() {
            Some(reason) => {
                return warning(reason);
            },
            None => {},
        }
        let total_columns: usize = self.grid.total_columns;
        let mut unchanged = output_columns.len() == total_columns;
        if unchanged {
            for i in 0..output_columns.len()
                invariant
                    output_columns@.len() == total_columns,
                    unchanged == forall|j: int| 0 <= j < i ==> output_columns@[j] == j,
            {
                if output_columns[i] != i {
                    unchanged = false;
                }
            }
        }
        proof {
            assert(unchanged <==> output_columns@ =~= file_order(total_columns as nat));
        }
        if unchanged {
            self.structural.status = Some("Columns are already in that position.".to_owned());
            assert(self@ =~= with_status(old(self)@, Some("Columns are already in that position."@)));
            return Ok(None);
        }
        self.settle();
        Ok(
            Some(
                ChangePlan {
                    change: Change::Arrange { source_width: total_columns, output_columns },
                    kind: ChangeKind::Columns,
                    selected_columns,
                },
            ),
        )
    }

    /// Asks for rows to be deleted.
    pub fn start_delete_rows(&mut self, rows: Vec<RangeInclusive<u64>>) -> (result: Result<ChangePlan, AppMessage>)
        requires
            old(self).wf(),
            forall|i: int| 0 <= i < rows@.len() ==> !(#[trigger] rows@[i])@.exhausted,
        ensures
            final(self).wf(),
            delete_rows_asked(old(self)@, final(self)@, rows, result),
    {
        proof {
            reveal(delete_rows_asked);
        }
        match self.structural_edit_disabled_reason() {
            Some(reason) => {
                return warning(reason);
            },
            None => {},
        }
        if rows.len() == 0 {
            return warning("Select at least one numbered row first.");
        }
        let count: u64 = count_rows(&rows);
        self.settle();
        Ok(
            ChangePlan {
                change: Change::DeleteRows { rows },
                kind: ChangeKind::DeleteRows { count },
                selected_columns: BTreeSet::new(),
            },
        )
    }

    /// Asks for the rows to be sorted.
    pub fn start_sort_rows_with_case(
        &mut self,
        column: usize,
        direction: SortDirection,
        case_sensitivity: CaseSensitivity,
    ) -> (result: Result<ChangePlan, AppMessage>)
        requires
            old(self).wf(),
        ensures
            final(self).wf(),
            sort_asked(old(self)@, final(self)@, column, direction, case_sensitivity, result),
    {
        proof {
            reveal(sort_asked);
        }
        match self.structural_edit_disabled_reason() {
            Some(reason) => {
                return warning(reason);
            },
            None => {},
        }
        if self.index.indexed_rows.is_none() {
            return warning("Wait for indexing to finish so Quarry can calculate temporary disk space.");
        }
        match self.validate_column(column) {
            Ok(()) => {},
            Err(message) => {
                return Err(AppMessage::warning(message));
            },
        }
        self.settle();
        Ok(
            ChangePlan {
                change: Change::Sort { column, direction, case_sensitivity },
                kind: ChangeKind::Sort { column, direction },
                selected_columns: only(column),
            },
        )
    }

    /// Asks for a text to be replaced in every cell.
    pub fn start_replace_all_with_case(
        &mut self,
        query: &[u8],
        replacement: &[u8],
        case_sensitivity: CaseSensitivity,
    ) -> (result: Result<Option<ChangePlan>, AppMessage>)
        requires
            old(self).wf(),
        ensures
            final(self).wf(),
            replace_asked(old(self)@, final(self)@, query@, replacement@, case_sensitivity, result),
    {
        proof {
            reveal(replace_asked);
        }
        match self.structural_edit_disabled_reason() {
            Some(reason) => {
                return warning(reason);
            },
            None => {},
        }
        if query.len() == 0 {
            return warning("Enter text to find.");
        }
        if bytes_equal(query, replacement) {
            self.structural.status = Some(
                "Search and replacement text are identical. The document was not changed.".to_owned(),
            );
            assert(self@ =~= with_status(
                old(self)@,
                Some("Search and replacement text are identical. The document was not changed."@),
            ));
            return Ok(None);
        }
        self.settle();
        Ok(
            Some(
                ChangePlan {
                    change: Change::Replace {
                        query: model::copy_bytes(query),
                        replacement: model::copy_bytes(replacement),
                        case_sensitivity,
                    },
                    kind: ChangeKind::Replace,
                    selected_columns: self.selection.columns.clone(),
                },
            ),
        )
    }

    /// What is missing before a change can be made.
    pub fn next_preparation(&self) -> (step: Preparation)
        ensures
            step == preparation(self@),
    {
        if !self.has_original {
            Preparation::GuardOriginal
        } else if self.working_copy.is_none() {
            Preparation::CreateDirectory
        } else {
            Preparation::Ready
        }
    }

    /// Takes note that the file that was opened is watched, or why it cannot be.
    pub fn original_guarded(&mut self, outcome: Result<(), Failure>) -> (result: Result<(), AppMessage>)
        requires
            old(self).wf(),
        ensures
            final(self).wf(),
            match outcome {
                Ok(()) => result is Ok && final(self)@ == (DocumentView { has_original: true, ..old(self)@ }),
                Err(Failure::Other(message)) => refused(result, error_view(message@)) && final(self)@ == old(self)@,
                Err(_) => refused(result, warning_view(SOURCE_CHANGED_NOTICE@)) && final(self)@ == outdated(old(self)@),
            },
    {
        match outcome {
            Ok(()) => {
                self.has_original = true;
                Ok(())
            },
            Err(Failure::Other(message)) => Err(AppMessage::error(message)),
            Err(_) => {
                self.invalidate_changed_source();
                warning(SOURCE_CHANGED_NOTICE)
            },
        }
    }

    /// Takes note of the directory for working copies, or why there is none.
    pub fn directory_created(&mut self, outcome: Result<(), String>) -> (result: Result<(), AppMessage>)
        requires
            old(self).wf(),
        ensures
            final(self).wf(),
            match outcome {
                Ok(()) => result is Ok && final(self)@ == (DocumentView {
                    working_copy: Some(WorkingCopyView { next_generation: 1, undo: None, redo: None }),
                    ..old(self)@
                }),
                Err(message) => refused(result, error_view(message@)) && final(self)@ == old(self)@,
            },
    {
        match outcome {
            Ok(()) => {
                self.working_copy = Some(WorkingCopyState::new());
                Ok(())
            },
            Err(message) => Err(AppMessage::error(message)),
        }
    }

    /// Takes the next working copy for a change, and keeps the state that undo goes back to.
    pub fn prepare_materialization(&mut self) -> (prepared: PreparedChange)
        requires
            old(self).wf(),
            preparation(old(self)@) == Preparation::Ready,
        ensures
            final(self).wf(),
            prepared.undo@ == current_state(old(self)@),
            prepared.destination == FileId::Generation(old(self)@.working_copy->0.next_generation),
            map_bytes(prepared.renames@) == name_bytes(old(self)@.edits.renames),
            edits_of(prepared.cell_edits@) == old(self)@.edits.cells,
            final(self)@ == (DocumentView {
                working_copy: Some(
                    WorkingCopyView {
                        next_generation: capped(old(self)@.working_copy->0.next_generation as nat + 1),
                        ..old(self)@.working_copy->0
                    },
                ),
                ..old(self)@
            }),
    {
        let undo = WorkingCopySnapshot {
            file: self.source.file,
            overlay: StructuralOverlay {
                header_renames: self.edits.header_renames.clone(),
                cell_edits: self.edits.cell_edits.clone(),
            },
        };
        let renames = self.renames_as_bytes();
        let cell_edits = self.edits.cell_edits.clone();
        let mut copies = match self.working_copy.take() {
            Some(copies) => copies,
            None => WorkingCopyState::new(),
        };
        let destination = copies.next_file();
        self.working_copy = Some(copies);
        assert(self@ =~= DocumentView {
            working_copy: Some(
                WorkingCopyView {
                    next_generation: capped(old(self)@.working_copy->0.next_generation as nat + 1),
                    ..old(self)@.working_copy->0
                },
            ),
            ..old(self)@
        });
        PreparedChange { undo, destination, renames, cell_edits }
    }

    /// Takes note of a change that has started, or that could not start.
    pub fn change_started(
        &mut self,
        kind: ChangeKind,
        selected_columns: BTreeSet<usize>,
        undo: WorkingCopySnapshot,
        destination: FileId,
        outcome: Result<(), Failure>,
    ) -> (result: Result<(), AppMessage>)
        requires
            old(self).wf(),
        ensures
            final(self).wf(),
            (final(self)@, refusal_view(result)) == change_begun(
                old(self)@,
                kind,
                selected_columns@,
                undo@,
                destination,
                outcome,
            ),
    {
        match outcome {
            Ok(()) => {
                self.structural.job = Some(StructuralJob::Changing { kind, destination, selected_columns, undo });
                self.structural.status = Some(status_text(kind));
                self.structural.cancel_requested = false;
                assert(self@ =~= change_begun(
                    old(self)@,
                    kind,
                    selected_columns@,
                    undo@,
                    destination,
                    outcome,
                ).0);
                Ok(())
            },
            Err(Failure::Other(message)) => {
                self.cleanup_empty_working_copy();
                Err(AppMessage::error(message))
            },
            Err(Failure::SourceChanged) => {
                self.cleanup_empty_working_copy();
                self.invalidate_changed_source();
                warning(SOURCE_CHANGED_NOTICE)
            },
            Err(Failure::Missing(_)) => {
                self.cleanup_empty_working_copy();
                self.invalidate_changed_source();
                warning(SOURCE_CHANGED_NOTICE)
            },
        }
    }

    /// Lets go of working copies that nothing needs.
    pub fn cleanup_empty_working_copy(&mut self)
        requires
            old(self).wf(),
        ensures
            final(self).wf(),
            final(self)@ == without_empty_copies(old(self)@),
    {
        let original = match self.source.file {
            FileId::Original => true,
            FileId::Generation(_) => false,
        };
        let empty = match &self.working_copy {
            Some(copies) => copies.undo.is_none() && copies.redo.is_none() && original,
            None => false,
        };
        if empty {
            self.working_copy = None;
            self.has_original = false;
        }
        proof {
            reveal(without_empty_copies);
            assert(self@ =~= without_empty_copies(old(self)@));
        }
    }

    /// Whether a state is one whose working copy nothing goes to once it is given up.
    fn is_obsolete(&self, snapshot: &Option<WorkingCopySnapshot>) -> (result: Option<FileId>)
        ensures
            match result {
                Some(file) => obsolete(self@, model::snapshot_view(*snapshot)) && file == model::snapshot_view(
                    *snapshot,
                )->0.file,
                None => !obsolete(self@, model::snapshot_view(*snapshot)),
            },
    {
        match snapshot {
            Some(state) => {
                let kept = match state.file {
                    FileId::Generation(_) => state.file == self.source.file,
                    FileId::Original => true,
                };
                if kept {
                    None
                } else {
                    Some(state.file)
                }
            },
            None => None,
        }
    }

    /// Accepts a change that undo takes back.
    fn accept_materialized_change(&mut self, undo: WorkingCopySnapshot)
        requires
            old(self).wf(),
            old(self)@.working_copy is Some,
        ensures
            final(self).wf(),
            final(self)@ == with_change_accepted(old(self)@, undo@),
    {
        if let Some(mut copies) = self.working_copy.take() {
            let old_undo = self.is_obsolete(&copies.undo);
            if let Some(file) = old_undo {
                self.effects.push(Effect::RemoveFile(file));
            }
            let old_redo = self.is_obsolete(&copies.redo);
            if let Some(file) = old_redo {
                self.effects.push(Effect::RemoveFile(file));
            }
            copies.undo = Some(undo);
            copies.redo = None;
            self.working_copy = Some(copies);
        }
        self.structural.status = None;
        proof {
            reveal(with_change_accepted);
            assert(self@ =~= with_change_accepted(old(self)@, undo@));
        }
    }

    /// Sets the structural status.
    fn set_structural_status(&mut self, status: String)
        requires
            old(self).wf(),
        ensures
            final(self).wf(),
            final(self)@ == with_status(old(self)@, Some(status@)),
    {
        self.structural.status = Some(status);
        assert(self@ =~= with_status(old(self)@, Some(status@)));
    }

    /// Takes in the end of structural work.
    pub fn structural_finished(&mut self, outcome: StructuralOutcome) -> (result: Result<StructuralStep, AppMessage>)
        requires
            old(self).wf(),
            old(self)@.structural.job matches Some(job) && fits(job, outcome),
            old(self)@.structural.job matches Some(JobView::Changing { .. }) && outcome is Complete
                ==> old(self)@.working_copy is Some,
        ensures
            final(self).wf(),
            (final(self)@, step_outcome(result)) == structural_ended(old(self)@, outcome),
    {
        let job = self.structural.job.take();
        self.structural.cancel_requested = false;
        assert(self@ =~= idle(old(self)@));
        match job {
            None => Ok(StructuralStep::Nothing),
            Some(StructuralJob::AnalyzingSplit { source_column, separator }) => self.split_finished(
                source_column,
                separator,
                outcome,
            ),
            Some(StructuralJob::Changing { kind, destination, selected_columns, undo }) => self.change_finished(
                kind,
                destination,
                selected_columns,
                undo,
                outcome,
            ),
        }
    }

    /// Takes in the width of a split.
    fn split_finished(&mut self, source_column: usize, separator: Vec<u8>, outcome: StructuralOutcome) -> (result: Result<
        StructuralStep,
        AppMessage,
    >)
        requires
            old(self).wf(),
            fits(JobView::AnalyzingSplit { source_column, separator: separator@ }, outcome),
        ensures
            final(self).wf(),
            (final(self)@, step_outcome(result)) == crate::structural::split_measured(
                old(self)@,
                source_column,
                separator@,
                outcome,
            ),
    {
        match outcome {
            StructuralOutcome::Measured { max_pieces } => {
                if max_pieces >= 2 {
                    let source_header = self.output_header(source_column);
                    let selected_columns = numbers(source_column, source_column.saturating_add(max_pieces));
                    Ok(
                        StructuralStep::Plan(
                            ChangePlan {
                                change: Change::Split { source_column, separator, pieces: max_pieces, source_header },
                                kind: ChangeKind::Columns,
                                selected_columns,
                            },
                        ),
                    )
                } else {
                    self.structural.status = None;
                    assert(self@ =~= with_status(old(self)@, None));
                    warning("The separator was not found in the selected column.")
                }
            },
            StructuralOutcome::Failed(Failure::SourceChanged) => {
                self.invalidate_changed_source();
                warning(SOURCE_CHANGED_NOTICE)
            },
            StructuralOutcome::Failed(Failure::Missing(message)) => {
                self.set_structural_status("Split failed. The document was not changed.".to_owned());
                Err(AppMessage::error(message))
            },
            StructuralOutcome::Failed(Failure::Other(message)) => {
                self.set_structural_status("Split failed. The document was not changed.".to_owned());
                Err(AppMessage::error(message))
            },
            _ => {
                self.set_structural_status("Split cancelled. The document was not changed.".to_owned());
                Ok(StructuralStep::Nothing)
            },
        }
    }

    /// Takes in the end of a change.
    fn change_finished(
        &mut self,
        kind: ChangeKind,
        destination: FileId,
        selected_columns: BTreeSet<usize>,
        undo: WorkingCopySnapshot,
        outcome: StructuralOutcome,
    ) -> (result: Result<StructuralStep, AppMessage>)
        requires
            old(self).wf(),
            outcome is Complete ==> old(self)@.working_copy is Some,
            !(outcome is Measured),
        ensures
            final(self).wf(),
            (final(self)@, step_outcome(result)) == crate::structural::change_ended(
                old(self)@,
                kind,
                destination,
                selected_columns@,
                undo@,
                outcome,
            ),
    {
        if let StructuralOutcome::Complete { replacements } = outcome {
            self.accept_materialized_change(undo);
            let notice = notice_text(kind, replacements);
            return Ok(
                StructuralStep::Install(MaterializedWorkingCopy { file: destination, selected_columns, notice }),
            );
        }
        self.effects.push(Effect::RemoveFile(destination));
        assert(self@ =~= without_file(old(self)@, destination));
        if let StructuralOutcome::Failed(Failure::SourceChanged) = outcome {
            self.invalidate_changed_source();
            return warning(SOURCE_CHANGED_NOTICE);
        }
        self.cleanup_empty_working_copy();
        match outcome {
            StructuralOutcome::NoMatch => {
                self.set_structural_status("No matches found. The document was not changed.".to_owned());
                Ok(StructuralStep::Nothing)
            },
            StructuralOutcome::Failed(Failure::Missing(message)) => {
                self.set_structural_status(failed_text(kind));
                Err(AppMessage::error(message))
            },
            StructuralOutcome::Failed(Failure::Other(message)) => {
                self.set_structural_status(failed_text(kind));
                Err(AppMessage::error(message))
            },
            _ => {
                self.set_structural_status(cancelled_text(kind));
                Ok(StructuralStep::Nothing)
            },
        }
    }

    /// Tells structural work that runs to stop.
    pub fn cancel_structural_edit(&mut self)
        requires
            old(self).wf(),
        ensures
            final(self).wf(),
            old(self)@.structural.job is None ==> final(self)@ == old(self)@,
            old(self)@.structural.job is Some ==> final(self)@ == (DocumentView {
                structural: StructuralView {
                    cancel_requested: true,
                    status: Some("Cancelling change…"@),
                    ..old(self)@.structural
                },
                effects: old(self)@.effects.push(Effect::CancelStructural),
                ..old(self)@
            }),
    {
        if self.structural.job.is_some() {
            self.effects.push(Effect::CancelStructural);
            self.structural.cancel_requested = true;
            self.structural.status = Some("Cancelling change…".to_owned());
        }
    }

    pub fn can_undo_structural(&self) -> (can: bool)
        ensures
            can == can_undo(self@),
    {
        proof {
            assert(self@.edits.renames.dom() =~= self.edits.header_renames@.dom());
            assert(self.edits.header_renames@.is_empty() <==> self@.edits.renames =~= Map::empty());
        }
        let kept = match &self.working_copy {
            Some(copies) => copies.undo.is_some(),
            None => false,
        };
        kept && self.edits.header_renames.is_empty() && !self.has_cell_edits() && self.edits.header_edit.is_none()
            && self.edits.cell_edit.is_none() && !self.save.running && !self.export.running
            && self.structural.job.is_none()
    }

    pub fn can_redo_structural(&self) -> (can: bool)
        ensures
            can == can_redo(self@),
    {
        let kept = match &self.working_copy {
            Some(copies) => copies.redo.is_some(),
            None => false,
        };
        kept && self.edits.header_edit.is_none() && self.edits.cell_edit.is_none() && !self.save.running
            && !self.export.running && self.structural.job.is_none()
    }
}

/// Columns of the file that are listed once are all among those chosen, the smallest first.
proof fn lemma_some_chosen(total_columns: usize, columns: Seq<usize>)
    requires
        columns.len() > 0,
        columns.no_duplicates(),
        forall|i: int| 0 <= i < columns.len() ==> columns[i] < total_columns,
    ensures
        chosen(total_columns, columns.to_set()).len() > 0,
        sets::is_least(columns.to_set(), chosen(total_columns, columns.to_set())[0]),
{
    let selected = columns.to_set();
    let inside = chosen(total_columns, selected);
    crate::structural::lemma_split_counts(total_columns as nat, selected);
    assert(selected.contains(columns[0])) by {
        assert(columns.contains(columns[0]));
    }
    assert(inside.contains(columns[0]));
    assert forall|other: usize| selected.contains(other) implies inside[0] <= other by {
        assert(columns.contains(other));
        let at = choose|at: int| 0 <= at < columns.len() && columns[at] == other;
        assert(other < total_columns);
        assert(inside.contains(other));
        let i = choose|i: int| 0 <= i < inside.len() && inside[i] == other;
        if i > 0 {
            assert(inside[0] < inside[i]);
        }
    }
    assert(selected.contains(inside[0]));
}

/// Whether a list names nothing twice, and its smallest entry.
fn distinct_and_least(columns: &Vec<usize>) -> (result: (bool, usize))
    requires
        columns@.len() > 0,
    ensures
        result.0 == columns@.no_duplicates(),
        sets::is_least(columns@.to_set(), result.1),
{
    broadcast use crate::sets::group_ordered_keys;

    let mut seen: BTreeSet<usize> = BTreeSet::new();
    let mut distinct = true;
    let mut least: usize = columns[0];
    proof {
        assert(columns@.take(0).to_set() =~= Set::<usize>::empty());
    }
    for i in 0..columns.len()
        invariant
            seen@ == columns@.take(i as int).to_set(),
            distinct == columns@.take(i as int).no_duplicates(),
            columns@.contains(least),
            forall|j: int| 0 <= j < i ==> least <= columns@[j],
            columns@.len() > 0,
    {
        let column: usize = columns[i];
        let ghost before = columns@.take(i as int);
        let ghost after = columns@.take(i + 1);
        proof {
            assert(after =~= before.push(column));
            columns::lemma_pushed_set(before, column);
        }
        let fresh = seen.insert(column);
        proof {
            assert(fresh == !before.contains(column));
            if before.no_duplicates() && fresh {
                assert(after.no_duplicates());
            }
            if !before.no_duplicates() {
                let (x, y) = choose|x: int, y: int|
                    0 <= x < before.len() && 0 <= y < before.len() && x != y && before[x] == before[y];
                assert(after[x] == after[y]);
            }
            if !fresh {
                let x = choose|x: int| 0 <= x < before.len() && before[x] == column;
                assert(after[x] == after[i as int]);
            }
            assert(columns@.contains(columns@[i as int]));
        }
        if !fresh {
            distinct = false;
        }
        if column < least {
            least = column;
        }
    }
    proof {
        assert(columns@.take(columns@.len() as int) =~= columns@);
        assert(columns@.to_set().contains(least));
        assert forall|other: usize| columns@.to_set().contains(other) implies least <= other by {
            let j = choose|j: int| 0 <= j < columns@.len() && columns@[j] == other;
            assert(columns@.contains(other));
        }
    }
    (distinct, least)
}

fn plural_ending(count: u64) -> (ending: &'static str)
    ensures
        ending@ == plural(count),
{
    if count == 1 {
        ""
    } else {
        "s"
    }
}

fn status_text(kind: ChangeKind) -> (status: String)
    ensures
        status@ == change_status(kind),
{
    match kind {
        ChangeKind::Columns => "Applying column edit…".to_owned(),
        ChangeKind::Replace => "Replacing matches…".to_owned(),
        ChangeKind::Sort { .. } => "Sorting rows…".to_owned(),
        ChangeKind::DeleteRows { count } => "Deleting ".to_owned().concat(text::number(count).as_str()).concat(
            " selected row",
        ).concat(plural_ending(count)).concat("…"),
    }
}

fn notice_text(kind: ChangeKind, replacements: u64) -> (notice: String)
    ensures
        notice@ == change_notice(kind, replacements),
{
    match kind {
        ChangeKind::Columns => "Column edit applied. Save to keep it, or discard changes.".to_owned(),
        ChangeKind::DeleteRows { count } => "Deleted ".to_owned().concat(text::number(count).as_str()).concat(
            " row",
        ).concat(plural_ending(count)).concat(". Save to keep it, or discard changes."),
        ChangeKind::Replace => "Replaced ".to_owned().concat(text::number(replacements).as_str()).concat(
            " occurrence",
        ).concat(plural_ending(replacements)).concat(". Save to keep it, or discard changes."),
        ChangeKind::Sort { column, direction } => "Sorted rows by column ".to_owned().concat(
            text::count(column.saturating_add(1)).as_str(),
        ).concat(" ").concat(
            match direction {
                SortDirection::Ascending => "ascending",
                SortDirection::Descending => "descending",
            },
        ).concat(". Save to keep it, or discard changes."),
    }
}

fn cancelled_text(kind: ChangeKind) -> (status: String)
    ensures
        status@ == cancelled_status(kind),
{
    match kind {
        ChangeKind::Columns => "Column edit cancelled. The document was not changed.".to_owned(),
        ChangeKind::DeleteRows { .. } => "Row deletion cancelled. The document was not changed.".to_owned(),
        ChangeKind::Replace => "Replace All cancelled. The document was not changed.".to_owned(),
        ChangeKind::Sort { .. } => "Sort cancelled. The document was not changed.".to_owned(),
    }
}

fn failed_text(kind: ChangeKind) -> (status: String)
    ensures
        status@ == failed_status(kind),
{
    match kind {
        ChangeKind::Columns => "Column edit failed. The document was not changed.".to_owned(),
        ChangeKind::DeleteRows { .. } => "Row deletion failed. The document was not changed.".to_owned(),
        ChangeKind::Replace => "Replace All failed. The document was not changed.".to_owned(),
        ChangeKind::Sort { .. } => "Sort failed. The document was not changed.".to_owned(),
    }
}

} // verus!
