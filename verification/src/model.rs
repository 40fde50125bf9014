//! Plain data that the document is made of, and what it stands for.

use crate::literal::CaseSensitivity;
use crate::message::{AppMessage, MessageSeverity};
use std::collections::BTreeMap;
use vstd::prelude::*;

verus! {

#[derive(Clone, Copy, Debug, PartialEq, Eq, Structural)]
pub enum SortDirection {
    Ascending,
    Descending,
}

#[derive(Clone, Copy, Debug, PartialEq, Eq, Structural)]
pub enum FilterOperator {
    Contains,
    Equals,
    NotEquals,
}

/// One filter rule: what a cell of a column is compared with, and how.
#[derive(Debug, PartialEq, Eq)]
pub struct FilterPredicate {
    pub column: usize,
    pub operator: FilterOperator,
    pub value: Vec<u8>,
}

/// The rules of a filter.
#[derive(Debug, PartialEq, Eq)]
pub struct FilterQuery {
    pub predicates: Vec<FilterPredicate>,
    pub case_sensitivity: CaseSensitivity,
}

/// A row of a file.
#[derive(Debug, PartialEq, Eq)]
pub struct Row {
    pub fields: Vec<Vec<u8>>,
}

/// A row that a filter keeps, with its place in the file.
#[derive(Debug, PartialEq, Eq)]
pub struct FilterMatch {
    pub row: u64,
    pub fields: Vec<Vec<u8>>,
}

/// A cell that a search found.
#[derive(Clone, Copy, Debug, PartialEq, Eq, Structural)]
pub struct SearchMatch {
    pub row: u64,
    pub column: usize,
}

/// The cell from which a search starts.
#[derive(Clone, Copy, Debug, PartialEq, Eq, Structural)]
pub struct SearchPosition {
    pub row: u64,
    pub column: usize,
}

/// How far the indexing of a file has come.
#[derive(Clone, Copy, Debug, PartialEq, Eq, Structural)]
pub struct IndexProgress {
    pub bytes_scanned: u64,
    pub rows_scanned: u64,
    pub file_size: u64,
    pub done: bool,
    pub cancelled: bool,
}

/// How far a filter has come.
#[derive(Clone, Copy, Debug, PartialEq, Eq, Structural)]
pub struct FilterProgress {
    pub bytes_scanned: u64,
    pub file_size: u64,
    pub matches_found: u64,
    pub done: bool,
    pub cancelled: bool,
}

/// How far a search, a save, an export or a structural change has come.
#[derive(Clone, Copy, Debug, PartialEq, Eq, Structural)]
pub struct JobProgress {
    pub bytes_scanned: u64,
    pub total_bytes: u64,
    pub done: bool,
    pub cancelled: bool,
}

/// A file that holds a state of the document: the one that was opened, or a numbered working
/// copy beside it.
#[derive(Clone, Copy, Debug, PartialEq, Eq, Structural)]
pub enum FileId {
    Original,
    Generation(u64),
}

/// Matches that are read together for the grid.
#[derive(Clone, Copy, Debug, PartialEq, Eq, Structural)]
pub struct FilterReadWindow {
    pub start_match: u64,
    pub count: usize,
}

/// A read of matches that runs.
#[derive(Clone, Copy, Debug, PartialEq, Eq, Structural)]
pub struct ActiveFilterRead {
    pub window: FilterReadWindow,
    pub cancel_requested: bool,
}

/// A header that is being edited.
#[derive(Debug, PartialEq, Eq)]
pub struct HeaderEdit {
    pub column: usize,
    pub draft: String,
    pub focus_requested: bool,
}

/// A cell that is being edited, with what the file holds there.
#[derive(Debug, PartialEq, Eq)]
pub struct CellEdit {
    pub row: u64,
    pub column: usize,
    pub source: Vec<u8>,
    pub draft: String,
    pub focus_requested: bool,
}

/// Edits on top of a file.
#[derive(Debug, PartialEq, Eq)]
pub struct StructuralOverlay {
    pub header_renames: BTreeMap<usize, String>,
    pub cell_edits: BTreeMap<(u64, usize), Vec<u8>>,
}

/// A state of the document that undo or redo goes to.
#[derive(Debug, PartialEq, Eq)]
pub struct WorkingCopySnapshot {
    pub file: FileId,
    pub overlay: StructuralOverlay,
}

/// The working copies of a document.
#[derive(Debug, PartialEq, Eq)]
pub struct WorkingCopyState {
    pub next_generation: u64,
    pub undo: Option<WorkingCopySnapshot>,
    pub redo: Option<WorkingCopySnapshot>,
}

/// Work that a change of state asks of the outside.
#[derive(Clone, Copy, Debug, PartialEq, Eq, Structural)]
pub enum Effect {
    CancelIndexing,
    DropIndexing,
    CancelSearch,
    CancelFilter,
    CancelExport,
    CancelSave,
    CancelStructural,
    CancelFilterRead,
    AbandonFilterRead,
    SnapshotFilter,
    RemoveFile(FileId),
    ResetScroll,
}

/// Why outside work could not start or did not finish.
#[derive(Debug, PartialEq, Eq)]
pub enum Failure {
    SourceChanged,
    Missing(String),
    Other(String),
}

pub const SOURCE_CHANGED_NOTICE: &'static str = "The source file changed outside Quarry. Discard changes and reopen it.";

#[verifier::ext_equal]
pub struct MessageView {
    pub text: Seq<char>,
    pub severity: MessageSeverity,
}

impl View for AppMessage {
    type V = MessageView;

    open spec fn view(&self) -> MessageView {
        MessageView { text: self.text@, severity: self.severity }
    }
}

/// The characters of a text that may be absent.
pub open spec fn text_view(text: Option<String>) -> Option<Seq<char>> {
    match text {
        Some(text) => Some(text@),
        None => None,
    }
}

/// The message of a failure to which nothing else is done.
pub open spec fn error_view(text: Seq<char>) -> MessageView {
    MessageView { text, severity: MessageSeverity::Error }
}

pub open spec fn warning_view(text: Seq<char>) -> MessageView {
    MessageView { text, severity: MessageSeverity::Warning }
}

pub open spec fn status_view(text: Seq<char>) -> MessageView {
    MessageView { text, severity: MessageSeverity::Status }
}

/// The bytes of the cells of a row.
pub open spec fn cells_of(fields: Seq<Vec<u8>>) -> Seq<Seq<u8>> {
    fields.map_values(|field: Vec<u8>| field@)
}

/// The bytes of the cells of rows.
pub open spec fn rows_cells(rows: Seq<Row>) -> Seq<Seq<Seq<u8>>> {
    rows.map_values(|row: Row| cells_of(row.fields@))
}

/// The names of headers.
pub open spec fn names_of(names: Seq<String>) -> Seq<Seq<char>> {
    names.map_values(|name: String| name@)
}

/// The new names of headers.
pub open spec fn renames_of(renames: Map<usize, String>) -> Map<usize, Seq<char>> {
    renames.map_values(|name: String| name@)
}

/// The new bytes of cells.
pub open spec fn edits_of(edits: Map<(u64, usize), Vec<u8>>) -> Map<(u64, usize), Seq<u8>> {
    edits.map_values(|value: Vec<u8>| value@)
}

#[verifier::ext_equal]
pub struct PredicateView {
    pub column: usize,
    pub operator: FilterOperator,
    pub value: Seq<u8>,
}

impl View for FilterPredicate {
    type V = PredicateView;

    open spec fn view(&self) -> PredicateView {
        PredicateView { column: self.column, operator: self.operator, value: self.value@ }
    }
}

#[verifier::ext_equal]
pub struct QueryView {
    pub predicates: Seq<PredicateView>,
    pub case_sensitivity: CaseSensitivity,
}

impl View for FilterQuery {
    type V = QueryView;

    open spec fn view(&self) -> QueryView {
        QueryView {
            predicates: self.predicates@.map_values(|predicate: FilterPredicate| predicate@),
            case_sensitivity: self.case_sensitivity,
        }
    }
}

pub open spec fn query_view(query: Option<FilterQuery>) -> Option<QueryView> {
    match query {
        Some(query) => Some(query@),
        None => None,
    }
}

#[verifier::ext_equal]
pub struct MatchView {
    pub row: u64,
    pub cells: Seq<Seq<u8>>,
}

impl View for FilterMatch {
    type V = MatchView;

    open spec fn view(&self) -> MatchView {
        MatchView { row: self.row, cells: cells_of(self.fields@) }
    }
}

pub open spec fn matches_of(matches: Seq<FilterMatch>) -> Seq<MatchView> {
    matches.map_values(|found: FilterMatch| found@)
}

#[verifier::ext_equal]
pub struct HeaderEditView {
    pub column: usize,
    pub draft: Seq<char>,
    pub focus_requested: bool,
}

pub open spec fn header_edit_view(edit: Option<HeaderEdit>) -> Option<HeaderEditView> {
    match edit {
        Some(edit) => Some(
            HeaderEditView { column: edit.column, draft: edit.draft@, focus_requested: edit.focus_requested },
        ),
        None => None,
    }
}

#[verifier::ext_equal]
pub struct CellEditView {
    pub row: u64,
    pub column: usize,
    pub source: Seq<u8>,
    pub draft: Seq<char>,
    pub focus_requested: bool,
}

pub open spec fn cell_edit_view(edit: Option<CellEdit>) -> Option<CellEditView> {
    match edit {
        Some(edit) => Some(
            CellEditView {
                row: edit.row,
                column: edit.column,
                source: edit.source@,
                draft: edit.draft@,
                focus_requested: edit.focus_requested,
            },
        ),
        None => None,
    }
}

#[verifier::ext_equal]
pub struct OverlayView {
    pub renames: Map<usize, Seq<char>>,
    pub cells: Map<(u64, usize), Seq<u8>>,
}

impl View for StructuralOverlay {
    type V = OverlayView;

    open spec fn view(&self) -> OverlayView {
        OverlayView { renames: renames_of(self.header_renames@), cells: edits_of(self.cell_edits@) }
    }
}

#[verifier::ext_equal]
pub struct SnapshotView {
    pub file: FileId,
    pub overlay: OverlayView,
}

impl View for WorkingCopySnapshot {
    type V = SnapshotView;

    open spec fn view(&self) -> SnapshotView {
        SnapshotView { file: self.file, overlay: self.overlay@ }
    }
}

pub open spec fn snapshot_view(snapshot: Option<WorkingCopySnapshot>) -> Option<SnapshotView> {
    match snapshot {
        Some(snapshot) => Some(snapshot@),
        None => None,
    }
}

#[verifier::ext_equal]
pub struct WorkingCopyView {
    pub next_generation: u64,
    pub undo: Option<SnapshotView>,
    pub redo: Option<SnapshotView>,
}

impl View for WorkingCopyState {
    type V = WorkingCopyView;

    open spec fn view(&self) -> WorkingCopyView {
        WorkingCopyView {
            next_generation: self.next_generation,
            undo: snapshot_view(self.undo),
            redo: snapshot_view(self.redo),
        }
    }
}

pub open spec fn working_copy_view(state: Option<WorkingCopyState>) -> Option<WorkingCopyView> {
    match state {
        Some(state) => Some(state@),
        None => None,
    }
}

impl WorkingCopyState {
    /// Working copies of which none has been made.
    pub fn new() -> (state: Self)
        ensures
            state@ == (WorkingCopyView { next_generation: 1, undo: None, redo: None }),
    {
        WorkingCopyState { next_generation: 1, undo: None, redo: None }
    }

    /// The file for the next working copy. Each is used once, until the numbers run out.
    pub fn next_file(&mut self) -> (file: FileId)
        ensures
            file == FileId::Generation(old(self).next_generation),
            final(self)@ == (WorkingCopyView {
                next_generation: if old(self).next_generation < u64::MAX {
                    (old(self).next_generation + 1) as u64
                } else {
                    u64::MAX
                },
                ..old(self)@
            }),
    {
        let file = FileId::Generation(self.next_generation);
        self.next_generation = self.next_generation.saturating_add(1);
        file
    }
}

/// A copy of the cells of a row.
pub fn copy_fields(fields: &[Vec<u8>]) -> (copy: Vec<Vec<u8>>)
    ensures
        cells_of(copy@) == cells_of(fields@),
        copy@.len() == fields@.len(),
{
    let mut copy: Vec<Vec<u8>> = Vec::new();
    for i in 0..fields.len()
        invariant
            copy@.len() == i,
            forall|j: int| 0 <= j < i ==> (#[trigger] copy@[j])@ == fields@[j]@,
    {
        copy.push(copy_bytes(fields[i].as_slice()));
    }
    proof {
        assert(cells_of(copy@) =~= cells_of(fields@));
    }
    copy
}

/// A copy of bytes.
pub fn copy_bytes(bytes: &[u8]) -> (copy: Vec<u8>)
    ensures
        copy@ == bytes@,
{
    vstd::slice::slice_to_vec(bytes)
}

/// Copies of the rows from `start` up to but not including `end`.
pub fn copy_rows(rows: &Vec<Row>, start: usize, end: usize) -> (copy: Vec<Row>)
    requires
        start <= end <= rows@.len(),
    ensures
        rows_cells(copy@) == rows_cells(rows@).subrange(start as int, end as int),
        copy@.len() == end - start,
{
    let mut copy: Vec<Row> = Vec::new();
    for i in start..end
        invariant
            start <= i <= end <= rows@.len(),
            copy@.len() == i - start,
            forall|j: int| 0 <= j < i - start ==> cells_of((#[trigger] copy@[j]).fields@) == cells_of(rows@[start + j].fields@),
    {
        copy.push(Row { fields: copy_fields(rows[i].fields.as_slice()) });
    }
    proof {
        assert(rows_cells(copy@) =~= rows_cells(rows@).subrange(start as int, end as int));
    }
    copy
}

/// The number of cells of the widest row.
pub open spec fn widest(rows: Seq<Seq<Seq<u8>>>) -> nat
    decreases rows.len(),
{
    if rows.len() == 0 {
        0
    } else {
        let rest = widest(rows.drop_last());
        if rows.last().len() > rest {
            rows.last().len()
        } else {
            rest
        }
    }
}

/// No row is wider than the widest.
pub proof fn lemma_widest(rows: Seq<Seq<Seq<u8>>>)
    ensures
        forall|i: int| 0 <= i < rows.len() ==> (#[trigger] rows[i]).len() <= widest(rows),
        rows.len() > 0 ==> exists|i: int| 0 <= i < rows.len() && (#[trigger] rows[i]).len() == widest(rows),
    decreases rows.len(),
{
    if rows.len() > 0 {
        let rest = rows.drop_last();
        lemma_widest(rest);
        assert forall|i: int| 0 <= i < rows.len() implies (#[trigger] rows[i]).len() <= widest(rows) by {
            if i < rest.len() {
                assert(rest[i] == rows[i]);
            }
        }
        if rows.last().len() > widest(rest) || rest.len() == 0 {
            assert(rows[rows.len() - 1].len() == widest(rows));
        } else {
            let i = choose|i: int| 0 <= i < rest.len() && (#[trigger] rest[i]).len() == widest(rest);
            assert(rows[i].len() == widest(rows));
        }
    }
}

/// The number of cells of the widest row.
pub fn widest_row(rows: &Vec<Row>) -> (width: usize)
    ensures
        width == widest(rows_cells(rows@)),
{
    let mut width: usize = 0;
    let ghost cells = rows_cells(rows@);
    for i in 0..rows.len()
        invariant
            cells == rows_cells(rows@),
            width == widest(cells.take(i as int)),
    {
        proof {
            assert(cells.take(i + 1).drop_last() =~= cells.take(i as int));
            assert(cells.take(i + 1).last() == cells_of(rows@[i as int].fields@));
        }
        if rows[i].fields.len() > width {
            width = rows[i].fields.len();
        }
    }
    proof {
        assert(cells.take(cells.len() as int) =~= cells);
    }
    width
}

/// The number of cells of the widest match.
pub fn widest_match(rows: &Vec<FilterMatch>) -> (width: usize)
    ensures
        width == widest(matches_of(rows@).map_values(|found: MatchView| found.cells)),
{
    let mut width: usize = 0;
    let ghost cells = matches_of(rows@).map_values(|found: MatchView| found.cells);
    for i in 0..rows.len()
        invariant
            cells == matches_of(rows@).map_values(|found: MatchView| found.cells),
            width == widest(cells.take(i as int)),
    {
        proof {
            assert(cells.take(i + 1).drop_last() =~= cells.take(i as int));
            assert(cells.take(i + 1).last() == cells_of(rows@[i as int].fields@));
        }
        if rows[i].fields.len() > width {
            width = rows[i].fields.len();
        }
    }
    proof {
        assert(cells.take(cells.len() as int) =~= cells);
    }
    width
}

/// A copy of a filter query.
pub fn copy_query(query: &FilterQuery) -> (copy: FilterQuery)
    ensures
        copy@ == query@,
{
    let mut predicates: Vec<FilterPredicate> = Vec::new();
    for i in 0..query.predicates.len()
        invariant
            predicates@.len() == i,
            forall|j: int| 0 <= j < i ==> (#[trigger] predicates@[j])@ == query.predicates@[j]@,
    {
        let predicate = &query.predicates[i];
        predicates.push(
            FilterPredicate {
                column: predicate.column,
                operator: predicate.operator,
                value: copy_bytes(predicate.value.as_slice()),
            },
        );
    }
    let copy = FilterQuery { predicates, case_sensitivity: query.case_sensitivity };
    proof {
        assert(copy@.predicates =~= query@.predicates);
    }
    copy
}

/// Putting in a new name, in the two readings of the renames.
pub proof fn lemma_renames_insert(renames: Map<usize, String>, column: usize, name: String)
    ensures
        renames_of(renames.insert(column, name)) == renames_of(renames).insert(column, name@),
        renames_of(renames.remove(column)) == renames_of(renames).remove(column),
        renames_of(renames).dom() == renames.dom(),
{
    assert(renames_of(renames.insert(column, name)) =~= renames_of(renames).insert(column, name@));
    assert(renames_of(renames.remove(column)) =~= renames_of(renames).remove(column));
    assert(renames_of(renames).dom() =~= renames.dom());
}

/// Putting in new bytes, in the two readings of the edits.
pub proof fn lemma_edits_insert(edits: Map<(u64, usize), Vec<u8>>, key: (u64, usize), value: Vec<u8>)
    ensures
        edits_of(edits.insert(key, value)) == edits_of(edits).insert(key, value@),
        edits_of(edits.remove(key)) == edits_of(edits).remove(key),
        edits_of(edits).dom() == edits.dom(),
{
    assert(edits_of(edits.insert(key, value)) =~= edits_of(edits).insert(key, value@));
    assert(edits_of(edits.remove(key)) =~= edits_of(edits).remove(key));
    assert(edits_of(edits).dom() =~= edits.dom());
}

} // verus!
