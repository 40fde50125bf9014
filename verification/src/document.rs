//! The state of an open document.
//!
//! The document holds what the editor knows of a file and of the work that runs on it. Outside
//! work (reading rows, running jobs, removing files) is asked for, in return values or in
//! [`Document::effects`], and its outcome is handed back.

use crate::clipboard::{self, escaped, shortened};
use crate::columns::{file_order, ColumnView};
use crate::format::{HeaderMode, OpenOptions};
use crate::literal::CaseSensitivity;
use crate::model::{
    self, cell_edit_view, edits_of, header_edit_view, matches_of, names_of, query_view, renames_of, rows_cells,
    text_view, widest, working_copy_view, ActiveFilterRead, CellEdit, CellEditView, Effect, FileId, FilterMatch,
    FilterProgress, FilterQuery, FilterReadWindow, HeaderEdit, HeaderEditView, IndexProgress, JobProgress, MatchView,
    QueryView, Row, SearchMatch, SnapshotView, SortDirection, WorkingCopySnapshot, WorkingCopyState, WorkingCopyView,
};
use crate::rows::{GridSelection, RowSelection, RowSelectionView};
use crate::text::{self, decimal, lossy_text};
use std::collections::{BTreeMap, BTreeSet};
use vstd::prelude::*;
use vstd::string::*;
use vstd::utf8::*;

verus! {

/// The rows that the grid shows before it knows its height.
pub const BOOTSTRAP_ROWS: usize = 40;

/// The rows that are read ahead on each side of the visible ones.
pub const OVERSCAN_ROWS: usize = 16;

/// What is known of a file from its first rows.
#[derive(Debug, PartialEq, Eq)]
pub struct SourceInfo {
    pub file: FileId,
    pub file_size: u64,
    pub has_header: bool,
    pub delimiter: u8,
    pub first_rows: Vec<Row>,
}

/// The index of the rows of a file: whether it is being made, and how many rows it holds.
#[derive(Clone, Copy, Debug, PartialEq, Eq)]
pub struct IndexState {
    pub running: bool,
    pub indexed_rows: Option<u64>,
    pub progress: IndexProgress,
}

/// The search and its matches so far.
#[derive(Debug, PartialEq, Eq)]
pub struct SearchState {
    pub running: bool,
    pub query: Vec<u8>,
    pub case_sensitivity: CaseSensitivity,
    pub last_match: Option<SearchMatch>,
    pub history: Vec<SearchMatch>,
    pub history_index: Option<usize>,
    pub status: Option<String>,
}

/// The filter, its matches, and those of them that the grid holds.
#[derive(Debug, PartialEq, Eq)]
pub struct FilterState {
    pub running: bool,
    pub indexed_matches: Option<u64>,
    pub query: Option<FilterQuery>,
    pub progress: Option<FilterProgress>,
    pub status: Option<String>,
    pub viewport_start: u64,
    pub buffer_start: u64,
    pub rows: Vec<FilterMatch>,
    pub read: Option<ActiveFilterRead>,
    pub pending: Option<FilterReadWindow>,
}

/// The export of filtered rows.
#[derive(Debug, PartialEq, Eq)]
pub struct ExportState {
    pub running: bool,
    pub progress: Option<JobProgress>,
    pub status: Option<String>,
    pub cancel_requested: bool,
}

/// The save of the edited file.
#[derive(Debug, PartialEq, Eq)]
pub struct SaveState {
    pub running: bool,
    pub status: Option<String>,
    pub cancel_requested: bool,
    pub in_place: bool,
}

/// What a new working copy is made for.
#[derive(Clone, Copy, Debug, PartialEq, Eq)]
pub enum ChangeKind {
    Columns,
    Replace,
    Sort { column: usize, direction: SortDirection },
    DeleteRows { count: u64 },
}

/// A structural change that runs.
#[derive(Debug, PartialEq, Eq)]
pub enum StructuralJob {
    AnalyzingSplit { source_column: usize, separator: Vec<u8> },
    Changing { kind: ChangeKind, destination: FileId, selected_columns: BTreeSet<usize>, undo: WorkingCopySnapshot },
}

#[derive(Debug, PartialEq, Eq)]
pub struct StructuralState {
    pub job: Option<StructuralJob>,
    pub status: Option<String>,
    pub cancel_requested: bool,
}

/// Edits that no file holds yet.
#[derive(Debug, PartialEq, Eq)]
pub struct EditState {
    pub header_renames: BTreeMap<usize, String>,
    pub header_edit: Option<HeaderEdit>,
    pub cell_edits: BTreeMap<(u64, usize), Vec<u8>>,
    pub cell_edit: Option<CellEdit>,
}

/// The columns and the rows that the grid holds.
#[derive(Debug, PartialEq, Eq)]
pub struct GridState {
    pub total_columns: usize,
    pub columns: ColumnView,
    pub headers: Vec<String>,
    pub data_start: u64,
    pub viewport_start: u64,
    pub buffer_start: u64,
    pub rows: Vec<Row>,
    pub visible_rows: usize,
}

/// What is selected, and what is to be brought into view or into focus.
#[derive(Debug, PartialEq, Eq)]
pub struct SelectionState {
    pub selection: Option<GridSelection>,
    pub rows: RowSelection,
    pub columns: BTreeSet<usize>,
    pub anchor: Option<usize>,
    pub reveal_cell: Option<(u64, usize)>,
    pub cell_focus: Option<(u64, usize)>,
    pub column_focus: Option<usize>,
}

/// An open document.
#[derive(Debug, PartialEq, Eq)]
pub struct Document {
    pub source: SourceInfo,
    pub has_original: bool,
    pub working_copy: Option<WorkingCopyState>,
    pub index: IndexState,
    pub search: SearchState,
    pub filter: FilterState,
    pub export: ExportState,
    pub save: SaveState,
    pub structural: StructuralState,
    pub source_changed: bool,
    pub edits: EditState,
    pub grid: GridState,
    pub selection: SelectionState,
    pub effects: Vec<Effect>,
}

#[verifier::ext_equal]
pub struct SourceView {
    pub file: FileId,
    pub file_size: u64,
    pub has_header: bool,
    pub delimiter: u8,
    pub first_rows: Seq<Seq<Seq<u8>>>,
}

#[verifier::ext_equal]
pub struct SearchView {
    pub running: bool,
    pub query: Seq<u8>,
    pub case_sensitivity: CaseSensitivity,
    pub last_match: Option<SearchMatch>,
    pub history: Seq<SearchMatch>,
    pub history_index: Option<usize>,
    pub status: Option<Seq<char>>,
}

#[verifier::ext_equal]
pub struct FilterView {
    pub running: bool,
    pub indexed_matches: Option<u64>,
    pub query: Option<QueryView>,
    pub progress: Option<FilterProgress>,
    pub status: Option<Seq<char>>,
    pub viewport_start: u64,
    pub buffer_start: u64,
    pub rows: Seq<MatchView>,
    pub read: Option<ActiveFilterRead>,
    pub pending: Option<FilterReadWindow>,
}

#[verifier::ext_equal]
pub struct ExportView {
    pub running: bool,
    pub progress: Option<JobProgress>,
    pub status: Option<Seq<char>>,
    pub cancel_requested: bool,
}

#[verifier::ext_equal]
pub struct SaveView {
    pub running: bool,
    pub status: Option<Seq<char>>,
    pub cancel_requested: bool,
    pub in_place: bool,
}

#[verifier::ext_equal]
pub enum JobView {
    AnalyzingSplit { source_column: usize, separator: Seq<u8> },
    Changing { kind: ChangeKind, destination: FileId, selected_columns: Set<usize>, undo: SnapshotView },
}

#[verifier::ext_equal]
pub struct StructuralView {
    pub job: Option<JobView>,
    pub status: Option<Seq<char>>,
    pub cancel_requested: bool,
}

#[verifier::ext_equal]
pub struct EditsView {
    pub renames: Map<usize, Seq<char>>,
    pub header_edit: Option<HeaderEditView>,
    pub cells: Map<(u64, usize), Seq<u8>>,
    pub cell_edit: Option<CellEditView>,
}

#[verifier::ext_equal]
pub struct GridView {
    pub total_columns: usize,
    pub order: Seq<usize>,
    pub hidden: Seq<bool>,
    pub headers: Seq<Seq<char>>,
    pub data_start: u64,
    pub viewport_start: u64,
    pub buffer_start: u64,
    pub rows: Seq<Seq<Seq<u8>>>,
    pub visible_rows: usize,
}

#[verifier::ext_equal]
pub struct SelectionView {
    pub selection: Option<GridSelection>,
    pub rows: RowSelectionView,
    pub columns: Set<usize>,
    pub anchor: Option<usize>,
    pub reveal_cell: Option<(u64, usize)>,
    pub cell_focus: Option<(u64, usize)>,
    pub column_focus: Option<usize>,
}

/// What a [`Document`] stands for.
#[verifier::ext_equal]
pub struct DocumentView {
    pub source: SourceView,
    pub has_original: bool,
    pub working_copy: Option<WorkingCopyView>,
    pub index: IndexState,
    pub search: SearchView,
    pub filter: FilterView,
    pub export: ExportView,
    pub save: SaveView,
    pub structural: StructuralView,
    pub source_changed: bool,
    pub edits: EditsView,
    pub grid: GridView,
    pub selection: SelectionView,
    pub effects: Seq<Effect>,
}

impl View for SourceInfo {
    type V = SourceView;

    open spec fn view(&self) -> SourceView {
        SourceView {
            file: self.file,
            file_size: self.file_size,
            has_header: self.has_header,
            delimiter: self.delimiter,
            first_rows: rows_cells(self.first_rows@),
        }
    }
}

impl View for SearchState {
    type V = SearchView;

    open spec fn view(&self) -> SearchView {
        SearchView {
            running: self.running,
            query: self.query@,
            case_sensitivity: self.case_sensitivity,
            last_match: self.last_match,
            history: self.history@,
            history_index: self.history_index,
            status: text_view(self.status),
        }
    }
}

impl View for FilterState {
    type V = FilterView;

    open spec fn view(&self) -> FilterView {
        FilterView {
            running: self.running,
            indexed_matches: self.indexed_matches,
            query: query_view(self.query),
            progress: self.progress,
            status: text_view(self.status),
            viewport_start: self.viewport_start,
            buffer_start: self.buffer_start,
            rows: matches_of(self.rows@),
            read: self.read,
            pending: self.pending,
        }
    }
}

impl View for ExportState {
    type V = ExportView;

    open spec fn view(&self) -> ExportView {
        ExportView {
            running: self.running,
            progress: self.progress,
            status: text_view(self.status),
            cancel_requested: self.cancel_requested,
        }
    }
}

impl View for SaveState {
    type V = SaveView;

    open spec fn view(&self) -> SaveView {
        SaveView {
            running: self.running,
            status: text_view(self.status),
            cancel_requested: self.cancel_requested,
            in_place: self.in_place,
        }
    }
}

impl View for StructuralJob {
    type V = JobView;

    open spec fn view(&self) -> JobView {
        match *self {
            StructuralJob::AnalyzingSplit { source_column, separator } => JobView::AnalyzingSplit {
                source_column,
                separator: separator@,
            },
            StructuralJob::Changing { kind, destination, selected_columns, undo } => JobView::Changing {
                kind,
                destination,
                selected_columns: selected_columns@,
                undo: undo@,
            },
        }
    }
}

pub open spec fn job_view(job: Option<StructuralJob>) -> Option<JobView> {
    match job {
        Some(job) => Some(job@),
        None => None,
    }
}

impl View for StructuralState {
    type V = StructuralView;

    open spec fn view(&self) -> StructuralView {
        StructuralView {
            job: job_view(self.job),
            status: text_view(self.status),
            cancel_requested: self.cancel_requested,
        }
    }
}

impl View for EditState {
    type V = EditsView;

    open spec fn view(&self) -> EditsView {
        EditsView {
            renames: renames_of(self.header_renames@),
            header_edit: header_edit_view(self.header_edit),
            cells: edits_of(self.cell_edits@),
            cell_edit: cell_edit_view(self.cell_edit),
        }
    }
}

impl View for GridState {
    type V = GridView;

    open spec fn view(&self) -> GridView {
        GridView {
            total_columns: self.total_columns,
            order: self.columns.order@,
            hidden: self.columns.hidden@,
            headers: names_of(self.headers@),
            data_start: self.data_start,
            viewport_start: self.viewport_start,
            buffer_start: self.buffer_start,
            rows: rows_cells(self.rows@),
            visible_rows: self.visible_rows,
        }
    }
}

impl View for SelectionState {
    type V = SelectionView;

    open spec fn view(&self) -> SelectionView {
        SelectionView {
            selection: self.selection,
            rows: self.rows@,
            columns: self.columns@,
            anchor: self.anchor,
            reveal_cell: self.reveal_cell,
            cell_focus: self.cell_focus,
            column_focus: self.column_focus,
        }
    }
}

impl View for Document {
    type V = DocumentView;

    open spec fn view(&self) -> DocumentView {
        DocumentView {
            source: self.source@,
            has_original: self.has_original,
            working_copy: working_copy_view(self.working_copy),
            index: self.index,
            search: self.search@,
            filter: self.filter@,
            export: self.export@,
            save: self.save@,
            structural: self.structural@,
            source_changed: self.source_changed,
            edits: self.edits@,
            grid: self.grid@,
            selection: self.selection@,
            effects: self.effects@,
        }
    }
}

/// No row is selected.
pub open spec fn no_rows() -> RowSelectionView {
    RowSelectionView { rows: Set::empty(), anchor: None }
}

/// The cell of the header row in a column of the file.
pub open spec fn header_cell(source: SourceView, column: usize) -> Option<Seq<u8>> {
    if source.has_header && source.first_rows.len() > 0 && column < source.first_rows[0].len() {
        Some(source.first_rows[0][column as int])
    } else {
        None
    }
}

/// The name of a column in the header row of the file, where it is text.
pub open spec fn source_header(source: SourceView, column: usize) -> Option<Seq<char>> {
    match header_cell(source, column) {
        Some(cell) if valid_utf8(cell) => Some(decode_utf8(cell)),
        _ => None,
    }
}

/// A name as one line for the grid.
pub open spec fn line(name: Seq<char>) -> Seq<char> {
    shortened(escaped(name))
}

/// The title of a column that no edit touches.
pub open spec fn source_title(source: SourceView, column: usize) -> Seq<char> {
    match header_cell(source, column) {
        Some(cell) => line(lossy_text(cell)),
        None => "Column "@ + decimal((column + 1) as nat),
    }
}

/// The title of a column: the name that is being typed, else the new name, else that of the
/// file.
pub open spec fn title(document: DocumentView, column: usize) -> Seq<char> {
    if document.edits.header_edit is Some && document.edits.header_edit->0.column == column {
        line(document.edits.header_edit->0.draft)
    } else if document.edits.renames.dom().contains(column) {
        line(document.edits.renames[column])
    } else {
        source_title(document.source, column)
    }
}

/// The columns that the grid shows, in order.
pub open spec fn shown(document: DocumentView) -> Seq<usize> {
    crate::columns::shown_columns(document.grid.order, document.grid.hidden)
}

/// The document with the titles of its shown columns brought up to date.
pub open spec fn with_titles(document: DocumentView) -> DocumentView {
    DocumentView {
        grid: GridView {
            headers: shown(document).map_values(|column: usize| title(document, column)),
            ..document.grid
        },
        ..document
    }
}

/// The number of rows of the file that are known so far, its header included.
pub open spec fn known_rows(document: DocumentView) -> u64 {
    let counted = match document.index.indexed_rows {
        Some(rows) => rows,
        None => document.index.progress.rows_scanned,
    };
    if document.source.first_rows.len() > counted {
        document.source.first_rows.len() as u64
    } else {
        counted
    }
}

/// `known` without the rows before the data.
pub open spec fn data_rows(document: DocumentView) -> u64 {
    if known_rows(document) >= document.grid.data_start {
        (known_rows(document) - document.grid.data_start) as u64
    } else {
        0
    }
}

/// The number of matches of the filter that are known so far.
pub open spec fn known_matches(document: DocumentView) -> u64 {
    let counted = match document.filter.progress {
        Some(progress) => progress.matches_found,
        None => 0,
    };
    let indexed = match document.filter.indexed_matches {
        Some(matches) => matches,
        None => 0,
    };
    if indexed > counted {
        indexed
    } else {
        counted
    }
}

/// What every operation on a document keeps.
pub open spec fn sound(document: DocumentView) -> bool {
    &&& document.source.first_rows.len() <= u64::MAX
    &&& document.grid.hidden.len() == document.grid.total_columns
    &&& crate::columns::arranges(document.grid.order, document.grid.hidden.len())
    &&& document.grid.data_start == if document.source.has_header {
        1u64
    } else {
        0u64
    }
    &&& document.grid.viewport_start >= document.grid.data_start
    &&& document.grid.visible_rows >= 1
    &&& document.search.history_index matches Some(index) ==> index < document.search.history.len()
    &&& document.edits.header_edit matches Some(edit) ==> source_header(document.source, edit.column) is Some
    &&& document.edits.renames.dom().finite()
    &&& document.edits.cells.dom().finite()
}

impl Document {
    /// The document is sound, and what its parts are made of goes with what they stand for.
    pub open spec fn wf(self) -> bool {
        &&& sound(self@)
        &&& self.grid.columns.wf()
        &&& self.selection.rows.wf()
        &&& self.source.first_rows@.len() <= usize::MAX
    }
}

/// A document as it is right after its file was opened.
pub open spec fn opened(source: SourceView) -> DocumentView {
    let width = widest(source.first_rows);
    let data_start: u64 = if source.has_header { 1 } else { 0 };
    let data = source.first_rows.skip(if data_start <= source.first_rows.len() { data_start as int } else { 0 });
    let capacity = BOOTSTRAP_ROWS + 2 * OVERSCAN_ROWS;
    DocumentView {
        source,
        has_original: false,
        working_copy: None,
        index: IndexState {
            running: false,
            indexed_rows: None,
            progress: IndexProgress {
                bytes_scanned: 0,
                rows_scanned: 0,
                file_size: source.file_size,
                done: false,
                cancelled: false,
            },
        },
        search: SearchView {
            running: false,
            query: Seq::empty(),
            case_sensitivity: CaseSensitivity::Insensitive,
            last_match: None,
            history: Seq::empty(),
            history_index: None,
            status: None,
        },
        filter: FilterView {
            running: false,
            indexed_matches: None,
            query: None,
            progress: None,
            status: None,
            viewport_start: 0,
            buffer_start: 0,
            rows: Seq::empty(),
            read: None,
            pending: None,
        },
        export: ExportView { running: false, progress: None, status: None, cancel_requested: false },
        save: SaveView { running: false, status: None, cancel_requested: false, in_place: false },
        structural: StructuralView { job: None, status: None, cancel_requested: false },
        source_changed: false,
        edits: EditsView { renames: Map::empty(), header_edit: None, cells: Map::empty(), cell_edit: None },
        grid: GridView {
            total_columns: width as usize,
            order: file_order(width),
            hidden: Seq::new(width, |column: int| false),
            headers: file_order(width).map_values(|column: usize| source_title(source, column)),
            data_start,
            viewport_start: data_start,
            buffer_start: data_start,
            rows: if data.len() <= capacity { data } else { data.take(capacity) },
            visible_rows: BOOTSTRAP_ROWS,
        },
        selection: SelectionView {
            selection: None,
            rows: no_rows(),
            columns: Set::empty(),
            anchor: None,
            reveal_cell: None,
            cell_focus: None,
            column_focus: None,
        },
        effects: Seq::empty(),
    }
}

impl SourceInfo {
    /// The title of a column that no edit touches.
    pub fn column_name(&self, column: usize) -> (name: String)
        requires
            column < usize::MAX,
        ensures
            name@ == source_title(self@, column),
    {
        if self.has_header && self.first_rows.len() > 0 && column < self.first_rows[0].fields.len() {
            proof {
                assert(self@.first_rows[0] == model::cells_of(self.first_rows@[0].fields@));
                assert(self@.first_rows[0][column as int] == self.first_rows@[0].fields@[column as int]@);
            }
            clipboard::field_text(self.first_rows[0].fields[column].as_slice())
        } else {
            "Column ".to_owned().concat(text::count(column + 1).as_str())
        }
    }

    /// The titles of columns that no edit touches.
    pub fn headers_for(&self, columns: &Vec<usize>) -> (names: Vec<String>)
        requires
            forall|i: int| 0 <= i < columns@.len() ==> #[trigger] columns@[i] < usize::MAX,
        ensures
            names_of(names@) == columns@.map_values(|column: usize| source_title(self@, column)),
    {
        let mut names: Vec<String> = Vec::new();
        for i in 0..columns.len()
            invariant
                forall|i: int| 0 <= i < columns@.len() ==> #[trigger] columns@[i] < usize::MAX,
                names@.len() == i,
                forall|j: int| 0 <= j < i ==> (#[trigger] names@[j])@ == source_title(self@, columns@[j]),
        {
            assert(columns@[i as int] < usize::MAX);
            names.push(self.column_name(columns[i]));
        }
        proof {
            assert(names_of(names@) =~= columns@.map_values(|column: usize| source_title(self@, column)));
        }
        names
    }

    /// The name of a column in the header row of the file, where it is text.
    pub fn header_name(&self, column: usize) -> (name: Option<String>)
        ensures
            text_view(name) == source_header(self@, column),
    {
        if self.has_header && self.first_rows.len() > 0 && column < self.first_rows[0].fields.len() {
            proof {
                assert(self@.first_rows[0] == model::cells_of(self.first_rows@[0].fields@));
                assert(self@.first_rows[0][column as int] == self.first_rows@[0].fields@[column as int]@);
            }
            text::decode_strict(self.first_rows[0].fields[column].as_slice())
        } else {
            None
        }
    }
}

impl Document {
    /// A document for a file of which `source` is known.
    pub fn prepare(source: SourceInfo) -> (document: Self)
        requires
            widest(source@.first_rows) < usize::MAX,
        ensures
            document.wf(),
            document@ == opened(source@),
    {
        let data_start: u64 = if source.has_header { 1 } else { 0 };
        let total_columns: usize = model::widest_row(&source.first_rows);
        let columns = ColumnView::new(total_columns);
        let headers = source.headers_for(&columns.visible);
        let capacity: usize = BOOTSTRAP_ROWS + 2 * OVERSCAN_ROWS;
        let length: usize = source.first_rows.len();
        let start: usize = if data_start as usize <= length { data_start as usize } else { 0 };
        let end: usize = if length - start <= capacity { length } else { start + capacity };
        let rows = model::copy_rows(&source.first_rows, start, end);
        let file_size: u64 = source.file_size;
        let document = Document {
            source,
            has_original: false,
            working_copy: None,
            index: IndexState {
                running: false,
                indexed_rows: None,
                progress: IndexProgress { bytes_scanned: 0, rows_scanned: 0, file_size, done: false, cancelled: false },
            },
            search: SearchState {
                running: false,
                query: Vec::new(),
                case_sensitivity: CaseSensitivity::Insensitive,
                last_match: None,
                history: Vec::new(),
                history_index: None,
                status: None,
            },
            filter: FilterState {
                running: false,
                indexed_matches: None,
                query: None,
                progress: None,
                status: None,
                viewport_start: 0,
                buffer_start: 0,
                rows: Vec::new(),
                read: None,
                pending: None,
            },
            export: ExportState { running: false, progress: None, status: None, cancel_requested: false },
            save: SaveState { running: false, status: None, cancel_requested: false, in_place: false },
            structural: StructuralState { job: None, status: None, cancel_requested: false },
            source_changed: false,
            edits: EditState {
                header_renames: BTreeMap::new(),
                header_edit: None,
                cell_edits: BTreeMap::new(),
                cell_edit: None,
            },
            grid: GridState {
                total_columns,
                columns,
                headers,
                data_start,
                viewport_start: data_start,
                buffer_start: data_start,
                rows,
                visible_rows: BOOTSTRAP_ROWS,
            },
            selection: SelectionState {
                selection: None,
                rows: RowSelection::new(),
                columns: BTreeSet::new(),
                anchor: None,
                reveal_cell: None,
                cell_focus: None,
                column_focus: None,
            },
            effects: Vec::new(),
        };
        proof {
            assert(document@.edits.renames =~= Map::empty());
            assert(document@.edits.cells =~= Map::empty());
            assert(document@.filter.rows =~= Seq::empty());
            let cells = document@.source.first_rows;
            let data = cells.skip(start as int);
            assert(cells.subrange(start as int, end as int) =~= if data.len() <= capacity {
                data
            } else {
                data.take(capacity as int)
            });
            assert(document@.grid =~= opened(document@.source).grid);
            assert(document@ =~= opened(document@.source));
        }
        document
    }

    /// The options under which the file is read as it is now.
    pub fn current_open_options(&self) -> (options: OpenOptions)
        ensures
            options == (OpenOptions {
                delimiter: Some(self@.source.delimiter),
                header_mode: if self@.source.has_header {
                    HeaderMode::FirstRow
                } else {
                    HeaderMode::NoHeader
                },
            }),
    {
        OpenOptions {
            delimiter: Some(self.source.delimiter),
            header_mode: if self.source.has_header {
                HeaderMode::FirstRow
            } else {
                HeaderMode::NoHeader
            },
        }
    }

    /// The title of a column.
    pub fn column_name(&self, column: usize) -> (name: String)
        requires
            column < usize::MAX,
        ensures
            name@ == title(self@, column),
    {
        broadcast use crate::sets::group_ordered_keys;

        proof {
            assert(self@.edits.renames.dom() =~= self.edits.header_renames@.dom());
        }
        match &self.edits.header_edit {
            Some(edit) if edit.column == column => {
                return clipboard::rendered_text(edit.draft.as_str());
            },
            _ => {},
        }
        match self.edits.header_renames.get(&column) {
            Some(name) => clipboard::rendered_text(name.as_str()),
            None => self.source.column_name(column),
        }
    }

    /// Brings the titles of the shown columns up to date.
    pub fn refresh_column_headers(&mut self)
        requires
            old(self).wf(),
        ensures
            final(self).wf(),
            final(self)@ == with_titles(old(self)@),
    {
        let mut headers: Vec<String> = Vec::new();
        let ghost visible = self.grid.columns.visible@;
        proof {
            crate::columns::lemma_shown_columns(self@.grid.order, self@.grid.hidden);
        }
        for i in 0..self.grid.columns.visible.len()
            invariant
                *self == *old(self),
                self.wf(),
                visible == self.grid.columns.visible@,
                headers@.len() == i,
                forall|column: usize| #[trigger] visible.contains(column) ==> self@.grid.order.contains(column),
                forall|j: int| 0 <= j < i ==> (#[trigger] headers@[j])@ == title(self@, visible[j]),
        {
            let column: usize = self.grid.columns.visible[i];
            proof {
                assert(visible.contains(visible[i as int]));
                assert(self@.grid.order.contains(column));
            }
            headers.push(self.column_name(column));
        }
        self.grid.headers = headers;
        proof {
            assert(self@.grid.headers =~= with_titles(old(self)@).grid.headers);
            assert(self@ =~= with_titles(old(self)@));
        }
    }
}

} // verus!
