//! Whole sessions: the editor with tables in memory in place of files.

use quarry::actions::Request;
use quarry::columns::{select_column, selected_split_column, ColumnView};
use quarry::dialogs::{filter_button_label, FilterRuleDraft, StructuralDialog, StructuralDialogAction};
use quarry::document::{Document, SourceInfo, StructuralJob, BOOTSTRAP_ROWS, OVERSCAN_ROWS};
use quarry::filter::FilterReadOutcome;
use quarry::format::{DelimiterMode, HeaderMode};
use quarry::grid::{max_viewport_start, GridStep};
use quarry::jobs::Action;
use quarry::literal::{literal_contains, literal_equals, replace_literal_all_with_case, CaseSensitivity};
use quarry::message::{AppMessage, MessageSeverity};
use quarry::model::{
    Effect, Failure, FileId, FilterMatch, FilterOperator, FilterPredicate, FilterProgress, FilterQuery,
    IndexProgress, JobProgress, Row, SearchMatch, SearchPosition, SOURCE_CHANGED_NOTICE,
};
use quarry::names::{filtered_export_file_name, save_as_file_name};
use quarry::parse::parse_move_position;
use quarry::rows::{GridSelection, Modifiers};
use quarry::saving::{ExportOutcome, SaveOutcome, SaveTarget};
use quarry::search::{SearchOutcome, SearchStep};
use quarry::structural::{Change, ChangePlan, Preparation, StructuralOutcome, StructuralStep};
use quarry::workspace::Workspace;
use std::collections::{BTreeMap, BTreeSet};

type Table = Vec<Vec<Vec<u8>>>;
type Renames = BTreeMap<usize, Vec<u8>>;
type Cells = BTreeMap<(u64, usize), Vec<u8>>;

const FOLDED: CaseSensitivity = CaseSensitivity::Insensitive;

/// A table from lines whose cells are separated by commas.
fn table(text: &str) -> Table {
    text.lines().map(|line| line.split(',').map(|cell| cell.as_bytes().to_vec()).collect()).collect()
}

fn fields(cells: &[&str]) -> Vec<Vec<u8>> {
    cells.iter().map(|cell| cell.as_bytes().to_vec()).collect()
}

fn prepared(file: FileId, table: &Table, has_header: bool) -> Document {
    Document::prepare(SourceInfo {
        file,
        file_size: 1_000,
        has_header,
        delimiter: b',',
        first_rows: table
            .iter()
            .take(BOOTSTRAP_ROWS + 2 * OVERSCAN_ROWS + 1)
            .map(|cells| Row { fields: cells.clone() })
            .collect(),
    })
}

fn single(column: usize, operator: FilterOperator, value: &str) -> FilterQuery {
    FilterQuery {
        predicates: vec![FilterPredicate { column, operator, value: value.as_bytes().to_vec() }],
        case_sensitivity: FOLDED,
    }
}

fn scanned(matches_found: u64, done: bool) -> FilterProgress {
    FilterProgress { bytes_scanned: 1_000, file_size: 1_000, matches_found, done, cancelled: false }
}

fn exported(done: bool) -> JobProgress {
    JobProgress { bytes_scanned: 0, total_bytes: 1_000, done, cancelled: false }
}

/// The file of the document and its working copies, and the work that runs on them.
struct Desk {
    workspace: Workspace,
    original: Table,
    copies: BTreeMap<u64, Table>,
    has_header: bool,
    matches: Vec<u64>,
    position: Option<SearchPosition>,
    replacements: u64,
}

impl Desk {
    fn new(original: Table, has_header: bool) -> Self {
        let mut desk = Self {
            workspace: Workspace::new(),
            original,
            copies: BTreeMap::new(),
            has_header,
            matches: Vec::new(),
            position: None,
            replacements: 0,
        };
        desk.open();
        desk
    }

    /// A file with a header row, indexed.
    fn indexed(text: &str) -> Self {
        let mut desk = Self::new(table(text), true);
        desk.finish_index();
        desk
    }

    fn open(&mut self) {
        let document = prepared(FileId::Original, &self.original, self.has_header);
        self.workspace.file_opened(Ok(document), None);
        assert!(self.workspace.notice.is_none());
    }

    fn document(&mut self) -> &mut Document {
        self.workspace.document.as_mut().unwrap()
    }

    fn seen(&self) -> &Document {
        self.workspace.document.as_ref().unwrap()
    }

    fn stored(&self, file: FileId) -> &Table {
        match file {
            FileId::Original => &self.original,
            FileId::Generation(number) => &self.copies[&number],
        }
    }

    fn shown_table(&self) -> &Table {
        self.stored(self.seen().source.file)
    }

    fn finish_index(&mut self) {
        let rows = self.shown_table().len() as u64;
        let progress = IndexProgress {
            bytes_scanned: 1_000,
            rows_scanned: rows,
            file_size: 1_000,
            done: true,
            cancelled: false,
        };
        self.document().index_started(progress);
        self.document().index_progressed(progress);
        let step = self.document().index_finished(Ok(rows));
        self.go(step).unwrap();
    }

    /// Does what the document has asked for.
    fn settle(&mut self) -> Vec<Effect> {
        let effects = std::mem::take(&mut self.document().effects);
        if effects.contains(&Effect::SnapshotFilter) {
            let found = self.matches.len() as u64;
            self.document().filter_snapshot_taken(found);
        }
        effects
    }

    /// Reads what a move asks for. Matches are read later.
    fn go(&mut self, step: Result<GridStep, String>) -> Result<(), String> {
        self.settle();
        match step? {
            GridStep::Covered | GridStep::Filled => {}
            GridStep::Read(read) => {
                let start = read.start as usize;
                let rows = self.shown_table()[start..start + read.count]
                    .iter()
                    .map(|cells| Row { fields: cells.clone() })
                    .collect();
                self.document().finish_row_read(read, rows);
            }
            GridStep::ReadMatches(read) => self.document().filter_read_started(read),
        }
        Ok(())
    }

    fn navigate(&mut self, row: u64) {
        let step = self.document().navigate(row);
        self.go(step).unwrap();
    }

    fn navigate_filter(&mut self, place: u64) {
        let step = self.document().navigate_filter(place);
        self.go(step).unwrap();
    }

    fn page(&mut self, direction: i64) {
        let step = self.document().page(direction);
        self.go(step).unwrap();
    }

    fn scroll(&mut self, rows: i64) {
        let step = self.document().scroll_rows(rows);
        self.go(step).unwrap();
    }

    fn set_visible_rows(&mut self, rows: usize) {
        let step = self.document().set_visible_rows(rows);
        self.go(step).unwrap();
    }

    fn visible(&self) -> Vec<(u64, Vec<Vec<u8>>)> {
        (0..self.seen().visible_row_count())
            .map(|index| {
                let (row, cells) = self.seen().visible_row(index).unwrap();
                (row, cells.clone())
            })
            .collect()
    }

    /// What a cell holds, edits included.
    fn cell(&self, row: usize, column: usize) -> Option<Vec<u8>> {
        let source = self.shown_table()[row].get(column)?;
        Some(self.seen().cell_value(row as u64, column, source))
    }

    fn start_find_next(&mut self, query: &str) {
        self.start_find_next_with_case(query, FOLDED);
    }

    fn start_find_next_with_case(&mut self, query: &str, case: CaseSensitivity) {
        let step = self.document().start_find_next_with_case(query.as_bytes(), case);
        self.begin_search(step.unwrap());
    }

    fn begin_search(&mut self, step: SearchStep) {
        match step {
            SearchStep::Move(step) => self.go(Ok(step)).unwrap(),
            SearchStep::Start(position) => {
                self.position = Some(position);
                self.document().search_started();
            }
        }
    }

    fn finish_search(&mut self) {
        let position = self.position.take().expect("a search should be active");
        let query = self.seen().search.query.clone();
        let case = self.seen().search.case_sensitivity;
        let first = usize::from(self.has_header);
        let mut outcome = SearchOutcome::NotFound;
        'rows: for row in first.max(position.row as usize)..self.shown_table().len() {
            let start = if row as u64 == position.row { position.column } else { 0 };
            for column in start..self.shown_table()[row].len() {
                if literal_contains(&self.cell(row, column).unwrap(), &query, case) {
                    outcome = SearchOutcome::Match(SearchMatch { row: row as u64, column });
                    break 'rows;
                }
            }
        }
        let step = self.document().search_finished(outcome);
        self.go(step).unwrap();
    }

    /// Whether a row passes a filter: rules on one column are alternatives unless they exclude.
    fn passes(&self, row: usize, query: &FilterQuery) -> bool {
        let holds = |predicate: &FilterPredicate| {
            let empty = Vec::new();
            let cell = self.shown_table()[row].get(predicate.column).unwrap_or(&empty);
            match predicate.operator {
                FilterOperator::Contains => literal_contains(cell, &predicate.value, query.case_sensitivity),
                FilterOperator::Equals => literal_equals(cell, &predicate.value, query.case_sensitivity),
                FilterOperator::NotEquals => !literal_equals(cell, &predicate.value, query.case_sensitivity),
            }
        };
        let mut wanted: BTreeMap<usize, bool> = BTreeMap::new();
        for predicate in &query.predicates {
            if predicate.operator == FilterOperator::NotEquals {
                if !holds(predicate) {
                    return false;
                }
            } else {
                *wanted.entry(predicate.column).or_insert(false) |= holds(predicate);
            }
        }
        wanted.values().all(|held| *held)
    }

    fn start_filter(&mut self, query: FilterQuery) -> Result<(), String> {
        self.document().start_filter(&query)?;
        self.begin_filter(query);
        Ok(())
    }

    fn begin_filter(&mut self, query: FilterQuery) {
        self.matches = (usize::from(self.has_header)..self.shown_table().len())
            .filter(|row| self.passes(*row, &query))
            .map(|row| row as u64)
            .collect();
        self.document().filter_started(query, scanned(0, false), 0);
        self.settle();
    }

    fn finish_filter(&mut self) {
        let found = self.matches.len() as u64;
        let progress = scanned(found, true);
        let wanted = self.document().filter_snapshot_wanted(progress);
        let step = self.document().filter_scanned(progress, if wanted { Some(found) } else { None });
        self.go(step).unwrap();
        let step = self.document().filter_finished(Ok(found));
        self.go(step).unwrap();
        self.finish_filter_read();
    }

    fn finish_filter_read(&mut self) {
        while let Some(read) = self.seen().filter.read {
            let outcome = if read.cancel_requested {
                FilterReadOutcome::Cancelled
            } else {
                let start = read.window.start_match as usize;
                FilterReadOutcome::Complete(
                    self.matches[start..start + read.window.count]
                        .iter()
                        .map(|row| FilterMatch { row: *row, fields: self.shown_table()[*row as usize].clone() })
                        .collect(),
                )
            };
            let step = self.document().filter_read_finished(outcome);
            self.go(step).unwrap();
        }
        assert!(!self.seen().filter_rows_loading());
    }

    /// The place of the first match of the page among all matches.
    fn first_match(&self) -> usize {
        let row = self.visible()[0].0;
        self.matches.iter().position(|found| *found == row).unwrap()
    }

    fn start_filtered_export(&mut self) -> Result<(), AppMessage> {
        self.document().start_filtered_export()?;
        self.document().export_started(exported(false));
        Ok(())
    }

    fn start_split(&mut self, column: usize, separator: &str) -> Result<(), AppMessage> {
        let analysis = self.document().start_split(column, separator.as_bytes().to_vec(), 1 << 20)?;
        self.document().split_analysis_started(analysis.source_column, analysis.separator, Ok(()))
    }

    fn start_combine(&mut self, columns: Vec<usize>, separator: &str) -> Result<(), AppMessage> {
        let plan = self.document().start_combine(columns, separator.as_bytes().to_vec())?;
        self.start_change(plan)
    }

    /// Starts a change, and writes its file.
    fn start_change(&mut self, plan: ChangePlan) -> Result<(), AppMessage> {
        loop {
            match self.document().next_preparation() {
                Preparation::GuardOriginal => self.document().original_guarded(Ok(()))?,
                Preparation::CreateDirectory => self.document().directory_created(Ok(()))?,
                Preparation::Ready => break,
            }
        }
        let prepared = self.document().prepare_materialization();
        let number = match prepared.destination {
            FileId::Generation(number) => number,
            FileId::Original => panic!("a change never writes the file that was opened"),
        };
        let changed = self.changed(&plan.change, &prepared.renames, &prepared.cell_edits);
        self.copies.insert(number, changed);
        self.document().change_started(
            plan.kind,
            plan.selected_columns,
            prepared.undo,
            prepared.destination,
            Ok(()),
        )
    }

    /// The table of the document with its edits.
    fn edited(&self, renames: &Renames, cells: &Cells) -> Table {
        let mut table = self.shown_table().clone();
        for (column, name) in renames {
            table[0][*column] = name.clone();
        }
        for ((row, column), value) in cells {
            table[*row as usize][*column] = value.clone();
        }
        table
    }

    fn changed(&mut self, change: &Change, renames: &Renames, cells: &Cells) -> Table {
        let mut table = self.edited(renames, cells);
        let header = usize::from(self.has_header);
        match change {
            Change::Split { source_column, separator, pieces, source_header } => {
                for (row, cells) in table.iter_mut().enumerate() {
                    cells.resize(cells.len().max(source_column + 1), Vec::new());
                    let cell = cells.remove(*source_column);
                    let mut parts = if row < header {
                        vec![source_header.clone().unwrap_or_default()]
                    } else {
                        split_bytes(&cell, separator, *pieces)
                    };
                    parts.resize(*pieces, Vec::new());
                    for (offset, part) in parts.into_iter().enumerate() {
                        cells.insert(source_column + offset, part);
                    }
                }
            }
            Change::Join { source_columns, separator, output_header } => {
                for (row, cells) in table.iter_mut().enumerate() {
                    let joined = if row < header {
                        output_header.clone().unwrap_or_default()
                    } else {
                        source_columns.iter().map(|column| cells[*column].clone()).collect::<Vec<_>>().join(&separator[..])
                    };
                    cells[source_columns[0]] = joined;
                    let mut others = source_columns[1..].to_vec();
                    others.sort();
                    for column in others.into_iter().rev() {
                        cells.remove(column);
                    }
                }
            }
            Change::Arrange { output_columns, .. } => {
                for cells in table.iter_mut() {
                    *cells = output_columns.iter().map(|column| cells[*column].clone()).collect();
                }
            }
            Change::DeleteRows { rows } => {
                let mut row: u64 = 0;
                table.retain(|_| {
                    row += 1;
                    !rows.iter().any(|range| range.contains(&(row - 1)))
                });
            }
            Change::Sort { column, .. } => {
                table[header..].sort_by_key(|cells| cells[*column].to_ascii_lowercase());
            }
            Change::Replace { query, replacement, case_sensitivity } => {
                self.replacements = 0;
                for cells in table[header..].iter_mut() {
                    for cell in cells.iter_mut() {
                        self.replacements += split_bytes(&cell.to_ascii_lowercase(), query, usize::MAX).len() as u64 - 1;
                        if let Some(changed) =
                            replace_literal_all_with_case(cell, query, replacement, *case_sensitivity)
                        {
                            *cell = changed;
                        }
                    }
                }
            }
        }
        table
    }

    /// Ends the structural work, and shows the file that it made.
    fn finish_structural_edit(&mut self) {
        if self.measures() {
            let plan = match self.measured() {
                Ok(StructuralStep::Plan(plan)) => plan,
                other => panic!("{other:?}"),
            };
            self.start_change(plan).unwrap();
        }
        let replacements = self.replacements;
        match self.document().structural_finished(StructuralOutcome::Complete { replacements }) {
            Ok(StructuralStep::Install(ready)) => {
                let next = prepared(ready.file, self.stored(ready.file), self.has_header);
                assert!(self.workspace.install_materialized_working_copy(ready, Ok(next)).is_some());
            }
            other => panic!("{other:?}"),
        }
        self.finish_index();
    }

    fn measures(&self) -> bool {
        matches!(self.seen().structural.job, Some(StructuralJob::AnalyzingSplit { .. }))
    }

    fn measured(&mut self) -> Result<StructuralStep, AppMessage> {
        let (column, separator) = match &self.seen().structural.job {
            Some(StructuralJob::AnalyzingSplit { source_column, separator }) => {
                (*source_column, separator.clone())
            }
            other => panic!("{other:?}"),
        };
        let max_pieces = (usize::from(self.has_header)..self.shown_table().len())
            .filter_map(|row| self.cell(row, column))
            .map(|cell| split_bytes(&cell, &separator, usize::MAX).len())
            .max()
            .unwrap_or(0);
        self.document().structural_finished(StructuralOutcome::Measured { max_pieces })
    }

    /// Undoes or restores a change. The file that was opened is there, or why it is not.
    fn history(&mut self, redo: bool, guarded: Result<(), Failure>) {
        let action = if redo { Action::RedoStructuralEdit } else { Action::UndoStructuralEdit };
        let mut request = self.workspace.apply(action);
        if request == Request::CheckOriginal {
            request = self.workspace.original_checked(guarded);
        }
        if let Request::OpenState { redo, file, .. } = request {
            let next = prepared(file, self.stored(file), self.has_header);
            assert!(self.workspace.history_opened(redo, Ok(next)).is_some());
            self.finish_index();
        }
    }

    fn undo(&mut self) {
        self.history(false, Ok(()));
    }

    fn redo(&mut self) {
        self.history(true, Ok(()));
    }

    fn edit(&mut self, row: u64, column: usize, source: &str, value: &str) {
        self.document().begin_cell_edit(row, column, source.as_bytes().to_vec()).unwrap();
        self.document().edits.cell_edit.as_mut().unwrap().draft = value.to_owned();
        self.document().commit_cell_edit();
    }

    fn copied(&self) -> String {
        self.seen().copy_selection_text().unwrap()
    }

    fn notice(&self) -> &str {
        &self.workspace.notice.as_ref().unwrap().text
    }
}

fn split_bytes(cell: &[u8], separator: &[u8], pieces: usize) -> Vec<Vec<u8>> {
    let mut parts = Vec::new();
    let mut start = 0;
    let mut at = 0;
    while parts.len() + 1 < pieces && at + separator.len() <= cell.len() {
        if &cell[at..at + separator.len()] == separator {
            parts.push(cell[start..at].to_vec());
            at += separator.len();
            start = at;
        } else {
            at += 1;
        }
    }
    parts.push(cell[start..].to_vec());
    parts
}

/// A header row, and numbered rows.
fn numbered(rows: usize) -> Table {
    let mut table = table("name,value\n");
    for row in 1..=rows {
        table.push(fields(&[&format!("row{row}"), &row.to_string()]));
    }
    table
}

#[test]
fn notice_sources_use_explicit_severity() {
    let mut workspace = Workspace::new();
    workspace.file_opened(Err("No such file or directory".into()), None);
    assert_eq!(workspace.notice.as_ref().unwrap().severity, MessageSeverity::Error);
    assert_eq!(workspace.apply(Action::Save), Request::Nothing);
    assert_eq!(workspace.notice.as_ref().unwrap().severity, MessageSeverity::Warning);
    assert!(workspace.copy_selection().is_none());
    assert_eq!(workspace.notice.as_ref().unwrap().severity, MessageSeverity::Warning);
    workspace.nothing_dropped(1);
    assert_eq!(workspace.notice.as_ref().unwrap().severity, MessageSeverity::Warning);
}

#[test]
fn page_keys_move_one_viewport_page() {
    let mut desk = Desk::new(numbered(250), true);
    desk.finish_index();
    desk.set_visible_rows(25);
    let first = desk.seen().grid.viewport_start;
    let page = desk.seen().grid.visible_rows as u64;
    for (action, expected) in [(Action::PageDown, first + page), (Action::PageUp, first)] {
        if let Request::Move(step) = desk.workspace.apply(action) {
            desk.go(Ok(step)).unwrap();
        }
        assert_eq!(desk.seen().grid.viewport_start, expected);
    }
}

#[test]
fn zero_match_filter_footer_omits_an_invalid_range() {
    let mut desk = Desk::indexed("name,status\nfirst,keep\n");
    desk.start_filter(single(1, FilterOperator::Equals, "missing")).unwrap();
    desk.finish_filter();
    assert_eq!(desk.seen().footer_range_text(), "No matching rows");
}

#[test]
fn applying_same_column_values_keeps_alternatives_and_narrows_other_columns() {
    let mut desk = Desk::new(
        table("id,state,status\n1,TX,active\n2,FL,active\n3,CA,active\n4,TX,inactive\n"),
        true,
    );
    let rule = |column: &str, operator: FilterOperator, value: &str| FilterRuleDraft {
        column_input: column.into(),
        operator,
        value_input: value.into(),
    };
    desk.workspace.filter_rules = vec![
        rule("2", FilterOperator::Equals, "tx"),
        rule("2", FilterOperator::Equals, "fL"),
        rule("3", FilterOperator::NotEquals, "INACTIVE"),
    ];
    assert_eq!(filter_button_label(desk.seen().filter.query.as_ref()), "Filters…");
    match desk.workspace.apply(Action::ApplyFilter) {
        Request::Filter(query) => desk.begin_filter(query),
        other => panic!("{other:?}"),
    }
    assert!(desk.workspace.notice.is_none());
    desk.finish_filter();
    assert_eq!(desk.seen().filter.query.as_ref().unwrap().predicates.len(), 3);
    assert_eq!(filter_button_label(desk.seen().filter.query.as_ref()), "Filters (3)…");
    assert_eq!(desk.seen().filter.query.as_ref().unwrap().case_sensitivity, FOLDED);
    assert_eq!(desk.seen().available_filter_rows(), 2);
    let names: Vec<Vec<u8>> = desk.visible().into_iter().map(|(_, cells)| cells[0].clone()).collect();
    assert_eq!(names, [b"1", b"2"]);
}

#[test]
fn header_renames_keep_lossless_source_identity_and_clear_when_restored() {
    let long_header = "x".repeat(140);
    let original_header = "\u{feff}line\nname";
    let rows = vec![fields(&[original_header, "", &long_header]), fields(&["first", "second", "third"])];
    let mut document = prepared(FileId::Original, &rows, true);

    assert_eq!(document.source.header_name(0).as_deref(), Some(original_header));
    assert_eq!(document.source.header_name(1).as_deref(), Some(""));
    assert_eq!(document.source.header_name(2).as_deref(), Some(long_header.as_str()));
    assert!(document.column_name(2).ends_with("..."));

    document.begin_header_edit(0);
    assert_eq!(document.edits.header_edit.as_ref().unwrap().draft, original_header);
    document.edits.header_edit.as_mut().unwrap().draft = "renamed".into();
    document.move_column(0, 2).unwrap();
    assert!(document.is_dirty());
    assert_eq!(document.column_name(0), "renamed");

    document.set_column_shown(0, false).unwrap();
    document.set_column_shown(0, true).unwrap();
    assert_eq!(document.column_name(0), "renamed");
    assert_eq!(document.edits.header_renames.get(&0).map(String::as_str), Some("renamed"));

    document.rename_header(0, original_header.into()).unwrap();
    assert!(!document.is_dirty());
    document.rename_header(1, "Column 2".into()).unwrap();
    assert!(document.is_dirty());
    document.rename_header(1, String::new()).unwrap();
    assert!(!document.is_dirty());

    let mut no_header = prepared(FileId::Original, &rows, false);
    assert!(!no_header.header_is_editable(0));
    no_header.begin_header_edit(0);
    assert!(no_header.edits.header_edit.is_none());
    assert_eq!(
        no_header.rename_header(0, "renamed".into()).unwrap_err(),
        "Only columns in the source header row can be renamed."
    );
}

#[test]
fn headerless_cell_edits_stay_headerless_after_save_and_save_as() {
    let mut desk = Desk::new(table("first,1\nsecond,2\n"), false);
    desk.workspace.header_mode = HeaderMode::NoHeader;
    desk.finish_index();
    let source_cell = desk.visible()[0].1[0].clone();
    assert_eq!(source_cell, b"first");
    desk.document().begin_cell_edit(0, 0, source_cell).unwrap();
    assert_eq!(desk.seen().edits.cell_edit.as_ref().unwrap().draft, "first");
    desk.document().edits.cell_edit.as_mut().unwrap().draft = "saved".into();

    let request = desk.workspace.begin_save(false).unwrap();
    assert_eq!(request.target, SaveTarget::InPlace);
    assert!(request.renames.is_empty());
    let written = desk.edited(&request.renames, &request.cell_edits);
    assert!(desk.workspace.save_begun(true, Ok(())));
    assert_eq!(desk.document().save_finished(SaveOutcome::Complete).unwrap(), Some(true));
    let options = desk.seen().current_open_options();
    assert_eq!(options.header_mode, HeaderMode::NoHeader);
    assert_eq!(options.delimiter, Some(b','));
    let (close, _) = desk.workspace.saved(Ok(prepared(FileId::Original, &written, false)), true, "people.csv");
    assert!(!close);
    assert!(desk.workspace.notice.is_none());
    assert_eq!(desk.workspace.footer_status.as_ref().unwrap().severity, MessageSeverity::Status);
    assert!(!desk.seen().source.has_header);
    assert_eq!(desk.seen().grid.data_start, 0);
    assert!(!desk.seen().is_dirty());
    assert_eq!(desk.workspace.delimiter_mode, DelimiterMode::Auto);
    assert_eq!(desk.workspace.header_mode, HeaderMode::NoHeader);
    assert_eq!(written, table("saved,1\nsecond,2\n"));

    desk.original = written;
    desk.finish_index();
    desk.document().begin_cell_edit(1, 1, b"2".to_vec()).unwrap();
    desk.document().edits.cell_edit.as_mut().unwrap().draft = "saved as".into();
    let request = desk.workspace.begin_save(true).unwrap();
    assert_eq!(request.target, SaveTarget::Copy);
    let copied = desk.edited(&request.renames, &request.cell_edits);
    assert!(desk.workspace.save_begun(false, Ok(())));
    assert_eq!(desk.document().save_finished(SaveOutcome::Complete).unwrap(), Some(false));
    assert_eq!(desk.seen().current_open_options().header_mode, HeaderMode::NoHeader);
    desk.workspace.saved(Ok(prepared(FileId::Original, &copied, false)), false, "copy.csv");
    assert!(!desk.seen().source.has_header);
    assert_eq!(desk.seen().grid.data_start, 0);
    assert!(!desk.seen().is_dirty());
    assert_eq!(desk.workspace.delimiter_mode, DelimiterMode::Auto);
    assert_eq!(desk.workspace.header_mode, HeaderMode::NoHeader);
    assert_eq!(desk.original, table("saved,1\nsecond,2\n"));
    assert_eq!(copied, table("saved,1\nsecond,saved as\n"));
}

#[test]
fn fewer_matches_bring_the_page_back_to_the_last_full_one() {
    let mut rows = table("name,status\n");
    rows.extend((0..200).map(|row| fields(&[&format!("row{row}"), "keep"])));
    let mut desk = Desk::new(rows, true);
    desk.document().grid.visible_rows = 5;
    desk.start_filter(single(1, FilterOperator::Equals, "keep")).unwrap();
    desk.finish_filter();
    desk.navigate_filter(150);
    desk.finish_filter_read();
    assert_eq!(desk.seen().filter.viewport_start, 150);

    desk.matches.truncate(20);
    desk.document().filter_snapshot_taken(20);
    let step = desk.document().filter_scanned(scanned(20, true), None);
    match &step {
        Ok(GridStep::ReadMatches(read)) => assert_eq!(read.viewport_start, Some(15)),
        other => panic!("{other:?}"),
    }
    desk.go(step).unwrap();
    assert_eq!(desk.seen().filter.viewport_start, 15);
    desk.finish_filter_read();
    assert_eq!(desk.first_match(), 15);

    desk.matches.truncate(4);
    let step = desk.document().filter_scanned(scanned(4, true), None);
    desk.go(step).unwrap();
    let step = desk.document().filter_finished(Ok(4));
    desk.go(step).unwrap();
    desk.finish_filter_read();
    assert_eq!(desk.seen().filter.viewport_start, 0);
    assert_eq!(desk.visible().len(), 4);
}

#[test]
fn rows_shown_by_a_filter_meet_one_alternative_in_each_column() {
    let mut rows = table("id,state,status\n");
    for row in 0..300 {
        let state = ["TX", "FL", "CA"][row % 3];
        let status = if row % 2 == 0 { "active" } else { "inactive" };
        rows.push(fields(&[&row.to_string(), state, status]));
    }
    let mut desk = Desk::new(rows, true);
    desk.document().grid.visible_rows = 10;
    let rule = |column: usize, value: &str| FilterPredicate {
        column,
        operator: FilterOperator::Equals,
        value: value.as_bytes().to_vec(),
    };
    let predicates = vec![rule(1, "tx"), rule(1, "fl"), rule(2, "active")];
    desk.start_filter(FilterQuery { predicates, case_sensitivity: FOLDED }).unwrap();
    desk.finish_filter();
    for place in [0, 40, 90] {
        desk.navigate_filter(place);
        desk.finish_filter_read();
        assert_eq!(desk.visible().len(), 10);
        assert!(desk
            .visible()
            .iter()
            .all(|(_, cells)| matches!(cells[1].as_slice(), b"TX" | b"FL") && cells[2] == b"active"));
    }
}

#[test]
fn successful_save_with_failed_reload_drops_the_stale_document() {
    let mut desk = Desk::new(table("name,value\nfirst,1\n"), true);
    desk.workspace.find_bar_open = true;
    desk.workspace.replace_expanded = true;
    desk.document().rename_header(0, "renamed".into()).unwrap();
    desk.document().start_save().unwrap();
    desk.document().save_started(true, Ok(())).unwrap();
    assert_eq!(desk.document().save_finished(SaveOutcome::Complete).unwrap(), Some(true));
    let (close, retired) = desk.workspace.saved(Err(AppMessage::error("No such file".into())), true, "people.csv");
    assert!(!close && retired.is_some());
    assert!(desk.workspace.document.is_none());
    assert!(!desk.workspace.find_bar_open);
    assert!(!desk.workspace.replace_expanded);
    assert!(desk.notice().contains("could not reload it"));
}

#[test]
fn source_change_conflict_freezes_stale_navigation_until_reopen() {
    let mut desk = Desk::new(table("name,value\nfirst,1\n"), true);
    desk.document().rename_header(0, "renamed".into()).unwrap();
    assert!(desk.workspace.begin_save(false).is_some());
    assert!(!desk.workspace.save_begun(true, Err(Failure::SourceChanged)));
    assert!(desk.seen().source_changed);
    assert!(desk.seen().is_dirty());
    assert_eq!(desk.seen().index_status(), "Source changed");
    assert!(desk.seen().index.indexed_rows.is_none());
    assert!(desk.seen().grid.rows.is_empty());
    let viewport_start = desk.seen().grid.viewport_start;

    assert_eq!(desk.workspace.apply(Action::PageDown), Request::Nothing);
    assert_eq!(desk.notice(), SOURCE_CHANGED_NOTICE);
    assert_eq!(desk.seen().grid.viewport_start, viewport_start);

    desk.workspace.apply(Action::DiscardChanges);
    assert!(matches!(desk.workspace.reload_document(), Request::Open { .. }));
    desk.open();
    assert!(!desk.seen().source_changed);
    assert!(!desk.seen().is_dirty());
    assert_eq!(desk.seen().source.first_rows[1].fields[0], b"first");

    desk.document().rename_header(0, "save_as_name".into()).unwrap();
    assert!(desk.workspace.begin_save(true).is_some());
    assert!(!desk.workspace.save_begun(false, Err(Failure::SourceChanged)));
    assert!(desk.seen().source_changed);
    assert!(desk.seen().is_dirty());
    assert!(desk.seen().grid.rows.is_empty());
    desk.workspace.apply(Action::PageDown);
    assert_eq!(desk.notice(), SOURCE_CHANGED_NOTICE);
}

#[test]
fn dirty_lifecycle_blocks_loss_and_save_as_reopens_the_edited_copy() {
    let mut desk = Desk::new(table("name,value\nfirst,1\n"), true);
    desk.document().rename_header(0, "renamed".into()).unwrap();
    desk.document().begin_cell_edit(1, 1, b"1".to_vec()).unwrap();
    desk.document().edits.cell_edit.as_mut().unwrap().draft = "edited".into();
    assert!(desk.workspace.close_requested());
    assert!(desk.workspace.close_confirmation_open);
    desk.workspace.close_after_save = true;
    desk.workspace.keep_editing();
    assert!(!desk.workspace.close_confirmation_open);
    assert!(!desk.workspace.close_after_save);
    assert_eq!(
        desk.workspace.check_open().unwrap_err().text,
        "Discard or save your changes before opening another file."
    );
    assert_eq!(
        desk.document().start_filtered_export().unwrap_err().text,
        "Save or discard your changes before exporting filtered rows."
    );

    let request = desk.document().start_save_as().unwrap();
    assert_eq!(request.target, SaveTarget::Copy);
    desk.document().save_started(false, Ok(())).unwrap();
    assert!(desk.workspace.close_requested());
    assert!(desk.workspace.close_after_save);
    assert!(!desk.workspace.close_confirmation_open);
    assert_eq!(
        desk.document().rename_header(1, "amount".into()).unwrap_err(),
        "Wait for the save to finish before editing headers."
    );
    assert_eq!(
        desk.document().begin_cell_edit(1, 1, b"1".to_vec()).unwrap_err(),
        "Wait for the active file operation before editing data cells."
    );
    desk.document().discard_header_edits();
    assert!(desk.seen().is_dirty());
    assert_eq!(
        desk.workspace.check_open().unwrap_err().text,
        "Cancel the active save before opening another file."
    );

    assert_eq!(desk.document().save_finished(SaveOutcome::Complete).unwrap(), Some(false));
    let (close, _) = desk.workspace.saved(Err(AppMessage::error("No such file".into())), false, "removed.csv");
    assert!(!close);
    assert!(desk.workspace.close_confirmation_open);
    assert!(!desk.workspace.close_after_save);
    assert!(desk.seen().is_dirty());
    assert_eq!(desk.seen().edits.cell_edits.get(&(1, 1)).map(Vec::as_slice), Some(b"edited".as_slice()));
    assert!(desk.seen().save.status.is_none());

    desk.workspace.close_confirmation_open = false;
    let request = desk.document().start_save_as().unwrap();
    let written = desk.edited(&request.renames, &request.cell_edits);
    assert_eq!(written, table("renamed,value\nfirst,edited\n"));
    desk.document().save_started(false, Ok(())).unwrap();
    desk.workspace.close_after_save = true;
    assert_eq!(desk.document().save_finished(SaveOutcome::Complete).unwrap(), Some(false));
    let (close, _) = desk.workspace.saved(Ok(prepared(FileId::Original, &written, true)), false, "edited.csv");
    assert!(close);
    assert_eq!(desk.seen().column_name(0), "renamed");
    assert!(!desk.seen().is_dirty());
    assert_eq!(save_as_file_name("report.csv"), "report-edited.csv");
}

#[test]
fn discard_and_close_drops_a_structural_working_copy_before_closing() {
    let mut desk = Desk::indexed("name,city\noriginal,x\n");
    desk.start_combine(vec![0, 1], " ").unwrap();
    desk.finish_structural_edit();
    desk.workspace.close_confirmation_open = true;
    assert!(desk.workspace.discard_and_close().is_some());
    assert!(desk.workspace.document.is_none());
}

#[test]
fn filtered_export_reports_success_and_never_overwrites() {
    let mut desk = Desk::new(table("id,note,status\n1,one,keep\n2,skip,skip\n3,yes,keep\n"), true);
    let query = || single(2, FilterOperator::Equals, "keep");
    desk.start_filter(query()).unwrap();
    desk.finish_filter();

    desk.start_filtered_export().unwrap();
    assert_eq!(
        desk.document().rename_header(0, "renamed".into()).unwrap_err(),
        "Wait for the filtered export to finish before editing headers."
    );
    assert_eq!(
        desk.document().clear_filter().unwrap_err(),
        "Cancel the active export before clearing filters."
    );
    assert_eq!(
        desk.document().start_filter(&query()).unwrap_err(),
        "Cancel the active export before changing filters."
    );
    desk.document()
        .export_finished(ExportOutcome::Complete {
            rows_written: 2,
            bytes_written: 64,
            destination: "/tmp/filtered.csv".into(),
        })
        .unwrap();
    let status = desk.seen().export.status.clone().unwrap();
    assert!(status.contains("2 rows"));
    assert!(status.contains("/tmp/filtered.csv"));

    assert!(desk.workspace.begin_export().is_some());
    desk.workspace.export_begun(Err("export destination already exists".into()));
    assert_eq!(desk.notice(), "export destination already exists");

    desk.start_filter(query()).unwrap();
    assert!(desk.seen().export.progress.is_none());
    assert!(desk.seen().export.status.is_none());
    desk.finish_filter();
}

#[test]
fn filtered_export_cancel_reopen_and_picker_cancel_are_safe() {
    let mut desk = Desk::new(table("name,status\nrow,keep\nrow,keep\n"), true);
    desk.start_filter(single(1, FilterOperator::Equals, "keep")).unwrap();
    desk.finish_filter();
    assert!(desk.workspace.begin_export().is_some());
    desk.workspace.export_begun(Err("export destination must differ from the source file".into()));
    assert_eq!(desk.notice(), "export destination must differ from the source file");
    assert!(desk.workspace.begin_export().is_some());
    desk.workspace.export_begun(Ok(exported(false)));
    desk.document().cancel_filtered_export();
    assert!(desk.seen().export.cancel_requested);
    assert_eq!(
        desk.seen().export.status.as_deref(),
        Some("Cancelling export… Wait for it to finish before opening or reapplying the file.")
    );
    desk.document().export_finished(ExportOutcome::Cancelled).unwrap();
    assert_eq!(
        desk.seen().export.status.as_deref(),
        Some("Export cancelled. No output file was created.")
    );

    desk.start_filtered_export().unwrap();
    assert_eq!(
        desk.workspace.check_open().unwrap_err().text,
        "Cancel the active export and wait for it to finish before opening another file."
    );
    assert!(desk.seen().export.running);
    desk.document().cancel_filtered_export();
    desk.document().export_finished(ExportOutcome::Cancelled).unwrap();
    assert!(desk.workspace.check_open().is_ok());
    desk.open();
    assert!(!desk.seen().export.running);
    assert!(desk.seen().export.status.is_none());
    assert_eq!(filtered_export_file_name("report.csv"), "report-filtered.csv");
    assert_eq!(filtered_export_file_name("report"), "report-filtered");
}

#[test]
fn filtered_grid_is_match_only_bounded_and_keeps_source_column_identity() {
    let mut rows = table("id,status,note\n");
    for row in 1..=200 {
        let status = if row % 3 == 0 { "keep" } else { "skip" };
        rows.push(fields(&[&row.to_string(), status, &format!("note{row}")]));
    }
    let mut desk = Desk::new(rows, true);
    desk.finish_index();
    desk.document().move_column(1, 0).unwrap();
    desk.document().set_column_shown(1, false).unwrap();
    let order = desk.seen().grid.columns.order.clone();
    let hidden = desk.seen().grid.columns.hidden.clone();

    desk.start_filter(single(1, FilterOperator::Equals, "keep")).unwrap();
    desk.finish_filter();
    desk.set_visible_rows(7);

    assert_eq!(desk.seen().available_filter_rows(), 66);
    assert_eq!(desk.seen().filter.viewport_start, 0);
    assert_eq!(desk.seen().visible_row_count(), 7);
    assert!(desk.visible().iter().all(|(_, cells)| cells[1] == b"keep"));
    assert_eq!(desk.first_match(), 0);
    assert_eq!(desk.visible()[0].0, 3);
    assert_eq!(desk.seen().grid.columns.order, order);
    assert_eq!(desk.seen().grid.columns.hidden, hidden);

    desk.document().selection.selection = Some(GridSelection::Cell { row: 3, column: 2 });
    assert_eq!(desk.copied(), "note3");
    desk.document().selection.selection = Some(GridSelection::Row { row: 3 });
    assert_eq!(desk.copied(), "3\tkeep\tnote3");

    desk.page(1);
    assert_eq!(desk.seen().filter.viewport_start, 7);
    assert_eq!(desk.first_match(), 7);
    assert_eq!(desk.visible()[0].0, 24);
    let capacity = desk.seen().grid.visible_rows + 2 * OVERSCAN_ROWS;
    assert!(desk.seen().filter.rows.len() <= capacity);

    let final_start = max_viewport_start(desk.seen().available_filter_rows(), desk.seen().grid.visible_rows);
    desk.navigate_filter(final_start);
    assert!(desk.seen().filter_rows_loading());
    desk.finish_filter_read();
    assert_eq!(desk.visible().last().unwrap().0, 198);
    assert!(desk.seen().filter.rows.len() <= capacity);
    desk.page(-1);
    assert_eq!(desk.seen().filter.viewport_start, final_start - 7);

    let step = desk.document().clear_filter();
    desk.go(step).unwrap();
    assert!(!desk.seen().filter_active());
    assert!(desk.seen().filter.rows.is_empty());
    assert_eq!(desk.seen().grid.columns.order, order);
    assert_eq!(desk.seen().grid.columns.hidden, hidden);
}

#[test]
fn active_filter_navigation_refreshes_a_stale_snapshot_before_reading() {
    let mut rows = table("name,status\n");
    rows.extend((0..2_000).map(|_| fields(&["row", "keep"])));
    let mut desk = Desk::new(rows, true);
    desk.document().grid.visible_rows = 5;
    desk.start_filter(single(1, FilterOperator::Equals, "keep")).unwrap();
    let progress = scanned(2_000, true);
    desk.document().filter.progress = Some(progress);
    desk.document().filter.indexed_matches = Some(1_000);
    let target = max_viewport_start(progress.matches_found, 5);
    let required = (target + 5).min(progress.matches_found);
    assert!(1_000 < required);

    desk.navigate_filter(target);
    assert!(desk.seen().filter_rows_loading());
    desk.finish_filter_read();

    assert!(desk.seen().filter.indexed_matches.unwrap() >= required);
    assert_eq!(desk.first_match(), target as usize);
    assert!(desk.seen().filter.rows.len() <= 5 + 2 * OVERSCAN_ROWS);
}

#[test]
fn filter_navigation_is_async_and_latest_request_wins() {
    let mut rows = table("id,status\n");
    for row in 0..25_000 {
        let status = if row % 20 == 0 { "keep" } else { "skip" };
        rows.push(fields(&[&row.to_string(), status]));
    }
    let mut desk = Desk::new(rows, true);
    desk.document().grid.visible_rows = 5;
    desk.start_filter(single(1, FilterOperator::Equals, "keep")).unwrap();
    desk.finish_filter();

    desk.navigate_filter(100);
    assert!(desk.seen().filter.read.is_some());
    assert_eq!(desk.seen().visible_row_count(), 0);
    assert!(desk.seen().filter_rows_loading());
    assert_eq!(desk.seen().footer_range_text(), "Loading matching rows…");

    desk.navigate_filter(500);
    assert!(desk.seen().filter.read.as_ref().unwrap().cancel_requested);
    desk.navigate_filter(900);
    assert_eq!(desk.seen().filter.pending, desk.seen().filter_read_window(900));
    assert_eq!(desk.seen().filter.viewport_start, 900);

    desk.finish_filter_read();
    assert_eq!(desk.first_match(), 900);
    assert_eq!(desk.visible()[0].1[0], b"18000");
    assert!(desk.visible().iter().all(|(_, cells)| cells[1] == b"keep"));
    assert!(desk.seen().filter.rows.len() <= 5 + 2 * OVERSCAN_ROWS);
    assert!(desk.seen().filter.read.is_none());
    assert!(desk.seen().filter.pending.is_none());
}

#[test]
fn filter_cancel_clear_and_reopen_reset_the_filter_lifecycle() {
    let mut rows = table("name,status\n");
    for row in 0..5_000 {
        rows.push(fields(&[&format!("row{row}"), "keep"]));
    }
    let mut desk = Desk::new(rows, true);
    desk.start_filter(single(1, FilterOperator::Contains, "keep")).unwrap();
    desk.document().cancel_filter();
    assert!(desk.settle().contains(&Effect::CancelFilter));
    desk.finish_filter();
    assert!(desk.seen().filter_active());
    let status = desk.seen().filter.status.clone().unwrap();
    assert!(status.starts_with("Filter cancelled after") || status.starts_with("Filter complete."));

    let step = desk.document().clear_filter();
    desk.go(step).unwrap();
    assert!(!desk.seen().filter_active());
    assert!(!desk.seen().filter.running);
    assert!(desk.seen().filter.indexed_matches.is_none());

    let query = || single(1, FilterOperator::Equals, "keep");
    let filtered = |desk: &mut Desk| {
        desk.start_filter(query()).unwrap();
        desk.finish_filter();
        desk.navigate_filter(100);
        desk.navigate_filter(200);
        assert!(desk.seen().filter.read.is_some());
        assert!(desk.seen().filter.pending.is_some());
    };
    filtered(&mut desk);
    desk.start_filter(query()).unwrap();
    assert!(desk.seen().filter.read.is_none());
    assert!(desk.seen().filter.pending.is_none());
    desk.finish_filter();
    filtered(&mut desk);
    let step = desk.document().clear_filter();
    assert!(desk.settle().contains(&Effect::AbandonFilterRead));
    desk.go(step).unwrap();
    assert!(desk.seen().filter.read.is_none());
    assert!(desk.seen().filter.pending.is_none());

    filtered(&mut desk);
    desk.workspace.filters_open = true;
    desk.workspace.filter_rules[0].column_input = "2".into();
    desk.workspace.filter_rules[0].value_input = "keep".into();
    desk.workspace.filter_rules.push(FilterRuleDraft::default());
    desk.open();
    assert!(!desk.workspace.filters_open);
    assert_eq!(desk.workspace.filter_rules, vec![FilterRuleDraft::default()]);
    assert!(!desk.seen().filter_active());
    assert!(desk.seen().filter.read.is_none());
    assert!(desk.seen().filter.pending.is_none());
}

#[test]
fn filtering_clears_row_selection_and_blocks_row_deletion() {
    let mut desk = Desk::indexed("name,city\nAda,London\nGrace,Arlington\n");
    desk.document().selection.rows.select(1, Modifiers { shift: false, command: false });
    desk.document().selection.selection = Some(GridSelection::Row { row: 1 });
    desk.start_filter(single(0, FilterOperator::Equals, "Ada")).unwrap();
    assert!(desk.seen().selection.rows.is_empty());
    assert!(desk.seen().selection.selection.is_none());
    assert_eq!(
        desk.document().start_delete_rows(vec![1..=1]).unwrap_err().text,
        "Clear the filter before editing the document."
    );
    assert!(desk.seen().structural.job.is_none());
    assert!(desk.seen().working_copy.is_none());
}

#[test]
fn shift_selection_uses_shown_display_order_and_hiding_prunes_it() {
    let mut columns = ColumnView::new(6);
    assert!(columns.move_column(5, 1));
    assert!(columns.set_shown(1, false));
    let mut selected = BTreeSet::new();
    let mut anchor = None;
    select_column(&columns, &mut selected, &mut anchor, 5, Modifiers { shift: false, command: false });
    select_column(&columns, &mut selected, &mut anchor, 3, Modifiers { shift: true, command: false });
    assert_eq!(selected.iter().copied().collect::<Vec<_>>(), vec![2, 3, 5]);
    assert!(!selected.contains(&1));

    let mut document = prepared(FileId::Original, &table("a,b,c,d,e,f\n1,2,3,4,5,6\n"), true);
    document.move_column(5, 1).unwrap();
    document.set_column_shown(1, false).unwrap();
    document.selection.columns = selected;
    document.selection.anchor = anchor;

    document.set_column_shown(5, false).unwrap();
    assert_eq!(document.selection.columns, BTreeSet::from([2, 3]));
    assert_eq!(document.selection.anchor, Some(2));
    document.set_column_shown(2, false).unwrap();
    assert_eq!(document.selection.columns, BTreeSet::from([3]));
    assert_eq!(document.selection.anchor, Some(3));
    document.set_column_shown(3, false).unwrap();
    assert!(document.selection.columns.is_empty());
    assert_eq!(document.selection.anchor, None);
}

#[test]
fn move_and_delete_columns_use_the_editable_grid_and_structural_history() {
    let mut desk = Desk::indexed("a,b,c,d\nA1,B1,C1,D1\nA2,B2,C2,D2\n");
    assert!(parse_move_position("0", 4, 2).is_err());
    assert!(parse_move_position("4", 4, 2).is_err());
    assert_eq!(
        desk.document().start_delete_columns(vec![0, 1, 2, 3]).unwrap_err().text,
        "At least one column must remain."
    );
    assert!(desk.seen().working_copy.is_none());

    let mut dialog = StructuralDialog::move_columns(vec![1, 3]);
    assert_eq!(dialog.position, "2");
    dialog.position = "1".into();
    desk.workspace.open_structural_dialog(dialog);
    match desk.workspace.apply_structural_dialog_action(StructuralDialogAction::Apply, 1 << 20) {
        Request::Change(plan) => {
            let started = desk.start_change(plan);
            desk.workspace.change_begun(started, true);
        }
        other => panic!("{other:?}"),
    }
    desk.workspace.format_draft = Some((DelimiterMode::Tab, HeaderMode::NoHeader));
    desk.finish_structural_edit();
    assert_eq!(desk.workspace.format_draft, None);
    assert_eq!(desk.seen().grid.total_columns, 4);
    assert_eq!(desk.seen().source.first_rows[0].fields, fields(&["b", "d", "a", "c"]));
    assert_eq!(desk.seen().source.first_rows[1].fields, fields(&["B1", "D1", "A1", "C1"]));
    assert_eq!(desk.seen().selection.columns, BTreeSet::from([0, 1]));
    assert_eq!(desk.seen().selection.anchor, Some(0));
    assert!(desk.seen().is_dirty());

    desk.undo();
    let redo_file = desk.seen().working_copy.as_ref().unwrap().redo.as_ref().unwrap().file;
    assert_eq!(desk.seen().source.first_rows[0].fields, fields(&["a", "b", "c", "d"]));
    assert!(desk.document().start_move_columns(vec![0], 0).unwrap().is_none());
    assert!(desk.seen().structural.job.is_none());
    assert_eq!(desk.seen().working_copy.as_ref().unwrap().redo.as_ref().unwrap().file, redo_file);

    desk.redo();
    match desk.workspace.apply_delete_columns(vec![0, 2]) {
        Request::Change(plan) => {
            let started = desk.start_change(plan);
            desk.workspace.change_begun(started, false);
        }
        other => panic!("{other:?}"),
    }
    assert!(desk.workspace.notice.is_none());
    desk.finish_structural_edit();
    assert_eq!(desk.seen().grid.total_columns, 2);
    assert_eq!(desk.seen().source.first_rows[0].fields, fields(&["d", "c"]));
    assert_eq!(desk.seen().source.first_rows[1].fields, fields(&["D1", "C1"]));
    assert_eq!(desk.seen().selection.columns, BTreeSet::from([0]));
    assert_eq!(desk.seen().selection.anchor, Some(0));

    desk.undo();
    assert_eq!(desk.seen().source.first_rows[0].fields, fields(&["b", "d", "a", "c"]));
    desk.redo();
    assert_eq!(desk.seen().source.first_rows[0].fields, fields(&["d", "c"]));
}

#[test]
fn delete_selected_rows_uses_working_copy_and_structural_history() {
    let mut desk = Desk::indexed("id,name\n1,Ada\n2,Grace\n3,Linus\n4,Margaret\n");
    desk.document().edits.cell_edits.insert((3, 1), b"Edited".to_vec());
    desk.document().selection.rows.select(2, Modifiers { shift: false, command: false });
    desk.document().selection.rows.select(4, Modifiers { shift: false, command: true });
    desk.document().selection.selection = Some(GridSelection::Row { row: 2 });

    match desk.workspace.apply_delete_rows(vec![2..=2, 4..=4]) {
        Request::Change(plan) => {
            let started = desk.start_change(plan);
            desk.workspace.change_begun(started, false);
        }
        other => panic!("{other:?}"),
    }
    assert!(desk.workspace.notice.is_none());
    desk.finish_structural_edit();
    assert_eq!(desk.seen().source.first_rows[0].fields, fields(&["id", "name"]));
    assert_eq!(desk.seen().source.first_rows[1].fields, fields(&["1", "Ada"]));
    assert_eq!(desk.seen().source.first_rows[2].fields, fields(&["3", "Edited"]));
    assert!(desk.seen().selection.rows.is_empty());
    assert!(desk.seen().is_dirty());

    desk.undo();
    assert_eq!(desk.seen().source.first_rows.len(), 5);
    assert_eq!(desk.seen().edits.cell_edits.get(&(3, 1)), Some(&b"Edited".to_vec()));
    desk.redo();
    assert_eq!(desk.seen().source.first_rows.len(), 3);
    assert_eq!(desk.seen().source.first_rows[2].fields[1], b"Edited");

    assert!(matches!(desk.workspace.apply(Action::DiscardChanges), Request::Open { .. }));
    desk.open();
    assert_eq!(desk.seen().source.first_rows.len(), 5);
    assert!(!desk.seen().is_dirty());
}

#[test]
fn sort_dialog_is_accessible_and_sort_uses_structural_history() {
    let mut desk = Desk::indexed("key,name\nb,first-b\na,lower\n,missing\nA,upper\nb,second-b\n");
    assert_eq!(desk.seen().sort_space(), Some((1_010, 5)));
    desk.document().selection.columns = BTreeSet::from([0]);
    desk.workspace.open_structural_dialog(StructuralDialog::sort(0));
    match desk.workspace.apply_structural_dialog_action(StructuralDialogAction::Apply, 1 << 20) {
        Request::Change(plan) => {
            let started = desk.start_change(plan);
            desk.workspace.change_begun(started, true);
        }
        other => panic!("{other:?}"),
    }
    desk.finish_structural_edit();
    let names = |desk: &Desk| {
        desk.seen().source.first_rows.iter().skip(1).map(|row| row.fields[1].clone()).collect::<Vec<_>>()
    };
    let sorted = fields(&["missing", "lower", "upper", "first-b", "second-b"]);
    assert_eq!(desk.seen().source.first_rows[0].fields, fields(&["key", "name"]));
    assert_eq!(names(&desk), sorted);
    assert_eq!(desk.seen().selection.columns, BTreeSet::from([0]));
    assert!(desk.seen().is_dirty());
    desk.undo();
    assert_eq!(names(&desk), fields(&["first-b", "lower", "missing", "upper", "second-b"]));
    desk.redo();
    assert_eq!(names(&desk), sorted);
}

#[test]
fn split_targets_exactly_one_selection_and_keeps_a_wide_result_in_view() {
    let mut selected = BTreeSet::new();
    assert_eq!(selected_split_column(&selected), None);
    selected.insert(39);
    assert_eq!(selected_split_column(&selected), Some(39));
    selected.insert(2);
    assert_eq!(selected_split_column(&selected), None);

    let headers = (1..=40).map(|column| format!("column-{column}")).collect::<Vec<_>>().join(",");
    let values = (1..=40)
        .map(|column| if column == 40 { "left:right".to_owned() } else { column.to_string() })
        .collect::<Vec<_>>()
        .join(",");
    let mut desk = Desk::indexed(&format!("{headers}\n{values}\n"));
    desk.start_split(39, ":").unwrap();
    desk.finish_structural_edit();

    assert_eq!(desk.seen().grid.total_columns, 41);
    assert_eq!(desk.seen().selection.columns.iter().copied().collect::<Vec<_>>(), vec![39, 40]);
    assert!(desk.seen().grid.columns.visible.contains(&39));
    assert!(desk.seen().grid.columns.visible.contains(&40));
    assert_eq!(desk.seen().source.first_rows[1].fields[39..=40], [b"left".to_vec(), b"right".to_vec()]);
}

#[test]
fn split_then_editing_a_derived_cell_saves_as_without_touching_the_original() {
    let mut desk = Desk::indexed("email,city\nalice@example.com,New York\n");
    let original = desk.original.clone();
    desk.start_split(0, "@").unwrap();
    desk.finish_structural_edit();
    let row = desk.seen().grid.data_start;
    desk.edit(row, 1, "example.com", "domain.test");
    let request = desk.document().start_save_as().unwrap();
    assert_eq!(request.target, SaveTarget::Copy);
    let written = desk.edited(&request.renames, &request.cell_edits);
    desk.document().save_started(false, Ok(())).unwrap();
    assert_eq!(desk.document().save_finished(SaveOutcome::Complete).unwrap(), Some(false));
    assert_eq!(written, table("email,,city\nalice,domain.test,New York\n"));
    assert_eq!(desk.original, original);
}

#[test]
fn split_then_save_replaces_the_guarded_original() {
    let mut desk = Desk::indexed("email,city\nalice@example.com,New York\n");
    desk.start_split(0, "@").unwrap();
    desk.finish_structural_edit();
    let request = desk.document().start_save().unwrap();
    assert_eq!(request.target, SaveTarget::Original);
    let written = desk.edited(&request.renames, &request.cell_edits);
    desk.document().save_started(true, Ok(())).unwrap();
    assert_eq!(desk.document().save_finished(SaveOutcome::Complete).unwrap(), Some(true));
    assert_eq!(written, table("email,,city\nalice,example.com,New York\n"));
}

#[test]
fn combine_is_atomic_and_one_step_undo_redo_restores_each_table() {
    let mut desk = Desk::indexed("first,last,age\nAda,Lovelace,36\n");
    desk.start_combine(vec![0, 1], " ").unwrap();
    desk.finish_structural_edit();
    assert_eq!(desk.seen().grid.total_columns, 2);
    assert_eq!(desk.seen().source.first_rows[0].fields, fields(&["first", "age"]));
    assert_eq!(desk.seen().source.first_rows[1].fields, fields(&["Ada Lovelace", "36"]));
    assert!(desk.seen().can_undo_structural());
    assert!(desk.seen().is_dirty());

    desk.undo();
    let footer = desk.workspace.footer_status.as_ref().unwrap();
    assert_eq!(footer.text, "Change undone.");
    assert_eq!(footer.severity, MessageSeverity::Status);
    assert_eq!(desk.seen().source.file, FileId::Original);
    assert_eq!(desk.seen().grid.total_columns, 3);
    assert_eq!(desk.seen().source.first_rows[1].fields, fields(&["Ada", "Lovelace", "36"]));
    assert!(desk.seen().can_redo_structural());
    assert!(!desk.seen().is_dirty());

    desk.redo();
    assert_eq!(desk.seen().grid.total_columns, 2);
    assert_eq!(desk.seen().source.first_rows[1].fields, fields(&["Ada Lovelace", "36"]));
    assert!(desk.seen().can_undo_structural());
    assert!(desk.seen().is_dirty());
}

#[test]
fn split_accepts_a_column_discovered_beyond_a_short_header() {
    let mut desk = Desk::indexed("only\nleft,right:tail\n");
    assert_eq!(desk.seen().grid.total_columns, 2);
    desk.start_split(1, ":").unwrap();
    desk.finish_structural_edit();
    assert_eq!(desk.seen().grid.total_columns, 3);
    assert_eq!(desk.seen().source.first_rows[0].fields, fields(&["only", "", ""]));
    assert_eq!(desk.seen().source.first_rows[1].fields, fields(&["left", "right", "tail"]));
}

#[test]
fn structural_undo_restores_prior_sparse_edits_and_later_edits_invalidate_redo() {
    let mut desk = Desk::indexed("email,city\na@b,x\n");
    desk.document().rename_header(1, "town".into()).unwrap();
    desk.edit(1, 0, "a@b", "alpha@beta");
    desk.start_split(0, "@").unwrap();
    desk.finish_structural_edit();
    assert_eq!(desk.seen().source.first_rows[0].fields, fields(&["email", "", "town"]));
    assert_eq!(desk.seen().source.first_rows[1].fields, fields(&["alpha", "beta", "x"]));

    desk.undo();
    assert_eq!(desk.seen().source.file, FileId::Original);
    assert_eq!(desk.seen().column_name(1), "town");
    assert_eq!(desk.seen().edits.cell_edits.get(&(1, 0)).unwrap(), b"alpha@beta");
    assert!(desk.seen().is_dirty());
    assert!(desk.seen().can_redo_structural());

    desk.document().rename_header(1, "town".into()).unwrap();
    assert!(desk.seen().can_redo_structural());
    desk.document().begin_cell_edit(1, 0, b"a@b".to_vec()).unwrap();
    desk.document().commit_cell_edit();
    assert!(desk.seen().can_redo_structural());
    assert_eq!(desk.start_split(0, "").unwrap_err().text, "Enter a non-empty separator.");
    assert!(desk.seen().can_redo_structural());
    desk.start_split(0, "|").unwrap();
    assert_eq!(
        desk.measured().unwrap_err().text,
        "The separator was not found in the selected column."
    );
    assert!(desk.seen().can_redo_structural());

    desk.redo();
    desk.undo();
    assert!(desk.seen().can_redo_structural());
    desk.edit(1, 1, "x", "y");
    assert!(!desk.seen().can_redo_structural());
}

#[test]
fn first_structural_undo_freezes_if_the_original_changed_externally() {
    let mut desk = Desk::indexed("email,city\na@b,x\n");
    desk.start_split(0, "@").unwrap();
    desk.finish_structural_edit();
    desk.history(false, Err(Failure::SourceChanged));
    assert_eq!(desk.notice(), SOURCE_CHANGED_NOTICE);
    assert!(desk.seen().source_changed);
}

#[test]
fn first_combine_freezes_a_missing_source_without_allocating_working_state() {
    let mut desk = Desk::indexed("first,last\nAda,Lovelace\n");
    desk.document().start_combine(vec![0, 1], b" ".to_vec()).unwrap();
    assert_eq!(desk.document().next_preparation(), Preparation::GuardOriginal);
    assert_eq!(
        desk.document().original_guarded(Err(Failure::SourceChanged)).unwrap_err().text,
        SOURCE_CHANGED_NOTICE
    );
    assert!(desk.seen().source_changed);
    assert!(!desk.seen().has_original);
    assert!(desk.seen().working_copy.is_none());
}

#[test]
fn first_split_freezes_a_missing_source_without_allocating_working_state() {
    let mut desk = Desk::indexed("email,city\na@b,x\n");
    let analysis = desk.document().start_split(0, b"@".to_vec(), 1 << 20).unwrap();
    assert_eq!(
        desk.document()
            .split_analysis_started(analysis.source_column, analysis.separator, Err(Failure::SourceChanged))
            .unwrap_err()
            .text,
        SOURCE_CHANGED_NOTICE
    );
    assert!(desk.seen().source_changed);
    assert!(!desk.seen().has_original);
    assert!(desk.seen().working_copy.is_none());
    assert!(desk.seen().structural.job.is_none());
}

#[test]
fn find_next_navigates_resumes_resets_and_reports_no_match() {
    let mut rows = table("one,two,three,four\n");
    for row in 1..=50 {
        rows.push(match row {
            25 => fields(&["row25", "x", "needle", "x"]),
            30 => fields(&["fresh", "needle", "x", "x"]),
            _ => fields(&[&format!("row{row}"), "x", "x", "x"]),
        });
    }
    let mut desk = Desk::new(rows, true);
    desk.finish_index();
    desk.set_visible_rows(5);

    desk.start_find_next("needle");
    assert!(!desk.seen().header_is_editable(0));
    assert_eq!(
        desk.document().rename_header(0, "renamed".into()).unwrap_err(),
        "Wait for the search to finish before editing headers."
    );
    desk.finish_search();
    assert_eq!(desk.seen().search.last_match, Some(SearchMatch { row: 25, column: 2 }));
    assert_eq!(desk.seen().grid.viewport_start, 25);
    assert_eq!(desk.seen().selection.reveal_cell, Some((25, 2)));
    assert_eq!(desk.seen().selection.selection, Some(GridSelection::Cell { row: 25, column: 2 }));
    assert_eq!(desk.seen().search.status.as_deref(), Some("Found row 25, column 3."));

    desk.start_find_next("needle");
    desk.finish_search();
    assert_eq!(desk.seen().search.last_match, Some(SearchMatch { row: 30, column: 1 }));
    assert_eq!(desk.seen().grid.viewport_start, 30);

    let step = desk.document().start_find_previous_with_case(b"needle", FOLDED);
    desk.go(step).unwrap();
    assert_eq!(desk.seen().search.last_match, Some(SearchMatch { row: 25, column: 2 }));
    assert_eq!(desk.seen().selection.selection, Some(GridSelection::Cell { row: 25, column: 2 }));
    desk.start_find_next("needle");
    assert!(!desk.seen().search.running);
    assert_eq!(desk.seen().search.last_match, Some(SearchMatch { row: 30, column: 1 }));

    desk.start_find_next("fresh");
    desk.finish_search();
    assert_eq!(desk.seen().search.last_match, Some(SearchMatch { row: 30, column: 0 }));

    desk.set_visible_rows(25);
    desk.start_find_next("row50");
    desk.finish_search();
    assert_eq!(desk.seen().grid.viewport_start, 26);
    desk.set_visible_rows(10);
    assert_eq!(desk.seen().grid.viewport_start, 41);
    assert_eq!(desk.seen().selection.reveal_cell, Some((50, 0)));

    let before = desk.seen().grid.viewport_start;
    desk.start_find_next("missing");
    desk.finish_search();
    assert_eq!(desk.seen().grid.viewport_start, before);
    assert!(desk.seen().search.last_match.is_none());
    assert_eq!(desk.seen().search.status.as_deref(), Some("No further matches."));
}

#[test]
fn find_mode_is_part_of_the_cursor_and_replace_in_cell_uses_it() {
    let mut desk = Desk::indexed("value\nNeedle needle\n");
    desk.start_find_next("needle");
    desk.finish_search();
    assert_eq!(desk.seen().selection.selection, Some(GridSelection::Cell { row: 1, column: 0 }));
    desk.document().selection.reveal_cell.take();
    assert!(desk.seen().can_replace_current_with_case(b"needle", FOLDED));
    assert!(!desk.seen().can_replace_current_with_case(b"needle", CaseSensitivity::Sensitive));

    desk.start_find_next_with_case("needle", CaseSensitivity::Sensitive);
    desk.finish_search();
    desk.document().replace_current_match_with_case(b"needle", b"X", CaseSensitivity::Sensitive).unwrap();
    assert_eq!(desk.seen().edits.cell_edits.get(&(1, 0)).map(Vec::as_slice), Some(b"Needle X".as_slice()));
}

#[test]
fn find_next_uses_unsaved_cell_values() {
    let mut desk = Desk::indexed("first,second\nneedle,one\nother,two\n");
    desk.edit(1, 0, "needle", "hidden");
    desk.edit(2, 1, "two", "overlay needle");
    desk.start_find_next("needle");
    desk.finish_search();
    assert_eq!(desk.seen().search.last_match, Some(SearchMatch { row: 2, column: 1 }));
    assert_eq!(desk.seen().selection.reveal_cell, Some((2, 1)));
    assert!(desk.seen().is_dirty());
}

#[test]
fn replace_current_replaces_all_non_overlapping_matches_and_advances() {
    let mut desk = Desk::indexed("first,second\naaaa,x\nx,aa\n");
    desk.start_find_next("aa");
    desk.finish_search();
    assert!(desk.seen().can_replace_current_with_case(b"aa", FOLDED));
    let step = desk.document().replace_current_match_with_case(b"aa", b"x", FOLDED).unwrap();
    desk.begin_search(step);
    assert_eq!(desk.seen().edits.cell_edits.get(&(1, 0)).unwrap(), b"xx");
    desk.finish_search();
    assert_eq!(desk.seen().search.last_match, Some(SearchMatch { row: 2, column: 1 }));

    let step = desk.document().replace_current_match_with_case(b"aa", b"", FOLDED).unwrap();
    desk.begin_search(step);
    assert_eq!(desk.seen().edits.cell_edits.get(&(2, 1)).unwrap(), b"");
    desk.finish_search();
    assert_eq!(desk.seen().search.status.as_deref(), Some("No further matches."));
    assert!(!desk.seen().can_replace_current_with_case(b"aa", FOLDED));
    assert!(desk.seen().is_dirty());
}

#[test]
fn replace_current_reports_an_overlay_match_without_a_source_cell() {
    let mut desk = Desk::indexed("first,second\nvalue\n");
    desk.document().search.query = b"needle".to_vec();
    desk.document().search.last_match = Some(SearchMatch { row: 1, column: 1 });
    desk.document().selection.selection = Some(GridSelection::Cell { row: 1, column: 1 });
    desk.document().edits.cell_edits.insert((1, 1), b"needle".to_vec());

    assert!(desk.seen().can_replace_current_with_case(b"needle", FOLDED));
    assert_eq!(
        desk.document().replace_current_match_with_case(b"needle", b"replacement", FOLDED).unwrap_err(),
        "The current matched cell is no longer available for replacement."
    );
    assert_eq!(desk.seen().edits.cell_edits.get(&(1, 1)).map(Vec::as_slice), Some(b"needle".as_slice()));
}

#[test]
fn replace_current_is_blocked_during_background_rewrites() {
    let replaceable = || {
        let mut desk = Desk::indexed("name,other\nneedle,x\n");
        desk.start_find_next("needle");
        desk.finish_search();
        assert!(desk.seen().can_replace_current_with_case(b"needle", FOLDED));
        desk
    };
    let mut saving = replaceable();
    saving.document().rename_header(0, "renamed".into()).unwrap();
    saving.document().start_save_as().unwrap();
    saving.document().save_started(false, Ok(())).unwrap();
    assert!(saving.seen().save.running);
    assert!(!saving.seen().can_replace_current_with_case(b"needle", FOLDED));
    assert!(saving.document().replace_current_match_with_case(b"needle", b"changed", FOLDED).is_err());
    assert!(saving.seen().edits.cell_edits.is_empty());

    let mut materializing = replaceable();
    let plan = materializing.document().start_replace_all_with_case(b"x", b"y", FOLDED).unwrap().unwrap();
    materializing.start_change(plan).unwrap();
    assert!(materializing.seen().structural.job.is_some());
    assert!(!materializing.seen().can_replace_current_with_case(b"needle", FOLDED));
    assert!(materializing.document().replace_current_match_with_case(b"needle", b"changed", FOLDED).is_err());
    assert!(materializing.seen().edits.cell_edits.is_empty());
}

#[test]
fn replace_all_materializes_effective_cells_and_uses_change_history() {
    let mut desk = Desk::indexed("name\nplain\nsource needle\n");
    desk.edit(1, 0, "plain", "overlay needle needle");
    desk.workspace.find_input = "needle".into();
    desk.workspace.replace_input = "x".into();
    match desk.workspace.apply(Action::ReplaceAll) {
        Request::Change(plan) => {
            let started = desk.start_change(plan);
            assert!(started.is_ok());
            desk.workspace.finish_action(Action::ReplaceAll, started);
        }
        other => panic!("{other:?}"),
    }
    desk.finish_structural_edit();
    assert_ne!(desk.seen().source.file, FileId::Original);
    assert_eq!(*desk.shown_table(), table("name\noverlay x x\nsource x\n"));
    assert!(desk.seen().is_dirty());
    assert!(desk.workspace.notice.is_none());
    assert_eq!(
        desk.workspace.footer_status.as_ref().unwrap().text,
        "Replaced 3 occurrences. Save to keep it, or discard changes."
    );

    desk.undo();
    assert_eq!(desk.seen().source.file, FileId::Original);
    assert_eq!(
        desk.seen().edits.cell_edits.get(&(1, 0)).map(Vec::as_slice),
        Some(b"overlay needle needle".as_slice())
    );
}

#[test]
fn cancel_search_action_sets_state_and_shutdown_clears_the_job() {
    let mut desk = Desk::indexed("name\nvalue\n");
    desk.workspace.find_input = "missing".into();
    assert!(matches!(desk.workspace.apply(Action::FindNext), Request::Search(_)));
    desk.document().search_started();
    assert_eq!(desk.workspace.apply(Action::CancelSearch), Request::Nothing);
    assert!(desk.settle().contains(&Effect::CancelSearch));
    desk.document().shutdown();
    assert!(!desk.seen().search.running);
}

#[test]
fn search_reveals_a_match_beyond_the_first_column_window() {
    let headers = (1..=40).map(|column| format!("c{column}")).collect::<Vec<_>>().join(",");
    let mut values = vec!["x"; 40];
    values[39] = "needle";
    let mut desk = Desk::indexed(&format!("{headers}\n{}\n", values.join(",")));
    desk.document().set_column_shown(39, false).unwrap();
    assert!(desk.seen().grid.columns.hidden[39]);
    desk.start_find_next("needle");
    desk.finish_search();
    assert_eq!(desk.seen().search.last_match, Some(SearchMatch { row: 1, column: 39 }));
    assert!(!desk.seen().grid.columns.hidden[39]);
    assert!(desk.seen().grid.columns.visible.contains(&39));
    assert_eq!(desk.seen().grid.columns.start, 0);
    assert_eq!(desk.seen().grid.headers.first().map(String::as_str), Some("c1"));
    assert_eq!(desk.seen().grid.headers.last().map(String::as_str), Some("c40"));
    assert_eq!(desk.seen().selection.reveal_cell, Some((1, 39)));
}

#[test]
fn column_controls_preserve_source_identity_and_row_copy_order() {
    let headers = (1..=40).map(|column| format!("c{column}")).collect::<Vec<_>>();
    let values = (1..=40).map(|column| format!("v{column}")).collect::<Vec<_>>();
    let mut desk = Desk::indexed(&format!("{}\n{}\n", headers.join(","), values.join(",")));

    assert_eq!(desk.seen().grid.columns.start, 0);
    assert_eq!(desk.seen().grid.columns.visible.len(), 40);
    assert_eq!(desk.seen().grid.headers.first().map(String::as_str), Some("c1"));
    assert_eq!(desk.seen().grid.headers.last().map(String::as_str), Some("c40"));

    desk.document().selection.selection = Some(GridSelection::Cell { row: 1, column: 39 });
    assert_eq!(desk.copied(), "v40");
    desk.document().move_column(39, 30).unwrap();
    assert_eq!(&desk.seen().grid.columns.order[29..33], &[29, 39, 30, 31]);
    assert_eq!(desk.seen().grid.headers[30], "c40");
    assert_eq!(desk.seen().grid.headers[31], "c31");
    assert_eq!(desk.copied(), "v40");

    desk.document().move_column(39, 8).unwrap();
    desk.document().selection.selection = Some(GridSelection::Row { row: 1 });
    assert_eq!(desk.copied(), values.join("\t"));

    desk.document().selection.selection = Some(GridSelection::Cell { row: 1, column: 39 });
    desk.document().set_column_shown(39, false).unwrap();
    assert!(desk.seen().selection.selection.is_none());
    assert!(!desk.seen().grid.columns.visible.contains(&39));
    desk.document().set_column_shown(39, true).unwrap();
    assert!(desk.seen().grid.columns.visible.contains(&39));

    for column in 0..40 {
        desk.document().set_column_shown(column, false).unwrap();
    }
    assert!(desk.seen().grid.headers.is_empty());
    desk.document().reset_columns();
    assert_eq!(desk.seen().grid.columns.start, 0);
    assert_eq!(desk.seen().grid.columns.order, (0..40).collect::<Vec<_>>());
    assert!(desk.seen().grid.columns.hidden.iter().all(|hidden| !hidden));
    assert_eq!(desk.seen().grid.headers.first().map(String::as_str), Some("c1"));
    assert_eq!(desk.seen().grid.headers.last().map(String::as_str), Some("c40"));
}

#[test]
fn continuous_scrolling_refills_stays_bounded_and_reaches_the_last_record() {
    let mut desk = Desk::new(numbered(250), true);
    let at_hand = desk.seen().source.first_rows.len() as u64;
    desk.document().index_started(IndexProgress {
        bytes_scanned: 0,
        rows_scanned: at_hand,
        file_size: 1_000,
        done: false,
        cancelled: false,
    });
    let bootstrap_rows = desk.seen().source.first_rows.len() - 1;
    desk.set_visible_rows(bootstrap_rows + 1);
    assert_eq!(desk.visible().len(), bootstrap_rows);

    desk.finish_index();
    desk.set_visible_rows(25);
    assert_eq!(desk.visible().len(), 25);
    let capacity = desk.seen().grid.visible_rows + 2 * OVERSCAN_ROWS;
    assert!(desk.seen().grid.rows.len() <= capacity);

    let first = desk.seen().grid.data_start;
    desk.navigate(first + 100);
    let mut refills = 0;
    for _ in 0..12 {
        let step = desk.document().scroll_rows(1).unwrap();
        refills += usize::from(step != GridStep::Covered);
        desk.go(Ok(step)).unwrap();
    }
    assert_eq!(desk.seen().grid.viewport_start, first + 112);
    assert!(refills <= 1, "scrolling refilled {refills} times");

    desk.navigate(first);
    desk.scroll(1);
    assert_eq!(desk.seen().grid.viewport_start, first + 1);
    desk.scroll(-1);
    assert_eq!(desk.seen().grid.viewport_start, first);
    desk.page(1);
    assert_eq!(desk.seen().grid.viewport_start, first + 25);
    assert!(desk.seen().grid.rows.len() <= capacity);
    desk.page(-1);
    assert_eq!(desk.seen().grid.viewport_start, first);

    let target = first + max_viewport_start(desk.seen().available_data_rows(), desk.seen().grid.visible_rows);
    desk.navigate(target);
    assert_eq!(desk.seen().display_end(), 250);
    assert_eq!(desk.visible().last().unwrap().1[0], b"row250");
    assert!(desk.seen().grid.rows.len() <= capacity);
    desk.scroll(1_000);
    assert_eq!(desk.seen().grid.viewport_start, target);
    assert!(desk.seen().grid.rows.len() <= capacity);
}

#[test]
fn completed_index_refills_a_short_visible_buffer_without_scrolling() {
    let mut desk = Desk::new(numbered(250), true);
    let rows = desk.seen().grid.rows.len() + 3;
    desk.document().grid.visible_rows = rows;
    desk.finish_index();
    assert_eq!(desk.visible().len(), rows);
}

#[test]
fn later_wider_rows_expand_visible_columns() {
    let narrow = BOOTSTRAP_ROWS + 2 * OVERSCAN_ROWS + 1;
    let mut rows: Table = (1..=narrow).map(|row| fields(&[&row.to_string(), &(row + 100).to_string()])).collect();
    rows.push(fields(&[&(narrow + 1).to_string(), "121", "visible"]));
    let mut desk = Desk::new(rows, false);
    assert_eq!(desk.seen().grid.total_columns, 2);
    desk.document().move_column(1, 0).unwrap();
    desk.document().set_column_shown(0, false).unwrap();
    desk.finish_index();
    desk.navigate(narrow as u64);

    assert_eq!(desk.seen().grid.total_columns, 3);
    assert_eq!(desk.seen().grid.columns.order, [1, 0, 2]);
    assert!(desk.seen().grid.columns.hidden[0]);
    assert_eq!(desk.seen().grid.columns.visible, [1, 2]);
    assert_eq!(desk.seen().grid.headers, ["Column 2", "Column 3"]);
    assert_eq!(desk.visible().last().unwrap().1[2], b"visible");
}

#[test]
fn late_index_error_is_reported_as_failed() {
    let mut desk = Desk::new(numbered(250), true);
    let progress = IndexProgress {
        bytes_scanned: 1_000,
        rows_scanned: 251,
        file_size: 1_000,
        done: true,
        cancelled: false,
    };
    desk.document().index_started(progress);
    desk.document().cancel();
    desk.document().index_progressed(progress);
    let error = desk.document().index_finished(Err("unterminated quoted field".into())).unwrap_err();
    assert!(error.contains("unterminated quoted field"));
    assert!(!desk.seen().index.running);
    assert!(desk.seen().index.indexed_rows.is_none());
    assert_eq!(desk.seen().index_status(), "Index failed");
}

#[test]
fn empty_file_has_no_active_row() {
    let mut desk = Desk::new(Vec::new(), false);
    assert!(!desk.seen().index.running);
    desk.finish_index();
    desk.set_visible_rows(25);
    assert!(!desk.seen().index.running);
    assert!(desk.seen().index.indexed_rows.is_some());
    assert_eq!(desk.seen().index_status(), "Index complete");
    assert_eq!(desk.seen().available_data_rows(), 0);
    assert!(desk.visible().is_empty());
    assert_eq!(desk.seen().display_start(), 0);
    assert_eq!(desk.seen().display_end(), 0);
    desk.document().index.indexed_rows = None;
    assert_eq!(desk.seen().index_status(), "Index failed");
}

#[test]
fn replaces_a_document_while_its_indexer_is_active() {
    let mut desk = Desk::new(numbered(250), true);
    desk.document().index_started(IndexProgress {
        bytes_scanned: 400,
        rows_scanned: 100,
        file_size: 1_000,
        done: false,
        cancelled: false,
    });
    desk.original = table("name,value\nsecond,2\n");
    assert!(desk.workspace.check_open().is_ok());
    let next = prepared(FileId::Original, &desk.original, true);
    let retired = desk.workspace.document_opened(next).unwrap();
    assert!(!retired.index.running);
    assert!(retired.effects.contains(&Effect::CancelIndexing) || retired.effects.contains(&Effect::DropIndexing));
    assert_eq!(desk.seen().grid.rows[0].fields[0], b"second");
}

#[test]
fn failed_and_cancelled_opens_preserve_the_document_and_drops_open_one_file() {
    let mut desk = Desk::new(table("name,value\nfirst,1\n"), true);
    desk.workspace.delimiter_mode = DelimiterMode::Comma;
    desk.workspace.header_mode = HeaderMode::FirstRow;
    desk.document().move_column(1, 0).unwrap();
    desk.document().set_column_shown(0, false).unwrap();

    let automatic = Some((DelimiterMode::Auto, HeaderMode::Auto));
    assert!(desk.workspace.file_opened(Err("unterminated quoted field".into()), automatic).is_none());
    assert_eq!(desk.seen().grid.columns.order, [1, 0]);
    assert!(desk.seen().grid.columns.hidden[0]);
    assert!(desk.notice().contains("unterminated"));
    assert_eq!(desk.workspace.delimiter_mode, DelimiterMode::Comma);
    assert_eq!(desk.workspace.header_mode, HeaderMode::FirstRow);

    let second = prepared(FileId::Original, &table("name,value\nsecond,2\n"), true);
    assert!(desk.workspace.file_opened(Ok(second), automatic).is_some());
    assert_eq!(desk.seen().grid.rows[0].fields[0], b"second");
    assert_eq!(desk.workspace.delimiter_mode, DelimiterMode::Auto);
    assert_eq!(desk.workspace.header_mode, HeaderMode::Auto);

    let first = prepared(FileId::Original, &desk.original, true);
    desk.workspace.file_opened(Ok(first), automatic);
    desk.workspace.dropped(None, 1);
    assert_eq!(desk.seen().grid.columns.order, [0, 1]);
    assert!(desk.seen().grid.columns.hidden.iter().all(|hidden| !hidden));
    assert!(desk.notice().contains("ignored 1"));
    desk.workspace.nothing_dropped(1);
    assert_eq!(desk.seen().grid.rows[0].fields[0], b"first");
    assert!(desk.notice().contains("local file"));
}

#[test]
fn reload_uses_applied_format_and_reopen_uses_draft() {
    let mut desk = Desk::new(table("name,value\nfirst,1\n"), true);
    desk.workspace.format_draft = Some((DelimiterMode::Tab, HeaderMode::NoHeader));
    match desk.workspace.reload_document() {
        Request::Open { options, format } => {
            assert_eq!(options.delimiter, Some(b','));
            assert_eq!(options.header_mode, HeaderMode::FirstRow);
            assert_eq!(format, None);
        }
        other => panic!("{other:?}"),
    }
    desk.original = vec![fields(&["name\tvalue"]), fields(&["second\t2"])];
    desk.open();
    assert_eq!(desk.seen().grid.headers, ["name\tvalue"]);
    assert_eq!(desk.seen().grid.rows[0].fields[0], b"second\t2");
    assert_eq!(desk.workspace.delimiter_mode, DelimiterMode::Auto);
    assert_eq!(desk.workspace.header_mode, HeaderMode::Auto);
    assert_eq!(desk.workspace.format_draft, None);

    let format = match desk.workspace.reopen_document(DelimiterMode::Tab, HeaderMode::NoHeader) {
        Request::Open { options, format } => {
            assert_eq!(options.delimiter, Some(b'\t'));
            assert_eq!(options.header_mode, HeaderMode::NoHeader);
            format
        }
        other => panic!("{other:?}"),
    };
    let next = prepared(FileId::Original, &vec![fields(&["name", "value"]), fields(&["second", "2"])], false);
    desk.workspace.file_opened(Ok(next), format);
    assert_eq!(desk.seen().grid.headers, ["Column 1", "Column 2"]);
    assert_eq!(desk.seen().grid.rows[0].fields, fields(&["name", "value"]));
    assert_eq!(desk.workspace.delimiter_mode, DelimiterMode::Tab);
    assert_eq!(desk.workspace.header_mode, HeaderMode::NoHeader);
    assert_eq!(DelimiterMode::Pipe.delimiter(), Some(b'|'));
    assert_eq!(DelimiterMode::Semicolon.delimiter(), Some(b';'));

    let format = match desk.workspace.reopen_document(DelimiterMode::Comma, HeaderMode::FirstRow) {
        Request::Open { format, .. } => format,
        other => panic!("{other:?}"),
    };
    desk.workspace.file_opened(Err("unterminated quoted field".into()), format);
    assert_eq!(desk.seen().grid.headers, ["Column 1", "Column 2"]);
    assert_eq!(desk.seen().grid.rows[0].fields[0], b"name");
    assert_eq!(desk.workspace.delimiter_mode, DelimiterMode::Tab);
    assert_eq!(desk.workspace.header_mode, HeaderMode::NoHeader);
    assert!(desk.notice().contains("unterminated"));
}
