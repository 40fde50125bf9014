//! A document: edits, moves, filters, searches, saves and structural changes.

use quarry::document::{ChangeKind, Document, SourceInfo};
use quarry::filter::FilterReadOutcome;
use quarry::grid::{logical_viewport_start, max_viewport_start, FilterRead, GridStep, ReadPurpose, RowRead, RowSource};
use quarry::literal::CaseSensitivity;
use quarry::message::MessageSeverity;
use quarry::model::{
    Effect, Failure, FileId, FilterMatch, FilterOperator, FilterPredicate, FilterProgress, FilterQuery,
    FilterReadWindow, IndexProgress, JobProgress, Row, SearchMatch, SearchPosition, SortDirection,
    SOURCE_CHANGED_NOTICE,
};
use quarry::rows::{GridSelection, Modifiers};
use quarry::saving::{ExportOutcome, SaveOutcome, SaveTarget};
use quarry::search::{SearchOutcome, SearchStep};
use quarry::structural::{Change, Preparation, StructuralOutcome, StructuralStep};
use quarry::table::{focused_column, TableEvents};
use std::collections::BTreeSet;

fn row(cells: &[&str]) -> Row {
    Row { fields: cells.iter().map(|cell| cell.as_bytes().to_vec()).collect() }
}

/// A document on rows, the first of which is a header row.
fn unindexed(rows: &[&[&str]]) -> Document {
    Document::prepare(SourceInfo {
        file: FileId::Original,
        file_size: 100,
        has_header: true,
        delimiter: b',',
        first_rows: rows.iter().map(|cells| row(cells)).collect(),
    })
}

fn finish_index(document: &mut Document, rows: u64) {
    let progress =
        IndexProgress { bytes_scanned: 100, rows_scanned: rows, file_size: 100, done: true, cancelled: false };
    document.index_started(progress);
    document.index_progressed(progress);
    let step = document.index_finished(Ok(rows)).unwrap();
    if let GridStep::Read(read) = step {
        answer(document, read);
    }
}

/// A document on rows that are all read and indexed.
fn document(rows: &[&[&str]]) -> Document {
    let mut document = unindexed(rows);
    finish_index(&mut document, rows.len() as u64);
    document
}

/// A document on a header row and so many numbered rows.
fn numbered(rows: u64) -> Document {
    let mut document = Document::prepare(SourceInfo {
        file: FileId::Original,
        file_size: 100,
        has_header: true,
        delimiter: b',',
        first_rows: (0..=rows.min(71)).map(|number| numbered_row(number)).collect(),
    });
    finish_index(&mut document, rows + 1);
    document
}

fn numbered_row(number: u64) -> Row {
    if number == 0 {
        row(&["name", "value"])
    } else {
        row(&[&format!("row{number}"), &format!("{number}")])
    }
}

/// Gives a document the rows that it asks for.
fn answer(document: &mut Document, read: RowRead) {
    let rows = (read.start..read.start + read.count as u64).map(numbered_row).collect();
    document.finish_row_read(read, rows);
}

fn go(document: &mut Document, step: Result<GridStep, String>) {
    if let GridStep::Read(read) = step.unwrap() {
        answer(document, read);
    }
}

fn visible(document: &Document) -> Vec<u64> {
    (0..document.visible_row_count()).map(|index| document.visible_row(index).unwrap().0).collect()
}

fn edit(document: &mut Document, row: u64, column: usize, source: &[u8], value: &str) {
    document.begin_cell_edit(row, column, source.to_vec()).unwrap();
    document.edits.cell_edit.as_mut().unwrap().draft = value.to_owned();
    document.commit_edits();
}

const PEOPLE: &[&[&str]] = &[
    &["name", "city"],
    &["Ada", "London"],
    &["Grace", "Arlington"],
    &["ada", "Oslo"],
];

fn query(column: usize, value: &str) -> FilterQuery {
    FilterQuery {
        predicates: vec![FilterPredicate {
            column,
            operator: FilterOperator::Equals,
            value: value.as_bytes().to_vec(),
        }],
        case_sensitivity: CaseSensitivity::Insensitive,
    }
}

fn scanned(found: u64, done: bool) -> FilterProgress {
    FilterProgress { bytes_scanned: 100, file_size: 100, matches_found: found, done, cancelled: false }
}

#[test]
fn a_document_starts_with_the_first_rows() {
    let document = document(PEOPLE);
    assert_eq!(document.grid.total_columns, 2);
    assert_eq!(document.grid.headers, ["name", "city"]);
    assert_eq!(document.grid.data_start, 1);
    assert_eq!(document.available_rows(), 4);
    assert_eq!(document.available_data_rows(), 3);
    assert_eq!(visible(&document), [1, 2, 3]);
    assert!(!document.is_dirty());
    assert_eq!(document.column_name(1), "city");
}

#[test]
fn a_cell_edit_is_kept_and_forgotten_once_the_cell_is_as_it_was() {
    let mut document = document(PEOPLE);
    edit(&mut document, 1, 0, b"Ada", "Ida");
    assert!(document.is_dirty() && document.has_cell_edits());
    assert_eq!(document.cell_value(1, 0, b"Ada"), b"Ida");
    assert_eq!(document.effective_cell(1, 0).unwrap(), b"Ida");
    assert_eq!(document.source_cell(1, 0).unwrap(), b"Ada");
    assert_eq!(document.row_with_edits(1, &[b"Ada".to_vec(), b"London".to_vec()])[0], b"Ida");
    assert_eq!(document.cell_value(2, 0, b"Grace"), b"Grace");

    edit(&mut document, 1, 0, b"Ada", "Ada");
    assert!(!document.is_dirty());
    assert!(document.edits.cell_edits.is_empty());
}

#[test]
fn a_header_edit_is_kept_and_forgotten_once_the_name_is_as_it_was() {
    let mut document = document(PEOPLE);
    assert!(document.header_is_editable(1));
    document.begin_header_edit(1);
    document.edits.header_edit.as_mut().unwrap().draft = "town".into();
    document.commit_edits();
    assert_eq!(document.grid.headers, ["name", "town"]);
    assert!(document.is_dirty());
    document.rename_header(1, "city".into()).unwrap();
    assert_eq!(document.grid.headers, ["name", "city"]);
    assert!(!document.is_dirty());
    document.rename_header(0, "person".into()).unwrap();
    edit(&mut document, 2, 1, b"Arlington", "Boston");
    document.discard_edits();
    assert!(!document.is_dirty());
    assert_eq!(document.grid.headers, ["name", "city"]);
}

#[test]
fn a_save_blocks_edits() {
    let mut document = document(PEOPLE);
    edit(&mut document, 1, 0, b"Ada", "Ida");
    let request = document.start_save().unwrap();
    assert_eq!(request.target, SaveTarget::InPlace);
    assert_eq!(request.cell_edits.get(&(1, 0)).unwrap(), b"Ida");
    document.save_started(true, Ok(())).unwrap();
    assert!(!document.header_is_editable(0));
    assert!(!document.cell_is_editable(Some(b"Ada")));
    assert!(document.cell_edit_disabled_reason(Some(b"Ada")).is_some());
    assert!(document.begin_cell_edit(1, 1, b"London".to_vec()).is_err());
    assert_eq!(document.start_save().unwrap_err().text, "A save operation is already running.");
    document.cancel_save();
    assert_eq!(document.save.status.as_deref(), Some("Cancelling Save…"));
    assert!(document.effects.contains(&Effect::CancelSave));
    assert_eq!(document.save_finished(SaveOutcome::Cancelled), Ok(None));
    assert!(document.is_save_ready());
}

#[test]
fn a_failed_save_keeps_the_edits_and_a_changed_source_freezes_them() {
    let mut document = document(PEOPLE);
    assert_eq!(document.start_save().unwrap_err().text, "Make a change before saving.");
    edit(&mut document, 1, 0, b"Ada", "Ida");
    assert_eq!(document.start_save_as().unwrap().target, SaveTarget::Copy);
    document.save_started(false, Ok(())).unwrap();
    let failure = document.save_finished(SaveOutcome::Failed(Failure::Other("disk full".into()))).unwrap_err();
    assert_eq!(failure.severity, MessageSeverity::Error);
    assert!(document.is_dirty());
    document.save_started(true, Ok(())).unwrap();
    let changed = document.save_finished(SaveOutcome::Failed(Failure::SourceChanged)).unwrap_err();
    assert_eq!(changed.text, SOURCE_CHANGED_NOTICE);
    assert!(document.source_changed);
    assert_eq!(document.cell_value(1, 0, b"Ada"), b"Ida");
    assert_eq!(document.start_save().unwrap_err().text, SOURCE_CHANGED_NOTICE);
    assert_eq!(document.visible_row_count(), 0);
}

#[test]
fn a_complete_save_says_whether_it_was_in_place() {
    let mut document = document(PEOPLE);
    document.rename_header(0, "person".into()).unwrap();
    let request = document.start_save_as().unwrap();
    assert_eq!(request.renames.get(&0).unwrap(), b"person");
    document.save_started(false, Ok(())).unwrap();
    assert_eq!(document.save_finished(SaveOutcome::Complete), Ok(Some(false)));
}

#[test]
fn moves_reach_every_row_and_read_what_is_not_at_hand() {
    let mut document = numbered(250);
    let height = document.grid.visible_rows as u64;
    let mut seen = document.grid.viewport_start;
    assert_eq!(seen, 1);
    for _ in 0..20 {
        let step = document.page(1);
        go(&mut document, step);
        let start = document.grid.viewport_start;
        assert!(start >= seen);
        seen = start;
        assert_eq!(visible(&document)[0], start);
        assert!(document.grid.rows.len() <= document.grid.visible_rows + 32);
    }
    assert_eq!(seen, 251 - height);
    assert_eq!(*visible(&document).last().unwrap(), 250);
    let step = document.navigate(100);
    go(&mut document, step);
    assert_eq!(document.visible_row(0).unwrap().1[0], b"row100");
    let step = document.scroll_rows(-1_000);
    go(&mut document, step);
    assert_eq!(document.grid.viewport_start, 1);
    let step = document.set_visible_rows(200);
    go(&mut document, step);
    assert_eq!(document.visible_row_count(), 200);
}

#[test]
fn a_read_asks_for_a_window_around_the_page() {
    let mut document = numbered(5_000);
    match document.navigate(1_000).unwrap() {
        GridStep::Read(read) => {
            assert_eq!(read.viewport_start, 1_000);
            assert_eq!(read.start, 984);
            assert_eq!(read.count, document.grid.visible_rows + 32);
            assert_eq!(read.source, RowSource::Index);
            assert_eq!(read.purpose, ReadPurpose::Viewport);
            answer(&mut document, read);
        }
        other => panic!("{other:?}"),
    }
    assert_eq!(document.navigate(1_001), Ok(GridStep::Covered));
}

fn row_for_scroll_fraction(fraction: f64, data_start: u64, total_rows: u64, visible_rows: usize) -> u64 {
    let maximum = max_viewport_start(total_rows, visible_rows);
    let relative = (fraction.clamp(0.0, 1.0) * maximum as f64).round() as u64;
    logical_viewport_start(data_start.saturating_add(relative.min(maximum)), data_start, total_rows, visible_rows)
}

#[test]
fn logical_scrollbar_maps_the_full_row_range() {
    let data_start = 1;
    let total_rows = 1_000;
    let visible_rows = 100;

    assert_eq!(row_for_scroll_fraction(0.0, data_start, total_rows, visible_rows), 1);
    assert_eq!(row_for_scroll_fraction(0.5, data_start, total_rows, visible_rows), 451);
    assert_eq!(row_for_scroll_fraction(1.0, data_start, total_rows, visible_rows), 901);

    assert_eq!(max_viewport_start(10, 100), 0);
    assert_eq!(row_for_scroll_fraction(1.0, data_start, 10, 100), data_start);
    assert_eq!(logical_viewport_start(u64::MAX, data_start, 10, 100), data_start);
}

#[test]
fn logical_scrollbar_is_monotonic_at_117_million_rows() {
    let data_start = 1;
    let total_rows = 117_168_829;
    let visible_rows = 24;
    let final_row = data_start + total_rows - visible_rows as u64;
    assert_eq!(row_for_scroll_fraction(1.0, data_start, total_rows, visible_rows), final_row);

    let mut previous = data_start;
    for step in 0..=10_000 {
        let row = row_for_scroll_fraction(step as f64 / 10_000.0, data_start, total_rows, visible_rows);
        assert!(row >= previous);
        assert!(row <= final_row);
        previous = row;
    }
    assert_eq!(previous, final_row);
    assert_eq!(row_for_scroll_fraction(1.0, 1, u64::MAX, 1), u64::MAX);
}

#[test]
fn a_filter_shows_its_matches_and_blocks_row_deletion() {
    let mut document = document(PEOPLE);
    document.select_rows(
        {
            let mut rows = document.selection.rows.clone();
            rows.select(1, Modifiers { shift: false, command: false });
            rows
        },
        Some(1),
    );
    assert!(document.row_is_selected(1));
    let asked = query(0, "Ada");
    document.start_filter(&asked).unwrap();
    document.filter_started(asked, scanned(0, false), 0);
    assert!(document.selection.rows.is_empty());
    assert!(document.selection.selection.is_none());
    assert_eq!(
        document.start_delete_rows(vec![1..=1]).unwrap_err().text,
        "Clear the filter before editing the document."
    );
    assert!(document.structural.job.is_none());
    assert!(document.working_copy.is_none());

    assert!(document.filter_snapshot_wanted(scanned(2, true)));
    let step = document.filter_scanned(scanned(2, true), Some(2)).unwrap();
    let window = FilterReadWindow { start_match: 0, count: 2 };
    match step {
        GridStep::ReadMatches(read) => {
            assert_eq!(read.window, window);
            document.filter_read_started(read);
        }
        other => panic!("{other:?}"),
    }
    document.filter_finished(Ok(2)).unwrap();
    assert!(document.filter_rows_loading());
    let matches = vec![
        FilterMatch { row: 1, fields: row(&["Ada", "London"]).fields },
        FilterMatch { row: 3, fields: row(&["ada", "Oslo"]).fields },
    ];
    document.filter_read_finished(FilterReadOutcome::Complete(matches)).unwrap();
    assert_eq!(visible(&document), [1, 3]);
    assert_eq!(document.available_filter_rows(), 2);
    assert!(document.is_filtered_export_ready());

    let step = document.clear_filter();
    go(&mut document, step);
    assert!(!document.filter_active());
    assert_eq!(visible(&document), [1, 2, 3]);
}

#[test]
fn the_latest_request_for_matches_wins() {
    let mut document = document(PEOPLE);
    let asked = query(0, "x");
    document.start_filter(&asked).unwrap();
    document.filter_started(asked, scanned(0, false), 0);
    go_matches(&mut document, scanned(10_000, true));
    document.filter_finished(Ok(10_000)).unwrap();
    document.navigate_filter(5_000).unwrap();
    document.navigate_filter(7_000).unwrap();
    assert!(document.filter.read.unwrap().cancel_requested);
    assert!(document.effects.contains(&Effect::CancelFilterRead));
    match document.filter_read_finished(FilterReadOutcome::Cancelled).unwrap() {
        GridStep::ReadMatches(FilterRead { window, .. }) => {
            assert!(window.start_match <= 7_000);
            assert!(7_000 < window.start_match + window.count as u64);
        }
        other => panic!("{other:?}"),
    }
}

fn go_matches(document: &mut Document, progress: FilterProgress) {
    let found = progress.matches_found;
    if let GridStep::ReadMatches(read) = document.filter_scanned(progress, Some(found)).unwrap() {
        document.filter_read_started(read);
    }
}

#[test]
fn a_filter_that_cannot_start_says_why() {
    let mut document = document(PEOPLE);
    let none = FilterQuery { predicates: Vec::new(), case_sensitivity: CaseSensitivity::Sensitive };
    assert_eq!(document.start_filter(&none).unwrap_err(), "Add at least one filter rule.");
    assert_eq!(
        document.start_filter(&query(2, "x")).unwrap_err(),
        "Rule 1: File column must be between 1 and 2."
    );
    let empty = FilterQuery {
        predicates: vec![FilterPredicate { column: 0, operator: FilterOperator::Contains, value: Vec::new() }],
        case_sensitivity: CaseSensitivity::Sensitive,
    };
    assert_eq!(document.start_filter(&empty).unwrap_err(), "Rule 1: enter text for a Contains filter.");
    edit(&mut document, 1, 0, b"Ada", "Ida");
    assert_eq!(
        document.start_filter(&query(0, "x")).unwrap_err(),
        "Save or discard cell edits before filtering the source file."
    );
}

#[test]
fn an_export_tells_how_it_ended() {
    let mut document = document(PEOPLE);
    assert!(document.start_filtered_export().is_err());
    let asked = query(0, "Ada");
    document.start_filter(&asked).unwrap();
    document.filter_started(asked, scanned(0, false), 0);
    document.filter_scanned(scanned(0, true), None).unwrap();
    document.filter_finished(Ok(0)).unwrap();
    document.start_filtered_export().unwrap();
    let progress = JobProgress { bytes_scanned: 0, total_bytes: 100, done: false, cancelled: false };
    document.export_started(progress);
    assert!(document.work_runs());
    document.cancel_filtered_export();
    assert!(document.export.cancel_requested);
    document.export_finished(ExportOutcome::Cancelled).unwrap();
    document.start_filtered_export().unwrap();
    document.export_started(progress);
    assert_eq!(document.export_finished(ExportOutcome::Failed("no room".into())), Err("no room".into()));
    assert_eq!(document.export.status.as_deref(), Some("Export failed. No output file was created."));
    document.start_filtered_export().unwrap();
    document.export_started(progress);
    let done = ExportOutcome::Complete { rows_written: 2, bytes_written: 30, destination: "/tmp/out.csv".into() };
    document.export_finished(done).unwrap();
    assert_eq!(
        document.export.status.as_deref(),
        Some("Export complete: 2 rows (30.00 B) saved to /tmp/out.csv.")
    );
    assert!(!document.work_runs());
}

#[test]
fn a_search_goes_forward_and_back_over_what_it_found() {
    let mut document = document(PEOPLE);
    let case = CaseSensitivity::Insensitive;
    assert_eq!(document.start_find_next_with_case(b"", case), Err("Enter text to find.".into()));
    assert_eq!(
        document.start_find_next_with_case(b"ada", case),
        Ok(SearchStep::Start(SearchPosition { row: 1, column: 0 }))
    );
    document.search_started();
    assert_eq!(
        document.start_find_next_with_case(b"ada", case),
        Err("A search is already running.".into())
    );
    document.search_finished(SearchOutcome::Match(SearchMatch { row: 1, column: 0 })).unwrap();
    assert_eq!(document.selection.selection, Some(GridSelection::Cell { row: 1, column: 0 }));
    assert_eq!(
        document.start_find_next_with_case(b"ada", case),
        Ok(SearchStep::Start(SearchPosition { row: 1, column: 1 }))
    );
    document.search_started();
    document.search_finished(SearchOutcome::Match(SearchMatch { row: 3, column: 0 })).unwrap();
    assert!(document.can_find_previous_with_case(b"ada", case));
    document.start_find_previous_with_case(b"ada", case).unwrap();
    assert_eq!(document.selection.selection, Some(GridSelection::Cell { row: 1, column: 0 }));
    assert!(!document.can_find_previous_with_case(b"ada", case));
    assert!(matches!(document.start_find_next_with_case(b"ada", case), Ok(SearchStep::Move(_))));
    assert_eq!(document.selection.selection, Some(GridSelection::Cell { row: 3, column: 0 }));
    // Another mode starts over.
    assert_eq!(
        document.start_find_next_with_case(b"ada", CaseSensitivity::Sensitive),
        Ok(SearchStep::Start(SearchPosition { row: 1, column: 0 }))
    );
    document.search_started();
    document.search_finished(SearchOutcome::NotFound).unwrap();
    assert_eq!(document.search.status.as_deref(), Some("No further matches."));
    assert_eq!(
        document.search_finished(SearchOutcome::Failed("gone".into())),
        Err("gone".into())
    );
}

#[test]
fn the_current_match_is_replaced_in_its_whole_cell() {
    let mut document = document(&[&["word"], &["banana"], &["an an"]]);
    let case = CaseSensitivity::Sensitive;
    document.start_find_next_with_case(b"an", case).unwrap();
    document.search_started();
    document.search_finished(SearchOutcome::Match(SearchMatch { row: 1, column: 0 })).unwrap();
    assert!(document.can_replace_current_with_case(b"an", case));
    let step = document.replace_current_match_with_case(b"an", b"-", case).unwrap();
    assert_eq!(step, SearchStep::Start(SearchPosition { row: 1, column: 1 }));
    assert_eq!(document.effective_cell(1, 0).unwrap(), b"b--a");
    assert_eq!(document.effective_cell(2, 0).unwrap(), b"an an");
    assert_eq!(
        document.replace_current_match_with_case(b"xy", b"-", case),
        Err("Find a current match before replacing it.".into())
    );
}

/// Makes a change of a document as the outside would, up to its end.
fn make(document: &mut Document, kind: ChangeKind, selected: BTreeSet<usize>, outcome: StructuralOutcome) -> StructuralStep {
    while document.next_preparation() != Preparation::Ready {
        match document.next_preparation() {
            Preparation::GuardOriginal => document.original_guarded(Ok(())).unwrap(),
            _ => document.directory_created(Ok(())).unwrap(),
        }
    }
    let prepared = document.prepare_materialization();
    document.change_started(kind, selected, prepared.undo, prepared.destination, Ok(())).unwrap();
    document.structural_finished(outcome).unwrap()
}

#[test]
fn columns_are_moved_deleted_and_combined() {
    let mut document = document(&[&["a", "b", "c", "d"], &["1", "2", "3", "4"]]);
    let plan = document.start_move_columns(vec![3, 1], 0).unwrap().unwrap();
    assert_eq!(plan.change, Change::Arrange { source_width: 4, output_columns: vec![1, 3, 0, 2] });
    assert_eq!(plan.selected_columns, BTreeSet::from([0, 1]));
    assert_eq!(document.start_move_columns(vec![1], 1).unwrap(), None);
    assert_eq!(document.structural.status.as_deref(), Some("Columns are already in that position."));
    assert_eq!(
        document.start_move_columns(vec![1], 4).unwrap_err().text,
        "Destination position must be between 1 and 4."
    );
    let plan = document.start_delete_columns(vec![3, 2]).unwrap().unwrap();
    assert_eq!(plan.change, Change::Arrange { source_width: 4, output_columns: vec![0, 1] });
    assert_eq!(plan.selected_columns, BTreeSet::from([1]));
    assert_eq!(
        document.start_delete_columns(vec![0, 1, 2, 3]).unwrap_err().text,
        "At least one column must remain."
    );
    document.rename_header(2, "cc".into()).unwrap();
    let plan = document.start_combine(vec![2, 0], b"-".to_vec()).unwrap();
    assert_eq!(
        plan.change,
        Change::Join {
            source_columns: vec![2, 0],
            separator: b"-".to_vec(),
            output_header: Some(b"cc".to_vec())
        }
    );
    assert_eq!(plan.selected_columns, BTreeSet::from([0]));
    assert_eq!(
        document.start_combine(vec![2], b"-".to_vec()).unwrap_err().text,
        "Select at least two columns to combine."
    );
    assert_eq!(document.current_header_fields()[2], b"cc");
}

#[test]
fn a_split_is_measured_before_it_is_made() {
    let mut document = document(&[&["pair", "x"], &["a-b", "1"]]);
    assert_eq!(
        document.start_split(5, b"-".to_vec(), 100).unwrap_err().text,
        "Column 6 is outside this file."
    );
    assert_eq!(
        document.start_split(0, Vec::new(), 100).unwrap_err().text,
        "Enter a non-empty separator."
    );
    assert_eq!(
        document.start_split(0, b"-".to_vec(), 2).unwrap_err().text,
        "Splitting would exceed the 2-column file limit."
    );
    let analysis = document.start_split(0, b"-".to_vec(), 100).unwrap();
    assert_eq!((analysis.source_column, analysis.max_pieces), (0, 99));
    document.split_analysis_started(0, b"-".to_vec(), Ok(())).unwrap();
    assert!(document.active_job().is_some());
    match document.structural_finished(StructuralOutcome::Measured { max_pieces: 2 }).unwrap() {
        StructuralStep::Plan(plan) => assert_eq!(
            plan.change,
            Change::Split {
                source_column: 0,
                separator: b"-".to_vec(),
                pieces: 2,
                source_header: Some(b"pair".to_vec())
            }
        ),
        other => panic!("{other:?}"),
    }
}

#[test]
fn a_finished_change_can_be_undone_and_a_cancelled_one_leaves_no_trace() {
    let mut document = document(PEOPLE);
    edit(&mut document, 1, 0, b"Ada", "Ida");
    let plan = document.start_sort_rows_with_case(1, SortDirection::Descending, CaseSensitivity::Sensitive).unwrap();
    assert_eq!(
        make(&mut document, plan.kind, plan.selected_columns, StructuralOutcome::Cancelled),
        StructuralStep::Nothing
    );
    assert_eq!(document.structural.status.as_deref(), Some("Sort cancelled. The document was not changed."));
    assert!(document.effects.contains(&Effect::RemoveFile(FileId::Generation(1))));
    assert!(!document.can_undo_structural());

    let plan = document.start_delete_rows(vec![1..=2]).unwrap();
    assert_eq!(plan.kind, ChangeKind::DeleteRows { count: 2 });
    let step = make(&mut document, plan.kind, plan.selected_columns, StructuralOutcome::Complete { replacements: 0 });
    match step {
        StructuralStep::Install(ready) => {
            assert_eq!(ready.notice, "Deleted 2 rows. Save to keep it, or discard changes.");
            assert!(matches!(ready.file, FileId::Generation(_)));
        }
        other => panic!("{other:?}"),
    }
    let undo = document.working_copy.as_ref().unwrap().undo.as_ref().unwrap();
    assert_eq!(undo.file, FileId::Original);
    assert_eq!(undo.overlay.cell_edits.get(&(1, 0)).unwrap(), b"Ida");
}

#[test]
fn a_source_that_is_missing_freezes_the_document() {
    let mut document = document(PEOPLE);
    document.start_combine(vec![0, 1], b" ".to_vec()).unwrap();
    assert_eq!(document.next_preparation(), Preparation::GuardOriginal);
    let refusal = document.original_guarded(Err(Failure::Missing("gone".into()))).unwrap_err();
    assert_eq!(refusal.text, SOURCE_CHANGED_NOTICE);
    assert!(document.source_changed);
    assert!(document.working_copy.is_none());
}

#[test]
fn replacing_everywhere_needs_two_different_texts() {
    let mut document = document(PEOPLE);
    let case = CaseSensitivity::Insensitive;
    assert_eq!(
        document.start_replace_all_with_case(b"", b"x", case).unwrap_err().text,
        "Enter text to find."
    );
    assert_eq!(document.start_replace_all_with_case(b"x", b"x", case), Ok(None));
    let plan = document.start_replace_all_with_case(b"ada", b"Ida", case).unwrap().unwrap();
    assert_eq!(
        make(&mut document, plan.kind, plan.selected_columns, StructuralOutcome::NoMatch),
        StructuralStep::Nothing
    );
    assert!(document.structural.job.is_none());
}

#[test]
fn sorting_needs_the_index_and_its_space_is_bounded() {
    let mut fresh = unindexed(PEOPLE);
    assert_eq!(fresh.sort_space(), None);
    assert_eq!(
        fresh.start_sort_rows_with_case(0, SortDirection::Ascending, CaseSensitivity::Sensitive).unwrap_err().text,
        "Wait for indexing to finish so Quarry can calculate temporary disk space."
    );
    finish_index(&mut fresh, 4);
    let (bytes, rows) = fresh.sort_space().unwrap();
    assert_eq!(rows, 3);
    assert!(bytes >= 100);
    edit(&mut fresh, 1, 0, b"Ada", "a much longer name");
    assert!(fresh.sort_space().unwrap().0 > bytes);
}

#[test]
fn hidden_columns_leave_the_selection() {
    let mut document = document(&[&["a", "b", "c", "d", "e", "f"], &["1", "2", "3", "4", "5", "6"]]);
    document.move_column(5, 1).unwrap();
    document.set_column_shown(1, false).unwrap();
    document.selection.columns = BTreeSet::from([2, 3, 5]);
    document.selection.anchor = Some(5);

    document.set_column_shown(5, false).unwrap();
    assert_eq!(document.selection.columns, BTreeSet::from([2, 3]));
    assert_eq!(document.selection.anchor, Some(2));
    document.set_column_shown(2, false).unwrap();
    assert_eq!(document.selection.columns, BTreeSet::from([3]));
    assert_eq!(document.selection.anchor, Some(3));
    document.set_column_shown(3, false).unwrap();
    assert!(document.selection.columns.is_empty());
    assert_eq!(document.selection.anchor, None);

    assert_eq!(document.grid.headers, ["a", "e"]);
    document.reset_columns();
    assert_eq!(document.grid.headers, ["a", "b", "c", "d", "e", "f"]);
    assert_eq!(
        document.set_column_shown(6, true).unwrap_err(),
        "File column must be between 1 and 6."
    );
    assert_eq!(
        document.move_column(0, 6).unwrap_err(),
        "Display position must be between 1 and 6."
    );
}

#[test]
fn a_row_is_copied_in_file_order() {
    let mut document = document(PEOPLE);
    document.move_column(1, 0).unwrap();
    document.select_cell(GridSelection::Row { row: 2 });
    assert_eq!(document.copy_selection_text().unwrap(), "Grace\tArlington");
    edit(&mut document, 2, 0, b"Grace", "G\"H");
    document.select_cell(GridSelection::Cell { row: 2, column: 0 });
    assert_eq!(document.copy_selection_text().unwrap(), "G\"H");
}

#[test]
fn later_wider_rows_expand_the_columns() {
    let mut document = numbered(250);
    match document.navigate(200).unwrap() {
        GridStep::Read(read) => {
            let mut rows: Vec<Row> = (0..read.count).map(|_| row(&["a", "b"])).collect();
            rows[3] = row(&["a", "b", "c", "d"]);
            document.finish_row_read(read, rows);
        }
        other => panic!("{other:?}"),
    }
    assert_eq!(document.grid.total_columns, 4);
    assert_eq!(document.grid.headers.len(), 4);
    assert_eq!(document.column_name(3), "Column 4");
}

#[test]
fn columns_are_found_by_their_names() {
    let document = document(&[&["\u{c4}RGER", "plain"], &["1", "2"]]);
    assert_eq!(document.managed_positions(" \u{e4}rg "), [0]);
    assert_eq!(document.managed_positions(""), [0, 1]);
    assert_eq!(document.managed_positions("nothing"), Vec::<usize>::new());
}

#[test]
fn a_table_that_nothing_happened_in_changes_nothing() {
    let mut document = document(PEOPLE);
    document.begin_header_edit(0);
    let (header, cell) = document.take_edits();
    assert!(header.is_some() && cell.is_none());
    document.finish_table(
        header,
        cell,
        TableEvents {
            cancel_header: false,
            commit_header: false,
            cancel_cell: false,
            commit_cell: false,
            begin_header: None,
            begin_cell: false,
            restore_focus: None,
        },
    );
    assert_eq!(document.edits.header_edit.as_ref().unwrap().draft, "name");
    assert!(!document.is_dirty());
}

#[test]
fn stopping_a_document_stops_all_its_work() {
    let mut document = unindexed(PEOPLE);
    document.index_started(IndexProgress {
        bytes_scanned: 0,
        rows_scanned: 0,
        file_size: 100,
        done: false,
        cancelled: false,
    });
    document.search_started();
    document.shutdown();
    assert!(!document.work_runs());
    assert!(document.effects.contains(&Effect::CancelSearch));
    assert!(document.effects.contains(&Effect::DropIndexing));
}

#[test]
fn the_column_in_focus_is_found_among_those_shown() {
    let mut document = document(&[&["a", "b", "c", "d"], &["1", "2", "3", "4"]]);
    document.move_column(3, 0).unwrap();
    document.set_column_shown(1, false).unwrap();
    assert_eq!(document.focused_place(Some(3)), Some(0));
    assert_eq!(document.focused_place(Some(2)), Some(2));
    assert_eq!(document.focused_place(Some(1)), None);
    assert_eq!(document.focused_place(Some(9)), None);
    assert_eq!(document.focused_place(None), None);

    document.begin_cell_edit(1, 2, b"3".to_vec()).unwrap();
    let (_, cell) = document.take_edits();
    document.begin_header_edit(0);
    let (header, _) = document.take_edits();
    let (header, cell) = (header.as_ref(), cell.as_ref());
    assert_eq!(focused_column(Some((1, 3)), Some(4), Some((1, 5)), header, cell), Some(3));
    assert_eq!(focused_column(None, Some(4), Some((1, 5)), header, cell), Some(4));
    assert_eq!(focused_column(None, None, Some((1, 5)), header, cell), Some(5));
    assert_eq!(focused_column(None, None, None, header, cell), Some(0));
    assert_eq!(focused_column(None, None, None, None, cell), Some(2));
    assert_eq!(focused_column(None, None, None, None, None), None);
}
