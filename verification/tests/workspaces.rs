//! The editor around the document.

use quarry::actions::Request;
use quarry::dialogs::{ColumnCommand, FilterRuleDraft, StructuralDialog, StructuralDialogAction};
use quarry::document::{Document, SourceInfo};
use quarry::format::{DelimiterMode, HeaderMode, OpenOptions};
use quarry::grid::GridStep;
use quarry::jobs::{Action, ActiveJobKind};
use quarry::menus::{document_menu, find_controls, format_label, toggled_format_draft};
use quarry::message::{AppMessage, MessageSeverity};
use quarry::model::{
    Effect, Failure, FileId, FilterOperator, FilterProgress, IndexProgress, JobProgress, Row, SearchMatch,
    SortDirection, SOURCE_CHANGED_NOTICE,
};
use quarry::rows::Modifiers;
use quarry::saving::{ExportOutcome, SaveOutcome, SaveTarget};
use quarry::search::SearchOutcome;
use quarry::structural::{Change, Preparation, StructuralOutcome, StructuralStep};
use quarry::workspace::Workspace;
use std::collections::BTreeSet;

fn opened(file: FileId, rows: &[&[&str]]) -> Document {
    let mut document = Document::prepare(SourceInfo {
        file,
        file_size: 100,
        has_header: true,
        delimiter: b',',
        first_rows: rows
            .iter()
            .map(|cells| Row { fields: cells.iter().map(|cell| cell.as_bytes().to_vec()).collect() })
            .collect(),
    });
    let progress = IndexProgress {
        bytes_scanned: 100,
        rows_scanned: rows.len() as u64,
        file_size: 100,
        done: true,
        cancelled: false,
    };
    document.index_started(progress);
    document.index_progressed(progress);
    document.index_finished(Ok(rows.len() as u64)).unwrap();
    document
}

const PEOPLE: &[&[&str]] = &[&["name", "city"], &["Ada", "London"], &["Grace", "Arlington"]];

fn editor() -> Workspace {
    let mut workspace = Workspace::new();
    let retired = workspace.file_opened(
        Ok(opened(FileId::Original, PEOPLE)),
        Some((DelimiterMode::Auto, HeaderMode::Auto)),
    );
    assert!(retired.is_none());
    workspace
}

fn edit(workspace: &mut Workspace, row: u64, column: usize, source: &str, value: &str) {
    let document = workspace.document.as_mut().unwrap();
    document.begin_cell_edit(row, column, source.as_bytes().to_vec()).unwrap();
    document.edits.cell_edit.as_mut().unwrap().draft = value.to_owned();
    document.commit_edits();
}

fn notice(workspace: &Workspace) -> &str {
    &workspace.notice.as_ref().unwrap().text
}

fn footer(workspace: &Workspace) -> &str {
    &workspace.footer_status.as_ref().unwrap().text
}

/// Makes a change that was asked for, and shows its file.
fn make(workspace: &mut Workspace, request: Request, file: u64, rows: &[&[&str]]) {
    let plan = match request {
        Request::Change(plan) => plan,
        other => panic!("{other:?}"),
    };
    let document = workspace.document.as_mut().unwrap();
    while document.next_preparation() != Preparation::Ready {
        match document.next_preparation() {
            Preparation::GuardOriginal => document.original_guarded(Ok(())).unwrap(),
            _ => document.directory_created(Ok(())).unwrap(),
        }
    }
    let prepared = document.prepare_materialization();
    assert_eq!(prepared.destination, FileId::Generation(file));
    let started =
        document.change_started(plan.kind, plan.selected_columns, prepared.undo, prepared.destination, Ok(()));
    workspace.change_begun(started, true);
    assert!(workspace.structural_dialog.is_none());
    let document = workspace.document.as_mut().unwrap();
    match document.structural_finished(StructuralOutcome::Complete { replacements: 3 }).unwrap() {
        StructuralStep::Install(ready) => {
            let next = opened(ready.file, rows);
            assert!(workspace.install_materialized_working_copy(ready, Ok(next)).is_some());
        }
        other => panic!("{other:?}"),
    }
}

#[test]
fn an_empty_editor_asks_for_a_file() {
    let mut workspace = Workspace::new();
    assert_eq!(workspace.apply(Action::Choose), Request::PickFile);
    assert_eq!(workspace.apply(Action::PageDown), Request::Nothing);
    assert_eq!(workspace.apply(Action::Save), Request::Nothing);
    assert_eq!(notice(&workspace), "Open a file before saving.");
    assert_eq!(workspace.apply(Action::ChooseSaveAs), Request::Nothing);
    assert_eq!(notice(&workspace), "Open a file before using Save As.");
    assert_eq!(workspace.apply(Action::ChooseFilteredExport), Request::Nothing);
    assert_eq!(notice(&workspace), "Open and filter a file before exporting.");
    assert_eq!(workspace.apply(Action::ReloadFromDisk), Request::Nothing);
    assert_eq!(notice(&workspace), "Open a file first.");
    assert_eq!(workspace.apply(Action::UndoStructuralEdit), Request::Nothing);
    assert_eq!(notice(&workspace), "Open a file before undoing a change.");
    assert_eq!(workspace.copy_selection(), None);
    assert_eq!(notice(&workspace), "Open a file before copying.");
    assert_eq!(workspace.apply_delete_columns(vec![0]), Request::Nothing);
    assert_eq!(notice(&workspace), "Open a file before editing columns.");
    assert_eq!(workspace.apply_delete_rows(vec![1..=1]), Request::Nothing);
    assert_eq!(notice(&workspace), "Open a file before deleting rows.");
    assert_eq!(workspace.notice.as_ref().unwrap().severity, MessageSeverity::Warning);
    assert!(!workspace.close_requested());
}

#[test]
fn unsaved_changes_are_never_lost_unasked() {
    let mut workspace = editor();
    assert!(workspace.check_open().is_ok());
    edit(&mut workspace, 1, 0, "Ada", "Ida");
    assert_eq!(
        workspace.check_open().unwrap_err().text,
        "Discard or save your changes before opening another file."
    );
    assert_eq!(workspace.apply(Action::Choose), Request::Nothing);
    assert_eq!(notice(&workspace), "Discard or save your changes before opening another file.");
    assert_eq!(
        workspace.apply(Action::ReopenWithFormat(DelimiterMode::Tab, HeaderMode::NoHeader)),
        Request::Nothing
    );
    assert!(workspace.close_requested());
    assert!(workspace.close_confirmation_open);
    workspace.keep_editing();
    assert!(!workspace.close_confirmation_open);
    assert_eq!(workspace.document.as_ref().unwrap().cell_value(1, 0, b"Ada"), b"Ida");
    assert!(workspace.discard_and_close().is_some());
    assert!(workspace.document.is_none());
}

#[test]
fn a_file_is_read_again_as_it_was_or_in_another_format() {
    let mut workspace = editor();
    workspace.format_draft = Some((DelimiterMode::Tab, HeaderMode::NoHeader));
    let request = workspace.apply(Action::ReopenWithFormat(DelimiterMode::Tab, HeaderMode::NoHeader));
    assert_eq!(
        request,
        Request::Open {
            options: OpenOptions { delimiter: Some(b'\t'), header_mode: HeaderMode::NoHeader },
            format: Some((DelimiterMode::Tab, HeaderMode::NoHeader))
        }
    );
    assert!(workspace.format_draft.is_none());
    let retired = workspace.file_opened(
        Ok(opened(FileId::Original, PEOPLE)),
        Some((DelimiterMode::Tab, HeaderMode::NoHeader)),
    );
    assert!(retired.is_some());
    assert_eq!(workspace.delimiter_mode, DelimiterMode::Tab);
    assert_eq!(
        workspace.apply(Action::ReloadFromDisk),
        Request::Open {
            options: OpenOptions { delimiter: Some(b','), header_mode: HeaderMode::FirstRow },
            format: None
        }
    );
    assert!(workspace.file_opened(Err("cannot read".into()), None).is_none());
    assert_eq!(notice(&workspace), "cannot read");
    assert_eq!(workspace.delimiter_mode, DelimiterMode::Tab);
    assert!(workspace.document.is_some());
}

#[test]
fn dropped_files_are_counted() {
    let mut workspace = editor();
    workspace.dropped(None, 0);
    assert!(workspace.notice.is_none());
    workspace.dropped(None, 2);
    assert_eq!(notice(&workspace), "Opened one file and ignored 2 additional dropped item(s).");
    workspace.dropped(Some(AppMessage::error("broken.".into())), 1);
    assert_eq!(notice(&workspace), "broken. Ignored 1 additional dropped item(s).");
    assert_eq!(workspace.notice.as_ref().unwrap().severity, MessageSeverity::Error);
    workspace.nothing_dropped(3);
    assert_eq!(notice(&workspace), "Ignored 3 dropped item(s); Quarry can only open a local file.");
}

#[test]
fn a_save_ends_with_the_new_file_or_with_the_old_one() {
    let mut workspace = editor();
    edit(&mut workspace, 1, 0, "Ada", "Ida");
    assert!(workspace.save_key_allowed());
    match workspace.apply(Action::Save) {
        Request::Save(request) => assert_eq!(request.target, SaveTarget::InPlace),
        other => panic!("{other:?}"),
    }
    assert!(workspace.save_begun(true, Ok(())));
    assert!(workspace.check_open().is_err());
    assert!(workspace.close_requested());
    assert!(workspace.close_after_save && !workspace.close_confirmation_open);
    workspace.document.as_mut().unwrap().save_finished(SaveOutcome::Cancelled).unwrap();
    workspace.save_polled(true);
    assert!(!workspace.close_after_save && workspace.close_confirmation_open);

    workspace.close_after_saving();
    assert!(workspace.begin_save(false).is_some());
    assert!(workspace.save_begun(true, Ok(())));
    let (close, retired) = workspace.saved(Ok(opened(FileId::Original, PEOPLE)), true, "/data/a.csv");
    assert!(close && retired.is_some());
    assert_eq!(footer(&workspace), "Saved /data/a.csv.");

    edit(&mut workspace, 1, 0, "Ada", "Ida");
    assert!(workspace.begin_save(true).is_some());
    let (close, retired) = workspace.saved(Err(AppMessage::error("locked".into())), false, "/data/b.csv");
    assert!(!close && retired.is_none());
    assert_eq!(notice(&workspace), "Saved /data/b.csv but could not open it: locked");
    let (close, retired) = workspace.saved(Err(AppMessage::error("gone".into())), true, "/data/a.csv");
    assert!(!close && retired.is_some() && workspace.document.is_none());
    assert_eq!(
        notice(&workspace),
        "Saved /data/a.csv but could not reload it: gone. Reopen the file to continue."
    );
}

#[test]
fn a_save_that_cannot_start_says_why() {
    let mut workspace = editor();
    assert!(workspace.begin_save(false).is_none());
    assert_eq!(notice(&workspace), "Make a change before saving.");
    edit(&mut workspace, 1, 0, "Ada", "Ida");
    assert!(workspace.begin_save(false).is_some());
    assert!(!workspace.save_begun(true, Err(Failure::Other("read only".into()))));
    assert_eq!(notice(&workspace), "read only");
    workspace.close_after_saving();
    workspace.save_failed(AppMessage::error("disk full".into()));
    assert!(workspace.close_confirmation_open);
    assert!(!workspace.save_begun(true, Err(Failure::SourceChanged)));
    assert_eq!(notice(&workspace), SOURCE_CHANGED_NOTICE);
    assert_eq!(workspace.apply(Action::PageDown), Request::Nothing);
    assert_eq!(notice(&workspace), SOURCE_CHANGED_NOTICE);
    assert_eq!(workspace.document.as_ref().unwrap().cell_value(1, 0, b"Ada"), b"Ida");
}

#[test]
fn actions_move_and_search_and_filter() {
    let mut workspace = editor();
    workspace.jump_input = "x".into();
    assert_eq!(workspace.apply(Action::Jump), Request::Nothing);
    assert_eq!(notice(&workspace), "Data row must be a positive whole number.");
    workspace.jump_input = "2".into();
    assert_eq!(workspace.apply(Action::Jump), Request::Nothing);
    assert!(workspace.notice.is_none());
    assert_eq!(workspace.apply(Action::AutoFitColumns), Request::FitColumns);
    assert_eq!(workspace.apply(Action::OpenColumns), Request::ManageColumns);
    assert!(workspace.columns_open);
    assert_eq!(workspace.apply(Action::OpenFilters), Request::Nothing);
    assert!(workspace.filters_open);

    workspace.find_input = "ada".into();
    assert!(matches!(workspace.apply(Action::FindNext), Request::Search(_)));
    workspace.document.as_mut().unwrap().search_started();
    workspace.finish_action(Action::FindNext, Ok(()));
    assert!(workspace.footer_status.is_none());
    let document = workspace.document.as_mut().unwrap();
    document.search_finished(SearchOutcome::Match(SearchMatch { row: 1, column: 0 })).unwrap();
    workspace.work_polled(ActiveJobKind::Search, true);
    assert!(workspace.notice.is_none());
    workspace.replace_input = "Ida".into();
    assert!(matches!(workspace.apply(Action::ReplaceCurrent), Request::Search(_)));
    assert_eq!(workspace.apply(Action::FindPrevious), Request::Nothing);
    assert_eq!(notice(&workspace), "Find at least two matches before moving back.");

    assert_eq!(workspace.apply(Action::ApplyFilter), Request::Nothing);
    assert_eq!(notice(&workspace), "Save or discard cell edits before filtering the source file.");
    assert_eq!(workspace.apply(Action::DiscardChanges), Request::Nothing);
    workspace.filter_rules.push(FilterRuleDraft {
        column_input: "3".into(),
        operator: FilterOperator::Equals,
        value_input: "x".into(),
    });
    assert_eq!(workspace.apply(Action::ApplyFilter), Request::Nothing);
    assert_eq!(notice(&workspace), "Rule 2: File column must be between 1 and 2.");
    workspace.filter_rules.pop();
    workspace.filter_rules[0].value_input = "Ada".into();
    match workspace.apply(Action::ApplyFilter) {
        Request::Filter(query) => {
            assert_eq!(query.predicates[0].value, b"Ada");
            let progress = FilterProgress {
                bytes_scanned: 0,
                file_size: 100,
                matches_found: 0,
                done: false,
                cancelled: false,
            };
            workspace.document.as_mut().unwrap().filter_started(query, progress, 0);
            workspace.finish_action(Action::ApplyFilter, Ok(()));
        }
        other => panic!("{other:?}"),
    }
    assert!(!workspace.find_available() && !workspace.find_key_allowed());
    assert_eq!(workspace.apply(Action::CancelFilter), Request::Nothing);
    assert!(workspace.document.as_ref().unwrap().effects.contains(&Effect::CancelFilter));
    assert_eq!(workspace.apply(Action::ClearFilter), Request::Nothing);
    assert!(workspace.find_available());
}

#[test]
fn an_export_is_asked_for_and_told_of() {
    let mut workspace = editor();
    assert_eq!(workspace.apply(Action::ChooseFilteredExport), Request::PickExport);
    assert!(workspace.begin_export().is_none());
    assert!(workspace.notice.is_some());
    workspace.export_begun(Err("exists".into()));
    assert_eq!(notice(&workspace), "exists");
    workspace.export_begun(Ok(JobProgress { bytes_scanned: 0, total_bytes: 9, done: false, cancelled: false }));
    assert!(workspace.notice.is_none());
    assert!(workspace.document.as_ref().unwrap().runs(ActiveJobKind::Export));
    assert!(workspace.check_open().is_err());
    let document = workspace.document.as_mut().unwrap();
    assert!(document.export_finished(ExportOutcome::Failed("no room".into())).is_err());
    workspace.work_polled(ActiveJobKind::Export, true);
    assert!(notice(&workspace).starts_with("Export failed"));
    assert!(workspace.footer_status.is_none());
}

#[test]
fn a_change_is_undone_and_restored() {
    let mut workspace = editor();
    edit(&mut workspace, 1, 0, "Ada", "Ida");
    workspace.open_structural_dialog(StructuralDialog::combine(vec![0, 1]));
    workspace.structural_dialog.as_mut().unwrap().separator = "-".into();
    let request = workspace.apply_structural_dialog_action(StructuralDialogAction::Apply, 100);
    make(&mut workspace, request, 1, &[&["name"], &["Ida-London"], &["Grace-Arlington"]]);
    assert_eq!(footer(&workspace), "Column edit applied. Save to keep it, or discard changes.");
    let document = workspace.document.as_ref().unwrap();
    assert_eq!(document.source.file, FileId::Generation(1));
    assert_eq!(document.selection.columns, BTreeSet::from([0]));
    assert!(document.is_dirty() && document.can_undo_structural());

    assert_eq!(workspace.apply(Action::UndoStructuralEdit), Request::CheckOriginal);
    let request = workspace.original_checked(Ok(()));
    assert!(matches!(request, Request::OpenState { redo: false, file: FileId::Original, .. }));
    assert!(workspace.history_opened(false, Ok(opened(FileId::Original, PEOPLE))).is_some());
    assert_eq!(footer(&workspace), "Change undone.");
    let document = workspace.document.as_ref().unwrap();
    assert_eq!(document.cell_value(1, 0, b"Ada"), b"Ida");
    assert!(document.can_redo_structural() && !document.can_undo_structural());

    match workspace.apply(Action::RedoStructuralEdit) {
        Request::OpenState { redo: true, file, .. } => assert_eq!(file, FileId::Generation(1)),
        other => panic!("{other:?}"),
    }
    workspace.history_opened(true, Ok(opened(FileId::Generation(1), &[&["name"], &["Ida-London"]])));
    assert_eq!(footer(&workspace), "Change restored.");
    let document = workspace.document.as_ref().unwrap();
    assert!(document.can_undo_structural() && !document.can_redo_structural());
    assert_eq!(document.source.file, FileId::Generation(1));

    // A later edit stands in the way of undo.
    edit(&mut workspace, 1, 0, "Ida-London", "x");
    assert_eq!(workspace.apply(Action::UndoStructuralEdit), Request::Nothing);
    assert_eq!(
        notice(&workspace),
        "Save or discard later header and cell edits before undoing the change."
    );
    match workspace.apply(Action::DiscardChanges) {
        Request::Open { format: None, .. } => {}
        other => panic!("{other:?}"),
    }
}

#[test]
fn an_edit_after_undo_gives_up_redo() {
    let mut workspace = editor();
    let request = workspace.apply_delete_columns(vec![1]);
    make(&mut workspace, request, 1, &[&["name"], &["Ada"], &["Grace"]]);
    workspace.apply(Action::UndoStructuralEdit);
    workspace.history_opened(false, Ok(opened(FileId::Original, PEOPLE)));
    assert!(workspace.document.as_ref().unwrap().can_redo_structural());
    edit(&mut workspace, 1, 0, "Ada", "Ida");
    let document = workspace.document.as_ref().unwrap();
    assert!(!document.can_redo_structural());
    assert!(document.effects.contains(&Effect::RemoveFile(FileId::Generation(1))));
    assert_eq!(workspace.apply(Action::RedoStructuralEdit), Request::Nothing);
    assert_eq!(notice(&workspace), "There is no change to redo.");
}

#[test]
fn undo_is_refused_where_the_first_file_has_changed() {
    let mut workspace = editor();
    assert_eq!(workspace.apply(Action::UndoStructuralEdit), Request::Nothing);
    assert_eq!(notice(&workspace), "There is no change to undo or redo.");
    let request = workspace.apply_delete_rows(vec![1..=1]);
    make(&mut workspace, request, 1, &[&["name", "city"], &["Grace", "Arlington"]]);
    assert_eq!(workspace.apply(Action::UndoStructuralEdit), Request::CheckOriginal);
    assert_eq!(workspace.original_checked(Err(Failure::SourceChanged)), Request::Nothing);
    assert_eq!(notice(&workspace), SOURCE_CHANGED_NOTICE);
    assert!(workspace.document.as_ref().unwrap().source_changed);
}

#[test]
fn dialogs_ask_for_changes() {
    let mut workspace = editor();
    workspace.open_structural_dialog(StructuralDialog::split(0));
    workspace.structural_dialog.as_mut().unwrap().separator = "d".into();
    assert!(matches!(
        workspace.apply_structural_dialog_action(StructuralDialogAction::Apply, 100),
        Request::MeasureSplit(_)
    ));
    assert_eq!(
        workspace.apply_structural_dialog_action(StructuralDialogAction::Cancel, 100),
        Request::Nothing
    );
    assert!(workspace.structural_dialog.is_none());

    workspace.open_structural_dialog(StructuralDialog::sort(1));
    workspace.structural_dialog.as_mut().unwrap().sort_direction = SortDirection::Descending;
    match workspace.apply_structural_dialog_action(StructuralDialogAction::Apply, 100) {
        Request::Change(plan) => assert!(matches!(
            plan.change,
            Change::Sort { column: 1, direction: SortDirection::Descending, .. }
        )),
        other => panic!("{other:?}"),
    }

    workspace.open_structural_dialog(StructuralDialog::move_columns(vec![0]));
    workspace.structural_dialog.as_mut().unwrap().position = "9".into();
    assert_eq!(
        workspace.apply_structural_dialog_action(StructuralDialogAction::Apply, 100),
        Request::Nothing
    );
    assert_eq!(notice(&workspace), "Destination position must be between 1 and 2.");
    assert!(workspace.structural_dialog.is_some());
    workspace.structural_dialog.as_mut().unwrap().position = "1".into();
    assert_eq!(
        workspace.apply_structural_dialog_action(StructuralDialogAction::Apply, 100),
        Request::Nothing
    );
    assert_eq!(footer(&workspace), "Columns are already in that position.");
    assert!(workspace.structural_dialog.is_none());
}

#[test]
fn column_commands_change_the_view() {
    let mut workspace = editor();
    assert_eq!(workspace.apply_column_command(ColumnCommand::AutoFit), Request::FitColumns);
    workspace.apply_column_command(ColumnCommand::SetShown { column: 0, shown: false });
    assert_eq!(workspace.document.as_ref().unwrap().grid.headers, ["city"]);
    workspace.apply_column_command(ColumnCommand::Reset);
    workspace.apply_column_command(ColumnCommand::Move { column: 1, position: 0 });
    assert_eq!(workspace.document.as_ref().unwrap().grid.headers, ["city", "name"]);
    workspace.apply_column_command(ColumnCommand::SetShown { column: 7, shown: true });
    assert_eq!(notice(&workspace), "File column must be between 1 and 2.");
}

#[test]
fn menus_follow_the_document() {
    let mut workspace = editor();
    assert!(!document_menu(workspace.document.as_ref()).dirty);
    assert!(!document_menu(None).can_save);
    edit(&mut workspace, 1, 0, "Ada", "Ida");
    let menu = document_menu(workspace.document.as_ref());
    assert!(menu.dirty && menu.can_save && menu.can_discard && !menu.can_open);
    assert!(find_controls(workspace.document.as_ref().unwrap(), "a", "b", false, false).can_find);
    assert_ne!(
        format_label(true, DelimiterMode::Tab, HeaderMode::Auto, false),
        format_label(true, DelimiterMode::Pipe, HeaderMode::Auto, false)
    );
    let applied = (DelimiterMode::Auto, HeaderMode::Auto);
    assert_eq!(toggled_format_draft(None, applied), Some(applied));
    assert_eq!(toggled_format_draft(Some(applied), applied), None);
}

#[test]
fn the_escape_key_closes_only_the_find_bar() {
    let mut workspace = editor();
    assert!(workspace.find_escape_allowed());
    workspace.columns_open = true;
    assert!(!workspace.find_escape_allowed());
    workspace.columns_open = false;
    workspace.document.as_mut().unwrap().begin_header_edit(0);
    assert!(!workspace.find_escape_allowed());
}

#[test]
fn a_page_is_covered_where_all_rows_are_at_hand() {
    let mut workspace = editor();
    assert_eq!(workspace.document.as_mut().unwrap().navigate(2), Ok(GridStep::Covered));
    assert_eq!(workspace.apply(Action::PageDown), Request::Nothing);
}

#[test]
fn browsing_keeps_what_the_document_holds() {
    let mut workspace = editor();
    edit(&mut workspace, 1, 0, "Ada", "Ida");
    let cells = workspace.document.as_ref().unwrap().edits.cell_edits.clone();
    workspace.jump_input = "2".into();
    workspace.find_input = "ida".into();
    for action in [
        Action::PageDown,
        Action::PageUp,
        Action::Jump,
        Action::FindNext,
        Action::FindPrevious,
        Action::ApplyFilter,
        Action::ClearFilter,
        Action::AutoFitColumns,
        Action::OpenColumns,
        Action::OpenFilters,
        Action::CancelSearch,
        Action::CancelSave,
    ] {
        let request = workspace.apply(action);
        assert!(!matches!(
            request,
            Request::Save(_) | Request::Change(_) | Request::Open { .. } | Request::OpenState { .. }
        ));
        assert_eq!(workspace.document.as_ref().unwrap().edits.cell_edits, cells);
    }
    workspace.apply_column_command(ColumnCommand::Move { column: 1, position: 0 });
    assert_eq!(workspace.document.as_ref().unwrap().edits.cell_edits, cells);
}

#[test]
fn a_document_whose_file_changed_is_left_alone() {
    let mut workspace = editor();
    workspace.document.as_mut().unwrap().source_changed = true;
    let effects = workspace.document.as_ref().unwrap().effects.len();
    for action in [Action::PageDown, Action::FindNext, Action::ReplaceAll, Action::ClearFilter] {
        assert_eq!(workspace.apply(action), Request::Nothing);
        assert_eq!(notice(&workspace), SOURCE_CHANGED_NOTICE);
    }
    assert_eq!(workspace.document.as_ref().unwrap().effects.len(), effects);
}

#[test]
fn a_hidden_column_is_no_longer_selected() {
    let mut workspace = editor();
    let document = workspace.document.as_mut().unwrap();
    document.click_column(0, Modifiers { command: false, shift: false });
    assert_eq!(document.selection.columns, BTreeSet::from([0]));
    workspace.apply_column_command(ColumnCommand::SetShown { column: 0, shown: false });
    assert!(workspace.document.as_ref().unwrap().selection.columns.is_empty());
}
