//! What clicks and keys in the grid do, and which of its columns are drawn.

use crate::columns::{self, after_click};
use crate::document::{no_rows, shown, source_header, Document, DocumentView, EditsView, SelectionView};
use crate::edits::{cell_bytes, cells_edited, committed, header_editable, renamed, with_cell_kept, with_header_open};
use crate::filter::filter_ready;
use crate::literal::CaseSensitivity;
use crate::model::{
    cell_edit_view, header_edit_view, CellEdit, CellEditView, FilterOperator, FilterPredicate, FilterQuery, HeaderEdit,
    HeaderEditView, PredicateView, QueryView,
};
use crate::rows::{first_row, selected_by, GridSelection, Modifiers, RowSelection, RowSelectionView};
use crate::sets;
use crate::structural::structural_reason;
use crate::text;
use std::collections::BTreeSet;
use vstd::prelude::*;
use vstd::utf8::*;

verus! {

/// The most columns that are drawn at once.
pub const MAX_RENDERED_COLUMNS: usize = 64;

/// The columns whose widths are to be fitted, and whether that was asked for since the last
/// look.
#[derive(Debug, PartialEq, Eq)]
pub struct FitQueue {
    pub requested: bool,
    pub waiting: Vec<usize>,
}

/// The columns of a batch that are not hidden.
pub open spec fn shown_of(batch: Seq<usize>, hidden: Seq<bool>) -> Seq<usize> {
    columns::shown_columns(batch, hidden)
}

impl FitQueue {
    pub fn new() -> (queue: Self)
        ensures
            !queue.requested,
            queue.waiting@ == Seq::<usize>::empty(),
    {
        FitQueue { requested: false, waiting: Vec::new() }
    }

    /// Asks for every shown column to be fitted.
    pub fn request(&mut self)
        ensures
            final(self).requested,
            final(self).waiting@ == old(self).waiting@,
    {
        self.requested = true;
    }

    /// Answers a request: where more columns are shown than are drawn at once, or some are
    /// fitted already, all shown columns wait for it. Says whether there was a request.
    pub fn begin(&mut self, visible: &Vec<usize>, some_fitted: bool) -> (requested: bool)
        ensures
            requested == old(self).requested,
            !final(self).requested,
            final(self).waiting@ == if !requested {
                old(self).waiting@
            } else if visible@.len() > MAX_RENDERED_COLUMNS || some_fitted {
                visible@
            } else {
                Seq::empty()
            },
    {
        let requested = self.requested;
        self.requested = false;
        if requested {
            self.waiting = if visible.len() > MAX_RENDERED_COLUMNS || some_fitted {
                visible.clone()
            } else {
                Vec::new()
            };
            proof {
                if visible@.len() > MAX_RENDERED_COLUMNS || some_fitted {
                    assert(self.waiting@ =~= visible@);
                }
            }
        }
        requested
    }

    /// Takes the next columns to fit, at most as many as are drawn at once. Hidden ones are
    /// passed over.
    pub fn next_batch(&mut self, hidden: &Vec<bool>) -> (batch: Vec<usize>)
        requires
            forall|i: int| 0 <= i < old(self).waiting@.len() ==> #[trigger] old(self).waiting@[i] < hidden@.len(),
        ensures
            final(self).requested == old(self).requested,
            ({
                let count = if old(self).waiting@.len() <= MAX_RENDERED_COLUMNS {
                    old(self).waiting@.len() as int
                } else {
                    MAX_RENDERED_COLUMNS as int
                };
                &&& batch@ == shown_of(old(self).waiting@.take(count), hidden@)
                &&& final(self).waiting@ == old(self).waiting@.skip(count)
            }),
    {
        let count: usize = if self.waiting.len() <= MAX_RENDERED_COLUMNS {
            self.waiting.len()
        } else {
            MAX_RENDERED_COLUMNS
        };
        let mut batch: Vec<usize> = Vec::new();
        proof {
            reveal(Seq::filter);
            assert(self.waiting@.take(0) =~= Seq::empty());
        }
        for i in 0..count
            invariant
                count <= self.waiting@.len(),
                *self == *old(self),
                forall|i: int| 0 <= i < self.waiting@.len() ==> #[trigger] self.waiting@[i] < hidden@.len(),
                batch@ == shown_of(self.waiting@.take(i as int), hidden@),
        {
            let column: usize = self.waiting[i];
            proof {
                reveal(Seq::filter);
                let next = self.waiting@.take(i + 1);
                assert(next.drop_last() =~= self.waiting@.take(i as int));
                assert(next.last() == column);
                assert(self.waiting@[i as int] < hidden@.len());
            }
            if !hidden[column] {
                batch.push(column);
            }
        }
        let rest = self.waiting.split_off(count);
        self.waiting = rest;
        assert(self.waiting@ =~= old(self).waiting@.skip(count as int));
        batch
    }
}

/// The places of the columns that are drawn: all of them, or so many around the one in focus,
/// else from just before the first one in view.
pub open spec fn drawn(total_columns: usize, first_visible: usize, focused: Option<usize>) -> (int, int) {
    let most = MAX_RENDERED_COLUMNS as int;
    if total_columns <= most {
        (0, total_columns as int)
    } else {
        let wanted = match focused {
            Some(column) => column - most / 2,
            None => first_visible - 1,
        };
        let start = if wanted < 0 {
            0
        } else if wanted > total_columns - most {
            total_columns - most
        } else {
            wanted
        };
        (start, start + most)
    }
}

/// The places of the columns that are drawn.
pub fn rendered_columns(total_columns: usize, first_visible: usize, focused: Option<usize>) -> (range: (usize, usize))
    ensures
        (range.0 as int, range.1 as int) == drawn(total_columns, first_visible, focused),
{
    if total_columns <= MAX_RENDERED_COLUMNS {
        return (0, total_columns);
    }
    let maximum_start: usize = total_columns - MAX_RENDERED_COLUMNS;
    let wanted: usize = match focused {
        Some(column) => column.saturating_sub(MAX_RENDERED_COLUMNS / 2),
        None => first_visible.saturating_sub(1),
    };
    let start: usize = if wanted <= maximum_start { wanted } else { maximum_start };
    (start, start + MAX_RENDERED_COLUMNS)
}

/// No more columns are drawn than may be, they are columns of the grid, and the one in focus is
/// among them.
pub proof fn lemma_drawn(total_columns: usize, first_visible: usize, focused: Option<usize>)
    ensures
        0 <= drawn(total_columns, first_visible, focused).0 <= drawn(total_columns, first_visible, focused).1
            <= total_columns,
        drawn(total_columns, first_visible, focused).1 - drawn(total_columns, first_visible, focused).0
            <= MAX_RENDERED_COLUMNS,
        focused is Some && focused->0 < total_columns ==> drawn(total_columns, first_visible, focused).0
            <= focused->0 < drawn(total_columns, first_visible, focused).1,
        focused is None && first_visible < total_columns ==> drawn(total_columns, first_visible, focused).0
            <= first_visible < drawn(total_columns, first_visible, focused).1,
{
}

/// The document after a click on the number of a column.
pub open spec fn with_column_clicked(document: DocumentView, column: usize, modifiers: Modifiers) -> DocumentView {
    let (columns, anchor) = after_click(
        shown(document),
        document.selection.columns,
        document.selection.anchor,
        column,
        modifiers,
    );
    DocumentView {
        selection: SelectionView { columns, anchor, selection: None, rows: no_rows(), ..document.selection },
        ..document
    }
}

/// The document once the menu of a column is open: the column is selected, alone where it was
/// not before.
pub open spec fn with_column_menu(document: DocumentView, column: usize) -> DocumentView {
    if document.selection.columns.contains(column) {
        document
    } else {
        DocumentView {
            selection: SelectionView {
                columns: set![column],
                anchor: Some(column),
                selection: None,
                rows: no_rows(),
                ..document.selection
            },
            ..document
        }
    }
}

/// The column of a cell.
pub open spec fn column_of(cell: Option<(u64, usize)>) -> Option<usize> {
    match cell {
        Some((_, column)) => Some(column),
        None => None,
    }
}

/// The first column that is there.
pub open spec fn either(first: Option<usize>, otherwise: Option<usize>) -> Option<usize> {
    if first is Some {
        first
    } else {
        otherwise
    }
}

/// The column that the grid brings into view: that of the cell to be revealed, else the column or
/// that of the cell to be in focus, else that of the header or of the cell being edited.
pub fn focused_column(
    reveal_cell: Option<(u64, usize)>,
    column_focus: Option<usize>,
    cell_focus: Option<(u64, usize)>,
    header: Option<&HeaderEdit>,
    cell: Option<&CellEdit>,
) -> (column: Option<usize>)
    ensures
        column == either(
            column_of(reveal_cell),
            either(
                column_focus,
                either(
                    column_of(cell_focus),
                    match (header, cell) {
                        (Some(edit), _) => Some(edit.column),
                        (None, Some(edit)) => Some(edit.column),
                        (None, None) => None,
                    },
                ),
            ),
        ),
{
    if let Some((_, column)) = reveal_cell {
        Some(column)
    } else if column_focus.is_some() {
        column_focus
    } else if let Some((_, column)) = cell_focus {
        Some(column)
    } else if let Some(edit) = header {
        Some(edit.column)
    } else if let Some(edit) = cell {
        Some(edit.column)
    } else {
        None
    }
}

/// What the menu of the selected columns offers.
#[derive(Debug, PartialEq, Eq)]
pub struct ColumnMenu {
    pub columns: Vec<usize>,
    pub single: Option<usize>,
    pub can_combine: bool,
    pub can_move: bool,
    pub can_delete: bool,
}

/// The row that is active after a click on the number of a row: that row where it is selected,
/// else the first that is.
pub open spec fn active_after(rows: RowSelectionView, row: u64) -> Option<u64> {
    if rows.rows.contains(row) {
        Some(row)
    } else {
        first_row(rows.rows)
    }
}

/// The document with whole rows selected.
pub open spec fn with_rows_selected(document: DocumentView, rows: RowSelectionView, active: Option<u64>) -> DocumentView {
    DocumentView {
        selection: SelectionView {
            selection: match active {
                Some(row) => Some(GridSelection::Row { row }),
                None => None,
            },
            rows,
            columns: Set::empty(),
            anchor: None,
            ..document.selection
        },
        ..document
    }
}

/// The document with a cell or a row selected.
pub open spec fn with_selection(document: DocumentView, selection: GridSelection) -> DocumentView {
    DocumentView {
        selection: SelectionView {
            selection: Some(selection),
            rows: if selection is Cell {
                no_rows()
            } else {
                document.selection.rows
            },
            columns: Set::empty(),
            anchor: None,
            ..document.selection
        },
        ..document
    }
}

/// Rows can be filtered by a cell that the file holds, where nothing stands in the way.
pub open spec fn cell_can_filter(document: DocumentView, held: bool) -> bool {
    held && filter_ready(document) && !cells_edited(document) && !document.search.running && !document.filter.running
        && !document.export.running
}

/// What was done to the edits while the grid was drawn.
#[derive(Clone, Copy, Debug, PartialEq, Eq)]
pub struct TableEvents {
    pub cancel_header: bool,
    pub commit_header: bool,
    pub cancel_cell: bool,
    pub commit_cell: bool,
    pub begin_header: Option<usize>,
    pub begin_cell: bool,
    pub restore_focus: Option<(u64, usize)>,
}

/// The document with a header renamed, where it can be.
pub open spec fn with_rename_tried(document: DocumentView, edit: HeaderEditView) -> DocumentView {
    if header_editable(document, edit.column) {
        renamed(document, edit.column, edit.draft)
    } else {
        document
    }
}

/// The document with the edit of a header, where there is one, kept.
#[verifier::opaque]
pub open spec fn with_header_tried(document: DocumentView, edit: Option<HeaderEditView>) -> DocumentView {
    match edit {
        Some(edit) => with_rename_tried(document, edit),
        None => document,
    }
}

/// The document with the edit of a cell, where there is one, kept.
#[verifier::opaque]
pub open spec fn with_cell_tried(document: DocumentView, edit: Option<CellEditView>) -> DocumentView {
    match edit {
        Some(edit) => with_cell_kept(
            DocumentView { edits: EditsView { cell_edit: Some(edit), ..document.edits }, ..document },
        ),
        None => document,
    }
}

/// The document and the header edit that is still open, once it is kept or given up where that
/// was asked for.
pub open spec fn header_closed(document: DocumentView, header: Option<HeaderEditView>, events: TableEvents) -> (
    DocumentView,
    Option<HeaderEditView>,
) {
    if events.cancel_header {
        (document, None)
    } else if events.commit_header {
        (with_header_tried(document, header), None)
    } else {
        (document, header)
    }
}

/// The document and the cell edit that is still open, once it is kept or given up where that was
/// asked for.
pub open spec fn cell_closed(document: DocumentView, cell: Option<CellEditView>, events: TableEvents) -> (
    DocumentView,
    Option<CellEditView>,
) {
    if events.cancel_cell {
        (document, None)
    } else if events.commit_cell {
        (with_cell_tried(document, cell), None)
    } else {
        (document, cell)
    }
}

/// The document with the edits that are still open put back, or kept where another is begun.
pub open spec fn with_edits_back(
    document: DocumentView,
    header: Option<HeaderEditView>,
    cell: Option<CellEditView>,
    events: TableEvents,
) -> DocumentView {
    match events.begin_header {
        Some(column) => with_header_open(with_header_tried(with_cell_tried(document, cell), header), column),
        None => if events.begin_cell {
            with_cell_tried(with_header_tried(document, header), cell)
        } else {
            DocumentView {
                edits: EditsView { header_edit: header, cell_edit: cell, ..document.edits },
                ..document
            }
        },
    }
}

/// The document once the grid is drawn. The edits that were open stand apart from it while it
/// is.
pub open spec fn after_table(
    before: DocumentView,
    header: Option<HeaderEditView>,
    cell: Option<CellEditView>,
    events: TableEvents,
) -> DocumentView {
    let (first, open_header) = header_closed(before, header, events);
    let (second, open_cell) = cell_closed(first, cell, events);
    let third = with_edits_back(second, open_header, open_cell, events);
    DocumentView { selection: SelectionView { cell_focus: events.restore_focus, ..third.selection }, ..third }
}

/// Drawing the grid without touching an edit leaves the document as it was, but for what is to
/// be in focus.
pub proof fn lemma_untouched_table(document: DocumentView)
    ensures
        ({
            let apart = DocumentView {
                edits: EditsView { header_edit: None, cell_edit: None, ..document.edits },
                ..document
            };
            let quiet = TableEvents {
                cancel_header: false,
                commit_header: false,
                cancel_cell: false,
                commit_cell: false,
                begin_header: None,
                begin_cell: false,
                restore_focus: document.selection.cell_focus,
            };
            after_table(apart, document.edits.header_edit, document.edits.cell_edit, quiet) == document
        }),
{
}

impl Document {
    /// Applies a click on the number of a column.
    pub fn click_column(&mut self, column: usize, modifiers: Modifiers)
        requires
            old(self).wf(),
        ensures
            final(self).wf(),
            final(self)@ == with_column_clicked(old(self)@, column, modifiers),
    {
        let mut selected = self.selection.columns.clone();
        let mut anchor = self.selection.anchor;
        columns::select_column(&self.grid.columns, &mut selected, &mut anchor, column, modifiers);
        self.selection.columns = selected;
        self.selection.anchor = anchor;
        self.selection.selection = None;
        self.selection.rows.clear();
        assert(self@ =~= with_column_clicked(old(self)@, column, modifiers));
    }

    /// Selects a column, alone, where its menu opens and it is not selected.
    pub fn open_column_menu(&mut self, column: usize)
        requires
            old(self).wf(),
        ensures
            final(self).wf(),
            final(self)@ == with_column_menu(old(self)@, column),
    {
        broadcast use crate::sets::group_ordered_keys;

        if !self.selection.columns.contains(&column) {
            let mut selected: BTreeSet<usize> = BTreeSet::new();
            selected.insert(column);
            assert(selected@ =~= set![column]);
            self.selection.columns = selected;
            self.selection.anchor = Some(column);
            self.selection.selection = None;
            self.selection.rows.clear();
        }
        assert(self@ =~= with_column_menu(old(self)@, column));
    }

    /// What the menu of the selected columns offers.
    pub fn column_menu(&self) -> (menu: ColumnMenu)
        ensures
            sets::lists(menu.columns@, self@.selection.columns),
            match menu.single {
                Some(only) => self@.selection.columns == set![only],
                None => forall|only: usize| self@.selection.columns != set![only],
            },
            menu.can_combine == (menu.columns@.len() >= 2),
            menu.can_move == (menu.columns@.len() > 0),
            menu.can_delete == (0 < menu.columns@.len() < self@.grid.total_columns),
    {
        let columns = sets::listing(&self.selection.columns);
        let single = columns::selected_split_column(&self.selection.columns);
        let count: usize = columns.len();
        ColumnMenu {
            columns,
            single,
            can_combine: count >= 2,
            can_move: count > 0,
            can_delete: count > 0 && count < self.grid.total_columns,
        }
    }

    /// The rows that a click on the number of a row selects, and the one that is then active.
    pub fn click_row(&self, row: u64, modifiers: Modifiers) -> (selection: (RowSelection, Option<u64>))
        requires
            self.wf(),
        ensures
            selection.0.wf(),
            selection.0@ == selected_by(self@.selection.rows, row, modifiers),
            selection.1 == active_after(selection.0@, row),
    {
        let mut rows = self.selection.rows.clone();
        rows.select(row, modifiers);
        let active: Option<u64> = if rows.contains(row) {
            Some(row)
        } else {
            rows.first()
        };
        (rows, active)
    }

    /// The rows that are selected once the menu of a row opens: that row alone, where it was not
    /// selected.
    pub fn open_row_menu(&self, row: u64) -> (selection: Option<(RowSelection, Option<u64>)>)
        requires
            self.wf(),
        ensures
            match selection {
                Some((rows, active)) => !self@.selection.rows.rows.contains(row) && rows.wf() && rows@ == selected_by(
                    self@.selection.rows,
                    row,
                    Modifiers { shift: false, command: false },
                ) && active == Some(row),
                None => self@.selection.rows.rows.contains(row),
            },
    {
        if self.selection.rows.contains(row) {
            return None;
        }
        let mut rows = self.selection.rows.clone();
        rows.select(row, Modifiers { shift: false, command: false });
        Some((rows, Some(row)))
    }

    /// Why the selected rows cannot be deleted.
    pub fn delete_rows_reason(&self, rows: &RowSelection) -> (reason: Option<&'static str>)
        requires
            rows.wf(),
        ensures
            match reason {
                Some(reason) => if structural_reason(self@) is Some {
                    structural_reason(self@) == Some(reason@)
                } else {
                    rows@.rows.is_empty() && reason@ == "Select at least one numbered row first."@
                },
                None => structural_reason(self@) is None && !rows@.rows.is_empty(),
            },
    {
        match self.structural_edit_disabled_reason() {
            Some(reason) => Some(reason),
            None => if rows.is_empty() {
                Some("Select at least one numbered row first.")
            } else {
                None
            },
        }
    }

    /// Selects whole rows.
    pub fn select_rows(&mut self, rows: RowSelection, active: Option<u64>)
        requires
            old(self).wf(),
            rows.wf(),
        ensures
            final(self).wf(),
            final(self)@ == with_rows_selected(old(self)@, rows@, active),
    {
        self.selection.selection = match active {
            Some(row) => Some(GridSelection::Row { row }),
            None => None,
        };
        self.selection.rows = rows;
        self.selection.columns.clear();
        self.selection.anchor = None;
        assert(self@ =~= with_rows_selected(old(self)@, rows@, active));
    }

    /// Selects a cell or a row.
    pub fn select_cell(&mut self, selection: GridSelection)
        requires
            old(self).wf(),
        ensures
            final(self).wf(),
            final(self)@ == with_selection(old(self)@, selection),
    {
        match selection {
            GridSelection::Cell { .. } => self.selection.rows.clear(),
            GridSelection::Row { .. } => {},
        }
        self.selection.selection = Some(selection);
        self.selection.columns.clear();
        self.selection.anchor = None;
        assert(self@ =~= with_selection(old(self)@, selection));
    }

    /// Whether a row's number is drawn as selected.
    pub fn row_is_selected(&self, row: u64) -> (selected: bool)
        requires
            self.wf(),
        ensures
            selected == (self@.selection.rows.rows.contains(row) || self@.selection.selection == Some(
                GridSelection::Row { row },
            )),
    {
        self.selection.rows.contains(row) || match self.selection.selection {
            Some(selection) => selection.selects_row(row),
            None => false,
        }
    }

    /// Whether a cell is drawn as selected.
    pub fn cell_is_selected(&self, row: u64, column: usize) -> (selected: bool)
        requires
            self.wf(),
        ensures
            selected == (self@.selection.rows.rows.contains(row) || self@.selection.selection == Some(
                GridSelection::Row { row },
            ) || self@.selection.selection == Some(GridSelection::Cell { row, column })),
    {
        self.selection.rows.contains(row) || match self.selection.selection {
            Some(selection) => selection.selects_cell(row, column),
            None => false,
        }
    }

    /// Whether rows can be filtered by a cell.
    pub fn can_filter_cell(&self, held: bool) -> (can: bool)
        ensures
            can == cell_can_filter(self@, held),
    {
        held && self.is_filter_ready() && !self.has_cell_edits() && !self.search.running && !self.filter.running
            && !self.export.running
    }

    /// Takes what is to be brought into view.
    pub fn take_reveal_cell(&mut self) -> (cell: Option<(u64, usize)>)
        requires
            old(self).wf(),
        ensures
            final(self).wf(),
            cell == old(self)@.selection.reveal_cell,
            final(self)@ == (DocumentView {
                selection: SelectionView { reveal_cell: None, ..old(self)@.selection },
                ..old(self)@
            }),
    {
        let cell = self.selection.reveal_cell;
        self.selection.reveal_cell = None;
        cell
    }

    /// The place of a column among those that are shown.
    pub fn focused_place(&self, wanted: Option<usize>) -> (place: Option<usize>)
        requires
            self.wf(),
        ensures
            match place {
                Some(at) => {
                    &&& at < shown(self@).len()
                    &&& wanted == Some(shown(self@)[at as int])
                    &&& forall|before: int| 0 <= before < at ==> wanted != Some(#[trigger] shown(self@)[before])
                },
                None => wanted matches Some(column) ==> !shown(self@).contains(column),
            },
    {
        let column: usize = match wanted {
            Some(column) => column,
            None => {
                return None;
            },
        };
        columns::position_of(&self.grid.columns.visible, column)
    }

    /// Takes the cell and the column that are to be in focus.
    pub fn take_focus(&mut self) -> (focus: (Option<(u64, usize)>, Option<usize>))
        requires
            old(self).wf(),
        ensures
            final(self).wf(),
            focus == (old(self)@.selection.cell_focus, old(self)@.selection.column_focus),
            final(self)@ == (DocumentView {
                selection: SelectionView { cell_focus: None, column_focus: None, ..old(self)@.selection },
                ..old(self)@
            }),
    {
        let focus = (self.selection.cell_focus, self.selection.column_focus);
        self.selection.cell_focus = None;
        self.selection.column_focus = None;
        focus
    }

    /// Takes the edits that are open, for the time in which the grid is drawn.
    pub fn take_edits(&mut self) -> (edits: (Option<HeaderEdit>, Option<CellEdit>))
        requires
            old(self).wf(),
        ensures
            final(self).wf(),
            header_edit_view(edits.0) == old(self)@.edits.header_edit,
            cell_edit_view(edits.1) == old(self)@.edits.cell_edit,
            edits.0 matches Some(edit) ==> source_header(old(self)@.source, edit.column) is Some,
            final(self)@ == (DocumentView {
                edits: EditsView { header_edit: None, cell_edit: None, ..old(self)@.edits },
                ..old(self)@
            }),
    {
        let header = self.edits.header_edit.take();
        let cell = self.edits.cell_edit.take();
        (header, cell)
    }

    /// Keeps the edit of a header, where it can be.
    fn try_rename(&mut self, edit: HeaderEdit)
        requires
            old(self).wf(),
        ensures
            final(self).wf(),
            final(self)@ == with_header_tried(old(self)@, header_edit_view(Some(edit))),
            final(self)@.source == old(self)@.source,
    {
        let _ = self.rename_header(edit.column, edit.draft);
        proof {
            reveal(with_header_tried);
        }
    }

    /// Keeps the edit of a cell.
    fn try_cell(&mut self, edit: CellEdit)
        requires
            old(self).wf(),
        ensures
            final(self).wf(),
            final(self)@ == with_cell_tried(old(self)@, cell_edit_view(Some(edit))),
            final(self)@.source == old(self)@.source,
    {
        self.edits.cell_edit = Some(edit);
        assert(self@ =~= DocumentView {
            edits: EditsView { cell_edit: cell_edit_view(Some(edit)), ..old(self)@.edits },
            ..old(self)@
        });
        self.commit_cell_edit();
        proof {
            reveal(with_cell_tried);
        }
    }

    /// Puts the edits back once the grid is drawn, kept, given up or still open, and opens the
    /// header that is to be edited. A cell that is to be edited is opened after this.
    pub fn finish_table(&mut self, header: Option<HeaderEdit>, cell: Option<CellEdit>, events: TableEvents)
        requires
            old(self).wf(),
            header matches Some(edit) ==> source_header(old(self)@.source, edit.column) is Some,
        ensures
            final(self).wf(),
            final(self)@ == after_table(old(self)@, header_edit_view(header), cell_edit_view(cell), events),
    {
        let open_header = self.close_header(header, events);
        let open_cell = self.close_cell(cell, events);
        self.settle_table(open_header, open_cell, events);
        let ghost settled = self@;
        self.selection.cell_focus = events.restore_focus;
        assert(self@ =~= DocumentView {
            selection: SelectionView { cell_focus: events.restore_focus, ..settled.selection },
            ..settled
        });
    }

    /// Keeps or gives up the edit of a header where that was asked for.
    fn close_header(&mut self, header: Option<HeaderEdit>, events: TableEvents) -> (open: Option<HeaderEdit>)
        requires
            old(self).wf(),
        ensures
            final(self).wf(),
            (final(self)@, header_edit_view(open)) == header_closed(old(self)@, header_edit_view(header), events),
            final(self)@.source == old(self)@.source,
            open is Some ==> open == header,
    {
        if events.cancel_header {
            return None;
        }
        if events.commit_header {
            match header {
                Some(edit) => self.try_rename(edit),
                None => {
                    proof {
                        reveal(with_header_tried);
                    }
                },
            }
            return None;
        }
        header
    }

    /// Keeps or gives up the edit of a cell where that was asked for.
    fn close_cell(&mut self, cell: Option<CellEdit>, events: TableEvents) -> (open: Option<CellEdit>)
        requires
            old(self).wf(),
        ensures
            final(self).wf(),
            (final(self)@, cell_edit_view(open)) == cell_closed(old(self)@, cell_edit_view(cell), events),
            final(self)@.source == old(self)@.source,
    {
        if events.cancel_cell {
            return None;
        }
        if events.commit_cell {
            match cell {
                Some(edit) => self.try_cell(edit),
                None => {
                    proof {
                        reveal(with_cell_tried);
                    }
                },
            }
            return None;
        }
        cell
    }

    /// Keeps or puts back the edits that are still open.
    fn settle_table(&mut self, header: Option<HeaderEdit>, cell: Option<CellEdit>, events: TableEvents)
        requires
            old(self).wf(),
            header matches Some(edit) ==> source_header(old(self)@.source, edit.column) is Some,
        ensures
            final(self).wf(),
            final(self)@ == with_edits_back(old(self)@, header_edit_view(header), cell_edit_view(cell), events),
    {
        proof {
            if header is None {
                reveal(with_header_tried);
            }
            if cell is None {
                reveal(with_cell_tried);
            }
        }
        if let Some(column) = events.begin_header {
            if let Some(edit) = cell {
                self.try_cell(edit);
            }
            if let Some(edit) = header {
                self.try_rename(edit);
            }
            self.begin_header_edit(column);
        } else if events.begin_cell {
            if let Some(edit) = header {
                self.try_rename(edit);
            }
            if let Some(edit) = cell {
                self.try_cell(edit);
            }
        } else {
            self.edits.header_edit = header;
            self.edits.cell_edit = cell;
        }
    }

    /// Whether the bytes of a cell, as they are once what is being typed is kept, are text.
    pub fn cell_is_text(&self, row: u64, column: usize, source: &[u8]) -> (is_text: bool)
        requires
            self.wf(),
            self@.edits.header_edit is None,
            self@.edits.cell_edit is None,
        ensures
            is_text == valid_utf8(cell_bytes(committed(self@), row, column, source@)),
    {
        broadcast use crate::sets::group_ordered_keys;

        proof {
            reveal(committed);
            assert(self@.edits.cells.dom() =~= self.edits.cell_edits@.dom());
        }
        match self.edits.cell_edits.get(&(row, column)) {
            Some(bytes) => text::decode_strict(bytes.as_slice()).is_some(),
            None => text::decode_strict(source).is_some(),
        }
    }
}

/// A filter for rows that hold a value in a column, or for those that do not.
pub fn value_filter(column: usize, operator: FilterOperator, value: Vec<u8>, case_sensitivity: CaseSensitivity) -> (query: FilterQuery)
    ensures
        query@ == (QueryView {
            predicates: seq![PredicateView { column, operator, value: value@ }],
            case_sensitivity,
        }),
{
    let mut predicates: Vec<FilterPredicate> = Vec::new();
    predicates.push(FilterPredicate { column, operator, value });
    let query = FilterQuery { predicates, case_sensitivity };
    assert(query@.predicates =~= seq![PredicateView { column, operator, value: value@ }]);
    query
}

} // verus!
