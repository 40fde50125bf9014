//! The rows and columns that the grid shows: what is read, what is in view, and what of the
//! selection stays in view.

use crate::clipboard::{self, copied_selection, MAX_COPY_BYTES};
use crate::columns::{self, first_selected, file_order};
use crate::document::{
    data_rows, known_rows, shown, with_titles, Document, DocumentView, GridView, SelectionView, OVERSCAN_ROWS,
};
use crate::edits::{committed, found, shown_bytes};
use crate::model::{self, cells_of, matches_of, rows_cells, widest, FilterReadWindow, MatchView, Row, SearchMatch};
use crate::parse::capped_sum;
use crate::rows::GridSelection;
use crate::sets;
use crate::text::{self, decimal};
use std::collections::BTreeSet;
use vstd::prelude::*;
use vstd::string::*;

verus! {

/// The difference of two numbers, or zero.
pub open spec fn less(one: int, other: int) -> int {
    if one >= other {
        one - other
    } else {
        0
    }
}

pub open spec fn smaller(one: int, other: int) -> int {
    if one <= other {
        one
    } else {
        other
    }
}

pub open spec fn larger(one: int, other: int) -> int {
    if one >= other {
        one
    } else {
        other
    }
}

/// The last row from which a page of `visible_rows` can start.
pub fn max_viewport_start(total_rows: u64, visible_rows: usize) -> (start: u64)
    ensures
        start == less(total_rows as int, visible_rows as int),
{
    total_rows.saturating_sub(visible_rows as u64)
}

/// The first row of the page that shows `requested`, or the nearest to it.
pub open spec fn page_start(requested: u64, data_start: u64, total_rows: u64, visible_rows: usize) -> u64 {
    capped_sum(
        data_start as int,
        smaller(less(requested as int, data_start as int), less(total_rows as int, visible_rows as int)),
    ) as u64
}

/// The first row of the page that shows `requested`, or the nearest to it.
pub fn logical_viewport_start(requested: u64, data_start: u64, total_rows: u64, visible_rows: usize) -> (start: u64)
    ensures
        start == page_start(requested, data_start, total_rows, visible_rows),
{
    let relative: u64 = requested.saturating_sub(data_start);
    let maximum: u64 = max_viewport_start(total_rows, visible_rows);
    data_start.saturating_add(if relative <= maximum { relative } else { maximum })
}

/// Which index a read of rows goes by: the finished one, or what is there of the one that is
/// being made.
#[derive(Clone, Copy, Debug, PartialEq, Eq, Structural)]
pub enum RowSource {
    Index,
    Snapshot,
}

/// What follows a read of rows.
#[derive(Clone, Copy, Debug, PartialEq, Eq, Structural)]
pub enum ReadPurpose {
    Buffer,
    Viewport,
    Match(SearchMatch),
}

/// Rows to be read for the grid.
#[derive(Clone, Copy, Debug, PartialEq, Eq, Structural)]
pub struct RowRead {
    pub viewport_start: u64,
    pub start: u64,
    pub count: usize,
    pub source: RowSource,
    pub purpose: ReadPurpose,
}

/// Matches to be read for the grid, and the first match to show once the read has started.
#[derive(Clone, Copy, Debug, PartialEq, Eq)]
pub struct FilterRead {
    pub window: FilterReadWindow,
    pub viewport_start: Option<u64>,
}

/// What moving the grid comes to: the rows are at hand, they were taken from the first rows of
/// the file, or they have to be read.
#[derive(Clone, Copy, Debug, PartialEq, Eq)]
pub enum GridStep {
    Covered,
    Filled,
    Read(RowRead),
    ReadMatches(FilterRead),
}

/// The outcome of a move, with its message as characters.
pub open spec fn step_view(result: Result<GridStep, String>) -> Result<GridStep, Seq<char>> {
    match result {
        Ok(step) => Ok(step),
        Err(message) => Err(message@),
    }
}

/// What filling the buffer comes to.
#[derive(Clone, Copy, Debug, PartialEq, Eq, Structural)]
pub enum BufferStep {
    Covered,
    Filled { start: u64, count: usize },
    Read { start: u64, count: usize, source: RowSource },
}

/// The most rows that the buffer holds.
pub open spec fn capacity(document: DocumentView) -> u64 {
    let rows = document.grid.visible_rows + 2 * OVERSCAN_ROWS;
    if rows <= usize::MAX {
        rows as u64
    } else {
        usize::MAX as u64
    }
}

/// The buffer holds the page that starts at `viewport_start`, and no more than it may.
pub open spec fn buffer_covers(document: DocumentView, viewport_start: u64) -> bool {
    let known = known_rows(document);
    let page_end = viewport_start + smaller(known - viewport_start, document.grid.visible_rows as int);
    &&& document.grid.buffer_start <= viewport_start
    &&& capped_sum(document.grid.buffer_start as int, document.grid.rows.len() as int) >= page_end
    &&& document.grid.rows.len() <= capacity(document)
}

/// The first row to read for the page that starts at `viewport_start`.
pub open spec fn read_start(document: DocumentView, viewport_start: u64) -> u64 {
    let data_start = document.grid.data_start as int;
    let last_start = larger(less(known_rows(document) as int, capacity(document) as int), data_start);
    smaller(larger(less(viewport_start as int, OVERSCAN_ROWS as int), data_start), last_start) as u64
}

/// The number of rows to read for the page that starts at `viewport_start`.
pub open spec fn read_count(document: DocumentView, viewport_start: u64) -> usize {
    smaller(known_rows(document) - read_start(document, viewport_start), capacity(document) as int) as usize
}

/// What filling the buffer for the page that starts at `viewport_start` comes to. Nothing, where
/// there is no index to read by.
pub open spec fn buffer_step(document: DocumentView, viewport_start: u64) -> Option<BufferStep> {
    let start = read_start(document, viewport_start);
    let count = read_count(document, viewport_start);
    if buffer_covers(document, viewport_start) {
        Some(BufferStep::Covered)
    } else if start + count <= document.source.first_rows.len() {
        Some(BufferStep::Filled { start, count })
    } else if document.index.indexed_rows is Some {
        Some(BufferStep::Read { start, count, source: RowSource::Index })
    } else if document.index.running {
        Some(BufferStep::Read { start, count, source: RowSource::Snapshot })
    } else {
        None
    }
}

/// The document with columns up to `total_columns`.
pub open spec fn widened(document: DocumentView, total_columns: usize) -> DocumentView {
    if total_columns > document.grid.total_columns {
        DocumentView {
            grid: GridView {
                total_columns,
                order: document.grid.order + file_order(total_columns as nat).skip(document.grid.hidden.len() as int),
                hidden: document.grid.hidden + Seq::new(
                    (total_columns - document.grid.hidden.len()) as nat,
                    |column: int| false,
                ),
                ..document.grid
            },
            ..document
        }
    } else {
        document
    }
}

/// The document with columns up to `total_columns`, and with their titles where there are new
/// ones.
pub open spec fn widened_with_titles(document: DocumentView, total_columns: usize) -> DocumentView {
    if total_columns > document.grid.total_columns {
        with_titles(widened(document, total_columns))
    } else {
        document
    }
}

/// The document with `rows`, of which the first is the row `start` of the file, in the buffer.
#[verifier::opaque]
pub open spec fn with_rows(document: DocumentView, start: u64, rows: Seq<Seq<Seq<u8>>>) -> DocumentView {
    let wide = widened_with_titles(document, widest(rows) as usize);
    DocumentView { grid: GridView { buffer_start: start, rows, ..wide.grid }, ..wide }
}

/// The places of a page within what is at hand.
pub open spec fn page_bounds(viewport_start: u64, buffer_start: u64, held: nat, visible_rows: usize) -> (int, int) {
    let offset = smaller(less(viewport_start as int, buffer_start as int), held as int);
    (offset, smaller(offset + visible_rows, held as int))
}

/// The rows of the page.
pub open spec fn page_rows(document: DocumentView) -> Seq<Seq<Seq<u8>>> {
    let (start, end) = page_bounds(
        document.grid.viewport_start,
        document.grid.buffer_start,
        document.grid.rows.len(),
        document.grid.visible_rows,
    );
    document.grid.rows.subrange(start, end)
}

/// The matches of the page.
pub open spec fn page_matches(document: DocumentView) -> Seq<MatchView> {
    let (start, end) = page_bounds(
        document.filter.viewport_start,
        document.filter.buffer_start,
        document.filter.rows.len(),
        document.grid.visible_rows,
    );
    document.filter.rows.subrange(start, end)
}

/// Whether a row of the file is on the page.
pub open spec fn row_in_view(document: DocumentView, row: u64) -> bool {
    if document.filter.query is Some {
        exists|i: int| 0 <= i < page_matches(document).len() && (#[trigger] page_matches(document)[i]).row == row
    } else {
        document.grid.viewport_start <= row < capped_sum(
            document.grid.viewport_start as int,
            page_rows(document).len() as int,
        )
    }
}

/// The selected columns that are shown.
pub open spec fn shown_selection(document: DocumentView) -> Set<usize> {
    document.selection.columns.filter(
        |column: usize| column < document.grid.hidden.len() && !document.grid.hidden[column as int],
    )
}

/// The document without what is selected out of view.
#[verifier::opaque]
pub open spec fn without_hidden(document: DocumentView) -> DocumentView {
    let columns = shown_selection(document);
    let anchor = match document.selection.anchor {
        Some(anchor) if columns.contains(anchor) => Some(anchor),
        _ => first_selected(document.grid.order, columns),
    };
    let selection = match document.selection.selection {
        Some(selection) => {
            let column_in_view = match selection {
                GridSelection::Row { .. } => true,
                GridSelection::Cell { column, .. } => shown(document).contains(column),
            };
            if row_in_view(document, selection.row_of()) && column_in_view {
                Some(selection)
            } else {
                None
            }
        },
        None => None,
    };
    DocumentView { selection: SelectionView { columns, anchor, selection, ..document.selection }, ..document }
}

/// The document with the page that starts at `start` in view.
pub open spec fn at_row(document: DocumentView, start: u64) -> DocumentView {
    without_hidden(DocumentView { grid: GridView { viewport_start: start, ..document.grid }, ..document })
}

/// The message for a row that is not known yet.
pub open spec fn not_indexed(document: DocumentView, requested: u64) -> Seq<char> {
    "Data row "@ + decimal(capped_sum(less(requested as int, document.grid.data_start as int), 1) as nat)
        + " is not indexed yet ("@ + decimal(data_rows(document) as nat) + " available)."@
}

/// What moving the grid to a row comes to.
pub open spec fn navigation(before: DocumentView, requested: u64, purpose: ReadPurpose) -> (
    DocumentView,
    Result<GridStep, Seq<char>>,
) {
    let document = committed(before);
    let data_start = document.grid.data_start;
    let start = page_start(requested, data_start, data_rows(document), document.grid.visible_rows);
    if larger(requested as int, data_start as int) >= known_rows(document) {
        (document, Err(not_indexed(document, requested)))
    } else {
        match buffer_step(document, start) {
            None => (document, Err("No structural index is available."@)),
            Some(BufferStep::Covered) => (at_row(document, start), Ok(GridStep::Covered)),
            Some(BufferStep::Filled { start: first, count }) => (
                at_row(
                    with_rows(document, first, document.source.first_rows.subrange(first as int, first + count)),
                    start,
                ),
                Ok(GridStep::Filled),
            ),
            Some(BufferStep::Read { start: first, count, source }) => (
                document,
                Ok(GridStep::Read(RowRead { viewport_start: start, start: first, count, source, purpose })),
            ),
        }
    }
}

/// A page starts within the data, and so does what is read for it; the read takes in the page.
pub proof fn lemma_read_covers(document: DocumentView, viewport_start: u64)
    requires
        document.grid.data_start <= viewport_start <= known_rows(document),
    ensures
        document.grid.data_start <= read_start(document, viewport_start) <= viewport_start,
        read_start(document, viewport_start) + read_count(document, viewport_start) <= known_rows(document),
        read_count(document, viewport_start) <= capacity(document),
        document.grid.visible_rows + 2 * OVERSCAN_ROWS <= usize::MAX ==> read_start(document, viewport_start)
            + read_count(document, viewport_start) >= viewport_start + smaller(
            known_rows(document) - viewport_start,
            document.grid.visible_rows as int,
        ),
{
}

/// Once the rows that a page needs are in the buffer, the buffer covers the page.
pub proof fn lemma_buffer_covers_after_read(document: DocumentView, viewport_start: u64, rows: Seq<Seq<Seq<u8>>>)
    requires
        document.grid.data_start <= viewport_start <= known_rows(document),
        rows.len() == read_count(document, viewport_start),
        document.grid.visible_rows + 2 * OVERSCAN_ROWS <= usize::MAX,
    ensures
        buffer_covers(with_rows(document, read_start(document, viewport_start), rows), viewport_start),
{
    reveal(with_rows);
    lemma_read_covers(document, viewport_start);
}

/// A page never starts before the data, nor after the last full page.
pub proof fn lemma_page_start(requested: u64, data_start: u64, total_rows: u64, visible_rows: usize)
    requires
        data_start + total_rows <= u64::MAX,
    ensures
        data_start <= page_start(requested, data_start, total_rows, visible_rows) <= data_start + less(
            total_rows as int,
            visible_rows as int,
        ),
        requested <= data_start + less(total_rows as int, visible_rows as int) && requested >= data_start
            ==> page_start(requested, data_start, total_rows, visible_rows) == requested,
        requested >= data_start && requested < data_start + total_rows && visible_rows > 0 ==> page_start(
            requested,
            data_start,
            total_rows,
            visible_rows,
        ) <= requested < page_start(requested, data_start, total_rows, visible_rows) + visible_rows,
{
}

impl Document {
    /// The number of rows of the file that are known so far.
    pub fn available_rows(&self) -> (rows: u64)
        requires
            self.wf(),
        ensures
            rows == known_rows(self@),
    {
        let counted: u64 = match self.index.indexed_rows {
            Some(rows) => rows,
            None => self.index.progress.rows_scanned,
        };
        let first: u64 = self.source.first_rows.len() as u64;
        if first > counted {
            first
        } else {
            counted
        }
    }

    pub fn available_data_rows(&self) -> (rows: u64)
        requires
            self.wf(),
        ensures
            rows == data_rows(self@),
    {
        self.available_rows().saturating_sub(self.grid.data_start)
    }

    /// Makes room for columns up to `total_columns`.
    pub fn ensure_column_count(&mut self, total_columns: usize)
        requires
            old(self).wf(),
        ensures
            final(self).wf(),
            final(self)@ == widened(old(self)@, total_columns),
            final(self).grid.total_columns >= total_columns,
            *final(self) == (Document { grid: final(self).grid, ..*old(self) }),
    {
        if total_columns > self.grid.total_columns {
            self.grid.total_columns = total_columns;
            self.grid.columns.extend_to(total_columns);
            proof {
                assert(self@ =~= widened(old(self)@, total_columns));
            }
        }
    }

    /// Puts rows that were read into the buffer.
    pub fn accept_rows(&mut self, start: u64, rows: Vec<Row>)
        requires
            old(self).wf(),
        ensures
            final(self).wf(),
            final(self)@ == with_rows(old(self)@, start, rows_cells(rows@)),
            final(self)@.grid.data_start == old(self)@.grid.data_start,
    {
        let loaded_columns: usize = model::widest_row(&rows);
        if loaded_columns > self.grid.total_columns {
            self.ensure_column_count(loaded_columns);
            self.refresh_column_headers();
        }
        self.grid.buffer_start = start;
        self.grid.rows = rows;
        proof {
            reveal(with_rows);
            assert(self@ =~= with_rows(old(self)@, start, rows_cells(rows@)));
        }
    }

    /// Sees to it that the buffer holds the page that starts at `viewport_start`, as far as
    /// that can be done without reading.
    pub fn load_buffer(&mut self, viewport_start: u64) -> (result: Result<BufferStep, String>)
        requires
            old(self).wf(),
            old(self)@.grid.data_start <= viewport_start <= known_rows(old(self)@),
        ensures
            final(self).wf(),
            final(self)@.grid.data_start == old(self)@.grid.data_start,
            match buffer_step(old(self)@, viewport_start) {
                None => final(self)@ == old(self)@ && (result matches Err(message) && message@
                    == "No structural index is available."@),
                Some(BufferStep::Filled { start, count }) => final(self)@ == with_rows(
                    old(self)@,
                    start,
                    old(self)@.source.first_rows.subrange(start as int, start + count),
                ) && result == Ok::<BufferStep, String>(BufferStep::Filled { start, count }),
                Some(step) => final(self)@ == old(self)@ && result == Ok::<BufferStep, String>(step),
            },
    {
        let available: u64 = self.available_rows();
        let visible: u64 = self.grid.visible_rows as u64;
        let rest: u64 = available - viewport_start;
        let visible_end: u64 = viewport_start + if rest <= visible { rest } else { visible };
        let held: u64 = self.grid.rows.len() as u64;
        let loaded_end: u64 = self.grid.buffer_start.saturating_add(held);
        let capacity: u64 = self.grid.visible_rows.saturating_add(2 * OVERSCAN_ROWS) as u64;
        proof {
            assert(self@.grid.rows.len() == self.grid.rows@.len());
            assert(self@.source.first_rows.len() == self.source.first_rows@.len());
        }
        if self.grid.buffer_start <= viewport_start && loaded_end >= visible_end && held <= capacity {
            return Ok(BufferStep::Covered);
        }
        proof {
            lemma_read_covers(self@, viewport_start);
        }
        let data_start: u64 = self.grid.data_start;
        let earliest: u64 = available.saturating_sub(capacity);
        let last_start: u64 = if earliest >= data_start { earliest } else { data_start };
        let ahead: u64 = viewport_start.saturating_sub(OVERSCAN_ROWS as u64);
        let wanted: u64 = if ahead >= data_start { ahead } else { data_start };
        let start: u64 = if wanted <= last_start { wanted } else { last_start };
        let left: u64 = available - start;
        let count: usize = (if left <= capacity { left } else { capacity }) as usize;
        assert(start == read_start(self@, viewport_start));
        assert(count == read_count(self@, viewport_start));
        let end: u64 = start + count as u64;
        if end <= self.source.first_rows.len() as u64 {
            let rows = model::copy_rows(&self.source.first_rows, start as usize, end as usize);
            self.accept_rows(start, rows);
            Ok(BufferStep::Filled { start, count })
        } else if self.index.indexed_rows.is_some() {
            Ok(BufferStep::Read { start, count, source: RowSource::Index })
        } else if self.index.running {
            Ok(BufferStep::Read { start, count, source: RowSource::Snapshot })
        } else {
            Err("No structural index is available.".to_owned())
        }
    }

    /// The places of the page within the rows at hand.
    pub fn visible_bounds(&self) -> (bounds: (usize, usize))
        ensures
            (bounds.0 as int, bounds.1 as int) == page_bounds(
                self@.grid.viewport_start,
                self@.grid.buffer_start,
                self@.grid.rows.len(),
                self@.grid.visible_rows,
            ),
            bounds.0 <= bounds.1 <= self.grid.rows@.len(),
    {
        page_places(self.grid.viewport_start, self.grid.buffer_start, self.grid.rows.len(), self.grid.visible_rows)
    }

    /// The places of the page within the matches at hand.
    pub fn visible_match_bounds(&self) -> (bounds: (usize, usize))
        ensures
            (bounds.0 as int, bounds.1 as int) == page_bounds(
                self@.filter.viewport_start,
                self@.filter.buffer_start,
                self@.filter.rows.len(),
                self@.grid.visible_rows,
            ),
            bounds.0 <= bounds.1 <= self.filter.rows@.len(),
    {
        page_places(
            self.filter.viewport_start,
            self.filter.buffer_start,
            self.filter.rows.len(),
            self.grid.visible_rows,
        )
    }

    /// The number of rows on the page.
    pub fn visible_row_count(&self) -> (count: usize)
        ensures
            count == if self@.filter.query is Some {
                page_matches(self@).len()
            } else {
                page_rows(self@).len()
            },
    {
        if self.filter.query.is_some() {
            let (start, end) = self.visible_match_bounds();
            end - start
        } else {
            let (start, end) = self.visible_bounds();
            end - start
        }
    }

    /// A row of the page: its place in the file and its cells.
    pub fn visible_row(&self, index: usize) -> (row: Option<(u64, &Vec<Vec<u8>>)>)
        ensures
            match row {
                Some((row, fields)) => page_row(self@, index as int) == Some((row, cells_of(fields@))),
                None => page_row(self@, index as int) == None::<(u64, Seq<Seq<u8>>)>,
            },
    {
        if self.filter.query.is_some() {
            let (start, end) = self.visible_match_bounds();
            if index < end - start {
                let found = &self.filter.rows[start + index];
                proof {
                    assert(page_matches(self@)[index as int] == self.filter.rows@[start + index]@);
                }
                Some((found.row, &found.fields))
            } else {
                None
            }
        } else {
            let (start, end) = self.visible_bounds();
            if index < end - start {
                proof {
                    assert(page_rows(self@)[index as int] == cells_of(self.grid.rows@[start + index].fields@));
                }
                Some((self.grid.viewport_start.saturating_add(index as u64), &self.grid.rows[start + index].fields))
            } else {
                None
            }
        }
    }

    /// The row of the file at the top of the page.
    pub fn current_source_row(&self) -> (row: u64)
        ensures
            row == top_row(self@),
    {
        match self.visible_row(0) {
            Some((row, _)) => row,
            None => self.grid.viewport_start,
        }
    }

    /// The bytes of a cell in the buffer as the file holds them.
    pub fn source_cell(&self, row: u64, column: usize) -> (cell: Option<&Vec<u8>>)
        ensures
            match cell {
                Some(bytes) => held_cell(self@, row, column) == Some(bytes@),
                None => held_cell(self@, row, column) == None::<Seq<u8>>,
            },
    {
        if row < self.grid.buffer_start {
            return None;
        }
        let place: u64 = row - self.grid.buffer_start;
        if place >= self.grid.rows.len() as u64 {
            return None;
        }
        let fields = &self.grid.rows[place as usize].fields;
        proof {
            assert(self@.grid.rows[place as int] == cells_of(fields@));
        }
        if column < fields.len() {
            Some(&fields[column])
        } else {
            None
        }
    }

    /// The bytes of a cell: those that an edit gave it, else those of the buffer.
    pub fn effective_cell(&self, row: u64, column: usize) -> (cell: Option<&Vec<u8>>)
        ensures
            match cell {
                Some(bytes) => current_cell(self@, row, column) == Some(bytes@),
                None => current_cell(self@, row, column) == None::<Seq<u8>>,
            },
    {
        broadcast use crate::sets::group_ordered_keys;

        proof {
            assert(self@.edits.cells.dom() =~= self.edits.cell_edits@.dom());
        }
        match self.edits.cell_edits.get(&(row, column)) {
            Some(bytes) => Some(bytes),
            None => self.source_cell(row, column),
        }
    }

    /// Whether a row of the file is on the page.
    fn is_row_in_view(&self, row: u64) -> (seen: bool)
        ensures
            seen == row_in_view(self@, row),
    {
        if self.filter.query.is_some() {
            let (start, end) = self.visible_match_bounds();
            let ghost page = page_matches(self@);
            for i in start..end
                invariant
                    start <= i <= end <= self.filter.rows@.len(),
                    page == matches_of(self.filter.rows@).subrange(start as int, end as int),
                    forall|j: int| 0 <= j < i - start ==> (#[trigger] page[j]).row != row,
                    page == page_matches(self@),
                    self@.filter.query is Some,
            {
                assert(page[i - start] == self.filter.rows@[i as int]@);
                if self.filter.rows[i].row == row {
                    return true;
                }
            }
            false
        } else {
            let (start, end) = self.visible_bounds();
            let row_end: u64 = self.grid.viewport_start.saturating_add((end - start) as u64);
            self.grid.viewport_start <= row && row < row_end
        }
    }

    /// Deselects what is out of view.
    pub fn clear_hidden_selection(&mut self)
        requires
            old(self).wf(),
        ensures
            final(self).wf(),
            final(self)@ == without_hidden(old(self)@),
            *final(self) == (Document { selection: final(self).selection, ..*old(self) }),
    {
        broadcast use crate::sets::group_ordered_keys;

        let ghost before = self@;
        let ghost kept = shown_selection(before);
        let members = sets::listing(&self.selection.columns);
        let mut selected_columns: BTreeSet<usize> = BTreeSet::new();
        proof {
            sets::lemma_listing(members@, self.selection.columns@);
        }
        for i in 0..members.len()
            invariant
                self.wf(),
                *self == *old(self),
                before == self@,
                forall|column: usize| #[trigger] selected_columns@.contains(column) <==> (members@.take(i as int).contains(
                    column,
                ) && column < before.grid.hidden.len() && !before.grid.hidden[column as int]),
        {
            let column: usize = members[i];
            proof {
                assert(members@.take(i + 1) =~= members@.take(i as int).push(column));
                assert forall|other: usize| members@.take(i + 1).contains(other) <==> members@.take(i as int).contains(
                    other,
                ) || other == column by {
                    columns::lemma_pushed_set(members@.take(i as int), column);
                    assert(members@.take(i + 1).to_set().contains(other) == members@.take(i + 1).contains(other));
                    assert(members@.take(i as int).to_set().contains(other) == members@.take(i as int).contains(other));
                }
            }
            if column < self.grid.columns.hidden.len() && !self.grid.columns.hidden[column] {
                selected_columns.insert(column);
            }
        }
        proof {
            assert(members@.take(members@.len() as int) =~= members@);
            assert(selected_columns@ =~= kept);
        }
        let anchored = match self.selection.anchor {
            Some(anchor) => selected_columns.contains(&anchor),
            None => false,
        };
        if !anchored {
            self.selection.anchor = columns::first_member(&self.grid.columns.order, &selected_columns);
        }
        self.selection.columns = selected_columns;
        if let Some(selection) = self.selection.selection {
            let row_visible = self.is_row_in_view(selection.row());
            proof {
                assert(page_matches(self@) == page_matches(before));
                assert(page_rows(self@) == page_rows(before));
                assert(row_visible == row_in_view(before, selection.row_of()));
            }
            let column_visible = match selection {
                GridSelection::Row { .. } => true,
                GridSelection::Cell { column, .. } => {
                    let place = columns::position_of(&self.grid.columns.visible, column);
                    proof {
                        if place is Some {
                            assert(self.grid.columns.visible@.contains(column));
                        }
                    }
                    place.is_some()
                },
            };
            if !row_visible || !column_visible {
                self.selection.selection = None;
            }
        }
        proof {
            reveal(without_hidden);
            assert(self@ =~= without_hidden(before));
        }
    }

    /// Moves the grid to a row of the file.
    pub fn navigate(&mut self, requested: u64) -> (result: Result<GridStep, String>)
        requires
            old(self).wf(),
        ensures
            final(self).wf(),
            (final(self)@, step_view(result)) == navigation(old(self)@, requested, ReadPurpose::Viewport),
    {
        self.navigate_for(requested, ReadPurpose::Viewport)
    }

    /// Moves the grid to a row of the file; `purpose` is handed on where rows have to be read.
    pub fn navigate_for(&mut self, requested: u64, purpose: ReadPurpose) -> (result: Result<GridStep, String>)
        requires
            old(self).wf(),
        ensures
            final(self).wf(),
            (final(self)@, step_view(result)) == navigation(old(self)@, requested, purpose),
    {
        self.commit_edits();
        let ghost document = self@;
        let available: u64 = self.available_rows();
        let data_start: u64 = self.grid.data_start;
        let wanted: u64 = if requested >= data_start { requested } else { data_start };
        let data: u64 = self.available_data_rows();
        if wanted >= available {
            let place: u64 = requested.saturating_sub(data_start).saturating_add(1);
            return Err(
                "Data row ".to_owned().concat(text::number(place).as_str()).concat(" is not indexed yet (").concat(
                    text::number(data).as_str(),
                ).concat(" available)."),
            );
        }
        let start: u64 = logical_viewport_start(requested, data_start, data, self.grid.visible_rows);
        proof {
            lemma_page_start(requested, data_start, data, document.grid.visible_rows);
        }
        let step = match self.load_buffer(start) {
            Ok(BufferStep::Covered) => GridStep::Covered,
            Ok(BufferStep::Filled { .. }) => GridStep::Filled,
            Ok(BufferStep::Read { start: first, count, source }) => {
                return Ok(GridStep::Read(RowRead { viewport_start: start, start: first, count, source, purpose }));
            },
            Err(message) => {
                return Err(message);
            },
        };
        self.show_page(start);
        Ok(step)
    }

    /// Brings the page that starts at `start` into view.
    fn show_page(&mut self, start: u64)
        requires
            old(self).wf(),
            start >= old(self)@.grid.data_start,
        ensures
            final(self).wf(),
            final(self)@ == at_row(old(self)@, start),
    {
        self.grid.viewport_start = start;
        proof {
            assert(self@ =~= DocumentView {
                grid: GridView { viewport_start: start, ..old(self)@.grid },
                ..old(self)@
            });
        }
        self.clear_hidden_selection();
    }

    /// Takes in the rows that a move asked for.
    pub fn finish_row_read(&mut self, read: RowRead, rows: Vec<Row>)
        requires
            old(self).wf(),
            read.viewport_start >= old(self)@.grid.data_start,
        ensures
            final(self).wf(),
            final(self)@ == after_read(old(self)@, read, rows_cells(rows@)),
    {
        self.accept_rows(read.start, rows);
        match read.purpose {
            ReadPurpose::Buffer => {},
            ReadPurpose::Viewport => self.show_page(read.viewport_start),
            ReadPurpose::Match(found) => {
                self.show_page(read.viewport_start);
                self.reveal_match(found);
            },
        }
    }

    /// Brings a column into view.
    pub fn center_column(&mut self, column: usize)
        requires
            old(self).wf(),
        ensures
            final(self).wf(),
            final(self)@ == with_column_in_view(old(self)@, column),
    {
        self.commit_edits();
        self.ensure_column_count(column.saturating_add(1));
        let ghost wide = self@;
        self.grid.columns.view(column);
        proof {
            assert(self@ =~= with_column_shown(wide, column, true));
        }
        self.refresh_column_headers();
        self.clear_hidden_selection();
    }

    /// Selects a match once its row is in view.
    pub fn reveal_match(&mut self, found: SearchMatch)
        requires
            old(self).wf(),
        ensures
            final(self).wf(),
            final(self)@ == with_match_shown(old(self)@, found),
    {
        let row: u64 = found.row;
        let column: usize = found.column;
        self.center_column(column);
        self.selection.reveal_cell = Some((row, column));
        self.selection.selection = Some(GridSelection::Cell { row, column });
        self.selection.rows.clear();
        self.selection.columns.clear();
        self.selection.anchor = None;
        let place: u64 = row.saturating_sub(self.grid.data_start).saturating_add(1);
        self.search.status = Some(
            "Found row ".to_owned().concat(text::number(place).as_str()).concat(", column ").concat(
                text::count(column.saturating_add(1)).as_str(),
            ).concat("."),
        );
        self.search.last_match = Some(found);
        proof {
            assert(self@ =~= with_match_shown(old(self)@, found));
        }
    }

    /// Fails where the file has no such column.
    pub fn validate_column(&self, column: usize) -> (result: Result<(), String>)
        ensures
            match result {
                Ok(()) => column < self@.grid.total_columns,
                Err(message) => column >= self@.grid.total_columns && message@ == no_such_column(
                    self@.grid.total_columns,
                ),
            },
    {
        if column < self.grid.total_columns {
            Ok(())
        } else if self.grid.total_columns == 0 {
            Err("This file has no columns.".to_owned())
        } else {
            Err(
                "File column must be between 1 and ".to_owned().concat(
                    text::count(self.grid.total_columns).as_str(),
                ).concat("."),
            )
        }
    }

    /// Shows or hides a column.
    pub fn set_column_shown(&mut self, column: usize, is_shown: bool) -> (result: Result<(), String>)
        requires
            old(self).wf(),
        ensures
            final(self).wf(),
            match result {
                Ok(()) => column < old(self)@.grid.total_columns && final(self)@ == with_visibility(
                    old(self)@,
                    column,
                    is_shown,
                ),
                Err(message) => column >= old(self)@.grid.total_columns && final(self)@ == committed(old(self)@)
                    && message@ == no_such_column(old(self)@.grid.total_columns),
            },
    {
        self.commit_edits();
        match self.validate_column(column) {
            Ok(()) => {},
            Err(message) => {
                return Err(message);
            },
        }
        let ghost kept = self@;
        self.grid.columns.set_shown(column, is_shown);
        proof {
            assert(self@ =~= with_column_shown(kept, column, is_shown));
        }
        self.refresh_column_headers();
        let ghost titled = self@;
        let revealed = match self.selection.reveal_cell {
            Some((_, revealed)) => revealed == column,
            None => false,
        };
        if !is_shown && revealed {
            self.selection.reveal_cell = None;
        }
        proof {
            assert(self@ =~= DocumentView {
                selection: SelectionView {
                    reveal_cell: if !is_shown && revealed { None } else { titled.selection.reveal_cell },
                    ..titled.selection
                },
                ..titled
            });
        }
        self.clear_hidden_selection();
        Ok(())
    }

    /// Moves a column to a place in the display order.
    pub fn move_column(&mut self, column: usize, position: usize) -> (result: Result<(), String>)
        requires
            old(self).wf(),
        ensures
            final(self).wf(),
            match result {
                Ok(()) => column < old(self)@.grid.total_columns && position < old(self)@.grid.total_columns && final(self)@ == with_column_moved(old(self)@, column, position),
                Err(message) => final(self)@ == committed(old(self)@) && if column >= old(self)@.grid.total_columns {
                    message@ == no_such_column(old(self)@.grid.total_columns)
                } else {
                    position >= old(self)@.grid.total_columns && message@ == "Display position must be between 1 and "@
                        + decimal(old(self)@.grid.total_columns as nat) + "."@
                },
            },
    {
        self.commit_edits();
        match self.validate_column(column) {
            Ok(()) => {},
            Err(message) => {
                return Err(message);
            },
        }
        if position >= self.grid.total_columns {
            return Err(
                "Display position must be between 1 and ".to_owned().concat(
                    text::count(self.grid.total_columns).as_str(),
                ).concat("."),
            );
        }
        let ghost kept = self@;
        self.grid.columns.move_column(column, position);
        proof {
            assert(self@ =~= DocumentView {
                grid: GridView {
                    order: columns::moved(kept.grid.order, kept.grid.order.index_of(column), position as int),
                    ..kept.grid
                },
                ..kept
            });
        }
        self.refresh_column_headers();
        self.clear_hidden_selection();
        Ok(())
    }

    /// Shows every column in file order, from the first on.
    pub fn reset_columns(&mut self)
        requires
            old(self).wf(),
        ensures
            final(self).wf(),
            final(self)@ == with_columns_reset(old(self)@),
    {
        self.commit_edits();
        let ghost kept = self@;
        self.grid.columns.reset();
        proof {
            assert(self@ =~= DocumentView {
                grid: GridView {
                    order: file_order(kept.grid.order.len()),
                    hidden: Seq::new(kept.grid.hidden.len(), |column: int| false),
                    ..kept.grid
                },
                ..kept
            });
        }
        self.refresh_column_headers();
        let ghost titled = self@;
        let row: u64 = self.current_source_row();
        self.selection.reveal_cell = if self.grid.columns.visible.len() > 0 {
            Some((row, self.grid.columns.visible[0]))
        } else {
            None
        };
        proof {
            assert(self@ =~= DocumentView {
                selection: SelectionView {
                    reveal_cell: if shown(titled).len() > 0 {
                        Some((top_row(titled), shown(titled)[0]))
                    } else {
                        None
                    },
                    ..titled.selection
                },
                ..titled
            });
        }
        self.clear_hidden_selection();
    }

    /// The selected cell or row as text for the clipboard.
    pub fn copy_selection_text(&self) -> (result: Result<String, String>)
        ensures
            match result {
                Ok(copied) => selection_copy(self@) == Ok::<Seq<char>, Seq<char>>(copied@),
                Err(message) => selection_copy(self@) == Err::<Seq<char>, Seq<char>>(message@),
            },
    {
        let selection = match self.selection.selection {
            Some(selection) => selection,
            None => {
                return Err("Select a cell or row before copying.".to_owned());
            },
        };
        let row: u64 = selection.row();
        if self.filter.query.is_some() {
            let (start, end) = self.visible_match_bounds();
            let ghost page = page_matches(self@);
            for i in start..end
                invariant
                    start <= i <= end <= self.filter.rows@.len(),
                    page == matches_of(self.filter.rows@).subrange(start as int, end as int),
                    forall|j: int| 0 <= j < i - start ==> (#[trigger] page[j]).row != row,
                    page == page_matches(self@),
                    self@.filter.query is Some,
                    self@.selection.selection == Some(selection),
                    row == selection.row_of(),
            {
                assert(page[i - start] == self.filter.rows@[i as int]@);
                if self.filter.rows[i].row == row {
                    let fields = self.row_with_edits(row, self.filter.rows[i].fields.as_slice());
                    proof {
                        lemma_first_match(page, row, i - start);
                        assert(edited_cells(self@, row, page[i - start].cells) =~= cells_of(fields@));
                    }
                    return clipboard::selection_fields_text(fields.as_slice(), selection, MAX_COPY_BYTES);
                }
            }
            proof {
                lemma_no_match(page, row);
            }
            Err("The selected row is no longer visible. Select it again.".to_owned())
        } else {
            if row < self.grid.buffer_start {
                return Err("The selected row is no longer visible. Select it again.".to_owned());
            }
            let place: u64 = row - self.grid.buffer_start;
            if place >= self.grid.rows.len() as u64 {
                return Err("The selected row is no longer visible. Select it again.".to_owned());
            }
            let source = &self.grid.rows[place as usize];
            let fields = self.row_with_edits(row, source.fields.as_slice());
            proof {
                assert(self@.grid.rows[place as int] == cells_of(source.fields@));
                assert(edited_cells(self@, row, self@.grid.rows[place as int]) =~= cells_of(fields@));
            }
            clipboard::selection_fields_text(fields.as_slice(), selection, MAX_COPY_BYTES)
        }
    }

    /// The number of the first row on the page, counted from one; zero where there is none.
    pub fn display_start(&self) -> (number: u64)
        requires
            self.wf(),
        ensures
            number == first_number(self@),
    {
        if self.available_data_rows() == 0 {
            return 0;
        }
        self.grid.viewport_start.saturating_sub(self.grid.data_start).saturating_add(1)
    }

    /// The number of the last row on the page, counted from one; zero where there is none.
    pub fn display_end(&self) -> (number: u64)
        requires
            self.wf(),
        ensures
            number == last_number(self@),
    {
        let (start, end) = self.visible_bounds();
        let count: usize = end - start;
        if count == 0 {
            return 0;
        }
        self.display_start().saturating_add((count - 1) as u64)
    }
}

/// The places of a page within what is at hand.
fn page_places(viewport_start: u64, buffer_start: u64, held: usize, visible_rows: usize) -> (bounds: (usize, usize))
    ensures
        (bounds.0 as int, bounds.1 as int) == page_bounds(viewport_start, buffer_start, held as nat, visible_rows),
        bounds.0 <= bounds.1 <= held,
{
    let ahead: u64 = viewport_start.saturating_sub(buffer_start);
    let offset: usize = if ahead <= held as u64 { ahead as usize } else { held };
    let far: usize = offset.saturating_add(visible_rows);
    let end: usize = if far <= held { far } else { held };
    (offset, end)
}

/// A row of the page: its place in the file and its cells.
pub open spec fn page_row(document: DocumentView, index: int) -> Option<(u64, Seq<Seq<u8>>)> {
    if document.filter.query is Some {
        if 0 <= index < page_matches(document).len() {
            Some((page_matches(document)[index].row, page_matches(document)[index].cells))
        } else {
            None
        }
    } else {
        if 0 <= index < page_rows(document).len() {
            Some((capped_sum(document.grid.viewport_start as int, index) as u64, page_rows(document)[index]))
        } else {
            None
        }
    }
}

/// The row of the file at the top of the page.
pub open spec fn top_row(document: DocumentView) -> u64 {
    match page_row(document, 0) {
        Some((row, _)) => row,
        None => document.grid.viewport_start,
    }
}

/// The bytes of a cell in the buffer.
pub open spec fn held_cell(document: DocumentView, row: u64, column: usize) -> Option<Seq<u8>> {
    let place = row - document.grid.buffer_start;
    if 0 <= place < document.grid.rows.len() && column < document.grid.rows[place].len() {
        Some(document.grid.rows[place][column as int])
    } else {
        None
    }
}

/// The bytes of a cell: those that an edit gave it, else those of the buffer.
pub open spec fn current_cell(document: DocumentView, row: u64, column: usize) -> Option<Seq<u8>> {
    match found(document.edits.cells, (row, column)) {
        Some(bytes) => Some(bytes),
        None => held_cell(document, row, column),
    }
}

/// The document with a column shown or hidden, its titles as they were.
pub open spec fn with_column_shown(document: DocumentView, column: usize, is_shown: bool) -> DocumentView {
    if column < document.grid.hidden.len() {
        DocumentView {
            grid: GridView { hidden: document.grid.hidden.update(column as int, !is_shown), ..document.grid },
            ..document
        }
    } else {
        document
    }
}

/// The document with a column in view.
pub open spec fn with_column_in_view(before: DocumentView, column: usize) -> DocumentView {
    let kept = committed(before);
    let wide = widened(kept, if column < usize::MAX { (column + 1) as usize } else { usize::MAX });
    without_hidden(with_titles(with_column_shown(wide, column, true)))
}

/// The document with a match selected and in view.
pub open spec fn with_match_shown(before: DocumentView, found: SearchMatch) -> DocumentView {
    let document = with_column_in_view(before, found.column);
    DocumentView {
        selection: SelectionView {
            reveal_cell: Some((found.row, found.column)),
            selection: Some(GridSelection::Cell { row: found.row, column: found.column }),
            rows: crate::document::no_rows(),
            columns: Set::empty(),
            anchor: None,
            ..document.selection
        },
        search: crate::document::SearchView {
            status: Some(found_message(document, found)),
            last_match: Some(found),
            ..document.search
        },
        ..document
    }
}

/// Where a match was found, counted from one.
pub open spec fn found_message(document: DocumentView, found: SearchMatch) -> Seq<char> {
    "Found row "@ + decimal(capped_sum(less(found.row as int, document.grid.data_start as int), 1) as nat)
        + ", column "@ + decimal(
        if found.column < usize::MAX {
            (found.column + 1) as nat
        } else {
            usize::MAX as nat
        },
    ) + "."@
}

/// The document once rows that a move asked for have been read.
pub open spec fn after_read(document: DocumentView, read: RowRead, rows: Seq<Seq<Seq<u8>>>) -> DocumentView {
    let filled = with_rows(document, read.start, rows);
    match read.purpose {
        ReadPurpose::Buffer => filled,
        ReadPurpose::Viewport => at_row(filled, read.viewport_start),
        ReadPurpose::Match(found) => with_match_shown(at_row(filled, read.viewport_start), found),
    }
}

/// The message for a column that the file does not have.
pub open spec fn no_such_column(total_columns: usize) -> Seq<char> {
    if total_columns == 0 {
        "This file has no columns."@
    } else {
        "File column must be between 1 and "@ + decimal(total_columns as nat) + "."@
    }
}

/// The document with a column shown or hidden.
pub open spec fn with_visibility(before: DocumentView, column: usize, is_shown: bool) -> DocumentView {
    let titled = with_titles(with_column_shown(committed(before), column, is_shown));
    let revealed = titled.selection.reveal_cell matches Some(cell) && cell.1 == column;
    without_hidden(
        DocumentView {
            selection: SelectionView {
                reveal_cell: if !is_shown && revealed { None } else { titled.selection.reveal_cell },
                ..titled.selection
            },
            ..titled
        },
    )
}

/// The document with a column moved in the display order.
pub open spec fn with_column_moved(before: DocumentView, column: usize, position: usize) -> DocumentView {
    let kept = committed(before);
    without_hidden(
        with_titles(
            DocumentView {
                grid: GridView {
                    order: columns::moved(kept.grid.order, kept.grid.order.index_of(column), position as int),
                    ..kept.grid
                },
                ..kept
            },
        ),
    )
}

/// The document with every column shown in file order.
pub open spec fn with_columns_reset(before: DocumentView) -> DocumentView {
    let kept = committed(before);
    let titled = with_titles(
        DocumentView {
            grid: GridView {
                order: file_order(kept.grid.order.len()),
                hidden: Seq::new(kept.grid.hidden.len(), |column: int| false),
                ..kept.grid
            },
            ..kept
        },
    );
    without_hidden(
        DocumentView {
            selection: SelectionView {
                reveal_cell: if shown(titled).len() > 0 { Some((top_row(titled), shown(titled)[0])) } else { None },
                ..titled.selection
            },
            ..titled
        },
    )
}

/// The cells of a row as the grid shows them.
pub open spec fn edited_cells(document: DocumentView, row: u64, cells: Seq<Seq<u8>>) -> Seq<Seq<u8>> {
    Seq::new(cells.len(), |column: int| shown_bytes(document, row, column as usize, cells[column]))
}

/// The first of `matches` that is the row `row` of the file.
pub open spec fn match_for(matches: Seq<MatchView>, row: u64) -> Option<MatchView>
    decreases matches.len(),
{
    if matches.len() == 0 {
        None
    } else if matches[0].row == row {
        Some(matches[0])
    } else {
        match_for(matches.skip(1), row)
    }
}

proof fn lemma_first_match(matches: Seq<MatchView>, row: u64, at: int)
    requires
        0 <= at < matches.len(),
        matches[at].row == row,
        forall|j: int| 0 <= j < at ==> (#[trigger] matches[j]).row != row,
    ensures
        match_for(matches, row) == Some(matches[at]),
    decreases at,
{
    if at > 0 {
        let rest = matches.skip(1);
        assert(matches[0].row != row);
        assert forall|j: int| 0 <= j < at - 1 implies (#[trigger] rest[j]).row != row by {
            assert(rest[j] == matches[j + 1]);
        }
        assert(rest[at - 1] == matches[at]);
        lemma_first_match(rest, row, at - 1);
    }
}

proof fn lemma_no_match(matches: Seq<MatchView>, row: u64)
    requires
        forall|j: int| 0 <= j < matches.len() ==> (#[trigger] matches[j]).row != row,
    ensures
        match_for(matches, row) == None::<MatchView>,
    decreases matches.len(),
{
    if matches.len() > 0 {
        let rest = matches.skip(1);
        assert(matches[0].row != row);
        assert forall|j: int| 0 <= j < rest.len() implies (#[trigger] rest[j]).row != row by {
            assert(rest[j] == matches[j + 1]);
        }
        lemma_no_match(rest, row);
    }
}

/// What copying the selection gives: the text, or the message that says why not.
pub open spec fn selection_copy(document: DocumentView) -> Result<Seq<char>, Seq<char>> {
    match document.selection.selection {
        None => Err("Select a cell or row before copying."@),
        Some(selection) => {
            let row = selection.row_of();
            let place = row - document.grid.buffer_start;
            let cells = if document.filter.query is Some {
                match match_for(page_matches(document), row) {
                    Some(found) => Some(found.cells),
                    None => None,
                }
            } else if 0 <= place < document.grid.rows.len() {
                Some(document.grid.rows[place])
            } else {
                None
            };
            match cells {
                Some(cells) => copied_selection(edited_cells(document, row, cells), selection, MAX_COPY_BYTES),
                None => Err("The selected row is no longer visible. Select it again."@),
            }
        },
    }
}

/// The number of the first row on the page.
pub open spec fn first_number(document: DocumentView) -> u64 {
    if data_rows(document) == 0 {
        0
    } else {
        capped_sum(less(document.grid.viewport_start as int, document.grid.data_start as int), 1) as u64
    }
}

/// The number of the last row on the page.
pub open spec fn last_number(document: DocumentView) -> u64 {
    if page_rows(document).len() == 0 {
        0
    } else {
        capped_sum(first_number(document) as int, page_rows(document).len() - 1) as u64
    }
}

} // verus!
