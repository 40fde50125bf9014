//! Scrolling, paging and the index that says how far the grid can go.

use crate::document::{data_rows, known_matches, Document, DocumentView, GridView, IndexState};
use crate::edits::committed;
use crate::filter::match_navigation;
use crate::grid::{
    buffer_step, first_number, last_number, less, max_viewport_start, navigation, page_matches, smaller, step_view,
    with_rows, BufferStep, GridStep, ReadPurpose, RowRead,
};
use crate::model::{Effect, IndexProgress};
use crate::parse::capped_sum;
use crate::text::{self, decimal};
use vstd::prelude::*;
use vstd::string::*;

verus! {

/// The number of rows that the grid can show.
pub open spec fn grid_rows(document: DocumentView) -> u64 {
    if document.filter.query is Some {
        known_matches(document)
    } else {
        data_rows(document)
    }
}

/// The place of the page among the rows that the grid can show.
pub open spec fn grid_place(document: DocumentView) -> u64 {
    if document.filter.query is Some {
        document.filter.viewport_start
    } else {
        less(document.grid.viewport_start as int, document.grid.data_start as int) as u64
    }
}

/// What moving the grid to a place comes to, edits kept or not.
pub open spec fn moved_to(document: DocumentView, place: u64) -> (DocumentView, Result<GridStep, Seq<char>>) {
    if document.filter.query is Some {
        match_navigation(document, place)
    } else {
        navigation(
            document,
            capped_sum(document.grid.data_start as int, place as int) as u64,
            ReadPurpose::Viewport,
        )
    }
}

/// The place to which a scroll by `rows` leads.
pub open spec fn scroll_target(document: DocumentView, rows: int) -> u64 {
    let current = grid_place(document) as int;
    if rows < 0 {
        less(current, -rows) as u64
    } else {
        smaller(
            capped_sum(current, rows),
            less(grid_rows(document) as int, document.grid.visible_rows as int),
        ) as u64
    }
}

/// What a scroll by `rows` comes to.
pub open spec fn scrolled(document: DocumentView, rows: int) -> (DocumentView, Result<GridStep, Seq<char>>) {
    let target = scroll_target(document, rows);
    if target == grid_place(document) {
        (
            DocumentView { effects: document.effects.push(Effect::ResetScroll), ..document },
            Ok(GridStep::Covered),
        )
    } else {
        moved_to(document, target)
    }
}

/// A number brought into the range of 64-bit numbers.
pub open spec fn clamped(value: int) -> int {
    if value > i64::MAX {
        i64::MAX as int
    } else if value < i64::MIN {
        i64::MIN as int
    } else {
        value
    }
}

/// What a page of another height comes to.
pub open spec fn resized(before: DocumentView, visible_rows: usize) -> (DocumentView, Result<GridStep, Seq<char>>) {
    let height: usize = if visible_rows == 0 { 1 } else { visible_rows };
    if height == before.grid.visible_rows {
        (before, Ok(GridStep::Covered))
    } else {
        let kept = committed(before);
        let document = DocumentView { grid: GridView { visible_rows: height, ..kept.grid }, ..kept };
        if document.filter.query is Some {
            match_navigation(document, document.filter.viewport_start)
        } else if data_rows(document) == 0 {
            (document, Ok(GridStep::Covered))
        } else {
            let target = match document.selection.reveal_cell {
                Some((row, _)) => row,
                None => document.grid.viewport_start,
            };
            navigation(document, target, ReadPurpose::Viewport)
        }
    }
}

/// What the end of indexing comes to: the index holds so many rows, or it failed.
pub open spec fn index_ended(before: DocumentView, outcome: Result<u64, Seq<char>>) -> (
    DocumentView,
    Result<GridStep, Seq<char>>,
) {
    match outcome {
        Err(message) => (
            DocumentView { index: IndexState { running: false, ..before.index }, ..before },
            Err(message),
        ),
        Ok(rows) => {
            let document = DocumentView {
                index: IndexState { running: false, indexed_rows: Some(rows), ..before.index },
                ..before
            };
            let page = document.grid.viewport_start;
            match buffer_step(document, page) {
                None => (document, Err("No structural index is available."@)),
                Some(BufferStep::Covered) => (document, Ok(GridStep::Covered)),
                Some(BufferStep::Filled { start, count }) => (
                    with_rows(document, start, document.source.first_rows.subrange(start as int, start + count)),
                    Ok(GridStep::Filled),
                ),
                Some(BufferStep::Read { start, count, source }) => (
                    document,
                    Ok(
                        GridStep::Read(
                            RowRead { viewport_start: page, start, count, source, purpose: ReadPurpose::Buffer },
                        ),
                    ),
                ),
            }
        },
    }
}

/// Which rows the page shows, in words.
pub open spec fn range_text(document: DocumentView) -> Seq<char> {
    if document.filter.query is Some {
        let total = known_matches(document);
        let visible = page_matches(document).len();
        let loading = document.filter.read is Some || document.filter.pending is Some;
        if document.filter.running && total == 0 {
            "Finding matching rows…"@
        } else if loading && visible == 0 {
            "Loading matching rows…"@
        } else if total == 0 {
            "No matching rows"@
        } else if visible == 0 {
            decimal(total as nat) + " filter matches"@
        } else {
            "matches "@ + decimal(capped_sum(document.filter.viewport_start as int, 1) as nat) + "–"@ + decimal(
                smaller(capped_sum(document.filter.viewport_start as int, visible as int), total as int) as nat,
            ) + " of "@ + decimal(total as nat)
        }
    } else {
        "rows "@ + decimal(first_number(document) as nat) + "–"@ + decimal(last_number(document) as nat) + " of "@
            + decimal(data_rows(document) as nat)
    }
}

/// The state of the index, in words.
pub open spec fn index_text(document: DocumentView) -> Seq<char> {
    if document.source_changed {
        "Source changed"@
    } else if !document.index.running && document.index.indexed_rows is None {
        "Index failed"@
    } else if document.index.progress.cancelled {
        "Index cancelled"@
    } else if document.index.running {
        "Indexing"@
    } else {
        "Index complete"@
    }
}

/// A scroll never leads before the first row nor beyond the last full page, unless the page is
/// there already and stays.
pub proof fn lemma_scroll_in_range(document: DocumentView, rows: int)
    requires
        grid_place(document) <= less(grid_rows(document) as int, document.grid.visible_rows as int),
    ensures
        scroll_target(document, rows) <= less(grid_rows(document) as int, document.grid.visible_rows as int),
        rows > 0 ==> scroll_target(document, rows) >= grid_place(document),
        rows < 0 ==> scroll_target(document, rows) <= grid_place(document),
        rows == 0 ==> scroll_target(document, rows) == grid_place(document),
{
}

impl Document {
    pub fn grid_total_rows(&self) -> (rows: u64)
        requires
            self.wf(),
        ensures
            rows == grid_rows(self@),
    {
        if self.filter_active() {
            self.available_filter_rows()
        } else {
            self.available_data_rows()
        }
    }

    pub fn grid_position(&self) -> (place: u64)
        ensures
            place == grid_place(self@),
    {
        if self.filter_active() {
            self.filter.viewport_start
        } else {
            self.grid.viewport_start.saturating_sub(self.grid.data_start)
        }
    }

    /// Moves the grid to a place among the rows that it can show.
    pub fn navigate_grid_position(&mut self, position: u64) -> (result: Result<GridStep, String>)
        requires
            old(self).wf(),
        ensures
            final(self).wf(),
            (final(self)@, step_view(result)) == moved_to(committed(old(self)@), position),
    {
        self.commit_edits();
        self.move_to(position)
    }

    fn move_to(&mut self, position: u64) -> (result: Result<GridStep, String>)
        requires
            old(self).wf(),
        ensures
            final(self).wf(),
            (final(self)@, step_view(result)) == moved_to(old(self)@, position),
    {
        if self.filter_active() {
            self.navigate_filter(position)
        } else {
            let row: u64 = self.grid.data_start.saturating_add(position);
            self.navigate(row)
        }
    }

    /// Scrolls the grid, down for a positive number of rows and up for a negative one.
    pub fn scroll_rows(&mut self, rows: i64) -> (result: Result<GridStep, String>)
        requires
            old(self).wf(),
        ensures
            final(self).wf(),
            (final(self)@, step_view(result)) == scrolled(old(self)@, rows as int),
    {
        let available: u64 = self.grid_total_rows();
        let maximum: u64 = max_viewport_start(available, self.grid.visible_rows);
        let current: u64 = self.grid_position();
        let target: u64 = if rows < 0 {
            let back: u64 = if rows == i64::MIN { 0x8000_0000_0000_0000 } else { (-rows) as u64 };
            current.saturating_sub(back)
        } else {
            let ahead: u64 = current.saturating_add(rows as u64);
            if ahead <= maximum { ahead } else { maximum }
        };
        if target == current {
            self.effects.push(Effect::ResetScroll);
            return Ok(GridStep::Covered);
        }
        self.move_to(target)
    }

    /// Scrolls by pages, down for a positive direction and up for a negative one.
    pub fn page(&mut self, direction: i64) -> (result: Result<GridStep, String>)
        requires
            old(self).wf(),
        ensures
            final(self).wf(),
            (final(self)@, step_view(result)) == scrolled(
                old(self)@,
                clamped(direction * clamped(old(self)@.grid.visible_rows as int)),
            ),
    {
        let height: i128 = if self.grid.visible_rows as u64 <= i64::MAX as u64 {
            self.grid.visible_rows as i128
        } else {
            i64::MAX as i128
        };
        let step: i128 = direction as i128;
        proof {
            assert(-0x8000_0000_0000_0000 * 0x7fff_ffff_ffff_ffff <= step * height <= 0x8000_0000_0000_0000
                * 0x7fff_ffff_ffff_ffff) by (nonlinear_arith)
                requires
                    -0x8000_0000_0000_0000 <= step <= 0x7fff_ffff_ffff_ffff,
                    0 <= height <= 0x7fff_ffff_ffff_ffff,
            ;
        }
        let rows: i128 = step * height;
        let rows: i64 = if rows > i64::MAX as i128 {
            i64::MAX
        } else if rows < i64::MIN as i128 {
            i64::MIN
        } else {
            rows as i64
        };
        self.scroll_rows(rows)
    }

    /// Takes note of the number of rows that fit on a page.
    pub fn set_visible_rows(&mut self, visible_rows: usize) -> (result: Result<GridStep, String>)
        requires
            old(self).wf(),
        ensures
            final(self).wf(),
            (final(self)@, step_view(result)) == resized(old(self)@, visible_rows),
    {
        let height: usize = if visible_rows == 0 { 1 } else { visible_rows };
        if height == self.grid.visible_rows {
            return Ok(GridStep::Covered);
        }
        self.commit_edits();
        let ghost kept = self@;
        self.grid.visible_rows = height;
        proof {
            assert(self@ =~= DocumentView { grid: GridView { visible_rows: height, ..kept.grid }, ..kept });
        }
        if self.filter_active() {
            let start: u64 = self.filter.viewport_start;
            return self.navigate_filter(start);
        }
        if self.available_data_rows() == 0 {
            return Ok(GridStep::Covered);
        }
        let target: u64 = match self.selection.reveal_cell {
            Some((row, _)) => row,
            None => self.grid.viewport_start,
        };
        self.navigate(target)
    }

    /// Takes note of indexing that has started.
    pub fn index_started(&mut self, progress: IndexProgress)
        requires
            old(self).wf(),
        ensures
            final(self).wf(),
            final(self)@ == (DocumentView {
                index: IndexState { running: true, progress, ..old(self)@.index },
                ..old(self)@
            }),
    {
        self.index.progress = progress;
        self.index.running = true;
    }

    /// Takes in news of the indexing.
    pub fn index_progressed(&mut self, progress: IndexProgress)
        requires
            old(self).wf(),
        ensures
            final(self).wf(),
            final(self)@ == (DocumentView { index: IndexState { progress, ..old(self)@.index }, ..old(self)@ }),
    {
        self.index.progress = progress;
    }

    /// Takes in the end of indexing.
    pub fn index_finished(&mut self, outcome: Result<u64, String>) -> (result: Result<GridStep, String>)
        requires
            old(self).wf(),
            outcome matches Ok(rows) ==> old(self)@.grid.viewport_start <= rows || old(self)@.grid.viewport_start
                <= old(self)@.source.first_rows.len(),
        ensures
            final(self).wf(),
            (final(self)@, step_view(result)) == index_ended(
                old(self)@,
                match outcome {
                    Ok(rows) => Ok(rows),
                    Err(message) => Err(message@),
                },
            ),
    {
        self.index.running = false;
        let rows: u64 = match outcome {
            Ok(rows) => rows,
            Err(message) => {
                return Err(message);
            },
        };
        self.index.indexed_rows = Some(rows);
        let ghost document = self@;
        let page: u64 = self.grid.viewport_start;
        match self.load_buffer(page) {
            Ok(BufferStep::Covered) => Ok(GridStep::Covered),
            Ok(BufferStep::Filled { .. }) => Ok(GridStep::Filled),
            Ok(BufferStep::Read { start, count, source }) => Ok(
                GridStep::Read(RowRead { viewport_start: page, start, count, source, purpose: ReadPurpose::Buffer }),
            ),
            Err(message) => Err(message),
        }
    }

    /// Tells indexing that runs to stop.
    pub fn cancel(&mut self)
        requires
            old(self).wf(),
        ensures
            final(self).wf(),
            final(self)@ == (DocumentView {
                effects: if old(self)@.index.running {
                    old(self)@.effects.push(Effect::CancelIndexing)
                } else {
                    old(self)@.effects
                },
                ..old(self)@
            }),
    {
        if self.index.running {
            self.effects.push(Effect::CancelIndexing);
        }
    }

    pub fn index_status(&self) -> (status: &'static str)
        ensures
            status@ == index_text(self@),
    {
        if self.source_changed {
            "Source changed"
        } else if !self.index.running && self.index.indexed_rows.is_none() {
            "Index failed"
        } else if self.index.progress.cancelled {
            "Index cancelled"
        } else if self.index.running {
            "Indexing"
        } else {
            "Index complete"
        }
    }

    /// Which rows the page shows, in words.
    pub fn footer_range_text(&self) -> (range: String)
        requires
            self.wf(),
        ensures
            range@ == range_text(self@),
    {
        if self.filter_active() {
            let total: u64 = self.available_filter_rows();
            let visible: u64 = self.visible_row_count() as u64;
            if self.filter.running && total == 0 {
                return "Finding matching rows…".to_owned();
            }
            if self.filter_rows_loading() && visible == 0 {
                return "Loading matching rows…".to_owned();
            }
            if total == 0 {
                return "No matching rows".to_owned();
            }
            if visible == 0 {
                return text::number(total).concat(" filter matches");
            }
            let start: u64 = self.filter.viewport_start.saturating_add(1);
            let far: u64 = self.filter.viewport_start.saturating_add(visible);
            let end: u64 = if far <= total { far } else { total };
            "matches ".to_owned().concat(text::number(start).as_str()).concat("–").concat(
                text::number(end).as_str(),
            ).concat(" of ").concat(text::number(total).as_str())
        } else {
            let start: u64 = self.display_start();
            let end: u64 = self.display_end();
            let total: u64 = self.available_data_rows();
            "rows ".to_owned().concat(text::number(start).as_str()).concat("–").concat(
                text::number(end).as_str(),
            ).concat(" of ").concat(text::number(total).as_str())
        }
    }
}

} // verus!
