//! The filter: its rules, its scan of the file, and the matches that the grid holds.

use crate::document::{
    data_rows, known_matches, no_rows, Document, DocumentView, ExportView, FilterView, SelectionView, OVERSCAN_ROWS,
};
use crate::edits::{cells_edited, committed};
use crate::grid::{
    capacity, less, navigation, no_such_column, page_matches, smaller, step_view, widened_with_titles, without_hidden,
    FilterRead, GridStep, ReadPurpose,
};
use crate::literal::{contains_bytes, equal_bytes, CaseSensitivity};
use crate::model::{
    self, matches_of, widest, ActiveFilterRead, Effect, FilterMatch, FilterOperator, FilterProgress, FilterQuery,
    FilterReadWindow, MatchView, PredicateView, QueryView,
};
use crate::parse::capped_sum;
use crate::text::{self, decimal};
use vstd::prelude::*;
use vstd::string::*;

verus! {

/// Why a filter rule cannot be used.
pub open spec fn rule_error(document: DocumentView, rule: PredicateView, index: int) -> Option<Seq<char>> {
    if rule.column >= document.grid.total_columns {
        Some("Rule "@ + decimal((index + 1) as nat) + ": "@ + no_such_column(document.grid.total_columns))
    } else if rule.operator == FilterOperator::Contains && rule.value.len() == 0 {
        Some("Rule "@ + decimal((index + 1) as nat) + ": enter text for a Contains filter."@)
    } else {
        None
    }
}

/// The first reason, from rule `index` on, for which rules cannot be used.
pub open spec fn rules_error(document: DocumentView, rules: Seq<PredicateView>, index: int) -> Option<Seq<char>>
    decreases rules.len() - index,
{
    if index < 0 || index >= rules.len() {
        None
    } else if rule_error(document, rules[index], index) is Some {
        rule_error(document, rules[index], index)
    } else {
        rules_error(document, rules, index + 1)
    }
}

/// The file has a column, and no structural change runs.
pub open spec fn filter_ready(document: DocumentView) -> bool {
    document.grid.total_columns > 0 && document.structural.job is None
}

/// Why a filter cannot start.
pub open spec fn filter_refusal(document: DocumentView, query: QueryView) -> Option<Seq<char>> {
    if document.export.running {
        Some("Cancel the active export before changing filters."@)
    } else if document.filter.running {
        Some("A filter is already running."@)
    } else if document.search.running {
        Some("Cancel the active search before filtering."@)
    } else if cells_edited(document) {
        Some("Save or discard cell edits before filtering the source file."@)
    } else if !filter_ready(document) {
        Some("Open a file with at least one column before filtering."@)
    } else if query.predicates.len() == 0 {
        Some("Add at least one filter rule."@)
    } else {
        rules_error(document, query.predicates, 0)
    }
}

/// The document with no read of matches, running or waiting.
pub open spec fn without_read(document: DocumentView) -> DocumentView {
    DocumentView {
        filter: FilterView { pending: None, read: None, ..document.filter },
        effects: if document.filter.read is Some {
            document.effects.push(Effect::AbandonFilterRead)
        } else {
            document.effects
        },
        ..document
    }
}

/// The document with no read of matches waiting, and the running one told to stop.
pub open spec fn with_read_cancelled(document: DocumentView) -> DocumentView {
    match document.filter.read {
        Some(read) if !read.cancel_requested => DocumentView {
            filter: FilterView {
                pending: None,
                read: Some(ActiveFilterRead { cancel_requested: true, ..read }),
                ..document.filter
            },
            effects: document.effects.push(Effect::CancelFilterRead),
            ..document
        },
        _ => DocumentView { filter: FilterView { pending: None, ..document.filter }, ..document },
    }
}

/// No match at hand, and none in view.
pub open spec fn without_matches_held(filter: FilterView) -> FilterView {
    FilterView { viewport_start: 0, buffer_start: 0, rows: Seq::empty(), ..filter }
}

/// The document with a new filter that runs.
pub open spec fn with_filter_started(before: DocumentView, query: QueryView, progress: FilterProgress, matches: u64) -> DocumentView {
    let document = without_read(before);
    DocumentView {
        filter: FilterView {
            progress: Some(progress),
            indexed_matches: Some(matches),
            running: true,
            query: Some(query),
            status: Some("Filtering rows…"@),
            ..without_matches_held(document.filter)
        },
        export: ExportView { progress: None, status: None, cancel_requested: false, ..document.export },
        selection: SelectionView { selection: None, rows: no_rows(), reveal_cell: None, ..document.selection },
        effects: document.effects.push(Effect::ResetScroll),
        ..document
    }
}

/// The matches to read for the page that starts at `viewport_start`.
pub open spec fn match_window(document: DocumentView, viewport_start: u64) -> Option<FilterReadWindow> {
    let known = known_matches(document) as int;
    let most = capacity(document) as int;
    let start = smaller(less(viewport_start as int, OVERSCAN_ROWS as int), less(known, most));
    if known == 0 {
        None
    } else {
        Some(FilterReadWindow { start_match: start as u64, count: smaller(known - start, most) as usize })
    }
}

/// The matches at hand take in the page that starts at `viewport_start`, and are no more than
/// may be held.
pub open spec fn matches_cover(document: DocumentView, viewport_start: u64) -> bool {
    let known = known_matches(document);
    let page_end = viewport_start + smaller(known - viewport_start, document.grid.visible_rows as int);
    &&& known > 0
    &&& document.filter.buffer_start <= viewport_start
    &&& capped_sum(document.filter.buffer_start as int, document.filter.rows.len() as int) >= page_end
    &&& document.filter.rows.len() <= capacity(document)
}

/// The document with the matches at hand cut to `window`, where they hold more than it and all
/// of it.
pub open spec fn cut_to(document: DocumentView, window: FilterReadWindow) -> DocumentView {
    let held = document.filter.rows;
    let offset = window.start_match - document.filter.buffer_start;
    if held.len() > window.count && offset >= 0 && offset + window.count <= held.len() {
        DocumentView {
            filter: FilterView {
                rows: held.subrange(offset, offset + window.count),
                buffer_start: window.start_match,
                ..document.filter
            },
            ..document
        }
    } else {
        document
    }
}

/// The number of matches in the filter's index.
pub open spec fn indexed(document: DocumentView) -> u64 {
    match document.filter.indexed_matches {
        Some(matches) => matches,
        None => 0,
    }
}

/// The document with a newer index of the filter asked for, where its own holds fewer matches
/// than `required` and a newer one can be had.
pub open spec fn with_snapshot_for(document: DocumentView, required: int) -> DocumentView {
    if indexed(document) < required && document.filter.running {
        DocumentView { effects: document.effects.push(Effect::SnapshotFilter), ..document }
    } else {
        document
    }
}

/// What a need for the matches of `window` comes to: the document, and the matches to read now,
/// or a message.
pub open spec fn needed(document: DocumentView, window: FilterReadWindow) -> (
    DocumentView,
    Result<Option<FilterReadWindow>, Seq<char>>,
) {
    let asked = with_snapshot_for(document, capped_sum(window.start_match as int, window.count as int));
    match asked.filter.read {
        Some(read) if read.window == window && !read.cancel_requested => (
            DocumentView { filter: FilterView { pending: None, ..asked.filter }, ..asked },
            Ok(None),
        ),
        Some(read) => {
            let stopped = with_read_cancelled(asked);
            (
                DocumentView { filter: FilterView { pending: Some(window), ..stopped.filter }, ..stopped },
                Ok(None),
            )
        },
        None => (
            DocumentView { filter: FilterView { pending: None, ..asked.filter }, ..asked },
            if document.filter.indexed_matches is Some || document.filter.running {
                Ok(Some(window))
            } else {
                Err("No filter index is available."@)
            },
        ),
    }
}

/// What filling the matches at hand for the page that starts at `viewport_start` comes to: the
/// document, and the matches to read, or a message.
#[verifier::opaque]
pub open spec fn scheduled(document: DocumentView, viewport_start: u64) -> (
    DocumentView,
    Result<Option<FilterReadWindow>, Seq<char>>,
) {
    match match_window(document, viewport_start) {
        None => {
            let stopped = with_read_cancelled(document);
            (
                DocumentView {
                    filter: FilterView { buffer_start: 0, rows: Seq::empty(), ..stopped.filter },
                    ..stopped
                },
                Ok(None),
            )
        },
        Some(window) => {
            let cut = cut_to(document, window);
            if matches_cover(cut, viewport_start) {
                (with_read_cancelled(cut), Ok(None))
            } else {
                needed(cut, window)
            }
        },
    }
}

/// The document with the page of matches that starts at `start` in view.
pub open spec fn at_match(document: DocumentView, start: u64) -> DocumentView {
    without_hidden(DocumentView { filter: FilterView { viewport_start: start, ..document.filter }, ..document })
}

/// What moving the grid to a match comes to.
pub open spec fn match_navigation(document: DocumentView, requested: u64) -> (DocumentView, Result<GridStep, Seq<char>>) {
    let known = known_matches(document) as int;
    if known == 0 {
        let stopped = with_read_cancelled(document);
        (
            without_hidden(DocumentView { filter: without_matches_held(stopped.filter), ..stopped }),
            Ok(GridStep::Covered),
        )
    } else {
        let start = smaller(requested as int, less(known, document.grid.visible_rows as int)) as u64;
        let (after, outcome) = scheduled(document, start);
        match outcome {
            Ok(None) => (at_match(after, start), Ok(GridStep::Covered)),
            Ok(Some(window)) => (
                after,
                Ok(GridStep::ReadMatches(FilterRead { window, viewport_start: Some(start) })),
            ),
            Err(message) => (after, Err(message)),
        }
    }
}

/// The document once a read of matches has started.
pub open spec fn with_read_started(document: DocumentView, read: FilterRead) -> DocumentView {
    let reading = DocumentView {
        filter: FilterView {
            read: Some(ActiveFilterRead { window: read.window, cancel_requested: false }),
            ..document.filter
        },
        ..document
    };
    match read.viewport_start {
        Some(start) => at_match(reading, start),
        None => reading,
    }
}

/// The number of matches that the filter's index should hold once `progress` is known.
pub open spec fn required_matches(document: DocumentView, progress: FilterProgress) -> int {
    smaller(
        capped_sum(document.filter.viewport_start as int, document.grid.visible_rows as int),
        progress.matches_found as int,
    )
}

/// What news of the filter's progress comes to. `snapshot` is the number of matches in a newer
/// index, where one was taken.
pub open spec fn scanned(before: DocumentView, progress: FilterProgress, snapshot: Option<u64>) -> (
    DocumentView,
    Result<GridStep, Seq<char>>,
) {
    let document = DocumentView {
        filter: FilterView { progress: Some(progress), ..before.filter },
        ..before
    };
    if progress.matches_found > 0 {
        let newer = if indexed(before) < required_matches(before, progress) && snapshot is Some {
            DocumentView { filter: FilterView { indexed_matches: snapshot, ..document.filter }, ..document }
        } else {
            document
        };
        match_navigation(newer, newer.filter.viewport_start)
    } else {
        (DocumentView { filter: without_matches_held(document.filter), ..document }, Ok(GridStep::Covered))
    }
}

/// The status of a filter that has ended.
pub open spec fn ended_message(cancelled: bool, matches: u64) -> Seq<char> {
    if cancelled {
        "Filter cancelled after "@ + decimal(matches as nat) + " matches."@
    } else if matches == 0 {
        "Filter complete. No matching rows."@
    } else {
        "Filter complete. "@ + decimal(matches as nat) + " matches."@
    }
}

/// What the end of the filter's scan comes to: its index holds `matches`, or it failed.
pub open spec fn ended(before: DocumentView, outcome: Result<u64, Seq<char>>) -> (
    DocumentView,
    Result<GridStep, Seq<char>>,
) {
    let document = DocumentView { filter: FilterView { running: false, ..before.filter }, ..before };
    match outcome {
        Ok(matches) => {
            let cancelled = document.filter.progress matches Some(progress) && progress.cancelled;
            let complete = DocumentView {
                filter: FilterView {
                    indexed_matches: Some(matches),
                    status: Some(ended_message(cancelled, matches)),
                    ..document.filter
                },
                ..document
            };
            if matches > 0 {
                match_navigation(complete, complete.filter.viewport_start)
            } else {
                (complete, Ok(GridStep::Covered))
            }
        },
        Err(message) => {
            let stopped = without_read(document);
            (
                DocumentView {
                    filter: FilterView {
                        indexed_matches: None,
                        query: None,
                        progress: None,
                        status: None,
                        ..without_matches_held(stopped.filter)
                    },
                    ..stopped
                },
                Err(message),
            )
        },
    }
}

/// How a read of matches ended.
#[derive(Debug, PartialEq, Eq)]
pub enum FilterReadOutcome {
    Complete(Vec<FilterMatch>),
    Cancelled,
    Failed(String),
}

/// How a read of matches ended, with its matches and its message as they stand for.
#[verifier::ext_equal]
pub enum ReadOutcomeView {
    Complete(Seq<MatchView>),
    Cancelled,
    Failed(Seq<char>),
}

impl View for FilterReadOutcome {
    type V = ReadOutcomeView;

    open spec fn view(&self) -> ReadOutcomeView {
        match *self {
            FilterReadOutcome::Complete(rows) => ReadOutcomeView::Complete(matches_of(rows@)),
            FilterReadOutcome::Cancelled => ReadOutcomeView::Cancelled,
            FilterReadOutcome::Failed(message) => ReadOutcomeView::Failed(message@),
        }
    }
}

/// The document with `rows`, of which the first is the match `start`, at hand.
#[verifier::opaque]
pub open spec fn with_matches(document: DocumentView, start: u64, rows: Seq<MatchView>) -> DocumentView {
    let wide = widened_with_titles(document, widest(rows.map_values(|found: MatchView| found.cells)) as usize);
    DocumentView { filter: FilterView { buffer_start: start, rows, ..wide.filter }, ..wide }
}

/// What the end of a read of matches comes to.
pub open spec fn read_ended(before: DocumentView, outcome: ReadOutcomeView) -> (
    DocumentView,
    Result<GridStep, Seq<char>>,
) {
    let read = before.filter.read->0;
    let document = DocumentView { filter: FilterView { read: None, ..before.filter }, ..before };
    match outcome {
        ReadOutcomeView::Failed(message) => (
            DocumentView { filter: FilterView { pending: None, ..document.filter }, ..document },
            Err(message),
        ),
        _ => {
            let filled = match outcome {
                ReadOutcomeView::Complete(rows) if match_window(document, document.filter.viewport_start) == Some(
                    read.window,
                ) => with_matches(document, read.window.start_match, rows),
                _ => document,
            };
            let (after, step) = scheduled(filled, filled.filter.viewport_start);
            match step {
                Ok(None) => (after, Ok(GridStep::Covered)),
                Ok(Some(window)) => (
                    after,
                    Ok(GridStep::ReadMatches(FilterRead { window, viewport_start: None })),
                ),
                Err(message) => (after, Err(message)),
            }
        },
    }
}

/// What taking the filter away comes to.
pub open spec fn filter_cleared(before: DocumentView) -> (DocumentView, Result<GridStep, Seq<char>>) {
    if before.export.running {
        (before, Err("Cancel the active export before clearing filters."@))
    } else {
        let stopped = without_read(before);
        let told = if stopped.filter.running {
            stopped.effects.push(Effect::CancelFilter)
        } else {
            stopped.effects
        };
        let document = DocumentView {
            filter: FilterView {
                running: false,
                indexed_matches: None,
                query: None,
                progress: None,
                status: None,
                ..without_matches_held(stopped.filter)
            },
            export: ExportView { progress: None, status: None, cancel_requested: false, ..stopped.export },
            selection: SelectionView { selection: None, rows: no_rows(), reveal_cell: None, ..stopped.selection },
            effects: told.push(Effect::ResetScroll),
            ..stopped
        };
        if data_rows(document) > 0 {
            navigation(document, document.grid.viewport_start, ReadPurpose::Viewport)
        } else {
            (document, Ok(GridStep::Covered))
        }
    }
}

/// Once the matches that a page needs are at hand, no read is started for it.
pub proof fn lemma_matches_cover_after_read(document: DocumentView, viewport_start: u64, rows: Seq<MatchView>)
    requires
        viewport_start <= known_matches(document),
        match_window(document, viewport_start) matches Some(window) && rows.len() == window.count,
        document.grid.visible_rows + 2 * OVERSCAN_ROWS <= usize::MAX,
    ensures
        matches_cover(
            with_matches(document, match_window(document, viewport_start)->0.start_match, rows),
            viewport_start,
        ),
{
    reveal(with_matches);
}

/// The page of matches starts within the matches that are known.
pub open spec fn page_in_range(document: DocumentView) -> bool {
    known_matches(document) > 0 ==> document.filter.viewport_start <= known_matches(document)
}

/// The start of the page that shows the match `requested`, or the last full page.
pub open spec fn match_page(document: DocumentView, requested: u64) -> u64 {
    smaller(requested as int, less(known_matches(document) as int, document.grid.visible_rows as int)) as u64
}

/// The page that starts at `start` is in view, or comes into view with the read that is asked
/// for; it lies within the matches.
pub open spec fn page_shown(after: DocumentView, outcome: Result<GridStep, Seq<char>>, start: u64) -> bool {
    match outcome {
        Ok(GridStep::ReadMatches(read)) => read.viewport_start == Some(start) && page_in_range(
            with_read_started(after, read),
        ),
        Ok(_) => after.filter.viewport_start == start && page_in_range(after),
        Err(_) => true,
    }
}

proof fn lemma_schedule_frame(document: DocumentView, start: u64)
    ensures
        ({
            let after = scheduled(document, start).0;
            &&& after.filter.progress == document.filter.progress
            &&& after.filter.indexed_matches == document.filter.indexed_matches
            &&& after.grid == document.grid
        }),
{
    reveal(scheduled);
}

proof fn lemma_at_match_frame(document: DocumentView, start: u64)
    ensures
        at_match(document, start).filter == (FilterView { viewport_start: start, ..document.filter }),
        at_match(document, start).grid == document.grid,
{
    reveal(without_hidden);
}

/// Moving the grid shows the match that was asked for, or the last full page.
pub proof fn lemma_match_navigation_in_range(document: DocumentView, requested: u64)
    requires
        known_matches(document) > 0,
    ensures
        ({
            let (after, outcome) = match_navigation(document, requested);
            &&& page_shown(after, outcome, match_page(document, requested))
            &&& match_page(after, requested) == match_page(document, requested)
        }),
{
    let start = match_page(document, requested);
    lemma_schedule_frame(document, start);
    let after = scheduled(document, start).0;
    lemma_at_match_frame(after, start);
    if let Ok(GridStep::ReadMatches(read)) = match_navigation(document, requested).1 {
        lemma_at_match_frame(
            DocumentView {
                filter: FilterView {
                    read: Some(ActiveFilterRead { window: read.window, cancel_requested: false }),
                    ..after.filter
                },
                ..after
            },
            start,
        );
    }
}

/// News of a filter shows the page that was in view, or the last full one where there are fewer
/// matches.
pub proof fn lemma_news_keep_page_in_range(before: DocumentView, progress: FilterProgress, snapshot: Option<u64>)
    ensures
        ({
            let (after, outcome) = scanned(before, progress, snapshot);
            if progress.matches_found > 0 {
                page_shown(after, outcome, match_page(after, before.filter.viewport_start))
            } else {
                after.filter.viewport_start == 0 && page_in_range(after)
            }
        }),
{
    let counted = DocumentView { filter: FilterView { progress: Some(progress), ..before.filter }, ..before };
    let newer = DocumentView { filter: FilterView { indexed_matches: snapshot, ..counted.filter }, ..counted };
    if progress.matches_found > 0 {
        lemma_match_navigation_in_range(counted, before.filter.viewport_start);
        lemma_match_navigation_in_range(newer, before.filter.viewport_start);
    }
}

/// The end of a filter's scan shows the page that was in view, or the last full one where its
/// index holds fewer matches.
pub proof fn lemma_end_keeps_page_in_range(before: DocumentView, matches: u64)
    requires
        matches > 0,
    ensures
        ({
            let (after, outcome) = ended(before, Ok(matches));
            page_shown(after, outcome, match_page(after, before.filter.viewport_start))
        }),
{
    let cancelled = before.filter.progress matches Some(progress) && progress.cancelled;
    lemma_match_navigation_in_range(
        DocumentView {
            filter: FilterView {
                running: false,
                indexed_matches: Some(matches),
                status: Some(ended_message(cancelled, matches)),
                ..before.filter
            },
            ..before
        },
        before.filter.viewport_start,
    );
}

/// A page that lies within the matches still does once there are more of them.
pub proof fn lemma_more_matches_keep_page_in_range(document: DocumentView, matches: u64)
    requires
        page_in_range(document),
        known_matches(document) > 0,
        matches >= indexed(document),
    ensures
        page_in_range(
            DocumentView {
                filter: FilterView { indexed_matches: Some(matches), ..document.filter },
                ..document
            },
        ),
{
}

/// Every row of `rows` is one of those that `kept` stands for.
pub open spec fn all_kept(rows: Seq<MatchView>, kept: spec_fn(MatchView) -> bool) -> bool {
    forall|i: int| 0 <= i < rows.len() ==> kept(#[trigger] rows[i])
}

/// What a rule says of a row. A cell beyond the end of the row is empty.
pub open spec fn rule_holds(rule: PredicateView, cells: Seq<Seq<u8>>, case_sensitivity: CaseSensitivity) -> bool {
    let cell = if rule.column < cells.len() {
        cells[rule.column as int]
    } else {
        Seq::empty()
    };
    match rule.operator {
        FilterOperator::Contains => contains_bytes(cell, rule.value, case_sensitivity),
        FilterOperator::Equals => equal_bytes(cell, rule.value, case_sensitivity),
        FilterOperator::NotEquals => !equal_bytes(cell, rule.value, case_sensitivity),
    }
}

/// The rules that ask for a value in a column are alternatives, and every column that has such
/// rules meets one of them.
pub open spec fn alternatives_hold(query: QueryView, found: MatchView) -> bool {
    forall|i: int|
        0 <= i < query.predicates.len() && (#[trigger] query.predicates[i]).operator != FilterOperator::NotEquals
            ==> exists|j: int|
            0 <= j < query.predicates.len() && (#[trigger] query.predicates[j]).operator != FilterOperator::NotEquals
                && query.predicates[j].column == query.predicates[i].column && rule_holds(
                query.predicates[j],
                found.cells,
                query.case_sensitivity,
            )
}

proof fn lemma_schedule_keeps_rows(document: DocumentView, start: u64, kept: spec_fn(MatchView) -> bool)
    requires
        all_kept(document.filter.rows, kept),
    ensures
        all_kept(scheduled(document, start).0.filter.rows, kept),
{
    reveal(scheduled);
}

/// What holds of every match that was read holds of every match at hand, whatever the news of
/// the filter: a new filter starts without matches, and moves, scans and reads only cut those at
/// hand or put what was read in their place.
pub proof fn lemma_matches_at_hand(
    document: DocumentView,
    kept: spec_fn(MatchView) -> bool,
    query: QueryView,
    progress: FilterProgress,
    matches: u64,
    requested: u64,
    outcome: ReadOutcomeView,
)
    requires
        all_kept(document.filter.rows, kept),
        outcome matches ReadOutcomeView::Complete(rows) ==> all_kept(rows, kept),
    ensures
        with_filter_started(document, query, progress, matches).filter.rows.len() == 0,
        all_kept(match_navigation(document, requested).0.filter.rows, kept),
        all_kept(scanned(document, progress, Some(matches)).0.filter.rows, kept),
        all_kept(scanned(document, progress, None).0.filter.rows, kept),
        all_kept(ended(document, Ok(matches)).0.filter.rows, kept),
        document.filter.read is Some ==> all_kept(read_ended(document, outcome).0.filter.rows, kept),
{
    reveal(without_hidden);
    reveal(with_matches);
    assert forall|other: DocumentView, start: u64| all_kept(other.filter.rows, kept) implies all_kept(
        (#[trigger] scheduled(other, start)).0.filter.rows,
        kept,
    ) by {
        lemma_schedule_keeps_rows(other, start, kept);
    }
}

/// The page of a filter is part of the matches at hand and no longer than its height: where each
/// match that was read meets one of the alternatives in every column, so does each row shown.
pub proof fn lemma_page_of_matches(document: DocumentView, query: QueryView)
    requires
        all_kept(document.filter.rows, |found: MatchView| alternatives_hold(query, found)),
    ensures
        page_matches(document).len() <= document.grid.visible_rows,
        all_kept(page_matches(document), |found: MatchView| alternatives_hold(query, found)),
{
}

impl Document {
    pub fn filter_active(&self) -> (active: bool)
        ensures
            active == (self@.filter.query is Some),
    {
        self.filter.query.is_some()
    }

    pub fn is_filter_ready(&self) -> (ready: bool)
        ensures
            ready == filter_ready(self@),
    {
        self.grid.total_columns > 0 && self.structural.job.is_none()
    }

    /// Whether a read of matches runs or waits.
    pub fn filter_rows_loading(&self) -> (loading: bool)
        ensures
            loading == (self@.filter.read is Some || self@.filter.pending is Some),
    {
        self.filter.read.is_some() || self.filter.pending.is_some()
    }

    /// The number of matches that are known so far.
    pub fn available_filter_rows(&self) -> (matches: u64)
        ensures
            matches == known_matches(self@),
    {
        let counted: u64 = match self.filter.progress {
            Some(progress) => progress.matches_found,
            None => 0,
        };
        let held: u64 = match self.filter.indexed_matches {
            Some(matches) => matches,
            None => 0,
        };
        if held > counted {
            held
        } else {
            counted
        }
    }

    /// Checks that a filter can start, and keeps what is being typed.
    pub fn start_filter(&mut self, query: &FilterQuery) -> (result: Result<(), String>)
        requires
            old(self).wf(),
        ensures
            final(self).wf(),
            match filter_refusal(old(self)@, query@) {
                Some(message) => (result matches Err(given) && given@ == message) && final(self)@ == old(self)@,
                None => result is Ok && final(self)@ == committed(old(self)@),
            },
    {
        if self.export.running {
            return Err("Cancel the active export before changing filters.".to_owned());
        }
        if self.filter.running {
            return Err("A filter is already running.".to_owned());
        }
        if self.search.running {
            return Err("Cancel the active search before filtering.".to_owned());
        }
        if self.has_cell_edits() {
            return Err("Save or discard cell edits before filtering the source file.".to_owned());
        }
        if !self.is_filter_ready() {
            return Err("Open a file with at least one column before filtering.".to_owned());
        }
        if query.predicates.len() == 0 {
            return Err("Add at least one filter rule.".to_owned());
        }
        for index in 0..query.predicates.len()
            invariant
                *self == *old(self),
                self.wf(),
                filter_refusal(self@, query@) == rules_error(self@, query@.predicates, index as int),
        {
            let predicate = &query.predicates[index];
            assert(query@.predicates[index as int] == predicate@);
            match self.validate_column(predicate.column) {
                Ok(()) => {},
                Err(message) => {
                    return Err(
                        "Rule ".to_owned().concat(text::count(index + 1).as_str()).concat(": ").concat(
                            message.as_str(),
                        ),
                    );
                },
            }
            if predicate.operator == FilterOperator::Contains && predicate.value.len() == 0 {
                return Err(
                    "Rule ".to_owned().concat(text::count(index + 1).as_str()).concat(
                        ": enter text for a Contains filter.",
                    ),
                );
            }
        }
        self.commit_edits();
        Ok(())
    }

    /// Takes note of a filter that has started, with the matches of its first index.
    pub fn filter_started(&mut self, query: FilterQuery, progress: FilterProgress, matches: u64)
        requires
            old(self).wf(),
        ensures
            final(self).wf(),
            final(self)@ == with_filter_started(old(self)@, query@, progress, matches),
    {
        self.stop_filter_read();
        self.filter.progress = Some(progress);
        self.filter.indexed_matches = Some(matches);
        self.filter.running = true;
        self.filter.query = Some(query);
        self.filter.status = Some("Filtering rows…".to_owned());
        self.export.progress = None;
        self.export.status = None;
        self.export.cancel_requested = false;
        self.drop_matches();
        self.selection.selection = None;
        self.selection.rows.clear();
        self.selection.reveal_cell = None;
        self.effects.push(Effect::ResetScroll);
        proof {
            assert(self@ =~= with_filter_started(old(self)@, query@, progress, matches));
        }
    }

    /// Lets go of the matches at hand.
    fn drop_matches(&mut self)
        ensures
            final(self)@ == (DocumentView { filter: without_matches_held(old(self)@.filter), ..old(self)@ }),
            *final(self) == (Document { filter: final(self).filter, ..*old(self) }),
    {
        self.filter.viewport_start = 0;
        self.filter.buffer_start = 0;
        self.filter.rows = Vec::new();
        proof {
            assert(self@.filter =~= without_matches_held(old(self)@.filter));
        }
    }

    /// Gives up the read of matches, running or waiting.
    pub fn stop_filter_read(&mut self)
        ensures
            final(self)@ == without_read(old(self)@),
            *final(self) == (Document { filter: final(self).filter, effects: final(self).effects, ..*old(self) }),
    {
        self.filter.pending = None;
        if self.filter.read.is_some() {
            self.effects.push(Effect::AbandonFilterRead);
        }
        self.filter.read = None;
        proof {
            assert(self@ =~= without_read(old(self)@));
        }
    }

    /// Tells the running read of matches to stop.
    fn cancel_filter_read_for_navigation(&mut self)
        ensures
            final(self)@ == with_read_cancelled(old(self)@),
            *final(self) == (Document { filter: final(self).filter, effects: final(self).effects, ..*old(self) }),
    {
        self.filter.pending = None;
        if let Some(read) = self.filter.read {
            if !read.cancel_requested {
                self.effects.push(Effect::CancelFilterRead);
                self.filter.read = Some(ActiveFilterRead { window: read.window, cancel_requested: true });
            }
        }
        proof {
            assert(self@ =~= with_read_cancelled(old(self)@));
        }
    }

    /// The matches to read for the page that starts at `viewport_start`.
    pub fn filter_read_window(&self, viewport_start: u64) -> (window: Option<FilterReadWindow>)
        ensures
            window == match_window(self@, viewport_start),
    {
        let available: u64 = self.available_filter_rows();
        if available == 0 {
            return None;
        }
        let capacity: u64 = self.grid.visible_rows.saturating_add(2 * OVERSCAN_ROWS) as u64;
        let last_start: u64 = available.saturating_sub(capacity);
        let ahead: u64 = viewport_start.saturating_sub(OVERSCAN_ROWS as u64);
        let start_match: u64 = if ahead <= last_start { ahead } else { last_start };
        let rest: u64 = available - start_match;
        let count: usize = (if rest <= capacity { rest } else { capacity }) as usize;
        Some(FilterReadWindow { start_match, count })
    }

    /// Whether the matches at hand take in the page that starts at `viewport_start`.
    pub fn filter_buffer_covers(&self, viewport_start: u64) -> (covers: bool)
        requires
            known_matches(self@) > 0 ==> viewport_start <= known_matches(self@),
        ensures
            covers == matches_cover(self@, viewport_start),
    {
        let available: u64 = self.available_filter_rows();
        if available == 0 {
            return false;
        }
        let visible: u64 = self.grid.visible_rows as u64;
        let rest: u64 = available - viewport_start;
        let visible_end: u64 = viewport_start + if rest <= visible { rest } else { visible };
        let held: u64 = self.filter.rows.len() as u64;
        let loaded_end: u64 = self.filter.buffer_start.saturating_add(held);
        let capacity: u64 = self.grid.visible_rows.saturating_add(2 * OVERSCAN_ROWS) as u64;
        assert(self@.filter.rows.len() == self.filter.rows@.len());
        self.filter.buffer_start <= viewport_start && loaded_end >= visible_end && held <= capacity
    }

    /// Cuts the matches at hand to `window`.
    fn cut_matches(&mut self, window: FilterReadWindow)
        ensures
            final(self)@ == cut_to(old(self)@, window),
            *final(self) == (Document { filter: final(self).filter, ..*old(self) }),
    {
        let held: usize = self.filter.rows.len();
        assert(self@.filter.rows.len() == held);
        if held > window.count && window.start_match >= self.filter.buffer_start {
            let ahead: u64 = window.start_match - self.filter.buffer_start;
            if ahead <= (held - window.count) as u64 {
                let offset: usize = ahead as usize;
                let mut rows = self.filter.rows.split_off(offset);
                rows.truncate(window.count);
                self.filter.rows = rows;
                self.filter.buffer_start = window.start_match;
                proof {
                    assert(self@.filter.rows =~= old(self)@.filter.rows.subrange(
                        offset as int,
                        offset + window.count,
                    ));
                }
            }
        }
        proof {
            assert(self@ =~= cut_to(old(self)@, window));
        }
    }

    /// Sees to it that the matches of the page that starts at `viewport_start` are at hand or
    /// are read.
    pub fn schedule_filter_buffer(&mut self, viewport_start: u64) -> (result: Result<Option<FilterReadWindow>, String>)
        requires
            old(self).wf(),
            known_matches(old(self)@) > 0 ==> viewport_start <= known_matches(old(self)@),
        ensures
            final(self).wf(),
            (
                final(self)@,
                match result {
                    Ok(window) => Ok::<Option<FilterReadWindow>, Seq<char>>(window),
                    Err(message) => Err(message@),
                },
            ) == scheduled(old(self)@, viewport_start),
            known_matches(final(self)@) == known_matches(old(self)@),
            *final(self) == (Document { filter: final(self).filter, effects: final(self).effects, ..*old(self) }),
    {
        proof {
            reveal(scheduled);
        }
        let window = match self.filter_read_window(viewport_start) {
            Some(window) => window,
            None => {
                self.cancel_filter_read_for_navigation();
                self.filter.buffer_start = 0;
                self.filter.rows = Vec::new();
                proof {
                    assert(self@ =~= scheduled(old(self)@, viewport_start).0);
                }
                return Ok(None);
            },
        };
        self.cut_matches(window);
        let ghost cut = self@;
        if self.filter_buffer_covers(viewport_start) {
            self.cancel_filter_read_for_navigation();
            return Ok(None);
        }
        self.need_matches(window)
    }

    /// Asks for the matches of `window`, now or once the running read has stopped.
    #[verifier::rlimit(50)]
    fn need_matches(&mut self, window: FilterReadWindow) -> (result: Result<Option<FilterReadWindow>, String>)
        requires
            old(self).wf(),
        ensures
            final(self).wf(),
            (
                final(self)@,
                match result {
                    Ok(window) => Ok::<Option<FilterReadWindow>, Seq<char>>(window),
                    Err(message) => Err(message@),
                },
            ) == needed(old(self)@, window),
            known_matches(final(self)@) == known_matches(old(self)@),
            *final(self) == (Document { filter: final(self).filter, effects: final(self).effects, ..*old(self) }),
    {
        let required: u64 = window.start_match.saturating_add(window.count as u64);
        let held: u64 = match self.filter.indexed_matches {
            Some(matches) => matches,
            None => 0,
        };
        if held < required && self.filter.running {
            self.effects.push(Effect::SnapshotFilter);
        }
        let ghost asked = self@;
        assert(asked =~= with_snapshot_for(
            old(self)@,
            capped_sum(window.start_match as int, window.count as int),
        ));
        if let Some(read) = self.filter.read {
            let same = read.window.start_match == window.start_match && read.window.count == window.count;
            if same && !read.cancel_requested {
                self.filter.pending = None;
            } else {
                self.cancel_filter_read_for_navigation();
                self.filter.pending = Some(window);
            }
            assert(self@ =~= needed(old(self)@, window).0);
            return Ok(None);
        }
        self.filter.pending = None;
        assert(self@ =~= needed(old(self)@, window).0);
        if self.filter.indexed_matches.is_some() || self.filter.running {
            Ok(Some(window))
        } else {
            Err("No filter index is available.".to_owned())
        }
    }

    /// Takes note of a newer index of the filter.
    pub fn filter_snapshot_taken(&mut self, matches: u64)
        requires
            old(self).wf(),
        ensures
            final(self).wf(),
            final(self)@ == (DocumentView {
                filter: FilterView { indexed_matches: Some(matches), ..old(self)@.filter },
                ..old(self)@
            }),
    {
        self.filter.indexed_matches = Some(matches);
        proof {
            assert(self@ =~= DocumentView {
                filter: FilterView { indexed_matches: Some(matches), ..old(self)@.filter },
                ..old(self)@
            });
        }
    }

    /// Takes note of a read of matches that has started.
    pub fn filter_read_started(&mut self, read: FilterRead)
        requires
            old(self).wf(),
        ensures
            final(self).wf(),
            final(self)@ == with_read_started(old(self)@, read),
    {
        self.filter.read = Some(ActiveFilterRead { window: read.window, cancel_requested: false });
        proof {
            assert(self@ =~= with_read_started(old(self)@, (FilterRead { viewport_start: None, ..read })));
        }
        if let Some(start) = read.viewport_start {
            self.show_matches(start);
        }
    }

    /// Brings the page of matches that starts at `start` into view.
    fn show_matches(&mut self, start: u64)
        requires
            old(self).wf(),
        ensures
            final(self).wf(),
            final(self)@ == at_match(old(self)@, start),
    {
        self.filter.viewport_start = start;
        proof {
            assert(self@ =~= DocumentView {
                filter: FilterView { viewport_start: start, ..old(self)@.filter },
                ..old(self)@
            });
        }
        self.clear_hidden_selection();
    }

    /// Moves the grid to a match.
    pub fn navigate_filter(&mut self, requested: u64) -> (result: Result<GridStep, String>)
        requires
            old(self).wf(),
        ensures
            final(self).wf(),
            (final(self)@, step_view(result)) == match_navigation(old(self)@, requested),
    {
        let available: u64 = self.available_filter_rows();
        if available == 0 {
            self.cancel_filter_read_for_navigation();
            self.drop_matches();
            self.clear_hidden_selection();
            return Ok(GridStep::Covered);
        }
        let maximum: u64 = crate::grid::max_viewport_start(available, self.grid.visible_rows);
        let start: u64 = if requested <= maximum { requested } else { maximum };
        match self.schedule_filter_buffer(start) {
            Ok(None) => {
                self.show_matches(start);
                Ok(GridStep::Covered)
            },
            Ok(Some(window)) => Ok(GridStep::ReadMatches(FilterRead { window, viewport_start: Some(start) })),
            Err(message) => Err(message),
        }
    }

    /// Whether a newer index of the filter is needed once `progress` is known.
    pub fn filter_snapshot_wanted(&self, progress: FilterProgress) -> (wanted: bool)
        ensures
            wanted == (progress.matches_found > 0 && indexed(self@) < required_matches(self@, progress)),
    {
        let held: u64 = match self.filter.indexed_matches {
            Some(matches) => matches,
            None => 0,
        };
        let page_end: u64 = self.filter.viewport_start.saturating_add(self.grid.visible_rows as u64);
        let required: u64 = if page_end <= progress.matches_found { page_end } else { progress.matches_found };
        progress.matches_found > 0 && held < required
    }

    /// Takes in news of the filter's progress. `snapshot` is the number of matches in a newer
    /// index, where one was wanted.
    pub fn filter_scanned(&mut self, progress: FilterProgress, snapshot: Option<u64>) -> (result: Result<GridStep, String>)
        requires
            old(self).wf(),
        ensures
            final(self).wf(),
            (final(self)@, step_view(result)) == scanned(old(self)@, progress, snapshot),
    {
        let wanted = self.filter_snapshot_wanted(progress);
        self.filter.progress = Some(progress);
        if progress.matches_found > 0 {
            if wanted {
                if let Some(matches) = snapshot {
                    self.filter.indexed_matches = Some(matches);
                }
            }
            let start: u64 = self.filter.viewport_start;
            proof {
                let document = DocumentView {
                    filter: FilterView { progress: Some(progress), ..old(self)@.filter },
                    ..old(self)@
                };
                if wanted && snapshot is Some {
                    assert(self@ =~= DocumentView {
                        filter: FilterView { indexed_matches: snapshot, ..document.filter },
                        ..document
                    });
                } else {
                    assert(self@ =~= document);
                }
            }
            self.navigate_filter(start)
        } else {
            self.drop_matches();
            proof {
                assert(self@ =~= scanned(old(self)@, progress, snapshot).0);
            }
            Ok(GridStep::Covered)
        }
    }

    /// Takes in the end of the filter's scan.
    pub fn filter_finished(&mut self, outcome: Result<u64, String>) -> (result: Result<GridStep, String>)
        requires
            old(self).wf(),
        ensures
            final(self).wf(),
            (final(self)@, step_view(result)) == ended(
                old(self)@,
                match outcome {
                    Ok(matches) => Ok(matches),
                    Err(message) => Err(message@),
                },
            ),
    {
        self.filter.running = false;
        match outcome {
            Ok(matches) => {
                let cancelled = match self.filter.progress {
                    Some(progress) => progress.cancelled,
                    None => false,
                };
                self.filter.indexed_matches = Some(matches);
                self.filter.status = Some(
                    if cancelled {
                        "Filter cancelled after ".to_owned().concat(text::number(matches).as_str()).concat(" matches.")
                    } else if matches == 0 {
                        "Filter complete. No matching rows.".to_owned()
                    } else {
                        "Filter complete. ".to_owned().concat(text::number(matches).as_str()).concat(" matches.")
                    },
                );
                proof {
                    assert(self@ =~= DocumentView {
                        filter: FilterView {
                            running: false,
                            indexed_matches: Some(matches),
                            status: Some(ended_message(cancelled, matches)),
                            ..old(self)@.filter
                        },
                        ..old(self)@
                    });
                }
                if matches > 0 {
                    let start: u64 = self.filter.viewport_start;
                    self.navigate_filter(start)
                } else {
                    Ok(GridStep::Covered)
                }
            },
            Err(message) => {
                self.stop_filter_read();
                self.filter.indexed_matches = None;
                self.filter.query = None;
                self.filter.progress = None;
                self.filter.status = None;
                self.drop_matches();
                proof {
                    assert(self@ =~= ended(old(self)@, Err(message@)).0);
                }
                Err(message)
            },
        }
    }

    /// Puts matches that were read at hand.
    fn accept_matches(&mut self, start: u64, rows: Vec<FilterMatch>)
        requires
            old(self).wf(),
        ensures
            final(self).wf(),
            final(self)@ == with_matches(old(self)@, start, matches_of(rows@)),
            known_matches(final(self)@) == known_matches(old(self)@),
            final(self)@.filter.viewport_start == old(self)@.filter.viewport_start,
    {
        let loaded_columns: usize = model::widest_match(&rows);
        if loaded_columns > self.grid.total_columns {
            self.ensure_column_count(loaded_columns);
            self.refresh_column_headers();
        }
        self.filter.buffer_start = start;
        self.filter.rows = rows;
        proof {
            reveal(with_matches);
            assert(self@ =~= with_matches(old(self)@, start, matches_of(rows@)));
        }
    }

    /// Takes in the end of a read of matches.
    pub fn filter_read_finished(&mut self, outcome: FilterReadOutcome) -> (result: Result<GridStep, String>)
        requires
            old(self).wf(),
            old(self)@.filter.read is Some,
            outcome is Failed || page_in_range(old(self)@),
        ensures
            final(self).wf(),
            (final(self)@, step_view(result)) == read_ended(old(self)@, outcome@),
    {
        let ghost seen = outcome@;
        let start: u64 = self.filter.viewport_start;
        let active = self.filter.read;
        self.filter.read = None;
        let ghost document = DocumentView {
            filter: FilterView { read: None, ..old(self)@.filter },
            ..old(self)@
        };
        assert(self@ =~= document);
        match outcome {
            FilterReadOutcome::Complete(rows) => {
                if let (Some(read), Some(desired)) = (active, self.filter_read_window(start)) {
                    if desired.start_match == read.window.start_match && desired.count == read.window.count {
                        self.accept_matches(read.window.start_match, rows);
                    }
                }
            },
            FilterReadOutcome::Cancelled => {},
            FilterReadOutcome::Failed(message) => {
                self.filter.pending = None;
                proof {
                    assert(self@ =~= read_ended(old(self)@, seen).0);
                }
                return Err(message);
            },
        }
        match self.schedule_filter_buffer(start) {
            Ok(None) => Ok(GridStep::Covered),
            Ok(Some(window)) => Ok(GridStep::ReadMatches(FilterRead { window, viewport_start: None })),
            Err(message) => Err(message),
        }
    }

    /// Tells a running filter to stop.
    pub fn cancel_filter(&mut self)
        requires
            old(self).wf(),
        ensures
            final(self).wf(),
            final(self)@ == (DocumentView {
                effects: if old(self)@.filter.running {
                    old(self)@.effects.push(Effect::CancelFilter)
                } else {
                    old(self)@.effects
                },
                ..old(self)@
            }),
    {
        if self.filter.running {
            self.effects.push(Effect::CancelFilter);
        }
    }

    /// Takes the filter away and shows every row again.
    pub fn clear_filter(&mut self) -> (result: Result<GridStep, String>)
        requires
            old(self).wf(),
        ensures
            final(self).wf(),
            (final(self)@, step_view(result)) == filter_cleared(old(self)@),
    {
        if self.export.running {
            return Err("Cancel the active export before clearing filters.".to_owned());
        }
        self.stop_filter_read();
        if self.filter.running {
            self.effects.push(Effect::CancelFilter);
            self.filter.running = false;
        }
        self.filter.indexed_matches = None;
        self.filter.query = None;
        self.filter.progress = None;
        self.filter.status = None;
        self.export.progress = None;
        self.export.status = None;
        self.export.cancel_requested = false;
        self.drop_matches();
        self.selection.selection = None;
        self.selection.rows.clear();
        self.selection.reveal_cell = None;
        self.effects.push(Effect::ResetScroll);
        proof {
            let stopped = without_read(old(self)@);
            let told = if stopped.filter.running {
                stopped.effects.push(Effect::CancelFilter)
            } else {
                stopped.effects
            };
            assert(self@ =~= DocumentView {
                filter: FilterView {
                    running: false,
                    indexed_matches: None,
                    query: None,
                    progress: None,
                    status: None,
                    ..without_matches_held(stopped.filter)
                },
                export: ExportView { progress: None, status: None, cancel_requested: false, ..stopped.export },
                selection: SelectionView { selection: None, rows: no_rows(), reveal_cell: None, ..stopped.selection },
                effects: told.push(Effect::ResetScroll),
                ..stopped
            });
        }
        if self.available_data_rows() > 0 {
            let start: u64 = self.grid.viewport_start;
            self.navigate(start)
        } else {
            Ok(GridStep::Covered)
        }
    }
}

} // verus!
