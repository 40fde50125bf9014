//! Finding and replacing text in cells.

use crate::document::{no_rows, Document, DocumentView, EditsView, SearchView, SelectionView};
use crate::edits::{bytes_equal, committed, found, updated, without_redo};
use crate::grid::{
    current_cell, held_cell, navigation, step_view, with_match_shown, GridStep, ReadPurpose,
};
use crate::literal::{self, contains_bytes, replaced_from, CaseSensitivity};
use crate::model::{self, Effect, SearchMatch, SearchPosition};
use crate::rows::GridSelection;
use vstd::prelude::*;
use vstd::string::*;

verus! {

/// What a request to find comes to: a move to a match that is known, or a search to start.
#[derive(Clone, Copy, Debug, PartialEq, Eq)]
pub enum SearchStep {
    Move(GridStep),
    Start(SearchPosition),
}

/// The outcome of a request, with its message as characters.
pub open spec fn search_step_view(result: Result<SearchStep, String>) -> Result<SearchStep, Seq<char>> {
    match result {
        Ok(step) => Ok(step),
        Err(message) => Err(message@),
    }
}

/// How a search ended.
#[derive(Debug, PartialEq, Eq)]
pub enum SearchOutcome {
    Match(SearchMatch),
    NotFound,
    Cancelled,
    Failed(String),
}

/// The index is complete, and no structural change runs.
pub open spec fn search_ready(document: DocumentView) -> bool {
    &&& document.index.indexed_rows is Some
    &&& document.index.progress.done
    &&& !document.index.progress.cancelled
    &&& document.structural.job is None
}

/// What showing a match comes to.
pub open spec fn match_shown(document: DocumentView, found: SearchMatch) -> (DocumentView, Result<GridStep, Seq<char>>) {
    let (after, outcome) = navigation(document, found.row, ReadPurpose::Match(found));
    match outcome {
        Ok(GridStep::Covered) | Ok(GridStep::Filled) => (with_match_shown(after, found), outcome),
        _ => (after, outcome),
    }
}

/// The outcome of a move as that of a request to find.
pub open spec fn as_search(outcome: (DocumentView, Result<GridStep, Seq<char>>)) -> (
    DocumentView,
    Result<SearchStep, Seq<char>>,
) {
    (
        outcome.0,
        match outcome.1 {
            Ok(step) => Ok(SearchStep::Move(step)),
            Err(message) => Err(message),
        },
    )
}

/// Why nothing can be searched for.
pub open spec fn find_refusal(document: DocumentView, query: Seq<u8>) -> Option<Seq<char>> {
    if query.len() == 0 {
        Some("Enter text to find."@)
    } else if document.filter.query is Some {
        Some("Clear the filter before using Find."@)
    } else if document.search.running {
        Some("A search is already running."@)
    } else if !search_ready(document) {
        Some("Search is available after indexing completes."@)
    } else {
        None
    }
}

/// The search for `query`: the one there is, or a new one where it was for something else.
pub open spec fn search_for(search: SearchView, query: Seq<u8>, case_sensitivity: CaseSensitivity) -> SearchView {
    if search.query == query && search.case_sensitivity == case_sensitivity {
        search
    } else {
        SearchView {
            query,
            case_sensitivity,
            last_match: None,
            history: Seq::empty(),
            history_index: None,
            ..search
        }
    }
}

/// The match after the current one, where it is known.
pub open spec fn next_known(search: SearchView) -> Option<usize> {
    match search.history_index {
        Some(index) if index + 1 < search.history.len() => Some((index + 1) as usize),
        _ => None,
    }
}

/// The cell from which a search goes on.
pub open spec fn search_start(document: DocumentView) -> SearchPosition {
    match document.search.last_match {
        Some(found) => SearchPosition {
            row: found.row,
            column: if found.column < usize::MAX {
                (found.column + 1) as usize
            } else {
                usize::MAX
            },
        },
        None => SearchPosition { row: document.grid.viewport_start, column: 0 },
    }
}

/// What a request for the next match comes to.
pub open spec fn next_found(before: DocumentView, query: Seq<u8>, case_sensitivity: CaseSensitivity) -> (
    DocumentView,
    Result<SearchStep, Seq<char>>,
) {
    match find_refusal(before, query) {
        Some(message) => (before, Err(message)),
        None => {
            let kept = committed(before);
            let document = DocumentView { search: search_for(kept.search, query, case_sensitivity), ..kept };
            match next_known(document.search) {
                Some(index) => as_search(
                    match_shown(
                        DocumentView {
                            search: SearchView { history_index: Some(index), ..document.search },
                            ..document
                        },
                        document.search.history[index as int],
                    ),
                ),
                None => (document, Ok(SearchStep::Start(search_start(document)))),
            }
        },
    }
}

/// There is a match before the current one.
pub open spec fn has_previous(document: DocumentView, query: Seq<u8>, case_sensitivity: CaseSensitivity) -> bool {
    &&& query.len() > 0
    &&& !document.search.running
    &&& document.filter.query is None
    &&& search_ready(document)
    &&& document.search.query == query
    &&& document.search.case_sensitivity == case_sensitivity
    &&& match document.search.history_index {
        Some(index) => index > 0,
        None => document.search.history.len() > 0,
    }
}

/// What a request for the previous match comes to.
pub open spec fn previous_found(before: DocumentView, query: Seq<u8>, case_sensitivity: CaseSensitivity) -> (
    DocumentView,
    Result<GridStep, Seq<char>>,
) {
    let document = committed(before);
    if has_previous(document, query, case_sensitivity) {
        let index: usize = match document.search.history_index {
            Some(index) => (index - 1) as usize,
            None => (document.search.history.len() - 1) as usize,
        };
        match_shown(
            DocumentView { search: SearchView { history_index: Some(index), ..document.search }, ..document },
            document.search.history[index as int],
        )
    } else {
        (document, Err("Find at least two matches before moving back."@))
    }
}

/// The current match is selected and still holds the query, and nothing stands in the way of
/// replacing it.
pub open spec fn replaceable(document: DocumentView, query: Seq<u8>, case_sensitivity: CaseSensitivity) -> bool {
    &&& query.len() > 0
    &&& !document.search.running
    &&& !document.save.running
    &&& document.structural.job is None
    &&& document.edits.cell_edit is None
    &&& document.edits.header_edit is None
    &&& document.search.query == query
    &&& document.search.case_sensitivity == case_sensitivity
    &&& document.search.last_match matches Some(found) && {
        &&& document.selection.selection == Some(GridSelection::Cell { row: found.row, column: found.column })
        &&& current_cell(document, found.row, found.column) matches Some(value) && contains_bytes(
            value,
            query,
            case_sensitivity,
        )
    }
}

/// The document with the bytes of a cell changed.
pub open spec fn with_cell(document: DocumentView, row: u64, column: usize, source: Seq<u8>, value: Seq<u8>) -> DocumentView {
    let cleared = without_redo(document);
    DocumentView {
        edits: EditsView {
            cells: updated(cleared.edits.cells, (row, column), if value == source { None } else { Some(value) }),
            ..cleared.edits
        },
        ..cleared
    }
}

/// The document with the current match replaced in every place of its cell.
pub open spec fn with_match_replaced(
    before: DocumentView,
    query: Seq<u8>,
    replacement: Seq<u8>,
    case_sensitivity: CaseSensitivity,
) -> DocumentView {
    let found = before.search.last_match->0;
    let source = held_cell(before, found.row, found.column)->0;
    let value = current_cell(before, found.row, found.column)->0;
    let next = replaced_from(value, query, replacement, case_sensitivity, 0);
    let document = if next == value {
        before
    } else {
        with_cell(before, found.row, found.column, source, next)
    };
    DocumentView {
        selection: SelectionView {
            selection: Some(GridSelection::Cell { row: found.row, column: found.column }),
            rows: no_rows(),
            ..document.selection
        },
        search: SearchView {
            history: match document.search.history_index {
                Some(index) => document.search.history.take(index as int),
                None => document.search.history,
            },
            history_index: None,
            ..document.search
        },
        ..document
    }
}

/// What a request to replace the current match and go on comes to.
pub open spec fn replaced(
    before: DocumentView,
    query: Seq<u8>,
    replacement: Seq<u8>,
    case_sensitivity: CaseSensitivity,
) -> (DocumentView, Result<SearchStep, Seq<char>>) {
    if !replaceable(before, query, case_sensitivity) {
        (before, Err("Find a current match before replacing it."@))
    } else if held_cell(before, before.search.last_match->0.row, before.search.last_match->0.column) is None {
        (before, Err("The current matched cell is no longer available for replacement."@))
    } else {
        next_found(
            with_match_replaced(before, query, replacement, case_sensitivity),
            query,
            case_sensitivity,
        )
    }
}

/// What the end of a search comes to.
pub open spec fn search_ended(before: DocumentView, outcome: SearchOutcome) -> (
    DocumentView,
    Result<GridStep, Seq<char>>,
) {
    let document = DocumentView { search: SearchView { running: false, ..before.search }, ..before };
    match outcome {
        SearchOutcome::Match(found) => {
            let kept = match document.search.history_index {
                Some(index) => document.search.history.take(index + 1),
                None => document.search.history,
            };
            match_shown(
                DocumentView {
                    search: SearchView {
                        history: kept.push(found),
                        history_index: Some(kept.len() as usize),
                        ..document.search
                    },
                    ..document
                },
                found,
            )
        },
        SearchOutcome::NotFound => (
            DocumentView { search: SearchView { status: Some("No further matches."@), ..document.search }, ..document },
            Ok(GridStep::Covered),
        ),
        SearchOutcome::Cancelled => (
            DocumentView { search: SearchView { status: Some("Search cancelled."@), ..document.search }, ..document },
            Ok(GridStep::Covered),
        ),
        SearchOutcome::Failed(message) => (document, Err(message@)),
    }
}

/// The document with a search that runs.
pub open spec fn with_search_started(document: DocumentView) -> DocumentView {
    DocumentView {
        search: SearchView { running: true, status: None, ..document.search },
        selection: SelectionView { reveal_cell: None, ..document.selection },
        ..document
    }
}

/// Going back from a match and forward again shows the same match.
pub proof fn lemma_back_and_forth(search: SearchView)
    requires
        search.history_index matches Some(index) && 0 < index < search.history.len(),
        search.history.len() <= usize::MAX,
    ensures
        ({
            let index = search.history_index->0;
            next_known(SearchView { history_index: Some((index - 1) as usize), ..search }) == Some(index)
        }),
{
}

/// A new match becomes the last and the current one of the matches so far.
#[verifier::rlimit(50)]
pub proof fn lemma_found_is_current(before: DocumentView, found: SearchMatch)
    requires
        before.search.history_index matches Some(index) ==> index < before.search.history.len(),
        before.search.history.len() < usize::MAX,
        before.edits.cell_edit is None,
    ensures
        ({
            let after = search_ended(before, SearchOutcome::Match(found)).0.search;
            &&& after.history.len() > 0
            &&& after.history.last() == found
            &&& after.history_index == Some((after.history.len() - 1) as usize)
        }),
{
    let document = DocumentView { search: SearchView { running: false, ..before.search }, ..before };
    let kept = match document.search.history_index {
        Some(index) => document.search.history.take(index + 1),
        None => document.search.history,
    };
    let noted = DocumentView {
        search: SearchView {
            history: kept.push(found),
            history_index: Some(kept.len() as usize),
            ..document.search
        },
        ..document
    };
    reveal(committed);
    reveal(crate::grid::with_rows);
    reveal(crate::grid::without_hidden);
}

impl Document {
    pub fn is_search_ready(&self) -> (ready: bool)
        ensures
            ready == search_ready(self@),
    {
        self.index.indexed_rows.is_some() && self.index.progress.done && !self.index.progress.cancelled
            && self.structural.job.is_none()
    }

    /// Moves the grid to a match and selects it.
    pub fn show_search_match(&mut self, found: SearchMatch) -> (result: Result<GridStep, String>)
        requires
            old(self).wf(),
        ensures
            final(self).wf(),
            (final(self)@, step_view(result)) == match_shown(old(self)@, found),
    {
        let result = self.navigate_for(found.row, ReadPurpose::Match(found));
        match result {
            Ok(GridStep::Covered) => {
                self.reveal_match(found);
                Ok(GridStep::Covered)
            },
            Ok(GridStep::Filled) => {
                self.reveal_match(found);
                Ok(GridStep::Filled)
            },
            other => other,
        }
    }

    /// Goes to the next match, or asks for a search for it.
    #[verifier::rlimit(40)]
    pub fn start_find_next_with_case(&mut self, query: &[u8], case_sensitivity: CaseSensitivity) -> (result: Result<
        SearchStep,
        String,
    >)
        requires
            old(self).wf(),
        ensures
            final(self).wf(),
            (final(self)@, search_step_view(result)) == next_found(old(self)@, query@, case_sensitivity),
    {
        if query.len() == 0 {
            return Err("Enter text to find.".to_owned());
        }
        if self.filter.query.is_some() {
            return Err("Clear the filter before using Find.".to_owned());
        }
        if self.search.running {
            return Err("A search is already running.".to_owned());
        }
        if !self.is_search_ready() {
            return Err("Search is available after indexing completes.".to_owned());
        }
        self.commit_edits();
        let ghost kept = self@;
        let same = bytes_equal(self.search.query.as_slice(), query) && self.search.case_sensitivity
            == case_sensitivity;
        if !same {
            self.search.query = model::copy_bytes(query);
            self.search.case_sensitivity = case_sensitivity;
            self.search.last_match = None;
            self.search.history = Vec::new();
            self.search.history_index = None;
        }
        let ghost document = DocumentView { search: search_for(kept.search, query@, case_sensitivity), ..kept };
        assert(self@ =~= document);
        if let Some(index) = self.search.history_index {
            let length: usize = self.search.history.len();
            if index + 1 < length {
                let found = self.search.history[index + 1];
                self.search.history_index = Some(index + 1);
                assert(self@ =~= DocumentView {
                    search: SearchView { history_index: Some((index + 1) as usize), ..document.search },
                    ..document
                });
                return match self.show_search_match(found) {
                    Ok(step) => Ok(SearchStep::Move(step)),
                    Err(message) => Err(message),
                };
            }
        }
        let position = match self.search.last_match {
            Some(found) => SearchPosition { row: found.row, column: found.column.saturating_add(1) },
            None => SearchPosition { row: self.grid.viewport_start, column: 0 },
        };
        Ok(SearchStep::Start(position))
    }

    /// Takes note of a search that has started.
    pub fn search_started(&mut self)
        requires
            old(self).wf(),
        ensures
            final(self).wf(),
            final(self)@ == with_search_started(old(self)@),
    {
        self.search.running = true;
        self.search.status = None;
        self.selection.reveal_cell = None;
        assert(self@ =~= with_search_started(old(self)@));
    }

    pub fn can_find_previous_with_case(&self, query: &[u8], case_sensitivity: CaseSensitivity) -> (can: bool)
        ensures
            can == has_previous(self@, query@, case_sensitivity),
    {
        query.len() > 0 && !self.search.running && self.filter.query.is_none() && self.is_search_ready() && bytes_equal(
            self.search.query.as_slice(),
            query,
        ) && self.search.case_sensitivity == case_sensitivity && match self.search.history_index {
            Some(index) => index > 0,
            None => self.search.history.len() > 0,
        }
    }

    /// Goes back to the previous match.
    pub fn start_find_previous_with_case(&mut self, query: &[u8], case_sensitivity: CaseSensitivity) -> (result: Result<
        GridStep,
        String,
    >)
        requires
            old(self).wf(),
        ensures
            final(self).wf(),
            (final(self)@, step_view(result)) == previous_found(old(self)@, query@, case_sensitivity),
    {
        self.commit_edits();
        let ghost document = self@;
        if !self.can_find_previous_with_case(query, case_sensitivity) {
            return Err("Find at least two matches before moving back.".to_owned());
        }
        let index: usize = match self.search.history_index {
            Some(index) => index - 1,
            None => self.search.history.len() - 1,
        };
        let found = self.search.history[index];
        self.search.history_index = Some(index);
        assert(self@ =~= DocumentView {
            search: SearchView { history_index: Some(index), ..document.search },
            ..document
        });
        self.show_search_match(found)
    }

    pub fn can_replace_current_with_case(&self, query: &[u8], case_sensitivity: CaseSensitivity) -> (can: bool)
        ensures
            can == replaceable(self@, query@, case_sensitivity),
    {
        if query.len() == 0 || self.search.running || self.save.running || self.structural.job.is_some()
            || self.edits.cell_edit.is_some() || self.edits.header_edit.is_some() || !bytes_equal(
            self.search.query.as_slice(),
            query,
        ) || self.search.case_sensitivity != case_sensitivity {
            return false;
        }
        let found = match self.search.last_match {
            Some(found) => found,
            None => {
                return false;
            },
        };
        let selected = match self.selection.selection {
            Some(GridSelection::Cell { row, column }) => row == found.row && column == found.column,
            _ => false,
        };
        selected && match self.effective_cell(found.row, found.column) {
            Some(value) => literal::literal_contains(value.as_slice(), query, case_sensitivity),
            None => false,
        }
    }

    /// Replaces the current match in every place of its cell, and goes on to the next.
    pub fn replace_current_match_with_case(
        &mut self,
        query: &[u8],
        replacement: &[u8],
        case_sensitivity: CaseSensitivity,
    ) -> (result: Result<SearchStep, String>)
        requires
            old(self).wf(),
        ensures
            final(self).wf(),
            (final(self)@, search_step_view(result)) == replaced(
                old(self)@,
                query@,
                replacement@,
                case_sensitivity,
            ),
    {
        broadcast use crate::sets::group_ordered_keys;

        let ghost before = self@;
        if !self.can_replace_current_with_case(query, case_sensitivity) {
            return Err("Find a current match before replacing it.".to_owned());
        }
        let found = match self.search.last_match {
            Some(found) => found,
            None => {
                return Err("Find a current match before replacing it.".to_owned());
            },
        };
        let key = (found.row, found.column);
        let source = match self.source_cell(found.row, found.column) {
            Some(source) => model::copy_bytes(source.as_slice()),
            None => {
                return Err("The current matched cell is no longer available for replacement.".to_owned());
            },
        };
        let value = match self.effective_cell(found.row, found.column) {
            Some(value) => model::copy_bytes(value.as_slice()),
            None => model::copy_bytes(source.as_slice()),
        };
        if let Some(next) = literal::replace_literal_all_with_case(
            value.as_slice(),
            query,
            replacement,
            case_sensitivity,
        ) {
            if !bytes_equal(next.as_slice(), value.as_slice()) {
                let restored = bytes_equal(next.as_slice(), source.as_slice());
                self.change_cell(key, next, restored);
                assert(self@ == with_cell(before, found.row, found.column, source@, next@));
            }
        }
        let ghost changed = self@;
        self.selection.selection = Some(GridSelection::Cell { row: found.row, column: found.column });
        self.selection.rows.clear();
        if let Some(index) = self.search.history_index {
            self.search.history.truncate(index);
            self.search.history_index = None;
        }
        assert(self@ =~= with_match_replaced(before, query@, replacement@, case_sensitivity));
        self.start_find_next_with_case(query, case_sensitivity)
    }

    /// Keeps new bytes for a cell, or none where they are those of the file.
    fn change_cell(&mut self, key: (u64, usize), value: Vec<u8>, restored: bool)
        requires
            old(self).wf(),
        ensures
            final(self).wf(),
            ({
                let cleared = without_redo(old(self)@);
                final(self)@ == (DocumentView {
                    edits: EditsView {
                        cells: updated(
                            cleared.edits.cells,
                            key,
                            if restored {
                                None
                            } else {
                                Some(value@)
                            },
                        ),
                        ..cleared.edits
                    },
                    ..cleared
                })
            }),
    {
        broadcast use crate::sets::group_ordered_keys;

        self.invalidate_structural_redo();
        let ghost cleared = self@;
        proof {
            model::lemma_edits_insert(self.edits.cell_edits@, key, value);
        }
        if restored {
            self.edits.cell_edits.remove(&key);
        } else {
            self.edits.cell_edits.insert(key, value);
        }
        assert(self@.edits =~= EditsView {
            cells: updated(
                cleared.edits.cells,
                key,
                if restored {
                    None
                } else {
                    Some(value@)
                },
            ),
            ..cleared.edits
        });
    }

    /// Takes in the end of a search.
    pub fn search_finished(&mut self, outcome: SearchOutcome) -> (result: Result<GridStep, String>)
        requires
            old(self).wf(),
            old(self)@.search.history.len() < usize::MAX,
        ensures
            final(self).wf(),
            (final(self)@, step_view(result)) == search_ended(old(self)@, outcome),
    {
        self.search.running = false;
        match outcome {
            SearchOutcome::Match(found) => {
                if let Some(index) = self.search.history_index {
                    self.search.history.truncate(index + 1);
                }
                self.search.history.push(found);
                self.search.history_index = Some(self.search.history.len() - 1);
                proof {
                    let document = DocumentView {
                        search: SearchView { running: false, ..old(self)@.search },
                        ..old(self)@
                    };
                    let kept = match document.search.history_index {
                        Some(index) => document.search.history.take(index + 1),
                        None => document.search.history,
                    };
                    assert(self@.search =~= SearchView {
                        history: kept.push(found),
                        history_index: Some(kept.len() as usize),
                        ..document.search
                    });
                }
                self.show_search_match(found)
            },
            SearchOutcome::NotFound => {
                self.search.status = Some("No further matches.".to_owned());
                assert(self@ =~= search_ended(old(self)@, outcome).0);
                Ok(GridStep::Covered)
            },
            SearchOutcome::Cancelled => {
                self.search.status = Some("Search cancelled.".to_owned());
                assert(self@ =~= search_ended(old(self)@, outcome).0);
                Ok(GridStep::Covered)
            },
            SearchOutcome::Failed(message) => Err(message),
        }
    }

    /// Tells a running search to stop.
    pub fn cancel_search(&mut self)
        requires
            old(self).wf(),
        ensures
            final(self).wf(),
            final(self)@ == with_search_cancelled(old(self)@),
    {
        if self.search.running {
            self.effects.push(Effect::CancelSearch);
        }
    }
}

/// The document with a running search told to stop.
pub open spec fn with_search_cancelled(document: DocumentView) -> DocumentView {
    DocumentView {
        effects: if document.search.running {
            document.effects.push(Effect::CancelSearch)
        } else {
            document.effects
        },
        ..document
    }
}

} // verus!
