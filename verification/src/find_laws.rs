//! What finding and replacing are for: the laws that matches, and the moves between them, keep to.

use crate::browsing::{at_rest, lemma_rest};
use crate::document::{Document, DocumentView, SearchView};
use crate::grid::{navigation, with_match_shown, with_rows, without_hidden, GridStep, ReadPurpose};
use crate::literal::{
    contains_bytes, equal_bytes, literal_contains, literal_equals, next_place, replace_literal_all_with_case,
    replaced_from, same_byte, stands_at, CaseSensitivity,
};
use crate::model::{Effect, SearchMatch};
use crate::rows::GridSelection;
use crate::search::{match_shown, with_match_replaced, SearchOutcome, SearchStep};
use vstd::prelude::*;

verus! {

/// Two bytes are equal, or are the capital and the small form of one ASCII letter where case does
/// not count.
pub open spec fn letters_match(one: u8, other: u8, case_sensitivity: CaseSensitivity) -> bool {
    ||| one == other
    ||| case_sensitivity == CaseSensitivity::Insensitive && 65 <= one <= 90 && other == one + 32
    ||| case_sensitivity == CaseSensitivity::Insensitive && 65 <= other <= 90 && one == other + 32
}

/// `query` can be read in `value` from the place `at` on.
pub open spec fn reads_at(value: Seq<u8>, query: Seq<u8>, case_sensitivity: CaseSensitivity, at: int) -> bool {
    &&& 0 <= at
    &&& at + query.len() <= value.len()
    &&& forall|i: int| 0 <= i < query.len() ==> letters_match(value[at + i], #[trigger] query[i], case_sensitivity)
}

proof fn lemma_bytes(one: u8, other: u8, case_sensitivity: CaseSensitivity)
    ensures
        same_byte(one, other, case_sensitivity) <==> letters_match(one, other, case_sensitivity),
{
}

proof fn lemma_stands(value: Seq<u8>, query: Seq<u8>, case_sensitivity: CaseSensitivity, at: int)
    ensures
        stands_at(value, query, case_sensitivity, at) <==> reads_at(value, query, case_sensitivity, at),
{
    if 0 <= at && at + query.len() <= value.len() {
        let part = value.subrange(at, at + query.len());
        if stands_at(value, query, case_sensitivity, at) {
            assert forall|i: int| 0 <= i < query.len() implies letters_match(
                value[at + i],
                #[trigger] query[i],
                case_sensitivity,
            ) by {
                assert(same_byte(part[i], query[i], case_sensitivity));
            }
        }
        if reads_at(value, query, case_sensitivity, at) {
            assert forall|i: int| 0 <= i < part.len() implies same_byte(#[trigger] part[i], query[i], case_sensitivity) by {
                assert(letters_match(value[at + i], query[i], case_sensitivity));
            }
        }
    }
}

/// With Match case two values are equal where their bytes are, and without it where they differ
/// at most in the case of ASCII letters.
pub proof fn lemma_equality(one: Seq<u8>, other: Seq<u8>)
    ensures
        equal_bytes(one, other, CaseSensitivity::Sensitive) <==> one == other,
        equal_bytes(one, other, CaseSensitivity::Insensitive) <==> one.len() == other.len() && reads_at(
            one,
            other,
            CaseSensitivity::Insensitive,
            0,
        ),
        equal_bytes(one, other, CaseSensitivity::Insensitive) == equal_bytes(other, one, CaseSensitivity::Insensitive),
{
    if one.len() == other.len() {
        assert(one.subrange(0, other.len() as int) =~= one);
        assert(other.subrange(0, one.len() as int) =~= other);
        lemma_stands(one, other, CaseSensitivity::Insensitive, 0);
        lemma_stands(other, one, CaseSensitivity::Insensitive, 0);
        if equal_bytes(one, other, CaseSensitivity::Sensitive) {
            assert forall|i: int| 0 <= i < one.len() implies one[i] == other[i] by {
                assert(same_byte(one[i], other[i], CaseSensitivity::Sensitive));
            }
            assert(one =~= other);
        }
        if equal_bytes(one, other, CaseSensitivity::Insensitive) {
            assert forall|i: int| 0 <= i < one.len() implies same_byte(
                #[trigger] other[i],
                one[i],
                CaseSensitivity::Insensitive,
            ) by {
                assert(same_byte(one[i], other[i], CaseSensitivity::Insensitive));
            }
        }
        if equal_bytes(other, one, CaseSensitivity::Insensitive) {
            assert forall|i: int| 0 <= i < one.len() implies same_byte(
                #[trigger] one[i],
                other[i],
                CaseSensitivity::Insensitive,
            ) by {
                assert(same_byte(other[i], one[i], CaseSensitivity::Insensitive));
            }
        }
    }
}

/// A value holds a query where the query can be read somewhere in it.
pub proof fn lemma_containment(value: Seq<u8>, query: Seq<u8>, case_sensitivity: CaseSensitivity)
    ensures
        contains_bytes(value, query, case_sensitivity) <==> query.len() > 0 && exists|at: int| #[trigger]
            reads_at(value, query, case_sensitivity, at),
{
    assert forall|at: int| true implies #[trigger] stands_at(value, query, case_sensitivity, at) == reads_at(
        value,
        query,
        case_sensitivity,
        at,
    ) by {
        lemma_stands(value, query, case_sensitivity, at);
    }
    if exists|at: int| #[trigger] reads_at(value, query, case_sensitivity, at) {
        let at = choose|at: int| #[trigger] reads_at(value, query, case_sensitivity, at);
        assert(stands_at(value, query, case_sensitivity, at));
    }
}

proof fn lemma_next(value: Seq<u8>, query: Seq<u8>, case_sensitivity: CaseSensitivity, start: int)
    requires
        0 <= start <= value.len(),
        query.len() > 0,
    ensures
        match next_place(value, query, case_sensitivity, start) {
            Some(at) => start <= at && reads_at(value, query, case_sensitivity, at) && forall|other: int|
                start <= other < at ==> !#[trigger] reads_at(value, query, case_sensitivity, other),
            None => forall|other: int| start <= other ==> !#[trigger] reads_at(value, query, case_sensitivity, other),
        },
    decreases value.len() - start,
{
    lemma_stands(value, query, case_sensitivity, start);
    if start + query.len() <= value.len() && !stands_at(value, query, case_sensitivity, start) {
        lemma_next(value, query, case_sensitivity, start + 1);
    }
}

/// The first place at which a query can be read is where it is found.
proof fn lemma_first(value: Seq<u8>, query: Seq<u8>, case_sensitivity: CaseSensitivity, start: int, at: int)
    requires
        0 <= start <= at,
        query.len() > 0,
        reads_at(value, query, case_sensitivity, at),
        forall|other: int| start <= other < at ==> !#[trigger] reads_at(value, query, case_sensitivity, other),
    ensures
        next_place(value, query, case_sensitivity, start) == Some(at),
{
    lemma_next(value, query, case_sensitivity, start);
    match next_place(value, query, case_sensitivity, start) {
        Some(place) => {
            if place < at {
                assert(!reads_at(value, query, case_sensitivity, place));
            }
            if at < place {
                assert(!reads_at(value, query, case_sensitivity, at));
            }
        },
        None => {
            assert(!reads_at(value, query, case_sensitivity, at));
        },
    }
}

/// Replacing in the rest of a value is replacing in what is left of it.
proof fn lemma_replaced_rest(
    value: Seq<u8>,
    query: Seq<u8>,
    replacement: Seq<u8>,
    case_sensitivity: CaseSensitivity,
    start: int,
    cut: int,
)
    requires
        0 <= cut <= start <= value.len(),
        query.len() > 0,
    ensures
        replaced_from(value, query, replacement, case_sensitivity, start) == replaced_from(
            value.skip(cut),
            query,
            replacement,
            case_sensitivity,
            start - cut,
        ),
    decreases value.len() - start,
{
    let rest = value.skip(cut);
    lemma_next(value, query, case_sensitivity, start);
    lemma_next(rest, query, case_sensitivity, start - cut);
    assert forall|at: int| cut <= at implies #[trigger] reads_at(value, query, case_sensitivity, at) == reads_at(
        rest,
        query,
        case_sensitivity,
        at - cut,
    ) by {
        if at + query.len() <= value.len() {
            if reads_at(rest, query, case_sensitivity, at - cut) {
                assert forall|i: int| 0 <= i < query.len() implies letters_match(
                    value[at + i],
                    #[trigger] query[i],
                    case_sensitivity,
                ) by {
                    assert(letters_match(rest[at - cut + i], query[i], case_sensitivity));
                }
            }
            if reads_at(value, query, case_sensitivity, at) {
                assert forall|i: int| 0 <= i < query.len() implies letters_match(
                    rest[at - cut + i],
                    #[trigger] query[i],
                    case_sensitivity,
                ) by {
                    assert(letters_match(value[at + i], query[i], case_sensitivity));
                }
            }
        }
    }
    match next_place(value, query, case_sensitivity, start) {
        Some(at) => {
            assert(reads_at(rest, query, case_sensitivity, at - cut));
            assert forall|other: int| start - cut <= other < at - cut implies !#[trigger] reads_at(
                rest,
                query,
                case_sensitivity,
                other,
            ) by {
                assert(!reads_at(value, query, case_sensitivity, other + cut));
            }
            lemma_first(rest, query, case_sensitivity, start - cut, at - cut);
            assert(rest.subrange(start - cut, at - cut) =~= value.subrange(start, at));
            lemma_replaced_rest(value, query, replacement, case_sensitivity, at + query.len(), cut);
        },
        None => {
            match next_place(rest, query, case_sensitivity, start - cut) {
                Some(at) => {
                    assert(reads_at(rest, query, case_sensitivity, at));
                    assert(!reads_at(value, query, case_sensitivity, at + cut));
                },
                None => {},
            }
            assert(rest.skip(start - cut) =~= value.skip(start));
        },
    }
}

/// Where a query can be read first, the replacement takes its place: what stands before is left
/// as it is, and what stands behind is replaced in in the same way.
pub proof fn lemma_first_place_is_replaced(
    value: Seq<u8>,
    query: Seq<u8>,
    replacement: Seq<u8>,
    case_sensitivity: CaseSensitivity,
    at: int,
)
    requires
        query.len() > 0,
        reads_at(value, query, case_sensitivity, at),
        forall|other: int| 0 <= other < at ==> !#[trigger] reads_at(value, query, case_sensitivity, other),
    ensures
        replaced_from(value, query, replacement, case_sensitivity, 0) == value.take(at) + replacement + replaced_from(
            value.skip(at + query.len()),
            query,
            replacement,
            case_sensitivity,
            0,
        ),
{
    lemma_first(value, query, case_sensitivity, 0, at);
    lemma_replaced_rest(value, query, replacement, case_sensitivity, at + query.len(), at + query.len());
    assert(value.subrange(0, at) =~= value.take(at));
}

/// A value in which the query cannot be read is left as it is.
pub proof fn lemma_nothing_else_is_replaced(
    value: Seq<u8>,
    query: Seq<u8>,
    replacement: Seq<u8>,
    case_sensitivity: CaseSensitivity,
)
    requires
        query.len() > 0,
        forall|at: int| !#[trigger] reads_at(value, query, case_sensitivity, at),
    ensures
        replaced_from(value, query, replacement, case_sensitivity, 0) == value,
{
    lemma_next(value, query, case_sensitivity, 0);
    assert(value.skip(0) =~= value);
}

/// The comparison of two values is equality, up to the case of ASCII letters where case does not
/// count.
pub proof fn lemma_values_are_compared(left: &[u8], right: &[u8], case_sensitivity: CaseSensitivity, equal: bool)
    requires
        call_ensures(literal_equals, (left, right, case_sensitivity), equal),
    ensures
        equal <==> left@.len() == right@.len() && reads_at(left@, right@, case_sensitivity, 0),
        case_sensitivity == CaseSensitivity::Sensitive ==> (equal <==> left@ == right@),
{
    lemma_equality(left@, right@);
    if left@.len() == right@.len() {
        assert(left@.subrange(0, right@.len() as int) =~= left@);
        lemma_stands(left@, right@, case_sensitivity, 0);
    }
}

/// A value is said to hold a query where the query can be read in it.
pub proof fn lemma_values_are_searched(value: &[u8], query: &[u8], case_sensitivity: CaseSensitivity, contained: bool)
    requires
        call_ensures(literal_contains, (value, query, case_sensitivity), contained),
    ensures
        contained <==> query@.len() > 0 && exists|at: int| #[trigger] reads_at(value@, query@, case_sensitivity, at),
{
    lemma_containment(value@, query@, case_sensitivity);
}

/// Replacing gives nothing where the query cannot be read; else the replacement stands in the first
/// place of the query, and what stands behind is replaced in in the same way.
pub proof fn lemma_values_are_replaced(
    value: &[u8],
    query: &[u8],
    replacement: &[u8],
    case_sensitivity: CaseSensitivity,
    result: Option<Vec<u8>>,
    at: int,
)
    requires
        call_ensures(replace_literal_all_with_case, (value, query, replacement, case_sensitivity), result),
        query@.len() > 0,
    ensures
        result is Some <==> exists|place: int| #[trigger] reads_at(value@, query@, case_sensitivity, place),
        result matches Some(output) ==> output@ == replaced_from(value@, query@, replacement@, case_sensitivity, 0),
        reads_at(value@, query@, case_sensitivity, at) && (forall|other: int|
            0 <= other < at ==> !#[trigger] reads_at(value@, query@, case_sensitivity, other)) ==> (result matches Some(
            output,
        ) && output@ == value@.take(at) + replacement@ + replaced_from(
            value@.skip(at + query@.len()),
            query@,
            replacement@,
            case_sensitivity,
            0,
        )),
{
    lemma_containment(value@, query@, case_sensitivity);
    if reads_at(value@, query@, case_sensitivity, at) && (forall|other: int|
        0 <= other < at ==> !#[trigger] reads_at(value@, query@, case_sensitivity, other)) {
        lemma_first_place_is_replaced(value@, query@, replacement@, case_sensitivity, at);
    }
}

/// Matches can be asked for: a text is given, no search runs, no filter is applied, and the whole
/// file is indexed.
pub open spec fn can_find(document: DocumentView, query: Seq<u8>) -> bool {
    &&& query.len() > 0
    &&& !document.search.running
    &&& document.filter.query is None
    &&& document.index.indexed_rows is Some
    &&& document.index.progress.done
    &&& !document.index.progress.cancelled
    &&& document.structural.job is None
}

/// The matches so far are of this search.
pub open spec fn is_of(search: SearchView, query: Seq<u8>, case_sensitivity: CaseSensitivity) -> bool {
    search.query == query && search.case_sensitivity == case_sensitivity
}

/// A row of the data that the index knows, in a file whose first rows can be counted.
pub open spec fn is_indexed(document: DocumentView, row: u64) -> bool {
    &&& document.grid.data_start <= row
    &&& document.index.indexed_rows matches Some(rows) && row < rows
    &&& document.source.first_rows.len() <= u64::MAX
}

/// A match is the current one and selected; where its row has to be read first, it will be once
/// the row is there. A match in a row that the index knows is always shown.
pub open spec fn shows(
    before: DocumentView,
    after: DocumentView,
    outcome: Result<GridStep, String>,
    found: SearchMatch,
) -> bool {
    match outcome {
        Ok(GridStep::Read(read)) => read.purpose == ReadPurpose::Match(found),
        Ok(GridStep::ReadMatches(_)) => false,
        Ok(_) => {
            &&& after.search.last_match == Some(found)
            &&& after.selection.selection == Some(GridSelection::Cell { row: found.row, column: found.column })
            &&& after.selection.reveal_cell == Some((found.row, found.column))
        },
        Err(_) => !is_indexed(before, found.row),
    }
}

/// A request to find that shows a match.
pub open spec fn goes_to(
    before: DocumentView,
    after: DocumentView,
    outcome: Result<SearchStep, String>,
    found: SearchMatch,
) -> bool {
    match outcome {
        Ok(SearchStep::Move(step)) => shows(before, after, Ok(step), found),
        Ok(SearchStep::Start(_)) => false,
        Err(message) => shows(before, after, Err(message), found),
    }
}

/// All but the rows in view, what is selected and the current match is as it was.
pub open spec fn only_moved(before: DocumentView, after: DocumentView) -> bool {
    &&& after.source == before.source
    &&& after.edits == before.edits
    &&& after.working_copy == before.working_copy
    &&& after.index == before.index
    &&& after.filter == before.filter
    &&& after.save == before.save
    &&& after.export == before.export
    &&& after.structural == before.structural
    &&& after.search.query == before.search.query
    &&& after.search.case_sensitivity == before.search.case_sensitivity
    &&& after.search.running == before.search.running
    &&& after.search.history == before.search.history
    &&& after.search.history_index == before.search.history_index
    &&& after.grid.data_start == before.grid.data_start
}

proof fn lemma_navigation_moves(document: DocumentView, found: SearchMatch)
    requires
        at_rest(document),
    ensures
        ({
            let (after, outcome) = navigation(document, found.row, ReadPurpose::Match(found));
            &&& only_moved(document, after)
            &&& outcome matches Ok(GridStep::Read(read)) ==> read.purpose == ReadPurpose::Match(found)
            &&& !(outcome matches Ok(GridStep::ReadMatches(_)))
            &&& is_indexed(document, found.row) ==> outcome is Ok
        }),
{
    lemma_rest(document);
    reveal(without_hidden);
    reveal(with_rows);
}

proof fn lemma_selected(document: DocumentView, found: SearchMatch)
    requires
        at_rest(document),
    ensures
        ({
            let after = with_match_shown(document, found);
            &&& only_moved(document, after)
            &&& shows(document, after, Ok(GridStep::Covered), found)
        }),
{
    lemma_rest(document);
    reveal(without_hidden);
}

proof fn lemma_shown(document: DocumentView, found: SearchMatch)
    requires
        at_rest(document),
    ensures
        ({
            let (after, outcome) = match_shown(document, found);
            &&& only_moved(document, after)
            &&& outcome matches Ok(step) ==> shows(document, after, Ok(step), found)
            &&& is_indexed(document, found.row) ==> outcome is Ok
        }),
{
    lemma_navigation_moves(document, found);
    lemma_selected(navigation(document, found.row, ReadPurpose::Match(found)).0, found);
}

/// Showing a match selects it and makes it the current one.
pub proof fn lemma_match_is_shown(document: &mut Document, found: SearchMatch, result: Result<GridStep, String>)
    requires
        at_rest(old(document)@),
        call_ensures(Document::show_search_match, (document, found), result),
    ensures
        only_moved(old(document)@, final(document)@),
        shows(old(document)@, final(document)@, result, found),
{
    lemma_shown(old(document)@, found);
}

proof fn lemma_shown_at(document: DocumentView, place: int)
    requires
        at_rest(document),
        0 <= place < document.search.history.len(),
        place <= usize::MAX,
    ensures
        ({
            let noted = DocumentView {
                search: SearchView { history_index: Some(place as usize), ..document.search },
                ..document
            };
            let (after, outcome) = match_shown(noted, document.search.history[place]);
            &&& only_moved(noted, after)
            &&& outcome matches Ok(step) ==> shows(document, after, Ok(step), document.search.history[place])
            &&& is_indexed(document, document.search.history[place].row) ==> outcome is Ok
        }),
{
    let noted = DocumentView {
        search: SearchView { history_index: Some(place as usize), ..document.search },
        ..document
    };
    lemma_shown(noted, document.search.history[place]);
}

/// Find Previous goes to the match just before the current one.
pub proof fn lemma_previous_is_the_one_before(
    document: &mut Document,
    query: &[u8],
    case_sensitivity: CaseSensitivity,
    result: Result<GridStep, String>,
    place: usize,
)
    requires
        at_rest(old(document)@),
        can_find(old(document)@, query@),
        is_of(old(document)@.search, query@, case_sensitivity),
        old(document)@.search.history_index == Some(place),
        0 < place < old(document)@.search.history.len(),
        call_ensures(Document::start_find_previous_with_case, (document, query, case_sensitivity), result),
    ensures
        final(document)@.search.history == old(document)@.search.history,
        final(document)@.search.history_index matches Some(index) && index + 1 == place,
        shows(old(document)@, final(document)@, result, old(document)@.search.history[place - 1]),
        final(document)@.edits == old(document)@.edits,
        final(document)@.filter == old(document)@.filter,
{
    lemma_rest(old(document)@);
    lemma_shown_at(old(document)@, place - 1);
}

/// Find Previous after the current match was replaced goes to the last match so far.
pub proof fn lemma_previous_without_current(
    document: &mut Document,
    query: &[u8],
    case_sensitivity: CaseSensitivity,
    result: Result<GridStep, String>,
)
    requires
        at_rest(old(document)@),
        can_find(old(document)@, query@),
        is_of(old(document)@.search, query@, case_sensitivity),
        old(document)@.search.history_index is None,
        0 < old(document)@.search.history.len() <= usize::MAX,
        call_ensures(Document::start_find_previous_with_case, (document, query, case_sensitivity), result),
    ensures
        final(document)@.search.history == old(document)@.search.history,
        final(document)@.search.history_index matches Some(index) && index + 1 == old(document)@.search.history.len(),
        shows(old(document)@, final(document)@, result, old(document)@.search.history.last()),
{
    lemma_rest(old(document)@);
    lemma_shown_at(old(document)@, old(document)@.search.history.len() - 1);
}

/// A match of this search comes before the current one.
pub open spec fn comes_before(document: DocumentView, query: Seq<u8>, case_sensitivity: CaseSensitivity) -> bool {
    &&& can_find(document, query)
    &&& is_of(document.search, query, case_sensitivity)
    &&& document.search.history_index matches Some(index) ==> index > 0
    &&& document.search.history_index is None ==> document.search.history.len() > 0
}

/// Find Previous is offered where a match of this search comes before the current one, and is else
/// refused and goes nowhere.
pub proof fn lemma_no_previous(
    document: &mut Document,
    same: &Document,
    query: &[u8],
    case_sensitivity: CaseSensitivity,
    result: Result<GridStep, String>,
    offered: bool,
)
    requires
        at_rest(old(document)@),
        old(document)@ == same@,
        call_ensures(Document::start_find_previous_with_case, (document, query, case_sensitivity), result),
        call_ensures(Document::can_find_previous_with_case, (same, query, case_sensitivity), offered),
    ensures
        offered <==> comes_before(same@, query@, case_sensitivity),
        !offered ==> result is Err && final(document)@ == old(document)@,
{
    lemma_rest(old(document)@);
}

/// Find Next goes to the match just behind the current one, where that was found before.
pub proof fn lemma_next_is_the_one_behind(
    document: &mut Document,
    query: &[u8],
    case_sensitivity: CaseSensitivity,
    result: Result<SearchStep, String>,
    place: usize,
)
    requires
        at_rest(old(document)@),
        can_find(old(document)@, query@),
        is_of(old(document)@.search, query@, case_sensitivity),
        old(document)@.search.history_index == Some(place),
        place + 1 < old(document)@.search.history.len() <= usize::MAX,
        call_ensures(Document::start_find_next_with_case, (document, query, case_sensitivity), result),
    ensures
        final(document)@.search.history == old(document)@.search.history,
        final(document)@.search.history_index matches Some(index) && index == place + 1,
        goes_to(old(document)@, final(document)@, result, old(document)@.search.history[place + 1]),
        final(document)@.edits == old(document)@.edits,
        final(document)@.filter == old(document)@.filter,
        is_of(final(document)@.search, query@, case_sensitivity),
{
    lemma_rest(old(document)@);
    lemma_shown_at(old(document)@, place + 1);
}

/// The match behind the current one was found before.
pub open spec fn knows_next(document: DocumentView, query: Seq<u8>, case_sensitivity: CaseSensitivity) -> bool {
    &&& is_of(document.search, query, case_sensitivity)
    &&& document.search.history_index matches Some(index) && index + 1 < document.search.history.len()
}

/// Where the next match was not found before, Find Next searches for it: for what was asked for,
/// from behind the current match on, or from the first row in view on where there is none.
pub proof fn lemma_search_goes_on(
    document: &mut Document,
    query: &[u8],
    case_sensitivity: CaseSensitivity,
    result: Result<SearchStep, String>,
)
    requires
        at_rest(old(document)@),
        !knows_next(old(document)@, query@, case_sensitivity),
        call_ensures(Document::start_find_next_with_case, (document, query, case_sensitivity), result),
    ensures
        ({
            let before = old(document)@;
            let after = final(document)@;
            &&& can_find(before, query@) <==> result is Ok
            &&& result is Err ==> after == before
            &&& result is Ok ==> {
                &&& is_of(after.search, query@, case_sensitivity)
                &&& result matches Ok(SearchStep::Start(from)) && match before.search.last_match {
                    Some(found) if is_of(before.search, query@, case_sensitivity) => from.row == found.row && (
                    found.column < usize::MAX ==> from.column == found.column + 1),
                    _ => from.row == before.grid.viewport_start && from.column == 0,
                }
                &&& is_of(before.search, query@, case_sensitivity) ==> after.search == before.search
                &&& !is_of(before.search, query@, case_sensitivity) ==> after.search.history.len() == 0
                    && after.search.last_match is None
                &&& after.edits == before.edits
                &&& after.grid == before.grid
                &&& after.selection == before.selection
            }
        }),
{
    lemma_rest(old(document)@);
}

/// Find Next and then Find Previous leads back to the match that was current, wherever it stands
/// among the matches.
pub proof fn lemma_next_then_previous(
    forth: &mut Document,
    back: &mut Document,
    query: &[u8],
    case_sensitivity: CaseSensitivity,
    next: Result<SearchStep, String>,
    previous: Result<GridStep, String>,
    place: usize,
)
    requires
        at_rest(old(forth)@),
        can_find(old(forth)@, query@),
        is_of(old(forth)@.search, query@, case_sensitivity),
        old(forth)@.search.history_index == Some(place),
        place + 1 < old(forth)@.search.history.len() <= usize::MAX,
        call_ensures(Document::start_find_next_with_case, (forth, query, case_sensitivity), next),
        final(forth)@ == old(back)@,
        call_ensures(Document::start_find_previous_with_case, (back, query, case_sensitivity), previous),
    ensures
        final(back)@.search.history == old(forth)@.search.history,
        final(back)@.search.history_index == Some(place),
        shows(old(forth)@, final(back)@, previous, old(forth)@.search.history[place as int]),
{
    lemma_rest(old(forth)@);
    lemma_shown_at(old(forth)@, place + 1);
    lemma_previous_is_the_one_before(back, query, case_sensitivity, previous, (place + 1) as usize);
}

/// A match that a search finds is shown, and comes behind the match that was current; matches that
/// came behind that one are forgotten.
pub proof fn lemma_search_finds(document: &mut Document, found: SearchMatch, result: Result<GridStep, String>)
    requires
        at_rest(old(document)@),
        old(document)@.search.history_index matches Some(index) ==> index < old(document)@.search.history.len(),
        old(document)@.search.history.len() < usize::MAX,
        call_ensures(Document::search_finished, (document, SearchOutcome::Match(found)), result),
    ensures
        ({
            let before = old(document)@;
            let after = final(document)@;
            let kept = match before.search.history_index {
                Some(index) => index + 1,
                None => before.search.history.len() as int,
            };
            &&& shows(before, after, result, found)
            &&& !after.search.running
            &&& after.search.history.len() == kept + 1
            &&& after.search.history[kept] == found
            &&& forall|i: int| 0 <= i < kept ==> after.search.history[i] == before.search.history[i]
            &&& after.search.history_index matches Some(index) && index == kept
            &&& after.search.query == before.search.query
            &&& after.search.case_sensitivity == before.search.case_sensitivity
            &&& after.edits == before.edits
        }),
{
    let before = old(document)@;
    let kept = match before.search.history_index {
        Some(index) => before.search.history.take(index + 1),
        None => before.search.history,
    };
    lemma_shown_at(
        DocumentView { search: SearchView { running: false, history: kept.push(found), ..before.search }, ..before },
        kept.len() as int,
    );
}

/// A search that finds nothing, is cancelled or fails leaves the document where it is, with the
/// matches so far.
pub proof fn lemma_search_finds_nothing(document: &mut Document, outcome: SearchOutcome, result: Result<GridStep, String>)
    requires
        !(outcome is Match),
        call_ensures(Document::search_finished, (document, outcome), result),
    ensures
        !final(document)@.search.running,
        final(document)@ == (DocumentView { search: final(document)@.search, ..old(document)@ }),
        final(document)@.search.history == old(document)@.search.history,
        final(document)@.search.history_index == old(document)@.search.history_index,
        final(document)@.search.last_match == old(document)@.search.last_match,
        outcome is Failed <==> result is Err,
        outcome matches SearchOutcome::Failed(message) ==> result matches Err(told) && told@ == message@,
        result matches Ok(step) ==> step is Covered,
{
}

/// A search that has started runs; one that is told to stop is asked to, and is over.
pub proof fn lemma_search_runs(started: &mut Document, cancelled: &mut Document)
    requires
        call_ensures(Document::search_started, (started,), ()),
        call_ensures(Document::cancel_search, (cancelled,), ()),
    ensures
        final(started)@.search.running,
        final(started)@.search.query == old(started)@.search.query,
        final(started)@.search.history == old(started)@.search.history,
        final(started)@.edits == old(started)@.edits,
        !old(cancelled)@.search.running ==> final(cancelled)@ == old(cancelled)@,
        old(cancelled)@.search.running ==> final(cancelled)@.effects == old(cancelled)@.effects.push(
            Effect::CancelSearch,
        ),
        final(cancelled)@.edits == old(cancelled)@.edits,
        final(cancelled)@.search.history == old(cancelled)@.search.history,
{
}

/// The bytes of a cell that are at hand, edits included.
pub open spec fn bytes_now(document: DocumentView, row: u64, column: usize) -> Option<Seq<u8>> {
    let place = row - document.grid.buffer_start;
    if document.edits.cells.dom().contains((row, column)) {
        Some(document.edits.cells[(row, column)])
    } else if 0 <= place < document.grid.rows.len() && column < document.grid.rows[place].len() {
        Some(document.grid.rows[place][column as int])
    } else {
        None
    }
}

/// The current match is selected, still holds the query, and nothing keeps it from being edited.
pub open spec fn can_replace(document: DocumentView, query: Seq<u8>, case_sensitivity: CaseSensitivity) -> bool {
    &&& query.len() > 0
    &&& !document.search.running
    &&& !document.save.running
    &&& document.structural.job is None
    &&& document.edits.cell_edit is None
    &&& document.edits.header_edit is None
    &&& is_of(document.search, query, case_sensitivity)
    &&& document.search.last_match matches Some(found) && {
        &&& document.selection.selection == Some(GridSelection::Cell { row: found.row, column: found.column })
        &&& bytes_now(document, found.row, found.column) matches Some(value) && exists|at: int| #[trigger]
            reads_at(value, query, case_sensitivity, at)
    }
}

/// Replacing the current match is offered where it can be done.
pub proof fn lemma_replace_is_offered(
    document: &Document,
    query: &[u8],
    case_sensitivity: CaseSensitivity,
    offered: bool,
)
    requires
        call_ensures(Document::can_replace_current_with_case, (document, query, case_sensitivity), offered),
    ensures
        offered <==> can_replace(document@, query@, case_sensitivity),
{
    if let Some(found) = document@.search.last_match {
        if let Some(value) = bytes_now(document@, found.row, found.column) {
            lemma_containment(value, query@, case_sensitivity);
        }
    }
}

/// Replacing the current match changes its cell alone: each place of the cell at which the query
/// can be read is replaced. Where it cannot be done nothing changes.
pub proof fn lemma_replaced_cell(
    document: &mut Document,
    query: &[u8],
    replacement: &[u8],
    case_sensitivity: CaseSensitivity,
    result: Result<SearchStep, String>,
    row: u64,
    column: usize,
)
    requires
        call_ensures(
            Document::replace_current_match_with_case,
            (document, query, replacement, case_sensitivity),
            result,
        ),
    ensures
        ({
            let before = old(document)@;
            let after = final(document)@;
            &&& !can_replace(before, query@, case_sensitivity) ==> result is Err && after == before
            &&& can_replace(before, query@, case_sensitivity) && can_find(before, query@)
                && crate::grid::held_cell(
                before,
                before.search.last_match->0.row,
                before.search.last_match->0.column,
            ) is Some ==> {
                let found = before.search.last_match->0;
                &&& result is Ok
                &&& bytes_now(after, found.row, found.column) == Some(
                    replaced_from(
                        bytes_now(before, found.row, found.column)->0,
                        query@,
                        replacement@,
                        case_sensitivity,
                        0,
                    ),
                )
                &&& (row, column) != (found.row, found.column) ==> bytes_now(after, row, column) == bytes_now(
                    before,
                    row,
                    column,
                )
                &&& after.edits.renames == before.edits.renames
                &&& is_of(after.search, query@, case_sensitivity)
                &&& result matches Ok(SearchStep::Start(from)) && from.row == found.row && (found.column < usize::MAX
                    ==> from.column == found.column + 1)
                &&& after.search.history_index is None
                &&& before.search.history_index matches Some(index) ==> after.search.history == before.search.history.take(
                    index as int,
                )
                &&& before.search.history_index is None ==> after.search.history == before.search.history
            }
        }),
{
    let before = old(document)@;
    if let Some(found) = before.search.last_match {
        if let Some(value) = bytes_now(before, found.row, found.column) {
            lemma_containment(value, query@, case_sensitivity);
        }
    }
    if before.edits.cell_edit is None && before.edits.header_edit is None {
        lemma_rest(with_match_replaced(before, query@, replacement@, case_sensitivity));
    }
}

} // verus!
