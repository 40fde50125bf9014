//! What the commands of the editor are for: the laws that tie them to what is typed and chosen
//! beside the document.

use crate::actions::Request;
use crate::browsing::at_rest;
use crate::change_laws::{free, mode, replaces};
use crate::dialogs::{drafted, named_column, rules_of, FilterRuleDraft, RuleView};
use crate::document::{ChangeKind, Document, DocumentView};
use crate::filter::{rule_error, rules_error};
use crate::grid::GridStep;
use crate::jobs::Action;
use crate::message::{AppMessage, MessageSeverity};
use crate::model::{FilterOperator, FilterPredicate, PredicateView};
use crate::search::SearchStep;
use crate::structural::{replace_asked, Change, ChangePlan};
use crate::text::{parsed, trimmed};
use crate::workspace::{Workspace, WorkspaceView};
use vstd::prelude::*;
use vstd::utf8::*;

verus! {

/// The editor shows a document whose file has not changed.
pub open spec fn shows_document(workspace: WorkspaceView, document: DocumentView) -> bool {
    workspace.document == Some(document) && !document.source_changed
}

/// All that is typed and chosen beside the document is as it was.
pub open spec fn inputs_kept(before: WorkspaceView, after: WorkspaceView) -> bool {
    &&& after.jump_input == before.jump_input
    &&& after.find_input == before.find_input
    &&& after.replace_input == before.replace_input
    &&& after.find_match_case == before.find_match_case
    &&& after.filter_match_case == before.filter_match_case
    &&& after.sort_match_case == before.sort_match_case
    &&& after.filter_rules == before.filter_rules
    &&& after.delimiter_mode == before.delimiter_mode
    &&& after.header_mode == before.header_mode
    &&& after.structural_dialog == before.structural_dialog
}

/// A typed rule names a column of the file by its number, counted from one.
pub open spec fn names_column(rule: FilterRuleDraft, column: usize, total_columns: usize) -> bool {
    &&& parsed(trimmed(rule.column_input@), usize::MAX as nat) == Some((column + 1) as nat)
    &&& column < total_columns
}

/// A rule of a filter is the one that was typed.
pub open spec fn is_typed(predicate: FilterPredicate, rule: FilterRuleDraft, total_columns: usize) -> bool {
    &&& names_column(rule, predicate.column, total_columns)
    &&& predicate.operator == rule.operator
    &&& predicate.value@ == encode_utf8(rule.value_input@)
}

/// A typed rule names some column of the file.
pub open spec fn names_some_column(rule: FilterRuleDraft, total_columns: usize) -> bool {
    exists|column: usize| names_column(rule, column, total_columns)
}

/// A typed rule can be used: it names a column, and has a text to look for where it needs one.
pub open spec fn is_usable(rule: FilterRuleDraft, total_columns: usize) -> bool {
    &&& names_some_column(rule, total_columns)
    &&& rule.operator == FilterOperator::Contains ==> encode_utf8(rule.value_input@).len() > 0
}

/// A filter can be asked for: the file has columns, no cell is edited, and no work stands in the
/// way.
pub open spec fn can_filter(document: DocumentView) -> bool {
    &&& !document.export.running
    &&& !document.filter.running
    &&& !document.search.running
    &&& document.structural.job is None
    &&& document.grid.total_columns > 0
    &&& document.edits.cells.dom() == Set::<(u64, usize)>::empty()
}

proof fn lemma_drafted(rules: Seq<RuleView>, total_columns: usize)
    ensures
        drafted(rules, total_columns) is Ok <==> forall|i: int|
            0 <= i < rules.len() ==> named_column((#[trigger] rules[i]).column_input, total_columns) is Some,
        drafted(rules, total_columns) matches Ok(predicates) ==> predicates.len() == rules.len() && forall|i: int|
            0 <= i < rules.len() ==> (#[trigger] predicates[i]) == (PredicateView {
                column: named_column(rules[i].column_input, total_columns)->0 as usize,
                operator: rules[i].operator,
                value: encode_utf8(rules[i].value_input),
            }),
    decreases rules.len(),
{
    if rules.len() > 0 {
        lemma_drafted(rules.drop_last(), total_columns);
        let last = rules.len() - 1;
        assert(forall|i: int| 0 <= i < last ==> rules.drop_last()[i] == rules[i]);
        if drafted(rules, total_columns) is Ok {
            assert forall|i: int| 0 <= i < rules.len() implies named_column(
                (#[trigger] rules[i]).column_input,
                total_columns,
            ) is Some by {
                if i < last {
                    assert(rules.drop_last()[i] == rules[i]);
                }
            }
        }
        if forall|i: int|
            0 <= i < rules.len() ==> named_column((#[trigger] rules[i]).column_input, total_columns) is Some {
            assert forall|i: int| 0 <= i < last implies named_column(
                (#[trigger] rules.drop_last()[i]).column_input,
                total_columns,
            ) is Some by {
                assert(rules.drop_last()[i] == rules[i]);
            }
            assert(named_column(rules[last].column_input, total_columns) is Some);
        }
    }
}

/// Rules can be used from a place on where each of them can.
pub proof fn lemma_rules_error(document: DocumentView, rules: Seq<PredicateView>, index: int)
    requires
        0 <= index <= rules.len(),
    ensures
        rules_error(document, rules, index) is None <==> forall|i: int|
            index <= i < rules.len() ==> rule_error(document, #[trigger] rules[i], i) is None,
    decreases rules.len() - index,
{
    if index < rules.len() {
        lemma_rules_error(document, rules, index + 1);
    }
}

/// The column that a typed rule names is the one of its number, counted from one.
pub proof fn lemma_named(rule: FilterRuleDraft, total_columns: usize)
    ensures
        named_column(rule.column_input@, total_columns) is Some <==> names_some_column(rule, total_columns),
        named_column(rule.column_input@, total_columns) matches Some(column) ==> column <= usize::MAX && names_column(
            rule,
            column as usize,
            total_columns,
        ),
{
    if let Some(column) = named_column(rule.column_input@, total_columns) {
        assert(names_column(rule, column as usize, total_columns));
    }
}

/// The filter that is asked for has the typed rules, in their order, and heeds case where Match case
/// of the filters says so. It is asked for wherever the rules can be used and nothing stands in the
/// way; else a warning says why not, and nothing changes.
pub proof fn lemma_filter_is_what_was_typed(workspace: &mut Workspace, document: DocumentView, request: Request)
    requires
        shows_document(old(workspace)@, document),
        at_rest(document),
        !document.save.running,
        call_ensures(Workspace::act, (workspace, Action::ApplyFilter), request),
    ensures
        ({
            let rules = old(workspace).filter_rules@;
            let total = document.grid.total_columns;
            let allowed = can_filter(document) && rules.len() > 0 && forall|i: int|
                0 <= i < rules.len() ==> is_usable(#[trigger] rules[i], total);
            &&& inputs_kept(old(workspace)@, final(workspace)@)
            &&& final(workspace)@.document == Some(document)
            &&& allowed ==> (request matches Request::Filter(query) && {
                &&& query.case_sensitivity == mode(old(workspace).filter_match_case)
                &&& query.predicates@.len() == rules.len()
                &&& forall|i: int| 0 <= i < rules.len() ==> is_typed(#[trigger] query.predicates@[i], rules[i], total)
            })
            &&& !allowed ==> request is Nothing && (final(workspace)@.notice matches Some(notice) && notice.severity
                == MessageSeverity::Warning)
        }),
{
    crate::browsing::lemma_rest(document);
    crate::change_laws::lemma_no_entries(document.edits.cells);
    let rules = old(workspace).filter_rules@;
    let total = document.grid.total_columns;
    reveal(rules_of);
    let typed = rules_of(rules);
    assert(typed.len() == rules.len());
    assert(forall|i: int| 0 <= i < rules.len() ==> #[trigger] typed[i] == rules[i]@);
    lemma_drafted(typed, total);
    assert forall|i: int| 0 <= i < rules.len() implies (named_column(
        (#[trigger] typed[i]).column_input,
        total,
    ) is Some <==> names_some_column(rules[i], total)) by {
        lemma_named(rules[i], total);
    }
    match drafted(typed, total) {
        Ok(predicates) => {
            lemma_rules_error(document, predicates, 0);
            assert forall|i: int| 0 <= i < rules.len() implies (rule_error(document, #[trigger] predicates[i], i)
                is None <==> is_usable(rules[i], total)) by {
                lemma_named(rules[i], total);
                assert(named_column(typed[i].column_input, total) is Some);
            }
            if rules_error(document, predicates, 0) is None {
                assert forall|i: int| 0 <= i < rules.len() implies is_usable(#[trigger] rules[i], total) by {
                    assert(rule_error(document, predicates[i], i) is None);
                }
            }
            if forall|i: int| 0 <= i < rules.len() ==> is_usable(#[trigger] rules[i], total) {
                assert forall|i: int| 0 <= i < predicates.len() implies rule_error(document, #[trigger] predicates[i], i)
                    is None by {
                    assert(is_usable(rules[i], total));
                }
            }
            if let Request::Filter(query) = request {
                let held = query.predicates@;
                assert(query@.predicates == predicates);
                assert(query@.predicates.len() == held.len());
                assert forall|i: int| 0 <= i < rules.len() implies is_typed(#[trigger] held[i], rules[i], total) by {
                    assert(query@.predicates[i] == held[i]@);
                    lemma_named(rules[i], total);
                    assert(named_column(typed[i].column_input, total) is Some);
                }
            }
        },
        Err(_) => {
            if forall|i: int| 0 <= i < rules.len() ==> is_usable(#[trigger] rules[i], total) {
                assert forall|i: int| 0 <= i < typed.len() implies named_column((#[trigger] typed[i]).column_input, total)
                    is Some by {
                    assert(is_usable(rules[i], total));
                }
            }
        },
    }
}

/// The filter that is asked for does not depend on the options and the texts of Find and Sort: two
/// editors with the same document, the same typed rules and the same Match case of the filters ask
/// for the same filter.
pub proof fn lemma_filter_is_its_own(
    one: &mut Workspace,
    other: &mut Workspace,
    document: DocumentView,
    one_request: Request,
    other_request: Request,
)
    requires
        shows_document(old(one)@, document),
        shows_document(old(other)@, document),
        old(one)@.filter_rules == old(other)@.filter_rules,
        old(one)@.filter_match_case == old(other)@.filter_match_case,
        call_ensures(Workspace::act, (one, Action::ApplyFilter), one_request),
        call_ensures(Workspace::act, (other, Action::ApplyFilter), other_request),
    ensures
        one_request@ == other_request@,
        one_request is Filter <==> other_request is Filter,
        one_request matches Request::Filter(query) ==> other_request matches Request::Filter(same) && query@ == same@
            && query.case_sensitivity == mode(old(one)@.filter_match_case),
        final(one)@.document == final(other)@.document,
{
}

/// Typed rules are read one by one: each gives the rule that it says, and the first that names no
/// column keeps all from being used.
pub proof fn lemma_rules_are_read(
    rules: &Vec<FilterRuleDraft>,
    total_columns: usize,
    result: Result<Vec<FilterPredicate>, String>,
)
    requires
        call_ensures(crate::dialogs::filter_predicates, (rules, total_columns), result),
    ensures
        result is Ok <==> forall|i: int|
            0 <= i < rules@.len() ==> names_some_column(#[trigger] rules@[i], total_columns),
        result matches Ok(predicates) ==> predicates@.len() == rules@.len() && forall|i: int|
            0 <= i < rules@.len() ==> is_typed(#[trigger] predicates@[i], rules@[i], total_columns),
{
    reveal(rules_of);
    let typed = rules_of(rules@);
    assert(typed.len() == rules@.len());
    assert(forall|i: int| 0 <= i < rules@.len() ==> #[trigger] typed[i] == rules@[i]@);
    lemma_drafted(typed, total_columns);
    assert forall|i: int| 0 <= i < rules@.len() implies (named_column((#[trigger] typed[i]).column_input, total_columns)
        is Some <==> names_some_column(rules@[i], total_columns)) by {
        lemma_named(rules@[i], total_columns);
    }
    if forall|i: int| 0 <= i < rules@.len() ==> names_some_column(#[trigger] rules@[i], total_columns) {
        assert forall|i: int| 0 <= i < typed.len() implies named_column((#[trigger] typed[i]).column_input, total_columns)
            is Some by {
            assert(names_some_column(rules@[i], total_columns));
        }
    }
    if let Ok(predicates) = result {
        let held = predicates@.map_values(|predicate: FilterPredicate| predicate@);
        assert(held.len() == predicates@.len());
        assert forall|i: int| 0 <= i < rules@.len() implies is_typed(
            #[trigger] predicates@[i],
            rules@[i],
            total_columns,
        ) by {
            assert(held[i] == predicates@[i]@);
            lemma_named(rules@[i], total_columns);
            assert(named_column(typed[i].column_input, total_columns) is Some);
        }
        assert forall|i: int| 0 <= i < rules@.len() implies names_some_column(#[trigger] rules@[i], total_columns) by {
            assert(is_typed(predicates@[i], rules@[i], total_columns));
        }
    }
}

/// What is asked for where rows have to be read for a move of the grid.
pub open spec fn asks_for(request: Request, step: GridStep) -> bool {
    match step {
        GridStep::Read(_) | GridStep::ReadMatches(_) => request == Request::Move(step),
        _ => request is Nothing,
    }
}

/// A failure is told of in the notice, and nothing is asked for.
pub open spec fn tells_of(after: WorkspaceView, request: Request, message: Seq<char>, severity: MessageSeverity) -> bool {
    &&& request is Nothing
    &&& after.notice matches Some(notice) && notice.text == message && notice.severity == severity
}

/// Find Next of the editor looks for the text of the find bar, with its Match case option.
pub proof fn lemma_editor_finds_next(
    workspace: &mut Workspace,
    document: &mut Document,
    query: &[u8],
    request: Request,
    result: Result<SearchStep, String>,
)
    requires
        shows_document(old(workspace)@, old(document)@),
        query@ == encode_utf8(old(workspace)@.find_input),
        call_ensures(Workspace::act, (workspace, Action::FindNext), request),
        call_ensures(
            Document::start_find_next_with_case,
            (document, query, mode(old(workspace)@.find_match_case)),
            result,
        ),
    ensures
        final(workspace)@.document == Some(final(document)@),
        inputs_kept(old(workspace)@, final(workspace)@),
        match result {
            Ok(SearchStep::Start(from)) => request == Request::Search(from),
            Ok(SearchStep::Move(step)) => asks_for(request, step),
            Err(message) => tells_of(final(workspace)@, request, message@, MessageSeverity::Warning),
        },
{
}

/// Find Previous of the editor looks for the text of the find bar, with its Match case option.
pub proof fn lemma_editor_finds_previous(
    workspace: &mut Workspace,
    document: &mut Document,
    query: &[u8],
    request: Request,
    result: Result<GridStep, String>,
)
    requires
        shows_document(old(workspace)@, old(document)@),
        query@ == encode_utf8(old(workspace)@.find_input),
        call_ensures(Workspace::act, (workspace, Action::FindPrevious), request),
        call_ensures(
            Document::start_find_previous_with_case,
            (document, query, mode(old(workspace)@.find_match_case)),
            result,
        ),
    ensures
        final(workspace)@.document == Some(final(document)@),
        inputs_kept(old(workspace)@, final(workspace)@),
        match result {
            Ok(step) => asks_for(request, step),
            Err(message) => tells_of(final(workspace)@, request, message@, MessageSeverity::Warning),
        },
{
}

/// Replace of the editor puts the text of the replace field in place of that of the find field, with
/// the Match case option of Find.
pub proof fn lemma_editor_replaces(
    workspace: &mut Workspace,
    document: &mut Document,
    query: &[u8],
    replacement: &[u8],
    request: Request,
    result: Result<SearchStep, String>,
)
    requires
        shows_document(old(workspace)@, old(document)@),
        query@ == encode_utf8(old(workspace)@.find_input),
        replacement@ == encode_utf8(old(workspace)@.replace_input),
        call_ensures(Workspace::act, (workspace, Action::ReplaceCurrent), request),
        call_ensures(
            Document::replace_current_match_with_case,
            (document, query, replacement, mode(old(workspace)@.find_match_case)),
            result,
        ),
    ensures
        final(workspace)@.document == Some(final(document)@),
        inputs_kept(old(workspace)@, final(workspace)@),
        match result {
            Ok(SearchStep::Start(from)) => request == Request::Search(from),
            Ok(SearchStep::Move(step)) => asks_for(request, step),
            Err(message) => tells_of(final(workspace)@, request, message@, MessageSeverity::Warning),
        },
{
}

/// Replace All of the editor asks for the text of the replace field in place of that of the find
/// field, with the Match case option of Find, in every cell.
pub proof fn lemma_editor_replaces_all(workspace: &mut Workspace, document: DocumentView, request: Request)
    requires
        shows_document(old(workspace)@, document),
        call_ensures(Workspace::act, (workspace, Action::ReplaceAll), request),
    ensures
        ({
            let query = encode_utf8(old(workspace)@.find_input);
            let replacement = encode_utf8(old(workspace)@.replace_input);
            &&& inputs_kept(old(workspace)@, final(workspace)@)
            &&& request is Change <==> free(document) && query.len() > 0 && query != replacement
            &&& request is Change || request is Nothing
            &&& request matches Request::Change(plan) ==> plan.kind == ChangeKind::Replace && (plan.change matches Change::Replace {
                query: sought,
                replacement: given,
                case_sensitivity,
            } && sought@ == query && given@ == replacement && case_sensitivity == mode(
                old(workspace)@.find_match_case,
            ))
        }),
{
    let query = encode_utf8(old(workspace)@.find_input);
    let replacement = encode_utf8(old(workspace)@.replace_input);
    let case = crate::dialogs::sensitivity(old(workspace)@.find_match_case);
    assert forall|after: DocumentView, result: Result<Option<ChangePlan>, AppMessage>| #[trigger]
        replace_asked(document, after, query, replacement, case, result) implies replaces(
        document,
        after,
        query,
        replacement,
        case,
        result,
    ) by {
        crate::change_laws::lemma_replaces(document, after, query, replacement, case, result);
    }
}

/// Page Up and Page Down of the editor turn a page of the document back and on.
pub proof fn lemma_editor_turns_pages(
    up: &mut Workspace,
    down: &mut Workspace,
    back: &mut Document,
    on: &mut Document,
    up_request: Request,
    down_request: Request,
    back_result: Result<GridStep, String>,
    on_result: Result<GridStep, String>,
)
    requires
        shows_document(old(up)@, old(back)@),
        shows_document(old(down)@, old(on)@),
        call_ensures(Workspace::act, (up, Action::PageUp), up_request),
        call_ensures(Workspace::act, (down, Action::PageDown), down_request),
        call_ensures(Document::page, (back, -1i64), back_result),
        call_ensures(Document::page, (on, 1i64), on_result),
    ensures
        final(up)@.document == Some(final(back)@),
        final(down)@.document == Some(final(on)@),
        inputs_kept(old(up)@, final(up)@),
        inputs_kept(old(down)@, final(down)@),
        match back_result {
            Ok(step) => asks_for(up_request, step),
            Err(message) => tells_of(final(up)@, up_request, message@, MessageSeverity::Error),
        },
        match on_result {
            Ok(step) => asks_for(down_request, step),
            Err(message) => tells_of(final(down)@, down_request, message@, MessageSeverity::Error),
        },
{
}

/// Go to Row of the editor shows the data row whose number was typed, counted from one.
pub proof fn lemma_editor_jumps(
    workspace: &mut Workspace,
    document: &mut Document,
    row: u64,
    number: nat,
    request: Request,
    result: Result<GridStep, String>,
)
    requires
        shows_document(old(workspace)@, old(document)@),
        parsed(trimmed(old(workspace)@.jump_input), u64::MAX as nat) == Some(number),
        number > 0,
        row == old(document)@.grid.data_start + number - 1,
        call_ensures(Workspace::act, (workspace, Action::Jump), request),
        call_ensures(Document::navigate, (document, row), result),
    ensures
        final(workspace)@.document == Some(final(document)@),
        inputs_kept(old(workspace)@, final(workspace)@),
        match result {
            Ok(step) => asks_for(request, step),
            Err(message) => tells_of(final(workspace)@, request, message@, MessageSeverity::Error),
        },
{
}

/// A row number that cannot be read goes nowhere.
pub proof fn lemma_editor_stays(workspace: &mut Workspace, document: DocumentView, request: Request)
    requires
        shows_document(old(workspace)@, document),
        parsed(trimmed(old(workspace)@.jump_input), u64::MAX as nat) matches Some(number) ==> number == 0,
        call_ensures(Workspace::act, (workspace, Action::Jump), request),
    ensures
        final(workspace)@.document == Some(document),
        request is Nothing,
        final(workspace)@.notice matches Some(notice) && notice.severity == MessageSeverity::Warning,
{
}

/// Clear Filter of the editor clears the filter of the document, and leaves the typed rules.
pub proof fn lemma_editor_clears_filter(
    workspace: &mut Workspace,
    document: &mut Document,
    request: Request,
    result: Result<GridStep, String>,
)
    requires
        shows_document(old(workspace)@, old(document)@),
        call_ensures(Workspace::act, (workspace, Action::ClearFilter), request),
        call_ensures(Document::clear_filter, (document,), result),
    ensures
        final(workspace)@.document == Some(final(document)@),
        inputs_kept(old(workspace)@, final(workspace)@),
        match result {
            Ok(step) => asks_for(request, step),
            Err(message) => tells_of(final(workspace)@, request, message@, MessageSeverity::Warning),
        },
{
}

/// Nothing is done, and nothing asked for, where no file is open or the file has changed; the latter is
/// said.
pub proof fn lemma_editor_is_idle(workspace: &mut Workspace, action: Action, request: Request)
    requires
        old(workspace)@.document matches Some(document) ==> document.source_changed,
        call_ensures(Workspace::act, (workspace, action), request),
    ensures
        request is Nothing,
        final(workspace)@.document == old(workspace)@.document,
        inputs_kept(old(workspace)@, final(workspace)@),
        old(workspace)@.document is Some ==> final(workspace)@.notice is Some,
{
}

/// Fitting the columns asks for that, and touches nothing.
pub proof fn lemma_editor_fits_columns(workspace: &mut Workspace, document: DocumentView, request: Request)
    requires
        shows_document(old(workspace)@, document),
        call_ensures(Workspace::act, (workspace, Action::AutoFitColumns), request),
    ensures
        request is FitColumns,
        final(workspace)@.document == Some(document),
{
}

/// The Replace All command of the editor asks for what Replace All does once what is being typed is
/// kept.
pub proof fn lemma_command_replaces_all(workspace: &mut Workspace, document: DocumentView, request: Request)
    requires
        shows_document(old(workspace)@, document),
        call_ensures(Workspace::apply, (workspace, Action::ReplaceAll), request),
    ensures
        ({
            let query = encode_utf8(old(workspace)@.find_input);
            let replacement = encode_utf8(old(workspace)@.replace_input);
            &&& inputs_kept(old(workspace)@, final(workspace)@)
            &&& request is Change <==> free(document) && query.len() > 0 && query != replacement
            &&& request matches Request::Change(plan) ==> (plan.change matches Change::Replace {
                query: sought,
                replacement: given,
                case_sensitivity,
            } && sought@ == query && given@ == replacement && case_sensitivity == mode(
                old(workspace)@.find_match_case,
            ))
        }),
{
    let kept = crate::edits::committed(document);
    crate::edits::lemma_commit_frame(document);
    let query = encode_utf8(old(workspace)@.find_input);
    let replacement = encode_utf8(old(workspace)@.replace_input);
    let case = crate::dialogs::sensitivity(old(workspace)@.find_match_case);
    assert forall|after: DocumentView, result: Result<Option<ChangePlan>, AppMessage>| #[trigger]
        replace_asked(kept, after, query, replacement, case, result) implies replaces(
        kept,
        after,
        query,
        replacement,
        case,
        result,
    ) by {
        crate::change_laws::lemma_replaces(kept, after, query, replacement, case, result);
    }
}

} // verus!
