//! The dialogs for columns, filters and structural changes: what they show and what they ask
//! for.

use crate::bytes::{self, size_text};
use crate::clipboard;
use crate::columns::{self, column_drop_position};
use crate::document::{line, title, Document, DocumentView};
use crate::edits::cells_edited;
use crate::filter::filter_ready;
use crate::literal::CaseSensitivity;
use crate::model::{self, cells_of, FilterOperator, FilterPredicate, FilterQuery, PredicateView, SortDirection};
use crate::parse::{move_position_error, parse_file_column, parse_move_position};
use crate::structural::header_fields;
use crate::text::{self, decimal, lossy_text, lowercase, parsed, trimmed};
use std::ops::RangeInclusive;
use vstd::prelude::*;
use vstd::string::*;
use vstd::utf8::*;

verus! {

/// A filter rule as it is typed.
#[derive(Debug, PartialEq, Eq)]
pub struct FilterRuleDraft {
    pub column_input: String,
    pub operator: FilterOperator,
    pub value_input: String,
}

impl Default for FilterRuleDraft {
    fn default() -> (rule: Self)
        ensures
            rule.column_input@ == "1"@,
            rule.operator == FilterOperator::Contains,
            rule.value_input@ == Seq::<char>::empty(),
    {
        FilterRuleDraft {
            column_input: "1".to_owned(),
            operator: FilterOperator::Contains,
            value_input: String::new(),
        }
    }
}

impl Clone for FilterRuleDraft {
    fn clone(&self) -> (copy: Self)
        ensures
            copy == *self,
    {
        FilterRuleDraft {
            column_input: self.column_input.clone(),
            operator: self.operator,
            value_input: self.value_input.clone(),
        }
    }
}

/// The structural changes that a dialog asks about.
#[derive(Clone, Copy, Debug, PartialEq, Eq, Structural)]
pub enum StructuralRequest {
    Split,
    Combine,
    Move,
    Sort,
}

/// A dialog for a structural change.
#[derive(Debug, PartialEq, Eq)]
pub struct StructuralDialog {
    pub request: StructuralRequest,
    pub columns: Vec<usize>,
    pub separator: String,
    pub position: String,
    pub sort_direction: SortDirection,
}

/// What a [`FilterRuleDraft`] stands for.
#[verifier::ext_equal]
pub struct RuleView {
    pub column_input: Seq<char>,
    pub operator: FilterOperator,
    pub value_input: Seq<char>,
}

impl View for FilterRuleDraft {
    type V = RuleView;

    open spec fn view(&self) -> RuleView {
        RuleView {
            column_input: self.column_input@,
            operator: self.operator,
            value_input: self.value_input@,
        }
    }
}

/// The rules as they are typed.
#[verifier::opaque]
pub open spec fn rules_of(rules: Seq<FilterRuleDraft>) -> Seq<RuleView> {
    rules.map_values(|rule: FilterRuleDraft| rule@)
}

/// What a [`StructuralDialog`] stands for.
#[verifier::ext_equal]
pub struct DialogView {
    pub request: StructuralRequest,
    pub columns: Seq<usize>,
    pub separator: Seq<char>,
    pub position: Seq<char>,
    pub sort_direction: SortDirection,
}

impl View for StructuralDialog {
    type V = DialogView;

    open spec fn view(&self) -> DialogView {
        DialogView {
            request: self.request,
            columns: self.columns@,
            separator: self.separator@,
            position: self.position@,
            sort_direction: self.sort_direction,
        }
    }
}

pub open spec fn dialog_view(dialog: Option<StructuralDialog>) -> Option<DialogView> {
    match dialog {
        Some(dialog) => Some(dialog@),
        None => None,
    }
}

/// A dialog about one column has that column.
pub open spec fn dialog_ready(dialog: DialogView) -> bool {
    dialog.request == StructuralRequest::Split || dialog.request == StructuralRequest::Sort ==> dialog.columns.len() > 0
}

/// What the grid asks for beyond itself.
#[derive(Debug, PartialEq, Eq)]
pub enum GridColumnRequest {
    Dialog(StructuralDialog),
    Delete(Vec<usize>),
    DeleteRows(Vec<RangeInclusive<u64>>),
}

/// How a structural dialog is answered.
#[derive(Clone, Copy, Debug, PartialEq, Eq, Structural)]
pub enum StructuralDialogAction {
    Apply,
    Cancel,
}

/// What the column dialog asks for.
#[derive(Clone, Copy, Debug, PartialEq, Eq, Structural)]
pub enum ColumnCommand {
    SetShown { column: usize, shown: bool },
    Move { column: usize, position: usize },
    Reset,
    AutoFit,
}

/// A number counted from one, where it can be.
pub open spec fn one_based(column: usize) -> nat {
    if column < usize::MAX {
        (column + 1) as nat
    } else {
        usize::MAX as nat
    }
}

fn dialog_for(request: StructuralRequest, columns: Vec<usize>, position: String) -> (dialog: StructuralDialog)
    ensures
        dialog.request == request,
        dialog.columns == columns,
        dialog.separator@ == Seq::<char>::empty(),
        dialog.position == position,
        dialog.sort_direction == SortDirection::Ascending,
{
    StructuralDialog {
        request,
        columns,
        separator: String::new(),
        position,
        sort_direction: SortDirection::Ascending,
    }
}

fn just(column: usize) -> (columns: Vec<usize>)
    ensures
        columns@ == seq![column],
{
    let mut columns: Vec<usize> = Vec::new();
    columns.push(column);
    assert(columns@ =~= seq![column]);
    columns
}

impl StructuralDialog {
    pub fn split(column: usize) -> (dialog: Self)
        ensures
            dialog.request == StructuralRequest::Split,
            dialog.columns@ == seq![column],
            dialog.separator@ == Seq::<char>::empty(),
            dialog.position@ == Seq::<char>::empty(),
            dialog.sort_direction == SortDirection::Ascending,
    {
        dialog_for(StructuralRequest::Split, just(column), String::new())
    }

    pub fn combine(columns: Vec<usize>) -> (dialog: Self)
        ensures
            dialog.request == StructuralRequest::Combine,
            dialog.columns@ == columns@,
            dialog.separator@ == Seq::<char>::empty(),
            dialog.position@ == Seq::<char>::empty(),
            dialog.sort_direction == SortDirection::Ascending,
    {
        dialog_for(StructuralRequest::Combine, columns, String::new())
    }

    /// A dialog that proposes the place of the first column.
    pub fn move_columns(columns: Vec<usize>) -> (dialog: Self)
        ensures
            dialog.request == StructuralRequest::Move,
            dialog.columns@ == columns@,
            dialog.separator@ == Seq::<char>::empty(),
            dialog.position@ == if columns@.len() == 0 {
                Seq::<char>::empty()
            } else {
                decimal(one_based(columns@[0]))
            },
            dialog.sort_direction == SortDirection::Ascending,
    {
        let position = if columns.len() == 0 {
            String::new()
        } else {
            text::count(columns[0].saturating_add(1))
        };
        dialog_for(StructuralRequest::Move, columns, position)
    }

    pub fn sort(column: usize) -> (dialog: Self)
        ensures
            dialog.request == StructuralRequest::Sort,
            dialog.columns@ == seq![column],
            dialog.separator@ == Seq::<char>::empty(),
            dialog.position@ == Seq::<char>::empty(),
            dialog.sort_direction == SortDirection::Ascending,
    {
        dialog_for(StructuralRequest::Sort, just(column), String::new())
    }

    pub fn title(&self) -> (title: &'static str)
        ensures
            title@ == match self.request {
                StructuralRequest::Split => "Split Columns"@,
                StructuralRequest::Combine => "Combine Columns"@,
                StructuralRequest::Move => "Move Columns"@,
                StructuralRequest::Sort => "Sort Rows"@,
            },
    {
        match self.request {
            StructuralRequest::Split => "Split Columns",
            StructuralRequest::Combine => "Combine Columns",
            StructuralRequest::Move => "Move Columns",
            StructuralRequest::Sort => "Sort Rows",
        }
    }

    pub fn submit_label(&self) -> (label: &'static str)
        ensures
            label@ == match self.request {
                StructuralRequest::Move => "Move"@,
                StructuralRequest::Sort => "Sort"@,
                _ => "OK"@,
            },
    {
        match self.request {
            StructuralRequest::Move => "Move",
            StructuralRequest::Sort => "Sort",
            _ => "OK",
        }
    }

    /// Why the dialog cannot be applied as it is filled in. `space_known` says whether the disk
    /// space for a sort can be calculated.
    pub fn disabled_reason(&self, total_columns: usize, space_known: bool) -> (reason: Option<String>)
        ensures
            match self.request {
                StructuralRequest::Split => match reason {
                    Some(reason) => self.separator@.len() == 0 && reason@ == "Enter the text that separates each value."@,
                    None => self.separator@.len() > 0,
                },
                StructuralRequest::Combine => reason is None,
                StructuralRequest::Move => model::text_view(reason) == move_position_error(
                    self.position@,
                    total_columns,
                    self.columns@.len(),
                ),
                StructuralRequest::Sort => match reason {
                    Some(reason) => !space_known && reason@
                        == "Wait for indexing to finish so Quarry can calculate temporary disk space."@,
                    None => space_known,
                },
            },
    {
        match self.request {
            StructuralRequest::Split => if self.separator.as_str().is_empty() {
                Some("Enter the text that separates each value.".to_owned())
            } else {
                None
            },
            StructuralRequest::Combine => None,
            StructuralRequest::Move => match parse_move_position(
                self.position.as_str(),
                total_columns,
                self.columns.len(),
            ) {
                Ok(_) => None,
                Err(reason) => Some(reason),
            },
            StructuralRequest::Sort => if space_known {
                None
            } else {
                Some("Wait for indexing to finish so Quarry can calculate temporary disk space.".to_owned())
            },
        }
    }
}

/// The name of a column for a dialog: its number, and its header where it has one.
pub open spec fn numbered_name(document: DocumentView, column: usize) -> Seq<char> {
    let name = if column < header_fields(document).len() {
        line(lossy_text(header_fields(document)[column as int]))
    } else {
        Seq::empty()
    };
    if name.len() == 0 {
        decimal(one_based(column))
    } else {
        decimal(one_based(column)) + ": "@ + name
    }
}

/// The names of the first `count` columns of a dialog.
pub open spec fn numbered_names(document: DocumentView, columns: Seq<usize>, count: int) -> Seq<char>
    decreases count,
{
    if count <= 0 {
        Seq::empty()
    } else if count == 1 {
        numbered_name(document, columns[0])
    } else {
        numbered_names(document, columns, count - 1) + ", "@ + numbered_name(document, columns[count - 1])
    }
}

/// The allowance of disk space for a sort, in words.
pub open spec fn allowance_text(allowance: Option<u64>) -> Seq<char> {
    match allowance {
        Some(bytes) => "Conservative temporary disk allowance: "@ + size_text(bytes as nat) + "."@,
        None => "Temporary disk allowance is available after indexing finishes."@,
    }
}

/// How a sort orders rows, in words.
pub open spec fn sort_text(match_case: bool, allowance: Option<u64>) -> Seq<char> {
    let case = if match_case {
        "Letter case must match."@
    } else {
        "Letter case is ignored."@
    };
    case
        + " Equal values keep their original order (stable sort). The header stays fixed. Missing values sort as empty cells. "@
        + allowance_text(allowance)
}

/// The allowance of disk space for a sort, in words.
pub fn sort_allowance_text(allowance: Option<u64>) -> (words: String)
    ensures
        words@ == allowance_text(allowance),
{
    match allowance {
        Some(size) => "Conservative temporary disk allowance: ".to_owned().concat(
            bytes::format_bytes(size).as_str(),
        ).concat("."),
        None => "Temporary disk allowance is available after indexing finishes.".to_owned(),
    }
}

/// How a sort orders rows, in words.
pub fn sort_description(match_case: bool, allowance: Option<u64>) -> (words: String)
    ensures
        words@ == sort_text(match_case, allowance),
{
    let case = if match_case {
        "Letter case must match."
    } else {
        "Letter case is ignored."
    };
    let allowance_words = sort_allowance_text(allowance);
    case.to_owned().concat(
        " Equal values keep their original order (stable sort). The header stays fixed. Missing values sort as empty cells. ",
    ).concat(allowance_words.as_str())
}

pub fn sort_direction_label(direction: SortDirection) -> (label: &'static str)
    ensures
        label@ == match direction {
            SortDirection::Ascending => "Ascending"@,
            SortDirection::Descending => "Descending"@,
        },
{
    match direction {
        SortDirection::Ascending => "Ascending",
        SortDirection::Descending => "Descending",
    }
}

pub fn filter_operator_label(operator: FilterOperator) -> (label: &'static str)
    ensures
        label@ == match operator {
            FilterOperator::Contains => "Contains"@,
            FilterOperator::Equals => "Equals"@,
            FilterOperator::NotEquals => "Does not equal"@,
        },
{
    match operator {
        FilterOperator::Contains => "Contains",
        FilterOperator::Equals => "Equals",
        FilterOperator::NotEquals => "Does not equal",
    }
}

pub open spec fn sensitivity(match_case: bool) -> CaseSensitivity {
    if match_case {
        CaseSensitivity::Sensitive
    } else {
        CaseSensitivity::Insensitive
    }
}

pub fn case_sensitivity(match_case: bool) -> (result: CaseSensitivity)
    ensures
        result == sensitivity(match_case),
{
    if match_case {
        CaseSensitivity::Sensitive
    } else {
        CaseSensitivity::Insensitive
    }
}

pub fn case_sensitivity_label(case_sensitivity: CaseSensitivity) -> (label: &'static str)
    ensures
        label@ == match case_sensitivity {
            CaseSensitivity::Insensitive => "case-insensitive"@,
            CaseSensitivity::Sensitive => "case-sensitive"@,
        },
{
    match case_sensitivity {
        CaseSensitivity::Insensitive => "case-insensitive",
        CaseSensitivity::Sensitive => "case-sensitive",
    }
}

/// The label of the button for filters, with the number of rules where a filter is active.
pub fn filter_button_label(query: Option<&FilterQuery>) -> (label: String)
    ensures
        label@ == match query {
            None => "Filters…"@,
            Some(query) => "Filters ("@ + decimal(query@.predicates.len()) + ")…"@,
        },
{
    match query {
        None => "Filters…".to_owned(),
        Some(query) => "Filters (".to_owned().concat(text::count(query.predicates.len()).as_str()).concat(")…"),
    }
}

/// The column that a typed file column number names.
pub open spec fn named_column(input: Seq<char>, total_columns: usize) -> Option<nat> {
    match parsed(trimmed(input), usize::MAX as nat) {
        Some(column) if 1 <= column <= total_columns => Some((column - 1) as nat),
        _ => None,
    }
}

/// Why a typed file column number names no column.
pub open spec fn column_error(input: Seq<char>, total_columns: usize) -> Seq<char> {
    match parsed(trimmed(input), usize::MAX as nat) {
        None => "File column must be a positive whole number."@,
        Some(column) => if column == 0 {
            "File columns start at 1."@
        } else if total_columns == 0 {
            "This file has no columns."@
        } else {
            "File column must be between 1 and "@ + decimal(total_columns as nat) + "."@
        },
    }
}

/// A typed rule names a column of the file, and has a value where it needs one.
pub open spec fn rule_usable(rule: FilterRuleDraft, total_columns: usize) -> bool {
    named_column(rule.column_input@, total_columns) is Some && (rule.operator != FilterOperator::Contains
        || rule.value_input@.len() > 0)
}

/// The rules that typed rules stand for, or the message for the first that names no column.
pub open spec fn drafted(rules: Seq<RuleView>, total_columns: usize) -> Result<Seq<PredicateView>, Seq<char>>
    decreases rules.len(),
{
    if rules.len() == 0 {
        Ok(Seq::empty())
    } else {
        let rule = rules.last();
        match drafted(rules.drop_last(), total_columns) {
            Err(message) => Err(message),
            Ok(predicates) => match named_column(rule.column_input, total_columns) {
                Some(column) => Ok(
                    predicates.push(
                        PredicateView {
                            column: column as usize,
                            operator: rule.operator,
                            value: encode_utf8(rule.value_input),
                        },
                    ),
                ),
                None => Err(
                    "Rule "@ + decimal(rules.len()) + ": "@ + column_error(rule.column_input, total_columns),
                ),
            },
        }
    }
}

/// A message for the first rules is the message for all of them.
proof fn lemma_first_error(rules: Seq<RuleView>, total_columns: usize, count: int)
    requires
        0 <= count <= rules.len(),
        drafted(rules.take(count), total_columns) is Err,
    ensures
        drafted(rules, total_columns) == drafted(rules.take(count), total_columns),
    decreases rules.len(),
{
    if count == rules.len() {
        assert(rules.take(count) =~= rules);
    } else {
        assert(rules.drop_last().take(count) =~= rules.take(count));
        lemma_first_error(rules.drop_last(), total_columns, count);
    }
}

/// The rules that typed rules stand for, or the message for the first that names no column.
pub fn filter_predicates(rules: &Vec<FilterRuleDraft>, total_columns: usize) -> (result: Result<
    Vec<FilterPredicate>,
    String,
>)
    ensures
        match result {
            Ok(predicates) => drafted(rules_of(rules@), total_columns) == Ok::<Seq<PredicateView>, Seq<char>>(
                predicates@.map_values(|predicate: FilterPredicate| predicate@),
            ),
            Err(message) => drafted(rules_of(rules@), total_columns) == Err::<Seq<PredicateView>, Seq<char>>(message@),
        },
{
    let mut predicates: Vec<FilterPredicate> = Vec::new();
    let ghost typed = rules_of(rules@);
    proof {
        reveal(rules_of);
        assert(predicates@.map_values(|predicate: FilterPredicate| predicate@) =~= Seq::empty());
    }
    for index in 0..rules.len()
        invariant
            typed.len() == rules@.len(),
            forall|i: int| 0 <= i < rules@.len() ==> #[trigger] typed[i] == rules@[i]@,
            drafted(typed.take(index as int), total_columns) == Ok::<Seq<PredicateView>, Seq<char>>(
                predicates@.map_values(|predicate: FilterPredicate| predicate@),
            ),
            typed == rules_of(rules@),
    {
        let rule = &rules[index];
        let ghost before = predicates@;
        proof {
            assert(typed.take(index + 1).drop_last() =~= typed.take(index as int));
            assert(typed.take(index + 1).last() == rules@[index as int]@);
        }
        match parse_file_column(rule.column_input.as_str(), total_columns) {
            Ok(column) => {
                predicates.push(
                    FilterPredicate {
                        column,
                        operator: rule.operator,
                        value: model::copy_bytes(rule.value_input.as_str().as_bytes()),
                    },
                );
                assert(predicates@.map_values(|predicate: FilterPredicate| predicate@) =~= before.map_values(
                    |predicate: FilterPredicate| predicate@,
                ).push(predicates@.last()@));
            },
            Err(message) => {
                proof {
                    lemma_first_error(typed, total_columns, index + 1);
                }
                return Err(
                    "Rule ".to_owned().concat(text::count(index + 1).as_str()).concat(": ").concat(message.as_str()),
                );
            },
        }
    }
    assert(typed.take(rules@.len() as int) =~= typed);
    Ok(predicates)
}

/// Whether `part` stands in `whole`.
pub open spec fn holds_text(whole: Seq<char>, part: Seq<char>) -> bool {
    exists|at: int| holds_at(whole, part, at)
}

pub open spec fn holds_at(whole: Seq<char>, part: Seq<char>, at: int) -> bool {
    0 <= at && at + part.len() <= whole.len() && whole.subrange(at, at + part.len()) == part
}

/// Whether `part` stands in `whole`.
fn contains_text(whole: &Vec<char>, part: &Vec<char>) -> (contained: bool)
    ensures
        contained == holds_text(whole@, part@),
{
    if part.len() > whole.len() {
        return false;
    }
    let length: usize = whole.len();
    let last: usize = length - part.len();
    let mut at: usize = 0;
    loop
        invariant
            length == whole@.len(),
            at <= last,
            last == whole@.len() - part@.len(),
            forall|i: int| 0 <= i < at ==> !holds_at(whole@, part@, i),
        decreases last - at,
    {
        let mut same: usize = 0;
        while same < part.len() && whole[at + same] == part[same]
            invariant
                length == whole@.len(),
                at <= last,
                last == whole@.len() - part@.len(),
                same <= part@.len(),
                forall|i: int| 0 <= i < same ==> whole@[at + i] == part@[i],
            decreases part@.len() - same,
        {
            same = same + 1;
        }
        if same == part.len() {
            assert(whole@.subrange(at as int, at + part@.len()) =~= part@);
            assert(holds_at(whole@, part@, at as int));
            return true;
        }
        proof {
            if holds_at(whole@, part@, at as int) {
                assert(whole@.subrange(at as int, at + part@.len())[same as int] == part@[same as int]);
            }
        }
        if at == last {
            return false;
        }
        at = at + 1;
    }
}

/// Whether a column goes with what was typed in the search of the column dialog: its title
/// without regard to case, or its number.
pub open spec fn goes_with(document: DocumentView, column: usize, search: Seq<char>) -> bool {
    let query = lowercase(trimmed(search));
    ||| query.len() == 0
    ||| holds_text(lowercase(title(document, column)), query)
    ||| holds_text(decimal(one_based(column)), query)
}

/// Whether a column with this title and number goes with a search for `query`. The title and
/// the query are in lower case.
pub fn column_matches(lower_title: &str, column: usize, query: &str) -> (matches: bool)
    ensures
        matches == (query@.len() == 0 || holds_text(lower_title@, query@) || holds_text(
            decimal(one_based(column)),
            query@,
        )),
{
    if query.is_empty() {
        return true;
    }
    let sought = text::chars_of(query);
    let name = text::chars_of(lower_title);
    if contains_text(&name, &sought) {
        return true;
    }
    let number = text::count(column.saturating_add(1));
    let digits = text::chars_of(number.as_str());
    contains_text(&digits, &sought)
}

/// The places below `count` whose columns go with what was typed.
pub open spec fn matching_places(document: DocumentView, search: Seq<char>, count: int) -> Seq<usize>
    decreases count,
{
    if count <= 0 {
        Seq::empty()
    } else {
        let before = matching_places(document, search, count - 1);
        if goes_with(document, document.grid.order[count - 1], search) {
            before.push((count - 1) as usize)
        } else {
            before
        }
    }
}

impl Document {
    /// The names of the columns of a dialog.
    pub fn dialog_columns(&self, columns: &Vec<usize>) -> (names: String)
        ensures
            names@ == numbered_names(self@, columns@, columns@.len() as int),
    {
        let fields = self.current_header_fields();
        let mut names = String::new();
        for i in 0..columns.len()
            invariant
                cells_of(fields@) == header_fields(self@),
                names@ == numbered_names(self@, columns@, i as int),
        {
            let column: usize = columns[i];
            let name = if column < fields.len() {
                assert(cells_of(fields@)[column as int] == fields@[column as int]@);
                clipboard::field_text(fields[column].as_slice())
            } else {
                String::new()
            };
            let mut piece = text::count(column.saturating_add(1));
            if !name.as_str().is_empty() {
                piece = piece.concat(": ").concat(name.as_str());
            }
            assert(piece@ == numbered_name(self@, column));
            if i > 0 {
                names.append(", ");
            }
            names.append(piece.as_str());
            proof {
                if i == 0 {
                    assert(names@ =~= piece@);
                }
            }
        }
        names
    }

    /// Whether the typed filter rules can be applied.
    pub fn can_apply_filters(&self, rules: &Vec<FilterRuleDraft>) -> (can: bool)
        ensures
            can == (filter_ready(self@) && !cells_edited(self@) && !self@.search.running && !self@.filter.running
                && !self@.export.running && rules@.len() > 0 && forall|i: int|
                0 <= i < rules@.len() ==> rule_usable(#[trigger] rules@[i], self@.grid.total_columns)),
    {
        let ready = self.is_filter_ready() && !self.has_cell_edits() && !self.search.running && !self.filter.running
            && !self.export.running && rules.len() > 0;
        if !ready {
            return false;
        }
        for i in 0..rules.len()
            invariant
                forall|j: int| 0 <= j < i ==> rule_usable(#[trigger] rules@[j], self@.grid.total_columns),
        {
            let rule = &rules[i];
            let named = match parse_file_column(rule.column_input.as_str(), self.grid.total_columns) {
                Ok(_) => true,
                Err(_) => false,
            };
            if !named || (rule.operator == FilterOperator::Contains && rule.value_input.as_str().is_empty()) {
                assert(!rule_usable(rules@[i as int], self@.grid.total_columns));
                return false;
            }
        }
        true
    }

    /// The places of the columns that the column dialog lists for what was typed.
    pub fn managed_positions(&self, search: &str) -> (places: Vec<usize>)
        requires
            self.wf(),
        ensures
            places@ == matching_places(self@, search@, self@.grid.order.len() as int),
    {
        let typed = text::trim(search);
        let query = text::to_lowercase(typed.as_str());
        let mut places: Vec<usize> = Vec::new();
        for place in 0..self.grid.columns.order.len()
            invariant
                self.wf(),
                query@ == lowercase(trimmed(search@)),
                places@ == matching_places(self@, search@, place as int),
        {
            let column: usize = self.grid.columns.order[place];
            proof {
                assert(self@.grid.order.contains(self@.grid.order[place as int]));
            }
            let name = self.column_name(column);
            let lower_title = text::to_lowercase(name.as_str());
            if column_matches(lower_title.as_str(), column, query.as_str()) {
                places.push(place);
            }
        }
        places
    }

    /// The move that a column dropped before place `insertion` asks for.
    pub fn dropped_column(&self, column: usize, insertion: usize) -> (command: Option<ColumnCommand>)
        requires
            self.wf(),
        ensures
            match command {
                Some(ColumnCommand::Move { column: moved, position }) => moved == column && column
                    < self@.grid.total_columns && position == crate::dialogs::drop_place(
                    self@.grid.order.index_of(column),
                    insertion,
                    self@.grid.order.len(),
                ),
                Some(_) => false,
                None => column >= self@.grid.total_columns,
            },
    {
        match columns::position_of(&self.grid.columns.order, column) {
            Some(source) => {
                assert(self@.grid.order.contains(column));
                Some(
                    ColumnCommand::Move {
                        column,
                        position: column_drop_position(source, insertion, self.grid.columns.order.len()),
                    },
                )
            },
            None => None,
        }
    }
}

/// The place that a column dropped before `insertion` ends up in.
pub open spec fn drop_place(source: int, insertion: usize, total: nat) -> int {
    let after_removal = if source < insertion {
        insertion - 1
    } else {
        insertion as int
    };
    let last = if total == 0 {
        0
    } else {
        total - 1
    };
    if after_removal <= last {
        after_removal
    } else {
        last
    }
}

/// A column dropped before or after itself stays where it is.
pub proof fn lemma_drop_on_itself(source: usize, total: nat)
    requires
        source < total,
        total <= usize::MAX,
    ensures
        drop_place(source as int, source, total) == source,
        drop_place(source as int, (source + 1) as usize, total) == source,
{
}

} // verus!
