//! The order and visibility of columns, and the selection of numbered columns.

use crate::rows::Modifiers;
use crate::sets;
use std::collections::BTreeSet;
use vstd::prelude::*;

verus! {

/// The numbers of the first `total` columns in file order.
pub open spec fn file_order(total: nat) -> Seq<usize> {
    Seq::new(total, |column: int| column as usize)
}

/// `order` lists each of the first `total` columns once.
pub open spec fn arranges(order: Seq<usize>, total: nat) -> bool {
    &&& order.len() == total
    &&& order.no_duplicates()
    &&& forall|column: usize| #[trigger] order.contains(column) <==> column < total
}

/// The columns of `order` that are not hidden.
pub open spec fn shown_columns(order: Seq<usize>, hidden: Seq<bool>) -> Seq<usize> {
    order.filter(|column: usize| !hidden[column as int])
}

/// `order` with the entry at `position` taken out and put back at `target`.
pub open spec fn moved(order: Seq<usize>, position: int, target: int) -> Seq<usize> {
    order.remove(position).insert(target, order[position])
}

/// Which columns the grid shows, and in which order.
#[derive(Debug, PartialEq, Eq)]
pub struct ColumnView {
    pub order: Vec<usize>,
    pub hidden: Vec<bool>,
    pub shown: usize,
    pub start: usize,
    pub visible: Vec<usize>,
}

proof fn lemma_shown_last(order: Seq<usize>, hidden: Seq<bool>)
    requires
        order.len() > 0,
    ensures
        shown_columns(order, hidden) == if hidden[order.last() as int] {
            shown_columns(order.drop_last(), hidden)
        } else {
            shown_columns(order.drop_last(), hidden).push(order.last())
        },
{
    reveal(Seq::filter);
}

proof fn lemma_shown_none(hidden: Seq<bool>)
    ensures
        shown_columns(Seq::empty(), hidden) == Seq::<usize>::empty(),
{
    reveal(Seq::filter);
}

proof fn lemma_shown_same(order: Seq<usize>, hidden: Seq<bool>, other: Seq<bool>)
    requires
        forall|i: int| 0 <= i < order.len() ==> hidden[#[trigger] order[i] as int] == other[order[i] as int],
    ensures
        shown_columns(order, hidden) == shown_columns(order, other),
    decreases order.len(),
{
    if order.len() == 0 {
        assert(order =~= Seq::empty());
        lemma_shown_none(hidden);
        lemma_shown_none(other);
    } else {
        lemma_shown_last(order, hidden);
        lemma_shown_last(order, other);
        let rest = order.drop_last();
        assert forall|i: int| 0 <= i < rest.len() implies hidden[#[trigger] rest[i] as int]
            == other[rest[i] as int] by {
            assert(rest[i] == order[i]);
        }
        lemma_shown_same(rest, hidden, other);
        assert(order[order.len() - 1] == order.last());
    }
}

/// Hiding or showing one column of `order` changes the number shown by one.
proof fn lemma_shown_toggled(order: Seq<usize>, hidden: Seq<bool>, column: usize)
    requires
        order.no_duplicates(),
        order.contains(column),
        column < hidden.len(),
        forall|other: usize| #[trigger] order.contains(other) ==> other < hidden.len(),
    ensures
        shown_columns(order, hidden.update(column as int, false)).len() == shown_columns(
            order,
            hidden.update(column as int, true),
        ).len() + 1,
    decreases order.len(),
{
    let off = hidden.update(column as int, false);
    let on = hidden.update(column as int, true);
    lemma_shown_last(order, off);
    lemma_shown_last(order, on);
    let rest = order.drop_last();
    assert(order[order.len() - 1] == order.last());
    assert(order.contains(order.last()));
    if order.last() == column {
        assert forall|i: int| 0 <= i < rest.len() implies off[#[trigger] rest[i] as int] == on[rest[i] as int] by {
            assert(rest[i] == order[i]);
            assert(order.contains(order[i]));
        }
        lemma_shown_same(rest, off, on);
    } else {
        let i = choose|i: int| 0 <= i < order.len() && order[i] == column;
        assert(rest[i] == column);
        assert forall|other: usize| #[trigger] rest.contains(other) implies other < hidden.len() by {
            let k = choose|k: int| 0 <= k < rest.len() && rest[k] == other;
            assert(order[k] == other);
            assert(order.contains(other));
        }
        lemma_shown_toggled(rest, hidden, column);
    }
}

/// A column is shown exactly if it has a place and is not hidden, and it is shown once.
pub proof fn lemma_shown_columns(order: Seq<usize>, hidden: Seq<bool>)
    requires
        order.no_duplicates(),
    ensures
        shown_columns(order, hidden).no_duplicates(),
        forall|column: usize| #[trigger] shown_columns(order, hidden).contains(column) <==> order.contains(column)
            && !hidden[column as int],
        shown_columns(order, hidden).len() <= order.len(),
    decreases order.len(),
{
    let shown = shown_columns(order, hidden);
    if order.len() == 0 {
        assert(order =~= Seq::empty());
        lemma_shown_none(hidden);
    } else {
        lemma_shown_last(order, hidden);
        let rest = order.drop_last();
        lemma_shown_columns(rest, hidden);
        let before = shown_columns(rest, hidden);
        assert(order[order.len() - 1] == order.last());
        assert forall|column: usize| #[trigger] order.contains(column) <==> rest.contains(column) || column
            == order.last() by {
            if order.contains(column) {
                let i = choose|i: int| 0 <= i < order.len() && order[i] == column;
                if i < rest.len() {
                    assert(rest[i] == column);
                }
            }
            if rest.contains(column) {
                let i = choose|i: int| 0 <= i < rest.len() && rest[i] == column;
                assert(order[i] == column);
            }
        }
        assert(!rest.contains(order.last())) by {
            if rest.contains(order.last()) {
                let i = choose|i: int| 0 <= i < rest.len() && rest[i] == order.last();
                assert(order[i] == order[order.len() - 1]);
            }
        }
        if !hidden[order.last() as int] {
            assert(!before.contains(order.last()));
            assert forall|column: usize| #[trigger] shown.contains(column) <==> before.contains(column) || column
                == order.last() by {
                if before.contains(column) {
                    let i = choose|i: int| 0 <= i < before.len() && before[i] == column;
                    assert(shown[i] == column);
                }
                assert(shown[shown.len() - 1] == order.last());
                if shown.contains(column) {
                    let i = choose|i: int| 0 <= i < shown.len() && shown[i] == column;
                    if i < before.len() {
                        assert(before[i] == column);
                    }
                }
            }
            assert forall|i: int, j: int| 0 <= i < shown.len() && 0 <= j < shown.len() && i != j implies shown[i]
                != shown[j] by {
                if i < before.len() {
                    assert(before.contains(before[i]));
                }
                if j < before.len() {
                    assert(before.contains(before[j]));
                }
            }
        }
    }
}

proof fn lemma_file_order(total: nat)
    requires
        total <= usize::MAX,
    ensures
        arranges(file_order(total), total),
{
    let order = file_order(total);
    assert forall|column: usize| #[trigger] order.contains(column) <==> column < total by {
        if column < total {
            assert(order[column as int] == column);
        }
    }
}

/// Where nothing is hidden, every column is shown in its place.
proof fn lemma_all_shown(order: Seq<usize>, hidden: Seq<bool>)
    requires
        forall|i: int| 0 <= i < order.len() ==> !hidden[#[trigger] order[i] as int],
    ensures
        shown_columns(order, hidden) == order,
    decreases order.len(),
{
    if order.len() == 0 {
        assert(order =~= Seq::empty());
        lemma_shown_none(hidden);
    } else {
        lemma_shown_last(order, hidden);
        let rest = order.drop_last();
        assert forall|i: int| 0 <= i < rest.len() implies !hidden[#[trigger] rest[i] as int] by {
            assert(rest[i] == order[i]);
        }
        lemma_all_shown(rest, hidden);
        assert(order[order.len() - 1] == order.last());
        assert(rest.push(order.last()) =~= order);
    }
}

/// Moving an entry keeps which columns the order lists.
pub proof fn lemma_moved_arranges(order: Seq<usize>, position: int, target: int)
    requires
        arranges(order, order.len()),
        0 <= position < order.len(),
        0 <= target < order.len(),
    ensures
        arranges(moved(order, position, target), order.len()),
        moved(order, position, target)[target] == order[position],
{
    let result = moved(order, position, target);
    let without = order.remove(position);
    let back = |i: int|
        if i == target {
            position
        } else {
            let j = if i < target { i } else { i - 1 };
            if j < position { j } else { j + 1 }
        };
    assert forall|i: int| 0 <= i < result.len() implies result[i] == order[#[trigger] back(i)] && 0 <= back(i)
        < order.len() by {}
    assert forall|i: int, j: int| 0 <= i < result.len() && 0 <= j < result.len() && i != j implies result[i]
        != result[j] by {
        assert(back(i) != back(j));
    }
    assert forall|column: usize| #[trigger] result.contains(column) <==> order.contains(column) by {
        if result.contains(column) {
            let i = choose|i: int| 0 <= i < result.len() && result[i] == column;
            assert(order[back(i)] == column);
        }
        if order.contains(column) {
            let i = choose|i: int| 0 <= i < order.len() && order[i] == column;
            let j = if i < position { i } else { i - 1 };
            let k = if i == position {
                target
            } else if j < target {
                j
            } else {
                j + 1
            };
            assert(result[k] == column);
        }
    }
}

/// Moving an entry back from where it was put restores the order.
pub proof fn lemma_move_back(order: Seq<usize>, position: int, target: int)
    requires
        0 <= position < order.len(),
        0 <= target < order.len(),
    ensures
        moved(moved(order, position, target), target, position) == order,
{
    assert(moved(order, position, target).remove(target) =~= order.remove(position));
    assert(order.remove(position).insert(position, order[position]) =~= order);
}

impl ColumnView {
    /// The order lists every column once, and `visible` and `shown` go with what is hidden.
    pub open spec fn wf(self) -> bool {
        &&& arranges(self.order@, self.hidden@.len())
        &&& self.start == 0
        &&& self.visible@ == shown_columns(self.order@, self.hidden@)
        &&& self.shown == self.visible@.len()
    }

    /// All is in step but `visible`, which [`Self::refresh`] brings up to date.
    pub open spec fn ready(self) -> bool {
        &&& arranges(self.order@, self.hidden@.len())
        &&& self.shown == shown_columns(self.order@, self.hidden@).len()
    }

    /// All columns of a file, shown in file order.
    pub fn new(total_columns: usize) -> (columns: Self)
        ensures
            columns.wf(),
            columns.order@ == file_order(total_columns as nat),
            columns.visible@ == columns.order@,
            columns.hidden@ == Seq::new(total_columns as nat, |column: int| false),
    {
        let mut order: Vec<usize> = Vec::new();
        let mut hidden: Vec<bool> = Vec::new();
        for column in 0..total_columns
            invariant
                order@ == file_order(column as nat),
                hidden@ == Seq::new(column as nat, |column: int| false),
        {
            order.push(column);
            hidden.push(false);
        }
        proof {
            lemma_file_order(total_columns as nat);
            lemma_all_shown(order@, hidden@);
        }
        let mut columns = ColumnView { order, hidden, shown: total_columns, start: 0, visible: Vec::new() };
        columns.refresh();
        columns
    }

    pub fn shown_count(&self) -> (count: usize)
        ensures
            count == self.shown,
            self.wf() ==> count == shown_columns(self.order@, self.hidden@).len(),
    {
        self.shown
    }

    /// Adds the columns up to `total_columns`, shown, at the end.
    pub fn extend_to(&mut self, total_columns: usize)
        requires
            old(self).wf(),
        ensures
            final(self).wf(),
            total_columns <= old(self).hidden@.len() ==> *final(self) == *old(self),
            total_columns > old(self).hidden@.len() ==> {
                &&& final(self).hidden@ == old(self).hidden@ + Seq::new(
                    (total_columns - old(self).hidden@.len()) as nat,
                    |column: int| false,
                )
                &&& final(self).order@ == old(self).order@ + file_order(total_columns as nat).skip(
                    old(self).hidden@.len() as int,
                )
            },
    {
        let current: usize = self.hidden.len();
        if total_columns <= current {
            return ;
        }
        let ghost total = current as nat;
        let ghost added = file_order(total_columns as nat).skip(total as int);
        proof {
            lemma_shown_columns(self.order@, self.hidden@);
        }
        for column in current..total_columns
            invariant
                current <= column <= total_columns,
                total == current,
                self.hidden@ == old(self).hidden@ + Seq::new((column - current) as nat, |column: int| false),
                self.order@ == old(self).order@ + file_order(column as nat).skip(total as int),
                old(self).hidden@.len() == current,
                self.ready(),
                self.shown <= column,
        {
            let ghost before = *self;
            self.order.push(column);
            self.hidden.push(false);
            self.shown = self.shown + 1;
            proof {
                assert(self.order@ =~= old(self).order@ + file_order((column + 1) as nat).skip(total as int));
                assert(self.hidden@ =~= old(self).hidden@ + Seq::new(
                    (column + 1 - current) as nat,
                    |column: int| false,
                ));
                lemma_shown_last(self.order@, self.hidden@);
                assert(self.order@.drop_last() =~= before.order@);
                assert forall|i: int| 0 <= i < before.order@.len() implies self.hidden@[#[trigger] before.order@[i] as int]
                    == before.hidden@[before.order@[i] as int] by {
                    assert(before.order@.contains(before.order@[i]));
                }
                lemma_shown_same(before.order@, self.hidden@, before.hidden@);
                assert forall|other: usize| #[trigger] self.order@.contains(other) <==> other < self.hidden@.len() by {
                    if before.order@.contains(other) {
                        let i = choose|i: int| 0 <= i < before.order@.len() && before.order@[i] == other;
                        assert(self.order@[i] == other);
                    }
                    assert(self.order@[column as int] == column);
                    if self.order@.contains(other) && other != column {
                        let i = choose|i: int| 0 <= i < self.order@.len() && self.order@[i] == other;
                        assert(before.order@[i] == other);
                    }
                }
                assert forall|i: int, j: int|
                    0 <= i < self.order@.len() && 0 <= j < self.order@.len() && i != j implies self.order@[i]
                    != self.order@[j] by {
                    if i < current as int + (column - current) {
                        assert(before.order@.contains(before.order@[i]));
                    }
                    if j < current as int + (column - current) {
                        assert(before.order@.contains(before.order@[j]));
                    }
                }
            }
        }
        self.refresh();
    }

    /// Shows `column`. False where the file has no such column.
    pub fn view(&mut self, column: usize) -> (known: bool)
        requires
            old(self).wf(),
        ensures
            final(self).wf(),
            known == (column < old(self).hidden@.len()),
            !known ==> *final(self) == *old(self),
            known ==> final(self).order@ == old(self).order@ && final(self).hidden@ == old(self).hidden@.update(
                column as int,
                false,
            ),
    {
        self.set_shown(column, true)
    }

    /// Shows or hides `column`. False where the file has no such column.
    pub fn set_shown(&mut self, column: usize, shown: bool) -> (known: bool)
        requires
            old(self).wf(),
        ensures
            final(self).wf(),
            known == (column < old(self).hidden@.len()),
            !known ==> *final(self) == *old(self),
            known ==> final(self).order@ == old(self).order@ && final(self).hidden@ == old(self).hidden@.update(
                column as int,
                !shown,
            ),
    {
        if column >= self.hidden.len() {
            return false;
        }
        proof {
            assert(self.order@.contains(column));
            lemma_shown_toggled(self.order@, self.hidden@, column);
            lemma_shown_columns(self.order@, self.hidden@.update(column as int, false));
            assert(self.hidden@.update(column as int, self.hidden@[column as int]) =~= self.hidden@);
        }
        let was_shown = !self.hidden[column];
        if was_shown != shown {
            if shown {
                self.shown = self.shown + 1;
            } else {
                self.shown = self.shown - 1;
            }
        }
        self.hidden.set(column, !shown);
        self.refresh();
        true
    }

    /// Moves `column` to the place `target`. False where there is no such column or place.
    pub fn move_column(&mut self, column: usize, target: usize) -> (done: bool)
        requires
            old(self).wf(),
        ensures
            final(self).wf(),
            final(self).hidden@ == old(self).hidden@,
            done == (column < old(self).hidden@.len() && target < old(self).hidden@.len()),
            !done ==> *final(self) == *old(self),
            done ==> final(self).order@ == moved(
                old(self).order@,
                old(self).order@.index_of(column),
                target as int,
            ),
    {
        let position: usize = match position_of(&self.order, column) {
            Some(position) => position,
            None => {
                return false;
            },
        };
        proof {
            assert(self.order@.contains(column));
        }
        if target >= self.order.len() {
            return false;
        }
        let ghost before = *self;
        proof {
            lemma_moved_arranges(before.order@, position as int, target as int);
            lemma_moved_shown(before.order@, before.hidden@, position as int, target as int);
        }
        if position != target {
            let column: usize = self.order.remove(position);
            self.order.insert(target, column);
        }
        proof {
            assert(self.order@ =~= moved(before.order@, position as int, target as int));
        }
        self.refresh();
        true
    }

    /// Shows every column in file order.
    pub fn reset(&mut self)
        requires
            old(self).wf(),
        ensures
            final(self).wf(),
            final(self).order@ == file_order(old(self).order@.len()),
            final(self).visible@ == final(self).order@,
            final(self).hidden@ == Seq::new(old(self).hidden@.len(), |column: int| false),
    {
        let total_columns: usize = self.hidden.len();
        *self = ColumnView::new(total_columns);
    }

    /// Brings `visible` in step with the order and what is hidden.
    pub fn refresh(&mut self)
        requires
            forall|column: usize| #[trigger] old(self).order@.contains(column) ==> column < old(self).hidden@.len(),
        ensures
            final(self).order@ == old(self).order@,
            final(self).hidden@ == old(self).hidden@,
            final(self).shown == old(self).shown,
            final(self).start == 0,
            final(self).visible@ == shown_columns(old(self).order@, old(self).hidden@),
            old(self).ready() ==> final(self).wf(),
    {
        self.start = 0;
        let mut visible: Vec<usize> = Vec::new();
        proof {
            lemma_shown_none(self.hidden@);
            assert(self.order@.take(0) =~= Seq::empty());
        }
        for place in 0..self.order.len()
            invariant
                visible@ == shown_columns(self.order@.take(place as int), self.hidden@),
                forall|column: usize| #[trigger] self.order@.contains(column) ==> column < self.hidden@.len(),
        {
            let column: usize = self.order[place];
            proof {
                let next = self.order@.take(place + 1);
                lemma_shown_last(next, self.hidden@);
                assert(next.drop_last() =~= self.order@.take(place as int));
                assert(self.order@.contains(self.order@[place as int]));
            }
            if !self.hidden[column] {
                visible.push(column);
            }
        }
        proof {
            assert(self.order@.take(self.order@.len() as int) =~= self.order@);
        }
        self.visible = visible;
    }
}

impl Clone for ColumnView {
    fn clone(&self) -> (copy: Self)
        ensures
            copy.order@ == self.order@,
            copy.hidden@ == self.hidden@,
            copy.shown == self.shown,
            copy.start == self.start,
            copy.visible@ == self.visible@,
    {
        let copy = ColumnView {
            order: self.order.clone(),
            hidden: self.hidden.clone(),
            shown: self.shown,
            start: self.start,
            visible: self.visible.clone(),
        };
        proof {
            assert(copy.order@ =~= self.order@);
            assert(copy.hidden@ =~= self.hidden@);
            assert(copy.visible@ =~= self.visible@);
        }
        copy
    }
}

/// Moving an entry keeps how many columns are shown.
proof fn lemma_moved_shown(order: Seq<usize>, hidden: Seq<bool>, position: int, target: int)
    requires
        arranges(order, order.len()),
        0 <= position < order.len(),
        0 <= target < order.len(),
    ensures
        shown_columns(moved(order, position, target), hidden).len() == shown_columns(order, hidden).len(),
{
    let result = moved(order, position, target);
    lemma_moved_arranges(order, position, target);
    lemma_shown_columns(order, hidden);
    lemma_shown_columns(result, hidden);
    let before = shown_columns(order, hidden);
    let after = shown_columns(result, hidden);
    assert(before.to_set() =~= after.to_set()) by {
        assert forall|column: usize| before.to_set().contains(column) == after.to_set().contains(column) by {
            assert(before.contains(column) == (order.contains(column) && !hidden[column as int]));
            assert(after.contains(column) == (result.contains(column) && !hidden[column as int]));
            assert(order.contains(column) == result.contains(column));
        }
    }
    before.unique_seq_to_set();
    after.unique_seq_to_set();
}

/// The first place of `wanted` in `listing`.
pub(crate) fn position_of(listing: &Vec<usize>, wanted: usize) -> (position: Option<usize>)
    ensures
        match position {
            Some(i) => {
                &&& i < listing@.len()
                &&& listing@[i as int] == wanted
                &&& forall|j: int| 0 <= j < i ==> #[trigger] listing@[j] != wanted
                &&& listing@.no_duplicates() ==> listing@.index_of(wanted) == i
            },
            None => !listing@.contains(wanted),
        },
{
    for i in 0..listing.len()
        invariant
            forall|j: int| 0 <= j < i ==> listing@[j] != wanted,
    {
        if listing[i] == wanted {
            proof {
                if listing@.no_duplicates() {
                    let named = listing@.index_of(wanted);
                    assert(listing@[i as int] == wanted);
                    assert(0 <= named < listing@.len() && listing@[named] == wanted);
                }
            }
            return Some(i);
        }
    }
    None
}

/// The place that a column dropped before `insertion` ends up in.
pub fn column_drop_position(source_position: usize, insertion: usize, total_columns: usize) -> (target: usize)
    ensures
        ({
            let after_removal = if source_position < insertion { insertion - 1 } else { insertion as int };
            let last = if total_columns == 0 { 0 } else { total_columns - 1 };
            target == if after_removal <= last { after_removal } else { last }
        }),
{
    let after_removal: usize = if source_position < insertion { insertion - 1 } else { insertion };
    let last: usize = total_columns.saturating_sub(1);
    if after_removal <= last { after_removal } else { last }
}

/// The column to split: the one that is selected, where exactly one is.
pub fn selected_split_column(selected_columns: &BTreeSet<usize>) -> (column: Option<usize>)
    ensures
        match column {
            Some(only) => selected_columns@ == set![only],
            None => forall|only: usize| selected_columns@ != set![only],
        },
{
    let members = sets::listing(selected_columns);
    proof {
        sets::lemma_listing(members@, selected_columns@);
        if members@.len() == 1 {
            assert(selected_columns@ =~= set![members@[0]]) by {
                assert forall|member: usize| selected_columns@.contains(member) <==> member == members@[0] by {
                    assert(members@.contains(members@[0]));
                }
            }
        } else {
            assert forall|only: usize| selected_columns@ != set![only] by {
                assert(set![only].len() == 1);
            }
        }
    }
    if members.len() == 1 {
        Some(members[0])
    } else {
        None
    }
}

pub open spec fn no_column_chosen() -> Seq<char> {
    "Select at least one numbered column first."@
}

pub open spec fn column_outside() -> Seq<char> {
    "A selected column is outside this file."@
}

pub open spec fn column_repeated() -> Seq<char> {
    "Select each column only once."@
}

/// The columns as a set, where each is in the file and none is listed twice.
pub fn validated_column_selection(columns: Vec<usize>, total_columns: usize) -> (result: Result<
    BTreeSet<usize>,
    String,
>)
    ensures
        match result {
            Ok(selected) => {
                &&& columns@.len() > 0
                &&& forall|i: int| 0 <= i < columns@.len() ==> columns@[i] < total_columns
                &&& columns@.no_duplicates()
                &&& selected@ == columns@.to_set()
            },
            Err(message) => if columns@.len() == 0 {
                message@ == no_column_chosen()
            } else if exists|i: int| 0 <= i < columns@.len() && columns@[i] >= total_columns {
                message@ == column_outside()
            } else {
                !columns@.no_duplicates() && message@ == column_repeated()
            },
        },
{
    broadcast use crate::sets::group_ordered_keys;

    if columns.len() == 0 {
        return Err("Select at least one numbered column first.".to_owned());
    }
    for column in iter: columns.iter()
        invariant
            iter.seq().unref() == columns@,
            forall|j: int| 0 <= j < iter.index() ==> columns@[j] < total_columns,
    {
        if *column >= total_columns {
            proof {
                assert(columns@[iter.index()] == *column);
            }
            return Err("A selected column is outside this file.".to_owned());
        }
    }
    let mut selected: BTreeSet<usize> = BTreeSet::new();
    proof {
        assert(columns@.take(0).to_set() =~= Set::<usize>::empty());
    }
    for column in iter: columns.iter()
        invariant
            iter.seq().unref() == columns@,
            forall|j: int| 0 <= j < columns@.len() ==> columns@[j] < total_columns,
            columns@.len() > 0,
            selected@ == columns@.take(iter.index()).to_set(),
            columns@.take(iter.index()).no_duplicates(),
    {
        let ghost before = columns@.take(iter.index());
        let ghost after = columns@.take(iter.index() + 1);
        proof {
            assert(after =~= before.push(*column));
            lemma_pushed_set(before, *column);
        }
        if !selected.insert(*column) {
            proof {
                let i = choose|i: int| 0 <= i < before.len() && before[i] == *column;
                assert(columns@[i] == columns@[iter.index()]);
            }
            return Err("Select each column only once.".to_owned());
        }
        proof {
            assert(!before.contains(*column));
        }
    }
    proof {
        assert(columns@.take(columns@.len() as int) =~= columns@);
    }
    Ok(selected)
}

/// The first of the `shown` columns that is selected.
pub open spec fn first_selected(shown: Seq<usize>, selected: Set<usize>) -> Option<usize>
    decreases shown.len(),
{
    if shown.len() == 0 {
        None
    } else if selected.contains(shown[0]) {
        Some(shown[0])
    } else {
        first_selected(shown.skip(1), selected)
    }
}

/// The columns at the places of `shown` from one end to the other, both included.
pub open spec fn columns_between(shown: Seq<usize>, one: int, other: int) -> Set<usize> {
    let first = if one <= other { one } else { other };
    let last = if one <= other { other } else { one };
    shown.subrange(first, last + 1).to_set()
}

/// The column from which a range selection that ends at `column` extends.
pub open spec fn range_anchor(shown: Seq<usize>, selected: Set<usize>, anchor: Option<usize>, column: usize) -> usize {
    match anchor {
        Some(kept) if shown.contains(kept) => kept,
        _ => match first_selected(shown, selected) {
            Some(first) => first,
            None => column,
        },
    }
}

/// The selected columns and the anchor after a click on the number of `column`.
pub open spec fn after_click(
    shown: Seq<usize>,
    selected: Set<usize>,
    anchor: Option<usize>,
    column: usize,
    modifiers: Modifiers,
) -> (Set<usize>, Option<usize>) {
    if modifiers.shift {
        let from = range_anchor(shown, selected, anchor, column);
        if shown.contains(from) && shown.contains(column) {
            (columns_between(shown, shown.index_of(from), shown.index_of(column)), Some(from))
        } else {
            (set![column], Some(column))
        }
    } else if modifiers.command {
        if selected.contains(column) {
            let rest = selected.remove(column);
            (rest, if anchor == Some(column) { sets::least(rest) } else { anchor })
        } else {
            (selected.insert(column), Some(column))
        }
    } else {
        (set![column], Some(column))
    }
}

/// The first entry of `listing` that is a member of `set`.
pub(crate) fn first_member(listing: &Vec<usize>, set: &BTreeSet<usize>) -> (found: Option<usize>)
    ensures
        found == first_selected(listing@, set@),
{
    broadcast use crate::sets::group_ordered_keys;

    proof {
        assert(listing@.skip(0) =~= listing@);
    }
    for i in 0..listing.len()
        invariant
            first_selected(listing@, set@) == first_selected(listing@.skip(i as int), set@),
    {
        proof {
            assert(listing@.skip(i as int)[0] == listing@[i as int]);
            assert(listing@.skip(i as int).skip(1) =~= listing@.skip(i + 1));
        }
        if set.contains(&listing[i]) {
            return Some(listing[i]);
        }
    }
    None
}

/// Applies a click on the number of `column` to the selected columns.
pub fn select_column(
    columns: &ColumnView,
    selected_columns: &mut BTreeSet<usize>,
    anchor: &mut Option<usize>,
    column: usize,
    modifiers: Modifiers,
)
    requires
        columns.wf(),
    ensures
        (final(selected_columns)@, *final(anchor)) == after_click(
            shown_columns(columns.order@, columns.hidden@),
            old(selected_columns)@,
            *old(anchor),
            column,
            modifiers,
        ),
{
    broadcast use crate::sets::group_ordered_keys;

    let ghost shown = shown_columns(columns.order@, columns.hidden@);
    proof {
        lemma_shown_columns(columns.order@, columns.hidden@);
    }
    if modifiers.shift {
        let kept: Option<usize> = match *anchor {
            Some(kept) => position_of(&columns.visible, kept),
            None => None,
        };
        let from: usize = match (kept, *anchor) {
            (Some(_), Some(kept)) => kept,
            _ => match first_member(&columns.visible, selected_columns) {
                Some(first) => first,
                None => column,
            },
        };
        assert(from == range_anchor(shown, old(selected_columns)@, *old(anchor), column));
        selected_columns.clear();
        let from_position = position_of(&columns.visible, from);
        let column_position = position_of(&columns.visible, column);
        match (from_position, column_position) {
            (Some(one), Some(other)) => {
                let first: usize = if one <= other { one } else { other };
                let last: usize = if one <= other { other } else { one };
                assert(shown.contains(from) && shown.contains(column));
                proof {
                    assert(shown.subrange(first as int, first as int).to_set() =~= Set::<usize>::empty());
                }
                for place in first..last + 1
                    invariant
                        first <= last < columns.visible@.len(),
                        columns.visible@ == shown,
                        first <= place <= last + 1,
                        selected_columns@ == shown.subrange(first as int, place as int).to_set(),
                {
                    selected_columns.insert(columns.visible[place]);
                    proof {
                        let before = shown.subrange(first as int, place as int);
                        let after = shown.subrange(first as int, place + 1);
                        assert(after =~= before.push(shown[place as int]));
                        lemma_pushed_set(before, shown[place as int]);
                    }
                }
                *anchor = Some(from);
            },
            _ => {
                selected_columns.insert(column);
                *anchor = Some(column);
                assert(selected_columns@ =~= set![column]);
            },
        }
    } else if modifiers.command {
        if selected_columns.remove(&column) {
            if *anchor == Some(column) {
                let members = sets::listing(selected_columns);
                proof {
                    sets::lemma_listing(members@, selected_columns@);
                }
                *anchor = if members.len() == 0 { None } else { Some(members[0]) };
            }
        } else {
            selected_columns.insert(column);
            *anchor = Some(column);
        }
    } else {
        selected_columns.clear();
        selected_columns.insert(column);
        *anchor = Some(column);
        assert(selected_columns@ =~= set![column]);
    }
}

/// Appending an entry adds it to the set of entries.
pub proof fn lemma_pushed_set(before: Seq<usize>, entry: usize)
    ensures
        before.push(entry).to_set() == before.to_set().insert(entry),
{
    let after = before.push(entry);
    assert forall|member: usize| after.to_set().contains(member) <==> before.to_set().insert(entry).contains(member) by {
        if before.contains(member) {
            let i = choose|i: int| 0 <= i < before.len() && before[i] == member;
            assert(after[i] == member);
        }
        assert(after[after.len() - 1] == entry);
        if after.contains(member) {
            let i = choose|i: int| 0 <= i < after.len() && after[i] == member;
            if i < before.len() {
                assert(before[i] == member);
            }
        }
    }
    assert(after.to_set() =~= before.to_set().insert(entry));
}

/// A click selects the clicked column, unless it is a command click on a selected one; and the
/// anchor that a click leaves is a selected column, if the anchor before was one.
pub proof fn lemma_click_selects(
    shown: Seq<usize>,
    selected: Set<usize>,
    anchor: Option<usize>,
    column: usize,
    modifiers: Modifiers,
)
    requires
        shown.no_duplicates(),
        selected.finite(),
        anchor is Some ==> selected.contains(anchor->0),
    ensures
        after_click(shown, selected, anchor, column, modifiers).0.contains(column) <==> (modifiers.shift
            || !modifiers.command || !selected.contains(column)),
        after_click(shown, selected, anchor, column, modifiers).1 matches Some(left) ==> after_click(
            shown,
            selected,
            anchor,
            column,
            modifiers,
        ).0.contains(left),
{
    if modifiers.shift {
        let from = range_anchor(shown, selected, anchor, column);
        if shown.contains(from) && shown.contains(column) {
            let one = shown.index_of(from);
            let other = shown.index_of(column);
            let first = if one <= other { one } else { other };
            let last = if one <= other { other } else { one };
            let range = shown.subrange(first, last + 1);
            assert(range[one - first] == from);
            assert(range[other - first] == column);
        }
    } else if modifiers.command && selected.contains(column) {
        let rest = selected.remove(column);
        if !rest.is_empty() {
            lemma_least_exists(rest);
        }
    }
}

/// A finite set that holds anything has a smallest member.
proof fn lemma_least_exists(set: Set<usize>)
    requires
        set.finite(),
        !set.is_empty(),
    ensures
        exists|member: usize| sets::is_least(set, member),
    decreases set.len(),
{
    let some = set.choose();
    let rest = set.remove(some);
    if rest.is_empty() {
        assert forall|other: usize| set.contains(other) implies some <= other by {
            assert(other != some ==> rest.contains(other));
        }
        assert(sets::is_least(set, some));
    } else {
        lemma_least_exists(rest);
        let least = choose|member: usize| sets::is_least(rest, member);
        let smaller = if some <= least { some } else { least };
        assert forall|other: usize| set.contains(other) implies smaller <= other by {
            assert(other != some ==> rest.contains(other));
        }
        assert(sets::is_least(set, smaller));
    }
}

/// Two command clicks on one column leave the selected columns as they were.
pub proof fn lemma_command_click_twice(shown: Seq<usize>, selected: Set<usize>, anchor: Option<usize>, column: usize)
    ensures
        ({
            let command = Modifiers { shift: false, command: true };
            let once = after_click(shown, selected, anchor, column, command);
            after_click(shown, once.0, once.1, column, command).0 == selected
        }),
{
    let command = Modifiers { shift: false, command: true };
    let once = after_click(shown, selected, anchor, column, command);
    let twice = after_click(shown, once.0, once.1, column, command);
    assert(twice.0 =~= selected);
}

} // verus!
