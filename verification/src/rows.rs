//! Row and cell selection in the grid.

use std::ops::RangeInclusive;
use vstd::prelude::*;

verus! {

/// `RangeInclusive::start`: the lower bound of a range that no iteration has used up.
pub assume_specification<Idx>[ RangeInclusive::<Idx>::start ](range: &RangeInclusive<Idx>) -> (start: &Idx)
    ensures
        !range@.exhausted ==> *start == range@.start,
;

/// `RangeInclusive::end`: the upper bound of a range that no iteration has used up.
pub assume_specification<Idx>[ RangeInclusive::<Idx>::end ](range: &RangeInclusive<Idx>) -> (end: &Idx)
    ensures
        !range@.exhausted ==> *end == range@.end,
;

/// The modifier keys that change what a click selects.
#[derive(Clone, Copy, Debug, PartialEq, Eq, Structural)]
pub struct Modifiers {
    pub shift: bool,
    pub command: bool,
}

/// The active cell or row of the grid.
#[derive(Clone, Copy, Debug, PartialEq, Eq, Structural)]
pub enum GridSelection {
    Cell { row: u64, column: usize },
    Row { row: u64 },
}

impl GridSelection {
    /// The source row that the selection lies in.
    pub open spec fn row_of(self) -> u64 {
        match self {
            GridSelection::Cell { row, .. } => row,
            GridSelection::Row { row } => row,
        }
    }

    pub fn row(self) -> (row: u64)
        ensures
            row == self.row_of(),
    {
        match self {
            GridSelection::Cell { row, .. } => row,
            GridSelection::Row { row } => row,
        }
    }

    /// Whether the whole of `row` is selected.
    pub fn selects_row(self, row: u64) -> (selected: bool)
        ensures
            selected == (self == GridSelection::Row { row }),
    {
        match self {
            GridSelection::Row { row: selected } => selected == row,
            GridSelection::Cell { .. } => false,
        }
    }

    /// Whether the cell is selected, on its own or with its row.
    pub fn selects_cell(self, row: u64, column: usize) -> (selected: bool)
        ensures
            selected == (self == GridSelection::Row { row } || self == GridSelection::Cell { row, column }),
    {
        match self {
            GridSelection::Row { row: selected } => selected == row,
            GridSelection::Cell { row: selected_row, column: selected_column } => selected_row == row
                && selected_column == column,
        }
    }
}

/// The numbered rows that are selected, as compact ranges, and the row from which a range
/// selection extends.
#[derive(Debug, PartialEq, Eq)]
pub struct RowSelection {
    pub ranges: Vec<RangeInclusive<u64>>,
    pub anchor: Option<u64>,
}

/// What a [`RowSelection`] stands for: a set of rows and an anchor.
#[verifier::ext_equal]
pub struct RowSelectionView {
    pub rows: Set<u64>,
    pub anchor: Option<u64>,
}

/// Whether `row` lies in the inclusive `range`.
pub open spec fn in_range(range: RangeInclusive<u64>, row: u64) -> bool {
    range@.start <= row <= range@.end
}

/// The rows of a list of ranges.
pub open spec fn rows_of(ranges: Seq<RangeInclusive<u64>>) -> Set<u64> {
    Set::new(|row: u64| exists|i: int| 0 <= i < ranges.len() && #[trigger] in_range(ranges[i], row))
}

/// The rows between `first` and `last`, both included.
pub open spec fn rows_between(first: u64, last: u64) -> Set<u64> {
    Set::new(|row: u64| first <= row <= last)
}

/// Ranges in ascending order, none empty, none used up, with a gap of at least one row
/// between neighbours.
pub open spec fn compact(ranges: Seq<RangeInclusive<u64>>) -> bool {
    &&& forall|i: int|
        0 <= i < ranges.len() ==> !(#[trigger] ranges[i])@.exhausted && ranges[i]@.start
            <= ranges[i]@.end
    &&& forall|i: int, j: int|
        0 <= i < j < ranges.len() ==> (#[trigger] ranges[i])@.end + 1 < (#[trigger] ranges[j])@.start
}

/// The bounds of each range.
pub open spec fn bounds(ranges: Seq<RangeInclusive<u64>>) -> Seq<(u64, u64)> {
    ranges.map_values(|range: RangeInclusive<u64>| (range@.start, range@.end))
}

/// The bounds that remain when each range that touches or overlaps the one before it is joined
/// to it.
pub open spec fn merged(bounds: Seq<(u64, u64)>) -> Seq<(u64, u64)>
    decreases bounds.len(),
{
    if bounds.len() == 0 {
        Seq::empty()
    } else {
        let before = merged(bounds.drop_last());
        let (start, end) = bounds.last();
        if before.len() > 0 && start <= before.last().1 + 1 {
            before.drop_last().push(
                (before.last().0, if before.last().1 >= end { before.last().1 } else { end }),
            )
        } else {
            before.push((start, end))
        }
    }
}

/// Ranges in ascending order of their starts, none empty and none used up.
pub open spec fn ascending(ranges: Seq<RangeInclusive<u64>>) -> bool {
    &&& forall|i: int|
        0 <= i < ranges.len() ==> !(#[trigger] ranges[i])@.exhausted && ranges[i]@.start
            <= ranges[i]@.end
    &&& forall|i: int, j: int|
        0 <= i < j < ranges.len() ==> (#[trigger] ranges[i])@.start <= (#[trigger] ranges[j])@.start
}

/// `row` is the smallest member of `rows`.
pub open spec fn is_first(rows: Set<u64>, row: u64) -> bool {
    rows.contains(row) && forall|other: u64| rows.contains(other) ==> row <= other
}

/// The smallest member of `rows`, where there is one.
pub open spec fn first_row(rows: Set<u64>) -> Option<u64> {
    if rows.is_empty() {
        None
    } else {
        Some(choose|row: u64| is_first(rows, row))
    }
}

/// The set with `row` put in if it was out, and taken out if it was in.
pub open spec fn flipped(rows: Set<u64>, row: u64) -> Set<u64> {
    if rows.contains(row) {
        rows.remove(row)
    } else {
        rows.insert(row)
    }
}

/// What a click on `row` leaves selected. Shift extends from the anchor (else from the first
/// selected row, else from the row itself), Command adds or removes the row, and a plain click
/// selects the row alone.
pub open spec fn selected_by(before: RowSelectionView, row: u64, modifiers: Modifiers) -> RowSelectionView {
    if modifiers.shift {
        let anchor = match before.anchor {
            Some(anchor) => anchor,
            None => match first_row(before.rows) {
                Some(first) => first,
                None => row,
            },
        };
        RowSelectionView {
            rows: if anchor <= row {
                rows_between(anchor, row)
            } else {
                rows_between(row, anchor)
            },
            anchor: Some(anchor),
        }
    } else if modifiers.command {
        toggled(before, row)
    } else {
        RowSelectionView { rows: Set::empty().insert(row), anchor: Some(row) }
    }
}

/// What adding or removing `row` leaves selected: an added row becomes the anchor, and an anchor
/// that leaves hands over to the first row that stays.
pub open spec fn toggled(before: RowSelectionView, row: u64) -> RowSelectionView {
    let rows = flipped(before.rows, row);
    RowSelectionView {
        rows,
        anchor: if !before.rows.contains(row) {
            Some(row)
        } else if before.anchor == Some(row) {
            first_row(rows)
        } else {
            before.anchor
        },
    }
}

/// The number of rows in a list of ranges, counted range by range.
pub open spec fn total_rows(ranges: Seq<RangeInclusive<u64>>) -> nat
    decreases ranges.len(),
{
    if ranges.len() == 0 {
        0
    } else {
        total_rows(ranges.drop_last()) + (ranges.last()@.end - ranges.last()@.start + 1) as nat
    }
}

impl View for RowSelection {
    type V = RowSelectionView;

    open spec fn view(&self) -> RowSelectionView {
        RowSelectionView { rows: rows_of(self.ranges@), anchor: self.anchor }
    }
}

/// The smallest member is unique, so it is the one that `first_row` names.
proof fn lemma_first_row(rows: Set<u64>, row: u64)
    requires
        is_first(rows, row),
    ensures
        first_row(rows) == Some(row),
{
    let named = choose|other: u64| is_first(rows, other);
    assert(is_first(rows, named));
    assert(!rows.is_empty()) by {
        assert(rows.contains(row));
    }
}

/// The first range of a compact list starts at the smallest row.
proof fn lemma_first_range(ranges: Seq<RangeInclusive<u64>>)
    requires
        compact(ranges),
    ensures
        ranges.len() == 0 ==> rows_of(ranges) == Set::<u64>::empty() && first_row(rows_of(ranges)) == None::<u64>,
        ranges.len() > 0 ==> first_row(rows_of(ranges)) == Some(ranges[0]@.start),
{
    let rows = rows_of(ranges);
    if ranges.len() == 0 {
        assert(rows =~= Set::<u64>::empty());
    } else {
        let start = ranges[0]@.start;
        assert(in_range(ranges[0], start));
        assert forall|other: u64| rows.contains(other) implies start <= other by {
            let i = choose|i: int| 0 <= i < ranges.len() && #[trigger] in_range(ranges[i], other);
            if i > 0 {
                assert(ranges[0]@.end + 1 < ranges[i]@.start);
            }
        }
        lemma_first_row(rows, start);
    }
}

/// A range holds as many rows as its bounds say.
proof fn lemma_between_len(first: u64, last: u64)
    requires
        first <= last,
    ensures
        rows_between(first, last).finite(),
        rows_between(first, last).len() == last - first + 1,
    decreases last - first,
{
    if first == last {
        assert(rows_between(first, last) =~= Set::<u64>::empty().insert(first));
    } else {
        let shorter = (last - 1) as u64;
        lemma_between_len(first, shorter);
        assert(rows_between(first, last) =~= rows_between(first, shorter).insert(last));
    }
}

/// Compact ranges never share a row, so counting range by range counts every row once.
pub proof fn lemma_count_is_cardinality(ranges: Seq<RangeInclusive<u64>>)
    requires
        compact(ranges),
    ensures
        rows_of(ranges).finite(),
        rows_of(ranges).len() == total_rows(ranges),
    decreases ranges.len(),
{
    if ranges.len() == 0 {
        assert(rows_of(ranges) =~= Set::<u64>::empty());
    } else {
        let before = ranges.drop_last();
        let last = ranges.last();
        lemma_count_is_cardinality(before);
        lemma_between_len(last@.start, last@.end);
        let tail = rows_between(last@.start, last@.end);
        assert forall|row: u64| rows_of(ranges).contains(row) == (rows_of(before).contains(row)
            || tail.contains(row)) by {
            if rows_of(ranges).contains(row) {
                let i = choose|i: int| 0 <= i < ranges.len() && #[trigger] in_range(ranges[i], row);
                if i < before.len() {
                    assert(in_range(before[i], row));
                }
            }
            if rows_of(before).contains(row) {
                let i = choose|i: int| 0 <= i < before.len() && #[trigger] in_range(before[i], row);
                assert(in_range(ranges[i], row));
            }
            if tail.contains(row) {
                assert(in_range(ranges[ranges.len() - 1], row));
            }
        }
        assert(rows_of(ranges) =~= rows_of(before).union(tail));
        assert(rows_of(before).disjoint(tail)) by {
            assert forall|row: u64| rows_of(before).contains(row) implies !tail.contains(row) by {
                let i = choose|i: int| 0 <= i < before.len() && #[trigger] in_range(before[i], row);
                assert(ranges[i]@.end + 1 < ranges[ranges.len() - 1]@.start);
            }
        }
        vstd::set_lib::lemma_set_disjoint_lens(rows_of(before), tail);
    }
}

/// Taking a row out of the range that holds it takes it out of the selection, and nothing else.
proof fn lemma_without(before: Seq<RangeInclusive<u64>>, after: Seq<RangeInclusive<u64>>, index: int, row: u64)
    requires
        compact(before),
        0 <= index < before.len(),
        in_range(before[index], row),
        ({
            let start = before[index]@.start;
            let end = before[index]@.end;
            if row == start && row == end {
                after == before.remove(index)
            } else if row == start {
                exists|cut: RangeInclusive<u64>|
                    after == #[trigger] before.update(index, cut) && cut@.start == row + 1 && cut@.end == end
                        && !cut@.exhausted
            } else if row == end {
                exists|cut: RangeInclusive<u64>|
                    after == #[trigger] before.update(index, cut) && cut@.start == start && cut@.end == row - 1
                        && !cut@.exhausted
            } else {
                exists|low: RangeInclusive<u64>, high: RangeInclusive<u64>|
                    after == #[trigger] before.update(index, low).insert(index + 1, high) && low@.start == start
                        && low@.end == row - 1 && !low@.exhausted && high@.start == row + 1 && high@.end == end
                        && !high@.exhausted
            }
        }),
    ensures
        compact(after),
        rows_of(after) == rows_of(before).remove(row),
{
    let start = before[index]@.start;
    let end = before[index]@.end;
    let shift: int = after.len() - before.len();
    assert(forall|i: int| 0 <= i < index ==> after[i] == before[i]);
    assert(forall|i: int| index < i < before.len() ==> after[i + shift] == #[trigger] before[i]);
    assert(forall|i: int| index + shift < i < after.len() ==> #[trigger] after[i] == before[i - shift]);
    assert(compact(after));
    assert forall|other: u64| rows_of(after).contains(other) == rows_of(before).remove(row).contains(other) by {
        if rows_of(after).contains(other) {
            let i = choose|i: int| 0 <= i < after.len() && #[trigger] in_range(after[i], other);
            if i < index {
                assert(in_range(before[i], other));
                assert(before[i]@.end + 1 < before[index]@.start);
            } else if i > index + shift {
                assert(in_range(before[i - shift], other));
                assert(before[index]@.end + 1 < before[i - shift]@.start);
            } else {
                assert(in_range(before[index], other));
            }
        }
        if rows_of(before).remove(row).contains(other) {
            let i = choose|i: int| 0 <= i < before.len() && #[trigger] in_range(before[i], other);
            if i < index {
                assert(in_range(after[i], other));
            } else if i > index {
                assert(in_range(after[i + shift], other));
            } else if other < row {
                assert(in_range(after[index], other));
            } else if row == start {
                assert(in_range(after[index], other));
            } else {
                assert(in_range(after[index + 1], other));
            }
        }
    }
    assert(rows_of(after) =~= rows_of(before).remove(row));
}

/// Putting in a range of the one new row, where the order wants it, adds that row.
proof fn lemma_with(before: Seq<RangeInclusive<u64>>, after: Seq<RangeInclusive<u64>>, index: int, row: u64)
    requires
        compact(before),
        0 <= index <= before.len(),
        !rows_of(before).contains(row),
        forall|i: int| 0 <= i < index ==> (#[trigger] before[i])@.end < row,
        forall|i: int| index <= i < before.len() ==> (#[trigger] before[i])@.end >= row,
        exists|added: RangeInclusive<u64>|
            after == #[trigger] before.insert(index, added) && added@.start == row && added@.end == row
                && !added@.exhausted,
    ensures
        ascending(after),
        rows_of(after) == rows_of(before).insert(row),
{
    assert(forall|i: int| 0 <= i < index ==> #[trigger] after[i] == before[i]);
    assert(forall|i: int| index < i < after.len() ==> #[trigger] after[i] == before[i - 1]);
    assert(forall|i: int| index <= i < before.len() ==> after[i + 1] == #[trigger] before[i]);
    assert forall|i: int| index <= i < before.len() implies (#[trigger] before[i])@.start > row by {
        if before[i]@.start <= row {
            assert(in_range(before[i], row));
        }
    }
    assert forall|other: u64| rows_of(after).contains(other) == rows_of(before).insert(row).contains(other) by {
        if rows_of(after).contains(other) {
            let i = choose|i: int| 0 <= i < after.len() && #[trigger] in_range(after[i], other);
            if i < index {
                assert(in_range(before[i], other));
            } else if i > index {
                assert(in_range(before[i - 1], other));
            }
        }
        if other == row {
            assert(in_range(after[index], other));
        } else if rows_of(before).contains(other) {
            let i = choose|i: int| 0 <= i < before.len() && #[trigger] in_range(before[i], other);
            if i < index {
                assert(in_range(after[i], other));
            } else {
                assert(in_range(after[i + 1], other));
            }
        }
    }
    assert(rows_of(after) =~= rows_of(before).insert(row));
}

/// On ranges in ascending order, joining neighbours keeps the rows and leaves compact ranges.
proof fn lemma_merged_keeps_rows(source: Seq<RangeInclusive<u64>>, result: Seq<RangeInclusive<u64>>)
    requires
        ascending(source),
        bounds(result) == merged(bounds(source)),
        forall|i: int| 0 <= i < result.len() ==> !(#[trigger] result[i])@.exhausted,
    ensures
        compact(result),
        rows_of(result) == rows_of(source),
{
    lemma_merged_bounds(bounds(source));
    assert forall|i: int| 0 <= i < result.len() implies (#[trigger] result[i])@.start == merged(bounds(source))[i].0
        && result[i]@.end == merged(bounds(source))[i].1 by {
        assert(bounds(result)[i] == (result[i]@.start, result[i]@.end));
    }
    assert forall|row: u64| rows_of(result).contains(row) == rows_of(source).contains(row) by {
        if rows_of(result).contains(row) {
            let i = choose|i: int| 0 <= i < result.len() && #[trigger] in_range(result[i], row);
            assert(within(merged(bounds(source))[i], row));
            assert(covered(merged(bounds(source)), row));
            let j = choose|j: int| 0 <= j < bounds(source).len() && #[trigger] within(bounds(source)[j], row);
            assert(in_range(source[j], row));
        }
        if rows_of(source).contains(row) {
            let j = choose|j: int| 0 <= j < source.len() && #[trigger] in_range(source[j], row);
            assert(within(bounds(source)[j], row));
            assert(covered(merged(bounds(source)), row));
            let i = choose|i: int|
                0 <= i < merged(bounds(source)).len() && #[trigger] within(merged(bounds(source))[i], row);
            assert(in_range(result[i], row));
        }
    }
    assert(rows_of(result) =~= rows_of(source));
}

spec fn within(bound: (u64, u64), row: u64) -> bool {
    bound.0 <= row <= bound.1
}

spec fn covered(bounds: Seq<(u64, u64)>, row: u64) -> bool {
    exists|i: int| 0 <= i < bounds.len() && #[trigger] within(bounds[i], row)
}

spec fn ascending_bounds(bounds: Seq<(u64, u64)>) -> bool {
    &&& forall|i: int| 0 <= i < bounds.len() ==> (#[trigger] bounds[i]).0 <= bounds[i].1
    &&& forall|i: int, j: int|
        0 <= i < j < bounds.len() ==> (#[trigger] bounds[i]).0 <= (#[trigger] bounds[j]).0
}

proof fn lemma_merged_bounds(source: Seq<(u64, u64)>)
    requires
        ascending_bounds(source),
    ensures
        ({
            let result = merged(source);
            &&& source.len() > 0 ==> result.len() > 0 && result.last().0 <= source.last().0
            &&& forall|i: int| 0 <= i < result.len() ==> (#[trigger] result[i]).0 <= result[i].1
            &&& forall|i: int, j: int|
                0 <= i < j < result.len() ==> (#[trigger] result[i]).1 + 1 < (#[trigger] result[j]).0
            &&& forall|row: u64| #[trigger] covered(result, row) == covered(source, row)
        }),
    decreases source.len(),
{
    if source.len() > 0 {
        let shorter = source.drop_last();
        let before = merged(shorter);
        let result = merged(source);
        let (start, end) = source.last();
        lemma_merged_bounds(shorter);
        if before.len() > 0 {
            assert(shorter.len() > 0);
            assert(source[shorter.len() - 1].0 <= source[source.len() - 1].0);
        }
        let joins = before.len() > 0 && start <= before.last().1 + 1;
        assert forall|row: u64| #[trigger] covered(result, row) == covered(source, row) by {
            if covered(result, row) {
                let i = choose|i: int| 0 <= i < result.len() && #[trigger] within(result[i], row);
                if i < result.len() - 1 || (joins && row <= before.last().1) {
                    assert(within(before[i], row));
                    assert(covered(before, row));
                    let j = choose|j: int| 0 <= j < shorter.len() && #[trigger] within(shorter[j], row);
                    assert(within(source[j], row));
                } else {
                    assert(within(source[source.len() - 1], row));
                }
            }
            if covered(source, row) {
                let j = choose|j: int| 0 <= j < source.len() && #[trigger] within(source[j], row);
                if j < shorter.len() {
                    assert(within(shorter[j], row));
                    assert(covered(before, row));
                    let i = choose|i: int| 0 <= i < before.len() && #[trigger] within(before[i], row);
                    assert(within(result[i], row));
                } else {
                    assert(within(result[result.len() - 1], row));
                }
            }
        }
    }
}

impl RowSelection {
    /// The ranges are kept compact.
    pub open spec fn wf(&self) -> bool {
        compact(self.ranges@)
    }

    /// The selection of no rows.
    pub fn new() -> (selection: Self)
        ensures
            selection.wf(),
            selection@ == (RowSelectionView { rows: Set::empty(), anchor: None }),
    {
        let selection = RowSelection { ranges: Vec::new(), anchor: None };
        proof {
            lemma_first_range(selection.ranges@);
        }
        selection
    }

    pub fn is_empty(&self) -> (empty: bool)
        requires
            self.wf(),
        ensures
            empty == self@.rows.is_empty(),
    {
        proof {
            lemma_first_range(self.ranges@);
            if self.ranges@.len() > 0 {
                assert(in_range(self.ranges@[0], self.ranges@[0]@.start));
                assert(self@.rows.contains(self.ranges@[0]@.start));
            }
        }
        self.ranges.is_empty()
    }

    /// The position of the first range that ends at `row` or later.
    fn position_reaching(&self, row: u64) -> (index: usize)
        requires
            self.wf(),
        ensures
            index <= self.ranges@.len(),
            forall|i: int| 0 <= i < index ==> (#[trigger] self.ranges@[i])@.end < row,
            forall|i: int| index <= i < self.ranges@.len() ==> (#[trigger] self.ranges@[i])@.end >= row,
            self@.rows.contains(row) == (index < self.ranges@.len() && in_range(self.ranges@[index as int], row)),
    {
        let mut low: usize = 0;
        let mut high: usize = self.ranges.len();
        while low < high
            invariant
                self.wf(),
                low <= high <= self.ranges@.len(),
                forall|i: int| 0 <= i < low ==> (#[trigger] self.ranges@[i])@.end < row,
                forall|i: int| high <= i < self.ranges@.len() ==> (#[trigger] self.ranges@[i])@.end >= row,
            decreases high - low,
        {
            let middle: usize = low + (high - low) / 2;
            if *self.ranges[middle].end() < row {
                low = middle + 1;
            } else {
                high = middle;
            }
        }
        proof {
            if self@.rows.contains(row) {
                let i = choose|i: int|
                    0 <= i < self.ranges@.len() && #[trigger] in_range(self.ranges@[i], row);
                assert(low <= i);
                if low < i {
                    assert(self.ranges@[low as int]@.end + 1 < self.ranges@[i]@.start);
                }
            }
        }
        low
    }

    /// Whether `row` is selected.
    pub fn contains(&self, row: u64) -> (found: bool)
        requires
            self.wf(),
        ensures
            found == self@.rows.contains(row),
    {
        let index: usize = self.position_reaching(row);
        index < self.ranges.len() && *self.ranges[index].start() <= row && row <= *self.ranges[index].end()
    }

    /// The number of selected rows, at most `u64::MAX`.
    pub fn count(&self) -> (count: u64)
        requires
            self.wf(),
        ensures
            self@.rows.finite(),
            count as nat == if self@.rows.len() <= u64::MAX { self@.rows.len() } else { u64::MAX as nat },
    {
        let mut count: u64 = 0;
        let mut index: usize = 0;
        while index < self.ranges.len()
            invariant
                self.wf(),
                index <= self.ranges@.len(),
                ({
                    let total = total_rows(self.ranges@.take(index as int));
                    count as nat == if total <= u64::MAX { total } else { u64::MAX as nat }
                }),
            decreases self.ranges@.len() - index,
        {
            let range = &self.ranges[index];
            count = count.saturating_add(range.end().saturating_sub(*range.start()).saturating_add(1));
            proof {
                assert(self.ranges@.take(index + 1).drop_last() =~= self.ranges@.take(index as int));
            }
            index += 1;
        }
        proof {
            assert(self.ranges@.take(index as int) =~= self.ranges@);
            lemma_count_is_cardinality(self.ranges@);
        }
        count
    }

    /// The first selected row.
    pub fn first(&self) -> (first: Option<u64>)
        requires
            self.wf(),
        ensures
            first == first_row(self@.rows),
    {
        proof {
            lemma_first_range(self.ranges@);
        }
        if self.ranges.len() == 0 {
            None
        } else {
            Some(*self.ranges[0].start())
        }
    }

    /// Deselects every row.
    pub fn clear(&mut self)
        ensures
            final(self).wf(),
            final(self)@ == (RowSelectionView { rows: Set::empty(), anchor: None }),
    {
        self.ranges.clear();
        self.anchor = None;
        proof {
            lemma_first_range(self.ranges@);
        }
    }

    /// Selects the rows from `first` to `last`, and no others.
    fn select_between(&mut self, first: u64, last: u64)
        requires
            first <= last,
        ensures
            final(self).wf(),
            final(self)@ == (RowSelectionView { rows: rows_between(first, last), anchor: old(self).anchor }),
    {
        let mut ranges: Vec<RangeInclusive<u64>> = Vec::new();
        ranges.push(RangeInclusive::new(first, last));
        self.ranges = ranges;
        proof {
            assert forall|row: u64| self@.rows.contains(row) == rows_between(first, last).contains(row) by {
                if rows_between(first, last).contains(row) {
                    assert(in_range(self.ranges@[0], row));
                }
            }
            assert(self@.rows =~= rows_between(first, last));
        }
    }

    /// Applies a click on `row`.
    pub fn select(&mut self, row: u64, modifiers: Modifiers)
        requires
            old(self).wf(),
        ensures
            final(self).wf(),
            final(self)@ == selected_by(old(self)@, row, modifiers),
    {
        if modifiers.shift {
            let anchor: u64 = match self.anchor {
                Some(anchor) => anchor,
                None => match self.first() {
                    Some(first) => first,
                    None => row,
                },
            };
            if anchor <= row {
                self.select_between(anchor, row);
            } else {
                self.select_between(row, anchor);
            }
            self.anchor = Some(anchor);
        } else if modifiers.command {
            self.toggle(row);
        } else {
            self.select_between(row, row);
            self.anchor = Some(row);
            proof {
                assert(rows_between(row, row) =~= Set::<u64>::empty().insert(row));
            }
        }
    }

    /// Adds `row` to the selection, or removes it.
    pub fn toggle(&mut self, row: u64)
        requires
            old(self).wf(),
        ensures
            final(self).wf(),
            final(self)@ == toggled(old(self)@, row),
    {
        let ghost before = self.ranges@;
        let index: usize = self.position_reaching(row);
        let found: bool = index < self.ranges.len() && *self.ranges[index].start() <= row && row
            <= *self.ranges[index].end();
        if found {
            let start: u64 = *self.ranges[index].start();
            let end: u64 = *self.ranges[index].end();
            if row == start && row == end {
                self.ranges.remove(index);
            } else if row == start {
                self.ranges.set(index, RangeInclusive::new(row.saturating_add(1), end));
            } else if row == end {
                self.ranges.set(index, RangeInclusive::new(start, row.saturating_sub(1)));
            } else {
                self.ranges.set(index, RangeInclusive::new(start, row.saturating_sub(1)));
                self.ranges.insert(index + 1, RangeInclusive::new(row.saturating_add(1), end));
            }
            proof {
                lemma_without(before, self.ranges@, index as int, row);
                lemma_first_range(self.ranges@);
            }
            if self.anchor == Some(row) {
                self.anchor = self.first();
            }
            return;
        }
        self.ranges.insert(index, RangeInclusive::new(row, row));
        proof {
            lemma_with(before, self.ranges@, index as int, row);
        }
        self.merge_adjacent();
        self.anchor = Some(row);
    }

    /// Joins each range that touches or overlaps the one before it to that one. On ranges in
    /// ascending order this keeps the rows and makes the ranges compact.
    pub fn merge_adjacent(&mut self)
        requires
            forall|i: int| 0 <= i < old(self).ranges@.len() ==> !(#[trigger] old(self).ranges@[i])@.exhausted,
        ensures
            bounds(final(self).ranges@) == merged(bounds(old(self).ranges@)),
            forall|i: int| 0 <= i < final(self).ranges@.len() ==> !(#[trigger] final(self).ranges@[i])@.exhausted,
            final(self).anchor == old(self).anchor,
            ascending(old(self).ranges@) ==> final(self).wf() && final(self)@ == old(self)@,
    {
        let mut merged_ranges: Vec<RangeInclusive<u64>> = Vec::new();
        let ghost source = self.ranges@;
        let mut index: usize = 0;
        while index < self.ranges.len()
            invariant
                self.ranges@ == source,
                index <= source.len(),
                forall|i: int| 0 <= i < source.len() ==> !(#[trigger] source[i])@.exhausted,
                forall|i: int| 0 <= i < merged_ranges@.len() ==> !(#[trigger] merged_ranges@[i])@.exhausted,
                bounds(merged_ranges@) == merged(bounds(source).take(index as int)),
            decreases source.len() - index,
        {
            let start: u64 = *self.ranges[index].start();
            let end: u64 = *self.ranges[index].end();
            proof {
                assert(bounds(source).take(index + 1).drop_last() =~= bounds(source).take(index as int));
            }
            let ghost so_far = merged_ranges@;
            let length: usize = merged_ranges.len();
            if length > 0 && start <= merged_ranges[length - 1].end().saturating_add(1) {
                let previous_start: u64 = *merged_ranges[length - 1].start();
                let previous_end: u64 = *merged_ranges[length - 1].end();
                let joined_end: u64 = if previous_end >= end {
                    previous_end
                } else {
                    end
                };
                merged_ranges.set(length - 1, RangeInclusive::new(previous_start, joined_end));
                proof {
                    assert(bounds(merged_ranges@) =~= bounds(so_far).drop_last().push((previous_start, joined_end)));
                }
            } else {
                merged_ranges.push(RangeInclusive::new(start, end));
                proof {
                    assert(bounds(merged_ranges@) =~= bounds(so_far).push((start, end)));
                }
            }
            index += 1;
        }
        proof {
            assert(bounds(source).take(index as int) =~= bounds(source));
            if ascending(source) {
                lemma_merged_keeps_rows(source, merged_ranges@);
            }
        }
        self.ranges = merged_ranges;
    }
}

/// Copies of `ranges` that no iteration has used up.
pub fn copied_ranges(ranges: &Vec<RangeInclusive<u64>>) -> (copies: Vec<RangeInclusive<u64>>)
    ensures
        (forall|i: int| 0 <= i < ranges@.len() ==> !(#[trigger] ranges@[i])@.exhausted) ==> bounds(copies@) == bounds(
            ranges@,
        ),
        copies@.len() == ranges@.len(),
        forall|i: int| 0 <= i < copies@.len() ==> !(#[trigger] copies@[i])@.exhausted,
{
    let mut copies: Vec<RangeInclusive<u64>> = Vec::new();
    for i in 0..ranges.len()
        invariant
            copies@.len() == i,
            forall|j: int| 0 <= j < i ==> !(#[trigger] copies@[j])@.exhausted,
            forall|j: int|
                0 <= j < i && !ranges@[j]@.exhausted ==> (#[trigger] copies@[j])@.start == ranges@[j]@.start
                    && copies@[j]@.end == ranges@[j]@.end,
    {
        copies.push(RangeInclusive::new(*ranges[i].start(), *ranges[i].end()));
    }
    proof {
        if forall|i: int| 0 <= i < ranges@.len() ==> !(#[trigger] ranges@[i])@.exhausted {
            assert forall|i: int| 0 <= i < copies@.len() implies bounds(copies@)[i] == bounds(ranges@)[i] by {
                assert(copies@[i]@.start == ranges@[i]@.start);
            }
            assert(bounds(copies@) =~= bounds(ranges@));
        }
    }
    copies
}

/// Ranges with equal bounds hold the same rows.
pub proof fn lemma_same_bounds(one: Seq<RangeInclusive<u64>>, other: Seq<RangeInclusive<u64>>)
    requires
        bounds(one) == bounds(other),
        forall|i: int| 0 <= i < one.len() ==> !(#[trigger] one[i])@.exhausted,
    ensures
        rows_of(one) == rows_of(other),
        compact(other) ==> compact(one),
{
    assert(one.len() == bounds(one).len() && other.len() == bounds(other).len());
    assert forall|i: int| 0 <= i < one.len() implies (#[trigger] one[i])@.start == other[i]@.start && one[i]@.end
        == other[i]@.end by {
        assert(bounds(one)[i] == bounds(other)[i]);
    }
    assert forall|row: u64| rows_of(one).contains(row) == rows_of(other).contains(row) by {
        if rows_of(one).contains(row) {
            let i = choose|i: int| 0 <= i < one.len() && #[trigger] in_range(one[i], row);
            assert(in_range(other[i], row));
        }
        if rows_of(other).contains(row) {
            let i = choose|i: int| 0 <= i < other.len() && #[trigger] in_range(other[i], row);
            assert(one[i]@.start == other[i]@.start);
            assert(in_range(one[i], row));
        }
    }
    assert(rows_of(one) =~= rows_of(other));
    if compact(other) {
        assert forall|i: int, j: int| 0 <= i < j < one.len() implies (#[trigger] one[i])@.end + 1 < (#[trigger] one[j])@.start by {
            assert(other[i]@.end + 1 < other[j]@.start);
        }
    }
}

impl Clone for RowSelection {
    fn clone(&self) -> (copy: Self)
        ensures
            self.wf() ==> copy.wf() && copy@ == self@ && bounds(copy.ranges@) == bounds(self.ranges@),
    {
        let ranges = copied_ranges(&self.ranges);
        proof {
            if self.wf() {
                lemma_same_bounds(ranges@, self.ranges@);
            }
        }
        RowSelection { ranges, anchor: self.anchor }
    }
}

impl Default for RowSelection {
    fn default() -> (selection: Self)
        ensures
            selection.wf(),
            selection@ == (RowSelectionView { rows: Set::empty(), anchor: None }),
    {
        RowSelection::new()
    }
}

/// Toggling a row twice leaves the same rows selected.
pub proof fn lemma_toggle_twice(before: RowSelectionView, row: u64)
    ensures
        toggled(toggled(before, row), row).rows == before.rows,
{
    assert(toggled(toggled(before, row), row).rows =~= before.rows);
}

/// A click selects the clicked row, unless it is a command click on a selected one.
pub proof fn lemma_select_holds_row(before: RowSelectionView, row: u64, modifiers: Modifiers)
    ensures
        selected_by(before, row, modifiers).rows.contains(row) <==> (modifiers.shift || !modifiers.command
            || !before.rows.contains(row)),
{
}

} // verus!
