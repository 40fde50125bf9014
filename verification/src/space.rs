//! How many bytes the edited file can take up, for the disk space that sorting needs.

use crate::document::{Document, DocumentView};
use crate::grid::less;
use crate::saving::name_bytes;
use crate::structural::capped;
use std::collections::BTreeMap;
use vstd::prelude::*;
use vstd::std_specs::iter::IteratorSpec;
use vstd::string::*;
use vstd::utf8::*;

verus! {

/// The most bytes that a field takes up in a file: every byte a quote, between two quotes.
pub open spec fn field_bound(bytes: Seq<u8>) -> nat {
    2 * bytes.len() + 2
}

/// The bounds of the values of a map, added up.
pub open spec fn total_bound<K>(map: Map<K, Seq<u8>>) -> nat
    decreases map.dom().len(),
    when map.dom().finite()
{
    if map.dom().len() == 0 {
        0
    } else {
        let key = map.dom().choose();
        field_bound(map[key]) + total_bound(map.remove(key))
    }
}

/// The bound of the edited file, in bytes.
pub open spec fn file_bound(document: DocumentView, data_rows: nat) -> nat {
    document.source.file_size as nat + 2 * data_rows + total_bound(name_bytes(document.edits.renames)) + total_bound(
        document.edits.cells,
    ) + match document.edits.header_edit {
        Some(edit) => field_bound(encode_utf8(edit.draft)),
        None => 0,
    } + match document.edits.cell_edit {
        Some(edit) => field_bound(encode_utf8(edit.draft)),
        None => 0,
    }
}

/// The bound of a field, at most `u64::MAX`.
pub fn serialized_field_upper_bound(value: &[u8]) -> (bound: u64)
    ensures
        bound == capped(field_bound(value@)),
{
    let length: u64 = value.len() as u64;
    if length <= (u64::MAX - 2) / 2 {
        2 * length + 2
    } else {
        u64::MAX
    }
}

/// The total can be taken apart at any key.
proof fn lemma_total_at<K>(map: Map<K, Seq<u8>>, key: K)
    requires
        map.dom().finite(),
        map.dom().contains(key),
    ensures
        total_bound(map) == field_bound(map[key]) + total_bound(map.remove(key)),
    decreases map.dom().len(),
{
    let first = map.dom().choose();
    if map.dom().len() == 0 {
        assert(map.dom() =~= Set::empty());
    }
    assert(map.dom().contains(first));
    if first != key {
        let rest = map.remove(first);
        assert(rest.dom().contains(key));
        lemma_total_at(rest, key);
        let other = map.remove(key);
        assert(other.dom().contains(first));
        lemma_total_at(other, first);
        assert(rest.remove(key) =~= other.remove(first));
    }
}

/// A key more adds its bound.
proof fn lemma_total_insert<K>(map: Map<K, Seq<u8>>, key: K, value: Seq<u8>)
    requires
        map.dom().finite(),
        !map.dom().contains(key),
    ensures
        total_bound(map.insert(key, value)) == field_bound(value) + total_bound(map),
{
    let more = map.insert(key, value);
    lemma_total_at(more, key);
    assert(more.remove(key) =~= map);
}

/// Adding with a cap twice is adding once with a cap.
fn add_capped(one: u64, other: u64, Ghost(first): Ghost<nat>, Ghost(second): Ghost<nat>) -> (sum: u64)
    requires
        one == capped(first),
        other == capped(second),
    ensures
        sum == capped(first + second),
{
    one.saturating_add(other)
}

fn total_renames(start: u64, renames: &BTreeMap<usize, String>, Ghost(first): Ghost<nat>) -> (total: u64)
    requires
        start == capped(first),
        renames@.dom().finite(),
    ensures
        total == capped(first + total_bound(name_bytes(crate::model::renames_of(renames@)))),
{
    broadcast use crate::sets::group_ordered_keys;
    broadcast use vstd::std_specs::btree::axiom_spec_btree_map_iter;

    let ghost whole = name_bytes(crate::model::renames_of(renames@));
    let order = renames.iter();
    let ghost walk = order.remaining();
    let mut total: u64 = start;
    let ghost mut seen: Map<usize, Seq<u8>> = Map::empty();
    proof {
        assert(total_bound(seen) == 0);
    }
    for entry in iter: order
        invariant
            walk == iter.seq(),
            walk.no_duplicates(),
            whole == name_bytes(crate::model::renames_of(renames@)),
            forall|i: int|
                0 <= i < walk.len() ==> renames@.contains_key(*(#[trigger] walk[i]).0) && renames@[*walk[i].0]
                    == *walk[i].1,
            seen.dom().finite(),
            forall|key: usize| #[trigger] seen.dom().contains(key) <==> exists|i: int|
                0 <= i < iter.index() && *(#[trigger] walk[i]).0 == key,
            forall|key: usize| #[trigger] seen.dom().contains(key) ==> seen[key] == whole[key],
            total == capped(first + total_bound(seen)),
    {
        let (key, name) = entry;
        let bound: u64 = serialized_field_upper_bound(name.as_str().as_bytes());
        proof {
            assert(walk[iter.index()] == (key, name));
            if seen.dom().contains(*key) {
                let i = choose|i: int| 0 <= i < iter.index() && *(#[trigger] walk[i]).0 == *key;
                assert(walk[i] == walk[iter.index()]);
            }
            lemma_total_insert(seen, *key, encode_utf8(name@));
        }
        total = add_capped(
            total,
            bound,
            Ghost(first + total_bound(seen)),
            Ghost(field_bound(encode_utf8(name@))),
        );
        proof {
            let before = seen;
            seen = seen.insert(*key, encode_utf8(name@));
            assert forall|other: usize| #[trigger] seen.dom().contains(other) <==> exists|i: int|
                0 <= i < iter.index() + 1 && *(#[trigger] walk[i]).0 == other by {
                if seen.dom().contains(other) {
                    if other == *key {
                        assert(*walk[iter.index()].0 == other);
                    } else {
                        assert(before.dom().contains(other));
                        let i = choose|i: int| 0 <= i < iter.index() && *(#[trigger] walk[i]).0 == other;
                        assert(*walk[i].0 == other);
                    }
                }
                if exists|i: int| 0 <= i < iter.index() + 1 && *(#[trigger] walk[i]).0 == other {
                    let i = choose|i: int| 0 <= i < iter.index() + 1 && *(#[trigger] walk[i]).0 == other;
                    if i < iter.index() {
                        assert(before.dom().contains(other));
                    }
                }
            }
        }
    }
    proof {
        assert forall|key: usize| whole.dom().contains(key) implies seen.dom().contains(key) by {
            assert(renames@.contains_key(key));
            assert(walk.contains((&key, &renames@[key])));
            let i = choose|i: int| 0 <= i < walk.len() && walk[i] == (&key, &renames@[key]);
            assert(*walk[i].0 == key);
        }
        assert(seen =~= whole);
    }
    total
}

fn total_cells(start: u64, cells: &BTreeMap<(u64, usize), Vec<u8>>, Ghost(first): Ghost<nat>) -> (total: u64)
    requires
        start == capped(first),
        cells@.dom().finite(),
    ensures
        total == capped(first + total_bound(crate::model::edits_of(cells@))),
{
    broadcast use crate::sets::group_ordered_keys;
    broadcast use vstd::std_specs::btree::axiom_spec_btree_map_iter;

    let ghost whole = crate::model::edits_of(cells@);
    let order = cells.iter();
    let ghost walk = order.remaining();
    let mut total: u64 = start;
    let ghost mut seen: Map<(u64, usize), Seq<u8>> = Map::empty();
    proof {
        assert(total_bound(seen) == 0);
    }
    for entry in iter: order
        invariant
            walk == iter.seq(),
            walk.no_duplicates(),
            whole == crate::model::edits_of(cells@),
            forall|i: int|
                0 <= i < walk.len() ==> cells@.contains_key(*(#[trigger] walk[i]).0) && cells@[*walk[i].0]
                    == *walk[i].1,
            seen.dom().finite(),
            forall|key: (u64, usize)| #[trigger] seen.dom().contains(key) <==> exists|i: int|
                0 <= i < iter.index() && *(#[trigger] walk[i]).0 == key,
            forall|key: (u64, usize)| #[trigger] seen.dom().contains(key) ==> seen[key] == whole[key],
            total == capped(first + total_bound(seen)),
    {
        let (key, value) = entry;
        let bound: u64 = serialized_field_upper_bound(value.as_slice());
        proof {
            assert(walk[iter.index()] == (key, value));
            if seen.dom().contains(*key) {
                let i = choose|i: int| 0 <= i < iter.index() && *(#[trigger] walk[i]).0 == *key;
                assert(walk[i] == walk[iter.index()]);
            }
            lemma_total_insert(seen, *key, value@);
        }
        total = add_capped(total, bound, Ghost(first + total_bound(seen)), Ghost(field_bound(value@)));
        proof {
            let before = seen;
            seen = seen.insert(*key, value@);
            assert forall|other: (u64, usize)| #[trigger] seen.dom().contains(other) <==> exists|i: int|
                0 <= i < iter.index() + 1 && *(#[trigger] walk[i]).0 == other by {
                if seen.dom().contains(other) {
                    if other == *key {
                        assert(*walk[iter.index()].0 == other);
                    } else {
                        assert(before.dom().contains(other));
                        let i = choose|i: int| 0 <= i < iter.index() && *(#[trigger] walk[i]).0 == other;
                        assert(*walk[i].0 == other);
                    }
                }
                if exists|i: int| 0 <= i < iter.index() + 1 && *(#[trigger] walk[i]).0 == other {
                    let i = choose|i: int| 0 <= i < iter.index() + 1 && *(#[trigger] walk[i]).0 == other;
                    if i < iter.index() {
                        assert(before.dom().contains(other));
                    }
                }
            }
        }
    }
    proof {
        assert forall|key: (u64, usize)| whole.dom().contains(key) implies seen.dom().contains(key) by {
            assert(cells@.contains_key(key));
            assert(walk.contains((&key, &cells@[key])));
            let i = choose|i: int| 0 <= i < walk.len() && walk[i] == (&key, &cells@[key]);
            assert(*walk[i].0 == key);
        }
        assert(seen =~= whole);
    }
    total
}

impl Document {
    /// The bound of the edited file in bytes, at most `u64::MAX`, and its number of data rows.
    /// Nothing, where the rows have not been counted.
    pub fn sort_space(&self) -> (space: Option<(u64, u64)>)
        requires
            self.wf(),
        ensures
            match self@.index.indexed_rows {
                None => space is None,
                Some(rows) => {
                    let data_rows = less(rows as int, self@.grid.data_start as int) as nat;
                    space == Some((capped(file_bound(self@, data_rows)), data_rows as u64))
                },
            },
    {
        let rows: u64 = match self.index.indexed_rows {
            Some(rows) => rows,
            None => {
                return None;
            },
        };
        let data_rows: u64 = rows.saturating_sub(self.grid.data_start);
        let line_ends: u64 = if data_rows <= u64::MAX / 2 { 2 * data_rows } else { u64::MAX };
        let ghost size = self.source.file_size as nat;
        let ghost ends = 2 * data_rows as nat;
        let mut total: u64 = add_capped(self.source.file_size, line_ends, Ghost(size), Ghost(ends));
        proof {
            assert(self.edits.header_renames@.dom() =~= self@.edits.renames.dom());
            assert(self.edits.cell_edits@.dom() =~= self@.edits.cells.dom());
        }
        let ghost mut sum: nat = size + ends;
        total = total_renames(total, &self.edits.header_renames, Ghost(sum));
        proof {
            sum = sum + total_bound(name_bytes(self@.edits.renames));
        }
        total = total_cells(total, &self.edits.cell_edits, Ghost(sum));
        proof {
            sum = sum + total_bound(self@.edits.cells);
        }
        if let Some(edit) = &self.edits.header_edit {
            let bound: u64 = serialized_field_upper_bound(edit.draft.as_str().as_bytes());
            total = add_capped(total, bound, Ghost(sum), Ghost(field_bound(encode_utf8(edit.draft@))));
            proof {
                sum = sum + field_bound(encode_utf8(edit.draft@));
            }
        }
        if let Some(edit) = &self.edits.cell_edit {
            let bound: u64 = serialized_field_upper_bound(edit.draft.as_str().as_bytes());
            total = add_capped(total, bound, Ghost(sum), Ghost(field_bound(encode_utf8(edit.draft@))));
            proof {
                sum = sum + field_bound(encode_utf8(edit.draft@));
            }
        }
        Some((total, data_rows))
    }
}

} // verus!
