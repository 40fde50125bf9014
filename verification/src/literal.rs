//! Literal matching and replacement in the bytes of a cell.

use vstd::prelude::*;

verus! {

/// Whether upper and lower case letters differ.
#[derive(Clone, Copy, Debug, PartialEq, Eq, Structural)]
pub enum CaseSensitivity {
    Insensitive,
    Sensitive,
}

/// An ASCII capital letter as its small letter; any other byte as it is.
pub open spec fn small(byte: u8) -> u8 {
    if 65 <= byte <= 90 {
        (byte + 32) as u8
    } else {
        byte
    }
}

/// Whether two bytes count as equal.
pub open spec fn same_byte(one: u8, other: u8, case_sensitivity: CaseSensitivity) -> bool {
    match case_sensitivity {
        CaseSensitivity::Insensitive => small(one) == small(other),
        CaseSensitivity::Sensitive => one == other,
    }
}

/// Whether two byte strings count as equal.
pub open spec fn equal_bytes(one: Seq<u8>, other: Seq<u8>, case_sensitivity: CaseSensitivity) -> bool {
    one.len() == other.len() && forall|i: int|
        0 <= i < one.len() ==> same_byte(#[trigger] one[i], other[i], case_sensitivity)
}

/// Whether `query` stands in `value` at the place `at`.
pub open spec fn stands_at(value: Seq<u8>, query: Seq<u8>, case_sensitivity: CaseSensitivity, at: int) -> bool {
    0 <= at && at + query.len() <= value.len() && equal_bytes(
        value.subrange(at, at + query.len()),
        query,
        case_sensitivity,
    )
}

/// Whether `query` stands in `value`. Nothing contains the empty query.
pub open spec fn contains_bytes(value: Seq<u8>, query: Seq<u8>, case_sensitivity: CaseSensitivity) -> bool {
    query.len() > 0 && exists|at: int| stands_at(value, query, case_sensitivity, at)
}

/// The first place from `start` on at which `query` stands.
pub open spec fn next_place(value: Seq<u8>, query: Seq<u8>, case_sensitivity: CaseSensitivity, start: int) -> Option<int>
    decreases value.len() - start,
{
    if start < 0 || start + query.len() > value.len() {
        None
    } else if stands_at(value, query, case_sensitivity, start) {
        Some(start)
    } else if start < value.len() {
        next_place(value, query, case_sensitivity, start + 1)
    } else {
        None
    }
}

/// The bytes of `value` from `start` on with each place at which `query` stands, taken from the
/// left without overlap, replaced.
pub open spec fn replaced_from(
    value: Seq<u8>,
    query: Seq<u8>,
    replacement: Seq<u8>,
    case_sensitivity: CaseSensitivity,
    start: int,
) -> Seq<u8>
    decreases value.len() - start,
{
    match next_place(value, query, case_sensitivity, start) {
        Some(at) if query.len() > 0 && start <= at && at + query.len() <= value.len() => value.subrange(start, at) + replacement
            + replaced_from(value, query, replacement, case_sensitivity, at + query.len()),
        _ => value.skip(start),
    }
}

/// The first place found lies in the range searched, and none before it matches.
proof fn lemma_next_place(value: Seq<u8>, query: Seq<u8>, case_sensitivity: CaseSensitivity, start: int)
    requires
        0 <= start <= value.len(),
    ensures
        match next_place(value, query, case_sensitivity, start) {
            Some(at) => start <= at && stands_at(value, query, case_sensitivity, at) && forall|other: int|
                start <= other < at ==> !stands_at(value, query, case_sensitivity, other),
            None => forall|other: int| start <= other ==> !stands_at(value, query, case_sensitivity, other),
        },
    decreases value.len() - start,
{
    if start + query.len() <= value.len() && !stands_at(value, query, case_sensitivity, start) && start < value.len() {
        lemma_next_place(value, query, case_sensitivity, start + 1);
    }
}

fn small_byte(byte: u8) -> (result: u8)
    ensures
        result == small(byte),
{
    if 65 <= byte && byte <= 90 {
        byte + 32
    } else {
        byte
    }
}

fn same(one: u8, other: u8, case_sensitivity: CaseSensitivity) -> (result: bool)
    ensures
        result == same_byte(one, other, case_sensitivity),
{
    match case_sensitivity {
        CaseSensitivity::Insensitive => small_byte(one) == small_byte(other),
        CaseSensitivity::Sensitive => one == other,
    }
}

/// Whether the two byte strings count as equal.
pub fn literal_equals(left: &[u8], right: &[u8], case_sensitivity: CaseSensitivity) -> (equal: bool)
    ensures
        equal == equal_bytes(left@, right@, case_sensitivity),
{
    if left.len() != right.len() {
        return false;
    }
    for i in 0..left.len()
        invariant
            left@.len() == right@.len(),
            forall|j: int| 0 <= j < i ==> same_byte(#[trigger] left@[j], right@[j], case_sensitivity),
    {
        if !same(left[i], right[i], case_sensitivity) {
            assert(!same_byte(left@[i as int], right@[i as int], case_sensitivity));
            return false;
        }
    }
    true
}

/// The first place from `start` on at which `query` stands.
fn find_from(value: &[u8], query: &[u8], case_sensitivity: CaseSensitivity, start: usize) -> (found: Option<usize>)
    requires
        start <= value@.len(),
    ensures
        match found {
            Some(at) => next_place(value@, query@, case_sensitivity, start as int) == Some(at as int),
            None => next_place(value@, query@, case_sensitivity, start as int) == None::<int>,
        },
{
    if query.len() > value.len() {
        return None;
    }
    let last: usize = value.len() - query.len();
    let mut at: usize = start;
    while at <= last
        invariant
            start <= at,
            last + query@.len() <= usize::MAX,
            last == value@.len() - query@.len(),
            next_place(value@, query@, case_sensitivity, start as int) == next_place(
                value@,
                query@,
                case_sensitivity,
                at as int,
            ),
        decreases value@.len() - at,
    {
        let part = vstd::slice::slice_subrange(value, at, at + query.len());
        if literal_equals(part, query, case_sensitivity) {
            return Some(at);
        }
        if at == last {
            proof {
                assert(!stands_at(value@, query@, case_sensitivity, at as int));
                if at < value@.len() {
                    assert(next_place(value@, query@, case_sensitivity, at + 1) == None::<int>);
                }
            }
            return None;
        }
        at = at + 1;
    }
    None
}

/// Whether `query` stands in `value`.
pub fn literal_contains(value: &[u8], query: &[u8], case_sensitivity: CaseSensitivity) -> (contained: bool)
    ensures
        contained == contains_bytes(value@, query@, case_sensitivity),
{
    if query.len() == 0 {
        return false;
    }
    proof {
        lemma_next_place(value@, query@, case_sensitivity, 0);
    }
    find_from(value, query, case_sensitivity, 0).is_some()
}

/// `value` with every place at which `query` stands replaced; nothing where there is none.
pub fn replace_literal_all_with_case(
    value: &[u8],
    query: &[u8],
    replacement: &[u8],
    case_sensitivity: CaseSensitivity,
) -> (result: Option<Vec<u8>>)
    ensures
        match result {
            Some(output) => contains_bytes(value@, query@, case_sensitivity) && output@ == replaced_from(
                value@,
                query@,
                replacement@,
                case_sensitivity,
                0,
            ),
            None => !contains_bytes(value@, query@, case_sensitivity),
        },
{
    if query.len() == 0 {
        return None;
    }
    let mut start: usize = 0;
    let mut output: Vec<u8> = Vec::new();
    let mut replaced = false;
    let length: usize = value.len();
    let ghost whole = replaced_from(value@, query@, replacement@, case_sensitivity, 0);
    proof {
        lemma_next_place(value@, query@, case_sensitivity, 0);
        assert(Seq::<u8>::empty() + whole =~= whole);
    }
    loop
        invariant
            query@.len() > 0,
            start <= length == value@.len(),
            whole == output@ + replaced_from(value@, query@, replacement@, case_sensitivity, start as int),
            replaced ==> contains_bytes(value@, query@, case_sensitivity),
            !replaced ==> start == 0,
            whole == replaced_from(value@, query@, replacement@, case_sensitivity, 0),
        decreases value@.len() - start,
    {
        proof {
            lemma_next_place(value@, query@, case_sensitivity, start as int);
        }
        match find_from(value, query, case_sensitivity, start) {
            Some(found) => {
                let ghost before = output@;
                output.extend_from_slice(vstd::slice::slice_subrange(value, start, found));
                output.extend_from_slice(replacement);
                proof {
                    let rest = replaced_from(
                        value@,
                        query@,
                        replacement@,
                        case_sensitivity,
                        found + query@.len(),
                    );
                    assert(output@ =~= before + value@.subrange(start as int, found as int) + replacement@);
                    assert(before + (value@.subrange(start as int, found as int) + replacement@ + rest) =~= output@ + rest);
                }
                start = found + query.len();
                replaced = true;
            },
            None => {
                if !replaced {
                    return None;
                }
                let ghost before = output@;
                output.extend_from_slice(vstd::slice::slice_subrange(value, start, length));
                proof {
                    assert(value@.skip(start as int) =~= value@.subrange(start as int, value@.len() as int));
                    assert(output@ =~= whole);
                }
                return Some(output);
            },
        }
    }
}

/// A replacement of a query by itself, letter for letter, changes nothing.
pub proof fn lemma_replace_by_itself(value: Seq<u8>, query: Seq<u8>, start: int)
    requires
        query.len() > 0,
        0 <= start <= value.len(),
    ensures
        replaced_from(value, query, query, CaseSensitivity::Sensitive, start) == value.skip(start),
    decreases value.len() - start,
{
    lemma_next_place(value, query, CaseSensitivity::Sensitive, start);
    match next_place(value, query, CaseSensitivity::Sensitive, start) {
        Some(at) => {
            lemma_replace_by_itself(value, query, at + query.len());
            assert(value.subrange(at, at + query.len()) =~= query) by {
                assert forall|i: int| 0 <= i < query.len() implies value.subrange(at, at + query.len())[i] == query[i] by {
                    assert(same_byte(
                        value.subrange(at, at + query.len())[i],
                        query[i],
                        CaseSensitivity::Sensitive,
                    ));
                }
            }
            assert(value.subrange(start, at) + query + value.skip(at + query.len()) =~= value.skip(start));
        },
        None => {},
    }
}

/// What matches letter for letter matches without regard to case too.
pub proof fn lemma_sensitive_is_narrower(value: Seq<u8>, query: Seq<u8>)
    ensures
        contains_bytes(value, query, CaseSensitivity::Sensitive) ==> contains_bytes(
            value,
            query,
            CaseSensitivity::Insensitive,
        ),
{
    if contains_bytes(value, query, CaseSensitivity::Sensitive) {
        let at = choose|at: int| stands_at(value, query, CaseSensitivity::Sensitive, at);
        let part = value.subrange(at, at + query.len());
        assert forall|i: int| 0 <= i < part.len() implies same_byte(
            #[trigger] part[i],
            query[i],
            CaseSensitivity::Insensitive,
        ) by {
            assert(same_byte(part[i], query[i], CaseSensitivity::Sensitive));
        }
        assert(stands_at(value, query, CaseSensitivity::Insensitive, at));
    }
}

} // verus!
