//! Ordered sets of column numbers.

use std::collections::BTreeSet;
use vstd::prelude::*;
use vstd::std_specs::cmp::OrdSpec;
use vstd::std_specs::iter::IteratorSpec;

verus! {

/// What is known of ordered sets and maps whose keys are integers or tuples of integers.
pub broadcast group group_ordered_keys {
    vstd::laws_cmp::group_laws_cmp,
    vstd::std_specs::btree::group_btree_axioms,
}

/// `listing` holds the members of `set`, each once, in ascending order.
pub open spec fn lists(listing: Seq<usize>, set: Set<usize>) -> bool {
    &&& forall|i: int, j: int| 0 <= i < j < listing.len() ==> listing[i] < listing[j]
    &&& listing.to_set() == set
}

/// `member` is the smallest member of `set`.
pub open spec fn is_least(set: Set<usize>, member: usize) -> bool {
    set.contains(member) && forall|other: usize| set.contains(other) ==> member <= other
}

/// The smallest member of `set`, where there is one.
pub open spec fn least(set: Set<usize>) -> Option<usize> {
    if set.is_empty() {
        None
    } else {
        Some(choose|member: usize| is_least(set, member))
    }
}

/// The numbers from `first` up to but not including `end`.
pub open spec fn span(first: int, end: int) -> Set<usize> {
    Set::new(|member: usize| first <= member < end)
}

/// A smallest member is the one that `least` names.
pub proof fn lemma_least(set: Set<usize>, member: usize)
    requires
        is_least(set, member),
    ensures
        least(set) == Some(member),
{
    let named = choose|other: usize| is_least(set, other);
    assert(is_least(set, named));
    assert(set.contains(member));
}

/// A listing has one entry for each member, and starts with the smallest.
pub proof fn lemma_listing(listing: Seq<usize>, set: Set<usize>)
    requires
        lists(listing, set),
    ensures
        listing.no_duplicates(),
        set.finite(),
        listing.len() == set.len(),
        forall|member: usize| #[trigger] set.contains(member) <==> listing.contains(member),
        least(set) == if listing.len() == 0 { None } else { Some(listing[0]) },
{
    assert forall|i: int, j: int| 0 <= i < listing.len() && 0 <= j < listing.len() && i != j implies listing[i]
        != listing[j] by {
        if i < j {
            assert(listing[i] < listing[j]);
        } else {
            assert(listing[j] < listing[i]);
        }
    }
    listing.unique_seq_to_set();
    assert forall|member: usize| #[trigger] set.contains(member) <==> listing.contains(member) by {
        assert(listing.to_set().contains(member) == listing.contains(member));
    }
    if listing.len() > 0 {
        assert(set.contains(listing[0])) by {
            assert(listing.contains(listing[0]));
        }
        assert forall|other: usize| set.contains(other) implies listing[0] <= other by {
            let i = choose|i: int| 0 <= i < listing.len() && listing[i] == other;
            if i > 0 {
                assert(listing[0] < listing[i]);
            }
        }
        lemma_least(set, listing[0]);
    } else {
        assert(set =~= Set::<usize>::empty());
    }
}

/// A walk of references in increasing order meets the numbers in ascending order.
proof fn lemma_increasing(walk: Seq<&usize>)
    requires
        vstd::std_specs::btree::increasing_seq(walk),
    ensures
        forall|i: int, j: int| 0 <= i < j < walk.len() ==> *walk[i] < *walk[j],
{
    broadcast use group_ordered_keys;

    assert(vstd::laws_cmp::obeys_cmp::<&usize>());
    assert forall|i: int, j: int| 0 <= i < j < walk.len() implies *walk[i] < *walk[j] by {
        assert(OrdSpec::cmp_spec(&walk[i], &walk[j]) is Less);
    }
}

/// The members of `set` in ascending order.
pub fn listing(set: &BTreeSet<usize>) -> (members: Vec<usize>)
    ensures
        lists(members@, set@),
        members@.len() == set@.len(),
        set@.finite(),
{
    broadcast use group_ordered_keys;

    let mut members: Vec<usize> = Vec::new();
    let order = set.iter();
    let ghost walk = order.remaining();
    for member in iter: order
        invariant
            walk == iter.seq(),
            members@ == walk.unref().take(iter.index()),
    {
        members.push(*member);
    }
    proof {
        assert(members@ =~= walk.unref());
        lemma_increasing(walk);
        lemma_listing(members@, set@);
    }
    members
}

} // verus!
