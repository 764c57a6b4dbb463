//! Sorting a palette by elevation.
//!
//! The order is worked out on keys, pairs of an elevation and the position
//! of its anchor, which are handed to a sorted vector of the `sorted_vec`
//! crate.  The anchors are then laid out in the order of their keys.
//!
//! The sorted vector holds keys and not anchors because it orders its items
//! by their own order: the order of pairs of integers is fixed, while that
//! of anchors of any kind of surface is whatever their kind makes it.

use vstd::prelude::*;
use sorted_vec::partial::SortedVec;
use crate::coloring::{ElevationColor, sorted_by_elevation};

verus! {

/// Makes the sorted vector of the `sorted_vec` crate known; what it holds
/// is named by `sorted_keys`.
#[verifier::external_type_specification]
#[verifier::external_body]
#[verifier::reject_recursive_types(T)]
pub struct ExSortedVec<T: PartialOrd>(SortedVec<T>);

/// The keys that a sorted vector holds, in the order in which it holds them.
pub uninterp spec fn sorted_keys(sorted: SortedVec<(i64, usize)>) -> Seq<(i64, usize)>;

/// The order of keys: by elevation first, by position second.
pub open spec fn key_before(a: (i64, usize), b: (i64, usize)) -> bool {
    a.0 < b.0 || (a.0 == b.0 && a.1 <= b.1)
}

/// Calls `sorted_vec::partial::SortedVec::from_unsorted`, which sorts the
/// vector in place by the order of its items.  The contract claims that the
/// result holds the same keys as the argument, each as often, and that no key
/// stands before a smaller one; tuples of integers are ordered field by field.
#[verifier::external_body]
fn from_unsorted(keys: Vec<(i64, usize)>) -> (sorted: SortedVec<(i64, usize)>)
    ensures
        sorted_keys(sorted).to_multiset() == keys@.to_multiset(),
        forall|i: int, j: int|
            0 <= i <= j < sorted_keys(sorted).len() ==> key_before(
                sorted_keys(sorted)[i],
                sorted_keys(sorted)[j],
            ),
{
    SortedVec::from_unsorted(keys)
}

/// Calls `sorted_vec::partial::SortedVec::into_vec`, which gives up the
/// vector that the sorted vector holds.
#[verifier::external_body]
fn into_vec(sorted: SortedVec<(i64, usize)>) -> (keys: Vec<(i64, usize)>)
    ensures
        keys@ == sorted_keys(sorted),
{
    sorted.into_vec()
}

/// Whether `order` lists each position below `n` exactly once.
pub open spec fn is_rearrangement(order: Seq<int>, n: int) -> bool {
    &&& order.len() == n
    &&& forall|i: int| 0 <= i < n ==> 0 <= #[trigger] order[i] < n
    &&& forall|i: int, j: int| 0 <= i < j < n ==> order[i] != order[j]
}

/// Whether `sorted` is `anchors` sorted by elevation, anchors of one
/// elevation in the order in which they stood: position `i` of `sorted`
/// holds the anchor that stood at `order[i]`.
pub open spec fn is_sorted_by<Kind>(
    sorted: Seq<ElevationColor<Kind>>,
    anchors: Seq<ElevationColor<Kind>>,
    order: Seq<int>,
) -> bool {
    &&& sorted.len() == anchors.len()
    &&& is_rearrangement(order, anchors.len() as int)
    &&& forall|i: int| 0 <= i < sorted.len() ==> sorted[i] == anchors[#[trigger] order[i]]
    &&& sorted_by_elevation(sorted)
    &&& forall|i: int, j: int|
        0 <= i < j < sorted.len() && sorted[i].elevation.meters == sorted[j].elevation.meters
            ==> #[trigger] order[i] < #[trigger] order[j]
}

/// Whether `sorted` is `anchors` sorted by elevation, with anchors of one
/// elevation left in their order.
pub open spec fn is_stable_sort_of<Kind>(
    sorted: Seq<ElevationColor<Kind>>,
    anchors: Seq<ElevationColor<Kind>>,
) -> bool {
    exists|order: Seq<int>| is_sorted_by(sorted, anchors, order)
}

/// The key of each anchor: its elevation and its position.
pub open spec fn keys_of<Kind>(anchors: Seq<ElevationColor<Kind>>) -> Seq<(i64, usize)> {
    Seq::new(anchors.len(), |i: int| (anchors[i].elevation.meters, i as usize))
}

/// Sorts anchors by elevation.  Anchors of one elevation keep their order.
pub fn sort_by_elevation<Kind: Copy>(anchors: &Vec<ElevationColor<Kind>>) -> (sorted: Vec<
    ElevationColor<Kind>,
>)
    ensures
        is_stable_sort_of(sorted@, anchors@),
        sorted_by_elevation(sorted@),
        sorted.len() == anchors.len(),
{
    let n: usize = anchors.len();
    let mut keys: Vec<(i64, usize)> = Vec::new();
    let mut i: usize = 0;
    while i < n
        invariant
            0 <= i <= n,
            n == anchors.len(),
            keys@ == keys_of(anchors@).subrange(0, i as int),
        decreases n - i,
    {
        keys.push((anchors[i].elevation.meters, i));
        assert(keys@ =~= keys_of(anchors@).subrange(0, i + 1));
        i += 1;
    }
    assert(keys@ =~= keys_of(anchors@));
    let ordered: Vec<(i64, usize)> = into_vec(from_unsorted(keys));
    proof {
        let given = keys_of(anchors@);
        broadcast use vstd::seq_lib::group_to_multiset_ensures;

        assert(ordered@.to_multiset() == given.to_multiset());
        vstd::seq_lib::to_multiset_len(ordered@);
        vstd::seq_lib::to_multiset_len(given);
        assert(ordered@.len() == n);
        assert(given.no_duplicates());
        given.lemma_multiset_has_no_duplicates();
        ordered@.lemma_multiset_has_no_duplicates_conv();
        assert forall|i: int| 0 <= i < n implies 0 <= (#[trigger] ordered@[i]).1 < n && ordered@[i].0
            == anchors@[ordered@[i].1 as int].elevation.meters by {
            assert(ordered@.contains(ordered@[i]));
            assert(given.to_multiset().count(ordered@[i]) > 0);
            assert(given.contains(ordered@[i]));
            let j = choose|j: int| 0 <= j < given.len() && given[j] == ordered@[i];
            assert(given[j] == (anchors@[j].elevation.meters, j as usize));
        }
    }
    let mut sorted: Vec<ElevationColor<Kind>> = Vec::new();
    let mut i: usize = 0;
    while i < n
        invariant
            0 <= i <= n,
            n == anchors.len(),
            n == ordered.len(),
            sorted.len() == i,
            forall|k: int|
                0 <= k < n ==> 0 <= (#[trigger] ordered@[k]).1 < n && ordered@[k].0
                    == anchors@[ordered@[k].1 as int].elevation.meters,
            forall|k: int| 0 <= k < i ==> sorted@[k] == anchors@[(#[trigger] ordered@[k]).1 as int],
        decreases n - i,
    {
        let key: (i64, usize) = ordered[i];
        assert(0 <= ordered@[i as int].1 < n);
        sorted.push(anchors[key.1]);
        i += 1;
    }
    proof {
        let order = Seq::new(n as nat, |k: int| ordered@[k].1 as int);
        assert forall|a: int, b: int| 0 <= a < b < n implies order[a] != order[b] by {
            assert(ordered@[a] != ordered@[b]);
        }
        assert forall|a: int| 0 <= a < sorted@.len() implies sorted@[a] == anchors@[#[trigger] order[a]] by {
            assert(sorted@[a] == anchors@[ordered@[a].1 as int]);
        }
        assert forall|a: int, b: int|
            0 <= a < b < sorted@.len() && sorted@[a].elevation.meters
                == sorted@[b].elevation.meters implies #[trigger] order[a] < #[trigger] order[b] by {
            assert(key_before(ordered@[a], ordered@[b]));
            assert(ordered@[a] != ordered@[b]);
            assert(sorted@[a] == anchors@[ordered@[a].1 as int]);
            assert(sorted@[b] == anchors@[ordered@[b].1 as int]);
        }
        assert forall|a: int| 0 <= a < n implies 0 <= #[trigger] order[a] < n by {
            assert(0 <= ordered@[a].1 < n);
        }
        assert forall|a: int, b: int| 0 <= a <= b < sorted@.len() implies sorted@[a].elevation.meters
            <= sorted@[b].elevation.meters by {
            if a < b {
                assert(key_before(ordered@[a], ordered@[b]));
                assert(sorted@[a] == anchors@[ordered@[a].1 as int]);
                assert(sorted@[b] == anchors@[ordered@[b].1 as int]);
            }
        }
        assert(is_rearrangement(order, n as int));
        assert(is_sorted_by(sorted@, anchors@, order));
    }
    sorted
}

} // verus!
