//! The two-way table of function ids and names, kept in a `bimap::BiHashMap`.
//!
//! Everything here is believed of `bimap`, not proved.

use vstd::prelude::*;
use std::collections::hash_map::RandomState;
use bimap::BiHashMap;

verus! {

/// `bimap::BiHashMap`, made known as a type of which nothing is seen.
#[verifier::external_type_specification]
#[verifier::external_body]
#[verifier::reject_recursive_types(L)]
#[verifier::reject_recursive_types(R)]
#[verifier::reject_recursive_types(LS)]
#[verifier::reject_recursive_types(RS)]
pub struct ExBiHashMap<L, R, LS, RS>(BiHashMap<L, R, LS, RS>);

/// The pairs that the table holds, as a map from each left value to its right
/// value.
pub uninterp spec fn bimap_pairs(m: BiHashMap<u64, String, RandomState, RandomState>) -> Map<
    u64,
    Seq<char>,
>;

/// What is left of `pairs` once every pair with the left value `left` and every
/// pair with the right value `right` is gone and `left` is paired with `right`.
pub open spec fn pairs_with(pairs: Map<u64, Seq<char>>, left: u64, right: Seq<char>) -> Map<
    u64,
    Seq<char>,
> {
    Map::new(
        |k: u64| k == left || (pairs.contains_key(k) && pairs[k] != right),
        |k: u64|
            if k == left {
                right
            } else {
                pairs[k]
            },
    )
}

/// `BiHashMap::new`: a table without pairs.
#[verifier::external_body]
pub(crate) fn bimap_new() -> (m: BiHashMap<u64, String, RandomState, RandomState>)
    ensures
        forall|k: u64| !bimap_pairs(m).contains_key(k),
{
    BiHashMap::new()
}

/// `BiHashMap::insert`: removes the pair that has `left` and the pair that has
/// `right`, if there are such, then adds the pair of the two. What it overwrote
/// is dropped.
#[verifier::external_body]
pub(crate) fn bimap_insert(
    m: &mut BiHashMap<u64, String, RandomState, RandomState>,
    left: u64,
    right: String,
)
    ensures
        bimap_pairs(*final(m)) == pairs_with(bimap_pairs(*old(m)), left, right@),
{
    let _ = m.insert(left, right);
}

/// `BiHashMap::get_by_right`: the left value of a pair whose right value is
/// `right`, or `None` when no pair has it.
#[verifier::external_body]
pub(crate) fn bimap_get_by_right(
    m: &BiHashMap<u64, String, RandomState, RandomState>,
    right: &str,
) -> (out: Option<u64>)
    ensures
        match out {
            Some(left) => bimap_pairs(*m).contains_key(left) && bimap_pairs(*m)[left] == right@,
            None => forall|k: u64| bimap_pairs(*m).contains_key(k) ==> bimap_pairs(*m)[k] != right@,
        },
{
    m.get_by_right(right).copied()
}

/// `BiHashMap::get_by_left`: the right value paired with `left`, or `None` when
/// `left` is in no pair.
#[verifier::external_body]
pub(crate) fn bimap_get_by_left(
    m: &BiHashMap<u64, String, RandomState, RandomState>,
    left: u64,
) -> (out: Option<&String>)
    ensures
        match out {
            Some(right) => bimap_pairs(*m).contains_key(left) && bimap_pairs(*m)[left] == right@,
            None => !bimap_pairs(*m).contains_key(left),
        },
{
    m.get_by_left(&left)
}

} // verus!
