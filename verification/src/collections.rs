//! Collections of the contract environment.

use soroban_sdk::Env;
use vstd::prelude::*;

verus! {

/// Declares `Vec` of `soroban_sdk`, a vector that the environment keeps.
#[verifier::external_type_specification]
#[verifier::external_body]
#[verifier::reject_recursive_types(T)]
pub struct ExHostVec<T>(soroban_sdk::Vec<T>);

/// Declares `Map` of `soroban_sdk`, a map that the environment keeps.
#[verifier::external_type_specification]
#[verifier::external_body]
#[verifier::reject_recursive_types(K)]
#[verifier::reject_recursive_types(V)]
pub struct ExHostMap<K, V>(soroban_sdk::Map<K, V>);

/// The items of a vector of the environment, in order.
pub uninterp spec fn items_of(list: soroban_sdk::Vec<u64>) -> Seq<u64>;

/// The entries of a map of the environment.
pub uninterp spec fn entries_of(map: soroban_sdk::Map<u64, i128>) -> Map<u64, i128>;

/// Whether `item` occurs in `items` at `i` and nowhere before.
pub open spec fn first_at(items: Seq<u64>, item: u64, i: int) -> bool {
    &&& 0 <= i < items.len()
    &&& items[i] == item
    &&& forall|j: int| 0 <= j < i ==> items[j] != item
}

/// Calls `Vec::new` of `soroban_sdk`.
///
/// Trusted: the vector is empty.
#[verifier::external_body]
pub(crate) fn vec_new(e: &Env) -> (r: soroban_sdk::Vec<u64>)
    ensures
        items_of(r) == Seq::<u64>::empty(),
{
    soroban_sdk::Vec::new(e)
}

/// Calls `Vec::len` of `soroban_sdk`.
///
/// Trusted: the result is the number of items.
#[verifier::external_body]
pub(crate) fn vec_len(list: &soroban_sdk::Vec<u64>) -> (r: u32)
    ensures
        r == items_of(*list).len(),
{
    list.len()
}

/// Calls `Vec::get` of `soroban_sdk`, which aborts on an item that is no `u64`; the
/// items come from `vec_push_back` and `vec_push_front` alone.
///
/// Trusted: the result is the item at the position, and `None` beyond the end.
#[verifier::external_body]
pub(crate) fn vec_get(list: &soroban_sdk::Vec<u64>, i: u32) -> (r: Option<u64>)
    ensures
        r == if i < items_of(*list).len() {
            Some(items_of(*list)[i as int])
        } else {
            None
        },
{
    list.get(i)
}

/// Calls `Vec::contains` of `soroban_sdk`.
///
/// Trusted: the result says whether the item occurs.
#[verifier::external_body]
pub(crate) fn vec_contains(list: &soroban_sdk::Vec<u64>, item: u64) -> (r: bool)
    ensures
        r == items_of(*list).contains(item),
{
    list.contains(item)
}

/// Calls `Vec::first_index_of` of `soroban_sdk`.
///
/// Trusted: the result is the position of the item's first occurrence, and `None`
/// where it does not occur.
#[verifier::external_body]
pub(crate) fn vec_first_index_of(list: &soroban_sdk::Vec<u64>, item: u64) -> (r: Option<u32>)
    ensures
        match r {
            Some(i) => first_at(items_of(*list), item, i as int),
            None => !items_of(*list).contains(item),
        },
{
    list.first_index_of(item)
}

/// Calls `Vec::remove` of `soroban_sdk`.
///
/// Trusted: the item at the position is gone and the later ones have moved up; beyond
/// the end nothing changes and the result is `None`.
#[verifier::external_body]
pub(crate) fn vec_remove(list: &mut soroban_sdk::Vec<u64>, i: u32) -> (r: Option<()>)
    ensures
        i < items_of(*old(list)).len() ==> r == Some(()) && items_of(*final(list)) == items_of(
            *old(list),
        ).remove(i as int),
        i >= items_of(*old(list)).len() ==> r == None::<()> && items_of(*final(list)) == items_of(
            *old(list),
        ),
{
    list.remove(i)
}

/// Calls `Vec::push_front` of `soroban_sdk`.
///
/// Trusted: the item stands before all others.
#[verifier::external_body]
pub(crate) fn vec_push_front(list: &mut soroban_sdk::Vec<u64>, item: u64)
    requires
        items_of(*old(list)).len() < u32::MAX,
    ensures
        items_of(*final(list)) == items_of(*old(list)).insert(0, item),
{
    list.push_front(item)
}

/// Calls `Vec::push_back` of `soroban_sdk`.
///
/// Trusted: the item stands behind all others.
#[verifier::external_body]
pub(crate) fn vec_push_back(list: &mut soroban_sdk::Vec<u64>, item: u64)
    requires
        items_of(*old(list)).len() < u32::MAX,
    ensures
        items_of(*final(list)) == items_of(*old(list)).push(item),
{
    list.push_back(item)
}

/// Calls `Map::new` of `soroban_sdk`.
///
/// Trusted: the map is empty.
#[verifier::external_body]
pub(crate) fn map_new(e: &Env) -> (r: soroban_sdk::Map<u64, i128>)
    ensures
        (entries_of(r) == Map::<u64, i128>::empty()),
{
    soroban_sdk::Map::new(e)
}

/// Calls `Map::contains_key` of `soroban_sdk`.
///
/// Trusted: the result says whether the key has an entry.
#[verifier::external_body]
pub(crate) fn map_contains_key(map: &soroban_sdk::Map<u64, i128>, key: u64) -> (r: bool)
    ensures
        r == entries_of(*map).contains_key(key),
{
    map.contains_key(key)
}

/// Calls `Map::set` of `soroban_sdk`.
///
/// Trusted: the key has the value, in place of any that it had, and the other
/// entries are as before.
#[verifier::external_body]
pub(crate) fn map_set(map: &mut soroban_sdk::Map<u64, i128>, key: u64, value: i128)
    ensures
        entries_of(*final(map)) == entries_of(*old(map)).insert(key, value),
{
    map.set(key, value)
}

} // verus!
