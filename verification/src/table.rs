//! The concurrent maps of `dashmap` that hold the gateway's tables, behind trusted
//! wrappers stated over names for their contents.

use dashmap::DashMap;
use std::collections::HashSet;
use vstd::prelude::*;

use crate::room::Room;

verus! {

/// The concurrent hash map of `dashmap`.
#[verifier::external_type_specification]
#[verifier::external_body]
#[verifier::reject_recursive_types(K)]
#[verifier::reject_recursive_types(V)]
#[verifier::reject_recursive_types(S)]
pub struct ExDashMap<K, V, S>(DashMap<K, V, S>);

/// The entries of a table of connection ids keyed by user id.
pub uninterp spec fn conn_table_view(m: DashMap<i64, Vec<u64>>) -> Map<i64, Seq<u64>>;

/// The user ids of each room of a table of rooms keyed by room id.
pub uninterp spec fn room_table_view(m: DashMap<i64, Room>) -> Map<i64, Set<i64>>;

/// Calls `DashMap::new`. Claimed: the table holds no entry.
#[verifier::external_body]
pub(crate) fn conn_table_new() -> (r: DashMap<i64, Vec<u64>>)
    ensures
        conn_table_view(r).dom() == Set::<i64>::empty(),
{
    DashMap::new()
}

/// Calls `DashMap::get` and clones the list found. Claimed: the list held under
/// `key`, or `None` where there is none.
#[verifier::external_body]
pub(crate) fn conn_table_get(m: &DashMap<i64, Vec<u64>>, key: i64) -> (r: Option<Vec<u64>>)
    ensures
        match r {
            Some(v) => conn_table_view(*m).contains_key(key) && v@ == conn_table_view(*m)[key],
            None => !conn_table_view(*m).contains_key(key),
        },
{
    match m.get(&key) {
        Some(entry) => Some(entry.value().clone()),
        None => None,
    }
}

/// Calls `DashMap::insert`. Claimed: `key` then holds `value` and no other entry
/// changes; the call does not unwind (hashing and comparing an `i64` cannot panic).
#[verifier::external_body]
pub(crate) fn conn_table_insert(m: &mut DashMap<i64, Vec<u64>>, key: i64, value: Vec<u64>)
    ensures
        conn_table_view(*final(m)) == conn_table_view(*old(m)).insert(key, value@),
    no_unwind
{
    m.insert(key, value);
}

/// Calls `DashMap::remove`. Claimed: `key` then holds nothing and no other entry
/// changes; the call does not unwind (hashing and comparing an `i64` cannot panic).
#[verifier::external_body]
pub(crate) fn conn_table_remove(m: &mut DashMap<i64, Vec<u64>>, key: i64)
    ensures
        conn_table_view(*final(m)) == conn_table_view(*old(m)).remove(key),
    no_unwind
{
    m.remove(&key);
}

/// Calls `DashMap::new`. Claimed: the table holds no room.
#[verifier::external_body]
pub(crate) fn room_table_new() -> (r: DashMap<i64, Room>)
    ensures
        room_table_view(r).dom() == Set::<i64>::empty(),
{
    DashMap::new()
}

/// Calls `DashMap::get` and clones the set of users of the room found. Claimed: the
/// users the table holds under `key`, or `None` where there is no such room.
#[verifier::external_body]
pub(crate) fn room_table_get_uids(m: &DashMap<i64, Room>, key: i64) -> (r: Option<HashSet<i64>>)
    ensures
        match r {
            Some(uids) => room_table_view(*m).contains_key(key) && uids@ == room_table_view(*m)[key],
            None => !room_table_view(*m).contains_key(key),
        },
{
    match m.get(&key) {
        Some(entry) => Some(entry.value().uids.clone()),
        None => None,
    }
}

} // verus!
