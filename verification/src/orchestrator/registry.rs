//! The task registry's storage: a `DashMap` from task identifier to task.
//!
//! Verus does not look inside a `DashMap`. `entries` names what one holds,
//! and each function here states, of one method, what the method does to
//! that. The registry has a single owner, so the methods that change the map
//! are called through `&mut`: what is said of a map is then true until its
//! owner changes it.

use super::TaskInfo;
use dashmap::DashMap;
use vstd::prelude::*;

verus! {

#[verifier::external_type_specification]
#[verifier::external_body]
#[verifier::reject_recursive_types(K)]
#[verifier::reject_recursive_types(V)]
#[verifier::reject_recursive_types(S)]
pub struct ExDashMap<K, V, S>(DashMap<K, V, S>);

/// The entries of a map.
pub uninterp spec fn entries(map: DashMap<u128, TaskInfo>) -> Map<u128, TaskInfo>;

/// `DashMap::new`.
///
/// Trusted: the new map has no entry.
#[verifier::external_body]
pub(crate) fn registry_new() -> (map: DashMap<u128, TaskInfo>)
    ensures
        entries(map) == (Map::<u128, TaskInfo>::empty()),
{
    DashMap::new()
}

/// `DashMap::insert`.
///
/// Trusted: afterwards `id` stands for `info`, whether or not it stood for a
/// task before, and no other entry has changed.
#[verifier::external_body]
pub(crate) fn registry_insert(map: &mut DashMap<u128, TaskInfo>, id: u128, info: TaskInfo)
    ensures
        entries(*final(map)) == entries(*old(map)).insert(id, info),
{
    map.insert(id, info);
}

/// `DashMap::get`, and a clone of the task found.
///
/// Trusted: the task comes back exactly if `id` has an entry, and it is the
/// task of that entry.
#[verifier::external_body]
pub(crate) fn registry_get(map: &DashMap<u128, TaskInfo>, id: u128) -> (found: Option<TaskInfo>)
    ensures
        found == (if entries(*map).contains_key(id) {
            Some(entries(*map)[id])
        } else {
            None
        }),
{
    match map.get(&id) {
        Some(entry) => Some(entry.value().clone()),
        None => None,
    }
}

/// `DashMap::get_mut`, and an assignment through the reference it gives.
///
/// Trusted: if `id` has an entry, the entry holds `info` afterwards and
/// `true` comes back; if it has none, nothing changes and `false` comes
/// back.
#[verifier::external_body]
pub(crate) fn registry_update(map: &mut DashMap<u128, TaskInfo>, id: u128, info: TaskInfo) -> (found:
    bool)
    ensures
        found == entries(*old(map)).contains_key(id),
        entries(*final(map)) == (if found {
            entries(*old(map)).insert(id, info)
        } else {
            entries(*old(map))
        }),
{
    match map.get_mut(&id) {
        Some(mut entry) => {
            *entry = info;
            true
        },
        None => false,
    }
}

/// `DashMap::remove`.
///
/// Trusted: afterwards `id` has no entry, no other entry has changed, and
/// what comes back says whether `id` had one.
#[verifier::external_body]
pub(crate) fn registry_remove(map: &mut DashMap<u128, TaskInfo>, id: u128) -> (found: bool)
    ensures
        found == entries(*old(map)).contains_key(id),
        entries(*final(map)) == entries(*old(map)).remove(id),
{
    map.remove(&id).is_some()
}

/// `DashMap::iter`, with a clone of each entry it yields.
///
/// Trusted: the list holds every entry of the map, and each once. Nothing
/// is claimed of the order.
#[verifier::external_body]
pub(crate) fn registry_snapshot(map: &DashMap<u128, TaskInfo>) -> (list: Vec<(u128, TaskInfo)>)
    ensures
        forall|i: int|
            0 <= i < list@.len() ==> entries(*map).contains_pair(
                (#[trigger] list@[i]).0,
                list@[i].1,
            ),
        forall|i: int, j: int|
            0 <= i < j < list@.len() ==> (#[trigger] list@[i]).0 != (#[trigger] list@[j]).0,
        forall|id: u128| #[trigger]
            entries(*map).contains_key(id) ==> exists|i: int|
                0 <= i < list@.len() && (#[trigger] list@[i]).0 == id,
{
    let mut list = Vec::new();
    for entry in map.iter() {
        list.push((*entry.key(), entry.value().clone()));
    }
    list
}

} // verus!
