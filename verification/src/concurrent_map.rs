//! Trusted bridge to `dashmap::DashMap`, the sharded concurrent map that
//! backs the in-memory store. Verus sees each map only through an
//! uninterpreted contents function; the wrappers' contracts state what
//! dashmap's documentation promises of each call.

use vstd::prelude::*;
use crate::snapshot::{SnapshotView, StateSnapshot};

verus! {

#[verifier::external_type_specification]
#[verifier::external_body]
#[verifier::reject_recursive_types(K)]
#[verifier::reject_recursive_types(V)]
#[verifier::reject_recursive_types(S)]
pub struct ExDashMap<K, V, S>(dashmap::DashMap<K, V, S>);

/// The views of a sequence of snapshots.
pub open spec fn snapshots_view(s: Seq<StateSnapshot>) -> Seq<SnapshotView> {
    s.map_values(|x: StateSnapshot| x@)
}

/// The entries of a map from user ids to snapshots, keyed by the id's
/// characters.
pub uninterp spec fn snapshot_entries(m: dashmap::DashMap<String, StateSnapshot>) -> Map<
    Seq<char>,
    SnapshotView,
>;

/// The contents of a snapshot map with nothing in it.
pub open spec fn no_snapshots() -> Map<Seq<char>, SnapshotView> {
    Map::empty()
}

/// The entries of a map from user ids to snapshot histories, keyed by the
/// id's characters.
pub uninterp spec fn history_entries(m: dashmap::DashMap<String, Vec<StateSnapshot>>) -> Map<
    Seq<char>,
    Seq<SnapshotView>,
>;

/// The contents of a history map with nothing in it.
pub open spec fn no_histories() -> Map<Seq<char>, Seq<SnapshotView>> {
    Map::empty()
}

/// Relies on dashmap::DashMap::new: the new map holds no entries.
#[verifier::external_body]
pub(crate) fn snapshot_map_new() -> (r: dashmap::DashMap<String, StateSnapshot>)
    ensures
        snapshot_entries(r) == no_snapshots(),
{
    dashmap::DashMap::new()
}

/// Relies on dashmap::DashMap::insert: the value is stored under the key
/// and every other entry is kept.
#[verifier::external_body]
pub(crate) fn snapshot_map_insert(
    m: &mut dashmap::DashMap<String, StateSnapshot>,
    key: String,
    value: StateSnapshot,
)
    ensures
        snapshot_entries(*final(m)) == snapshot_entries(*old(m)).insert(key@, value@),
{
    m.insert(key, value);
}

/// Relies on dashmap::DashMap::get: the entry stored under the key, if
/// any, here handed out as a copy.
#[verifier::external_body]
pub(crate) fn snapshot_map_get(m: &dashmap::DashMap<String, StateSnapshot>, key: &str) -> (r:
    Option<StateSnapshot>)
    ensures
        r is Some <==> snapshot_entries(*m).dom().contains(key@),
        r is Some ==> r->0@ == snapshot_entries(*m)[key@],
{
    m.get(key).map(|entry| entry.value().clone())
}

/// Relies on dashmap::DashMap::remove: the entry under the key is gone and
/// every other entry is kept.
#[verifier::external_body]
pub(crate) fn snapshot_map_remove(m: &mut dashmap::DashMap<String, StateSnapshot>, key: &str)
    ensures
        snapshot_entries(*final(m)) == snapshot_entries(*old(m)).remove(key@),
{
    m.remove(key);
}

/// Relies on dashmap::DashMap::len: how many entries the map holds.
#[verifier::external_body]
pub(crate) fn snapshot_map_len(m: &dashmap::DashMap<String, StateSnapshot>) -> (r: usize)
    ensures
        r == snapshot_entries(*m).dom().len(),
{
    m.len()
}

/// Relies on dashmap::DashMap::is_empty: true exactly when the map holds
/// no entry.
#[verifier::external_body]
pub(crate) fn snapshot_map_is_empty(m: &dashmap::DashMap<String, StateSnapshot>) -> (r: bool)
    ensures
        r == (snapshot_entries(*m) == no_snapshots()),
{
    m.is_empty()
}

/// Relies on dashmap::DashMap::clear: every entry is removed.
#[verifier::external_body]
pub(crate) fn snapshot_map_clear(m: &mut dashmap::DashMap<String, StateSnapshot>)
    ensures
        snapshot_entries(*final(m)) == no_snapshots(),
{
    m.clear();
}

/// Relies on dashmap::DashMap::new: the new map holds no entries.
#[verifier::external_body]
pub(crate) fn history_map_new() -> (r: dashmap::DashMap<String, Vec<StateSnapshot>>)
    ensures
        history_entries(r) == no_histories(),
{
    dashmap::DashMap::new()
}

/// Relies on dashmap::DashMap::insert: the value is stored under the key
/// and every other entry is kept.
#[verifier::external_body]
pub(crate) fn history_map_insert(
    m: &mut dashmap::DashMap<String, Vec<StateSnapshot>>,
    key: String,
    value: Vec<StateSnapshot>,
)
    ensures
        history_entries(*final(m)) == history_entries(*old(m)).insert(key@, snapshots_view(value@)),
{
    m.insert(key, value);
}

/// Relies on dashmap::DashMap::get: the entry stored under the key, if
/// any, here handed out as a copy.
#[verifier::external_body]
pub(crate) fn history_map_get(m: &dashmap::DashMap<String, Vec<StateSnapshot>>, key: &str) -> (r:
    Option<Vec<StateSnapshot>>)
    ensures
        r is Some <==> history_entries(*m).dom().contains(key@),
        r is Some ==> snapshots_view(r->0@) == history_entries(*m)[key@],
{
    m.get(key).map(|entry| entry.value().clone())
}

/// Relies on dashmap::DashMap::remove: the entry under the key is gone and
/// every other entry is kept.
#[verifier::external_body]
pub(crate) fn history_map_remove(m: &mut dashmap::DashMap<String, Vec<StateSnapshot>>, key: &str)
    ensures
        history_entries(*final(m)) == history_entries(*old(m)).remove(key@),
{
    m.remove(key);
}

/// Relies on dashmap::DashMap::clear: every entry is removed.
#[verifier::external_body]
pub(crate) fn history_map_clear(m: &mut dashmap::DashMap<String, Vec<StateSnapshot>>)
    ensures
        history_entries(*final(m)) == no_histories(),
{
    m.clear();
}

} // verus!
