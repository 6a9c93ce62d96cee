//! The storage contract every state-store backend answers to, stated
//! over the same models as the in-memory store and proved by its
//! implementation. A server front end is free to wrap it in whatever
//! asynchronous dispatch it needs.

use vstd::prelude::*;
use crate::snapshot::{valid_snapshot, SnapshotView, StateSnapshot};
use crate::store::{hist_push, hist_take, MemoryStore, StoreError};

verus! {

/// A store of per-user snapshots with an optional bounded history.
pub trait StateStore: Sized {
    /// The map from user id to latest snapshot.
    spec fn latest_view(&self) -> Map<Seq<char>, SnapshotView>;

    /// The map from user id to history, most-recent-first.
    spec fn history_view(&self) -> Map<Seq<char>, Seq<SnapshotView>>;

    /// Whether this store keeps history.
    spec fn history_enabled(&self) -> bool;

    /// Most historical snapshots kept per user.
    spec fn max_history(&self) -> nat;

    /// The store's internal invariant.
    spec fn wf(&self) -> bool;

    /// Validates the snapshot and, on success, records it as the user's
    /// latest, pushing it onto a kept history bounded by the cap. An
    /// invalid snapshot changes nothing.
    fn upsert_latest(&mut self, snapshot: StateSnapshot) -> (r: Result<(), StoreError>)
        requires
            old(self).wf(),
        ensures
            final(self).wf(),
            final(self).history_enabled() == old(self).history_enabled(),
            final(self).max_history() == old(self).max_history(),
            r is Ok <==> valid_snapshot(snapshot@),
            r is Err ==> *final(self) == *old(self),
            r is Ok ==> final(self).latest_view() == old(self).latest_view().insert(
                snapshot@.user_id,
                snapshot@,
            ),
            r is Ok && old(self).history_enabled() ==> final(self).history_view() == old(
                self,
            ).history_view().insert(
                snapshot@.user_id,
                hist_push(
                    if old(self).history_view().dom().contains(snapshot@.user_id) {
                        old(self).history_view()[snapshot@.user_id]
                    } else {
                        Seq::empty()
                    },
                    snapshot@,
                    old(self).max_history(),
                ),
            ),
            r is Ok && !old(self).history_enabled() ==> final(self).history_view() == old(
                self,
            ).history_view(),
    ;

    /// The latest snapshot stored for the user, if any.
    fn get_latest(&self, user_id: &str) -> (r: Result<Option<StateSnapshot>, StoreError>)
        requires
            self.wf(),
        ensures
            r is Ok,
            r matches Ok(o) ==> (o is Some <==> self.latest_view().dom().contains(user_id@)),
            r matches Ok(o) && o matches Some(s) ==> s@ == self.latest_view()[user_id@],
    ;

    /// Removes all state for the user; succeeds whether or not the user
    /// had any.
    fn delete(&mut self, user_id: &str) -> (r: Result<(), StoreError>)
        requires
            old(self).wf(),
        ensures
            final(self).wf(),
            r is Ok,
            final(self).latest_view() == old(self).latest_view().remove(user_id@),
            final(self).history_view() == old(self).history_view().remove(user_id@),
            final(self).history_enabled() == old(self).history_enabled(),
            final(self).max_history() == old(self).max_history(),
    ;

    /// Up to `limit` historical snapshots for the user,
    /// most-recent-first.
    fn get_history(&self, user_id: &str, limit: usize) -> (r: Result<
        Vec<StateSnapshot>,
        StoreError,
    >)
        requires
            self.wf(),
        ensures
            r is Ok,
            r matches Ok(v) ==> v@.map_values(|s: StateSnapshot| s@) == hist_take(
                if self.history_view().dom().contains(user_id@) {
                    self.history_view()[user_id@]
                } else {
                    Seq::empty()
                },
                limit as nat,
            ),
    ;

    /// Whether the store can accept requests.
    fn health_check(&self) -> (r: Result<bool, StoreError>)
        requires
            self.wf(),
        ensures
            r is Ok,
    ;
}

impl StateStore for MemoryStore {
    open spec fn latest_view(&self) -> Map<Seq<char>, SnapshotView> {
        MemoryStore::latest_view(self)
    }

    open spec fn history_view(&self) -> Map<Seq<char>, Seq<SnapshotView>> {
        MemoryStore::history_view(self)
    }

    open spec fn history_enabled(&self) -> bool {
        MemoryStore::history_enabled(self)
    }

    open spec fn max_history(&self) -> nat {
        MemoryStore::max_history(self)
    }

    open spec fn wf(&self) -> bool {
        MemoryStore::wf(self)
    }

    fn upsert_latest(&mut self, snapshot: StateSnapshot) -> (r: Result<(), StoreError>) {
        MemoryStore::upsert_latest(self, snapshot)
    }

    fn get_latest(&self, user_id: &str) -> (r: Result<Option<StateSnapshot>, StoreError>) {
        MemoryStore::get_latest(self, user_id)
    }

    fn delete(&mut self, user_id: &str) -> (r: Result<(), StoreError>) {
        MemoryStore::delete(self, user_id)
    }

    fn get_history(&self, user_id: &str, limit: usize) -> (r: Result<
        Vec<StateSnapshot>,
        StoreError,
    >) {
        MemoryStore::get_history(self, user_id, limit)
    }

    fn health_check(&self) -> (r: Result<bool, StoreError>) {
        MemoryStore::health_check(self)
    }
}

} // verus!
