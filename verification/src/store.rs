//! The in-memory state store: a concurrent map from user id to that
//! user's latest snapshot, with an optional bounded per-user history kept
//! most-recent-first.

use vstd::prelude::*;
use vstd::string::StringExecFns;
use crate::concurrent_map::{
    history_entries, history_map_clear, history_map_get, history_map_insert, history_map_new,
    history_map_remove, no_histories, no_snapshots, snapshot_entries, snapshot_map_clear,
    snapshot_map_get, snapshot_map_insert, snapshot_map_is_empty, snapshot_map_len,
    snapshot_map_new, snapshot_map_remove, snapshots_view,
};
use crate::snapshot::{
    error_reflects_issue, valid_snapshot, SnapshotView, StateSnapshot, ValidationError,
};

verus! {

/// Failures of a state store.
#[derive(Debug)]
pub enum StoreError {
    /// The user has no stored state.
    UserNotFound {
        /// The user id that was looked up.
        user_id: String,
    },
    /// An internal failure of the store.
    Internal {
        /// What went wrong.
        message: String,
    },
    /// A failure to reach a remote store.
    Connection {
        /// What went wrong.
        message: String,
    },
    /// The snapshot failed validation and was not stored.
    Validation(ValidationError),
}

impl StoreError {
    /// An internal error with the given message.
    pub fn internal(message: &str) -> (r: Self)
        ensures
            r matches StoreError::Internal { message: m } && m@ == message@,
    {
        StoreError::Internal { message: String::from_str(message) }
    }

    /// A connection error with the given message.
    pub fn connection(message: &str) -> (r: Self)
        ensures
            r matches StoreError::Connection { message: m } && m@ == message@,
    {
        StoreError::Connection { message: String::from_str(message) }
    }
}

/// Configuration of the in-memory store.
#[derive(Clone, Copy, Debug, PartialEq, Eq, Structural)]
pub struct MemoryStoreConfig {
    /// Whether to keep historical snapshots.
    pub enable_history: bool,
    /// Most historical snapshots kept per user.
    pub max_history_per_user: usize,
}

impl Default for MemoryStoreConfig {
    /// History disabled, with a cap of one hundred should it be enabled.
    fn default() -> (r: Self)
        ensures
            r.enable_history == false,
            r.max_history_per_user == 100,
    {
        MemoryStoreConfig { enable_history: false, max_history_per_user: 100 }
    }
}

/// A history after a snapshot is pushed to its front and the result is
/// trimmed from the back to the cap.
pub open spec fn hist_push(h: Seq<SnapshotView>, s: SnapshotView, cap: nat) -> Seq<SnapshotView> {
    let p = seq![s] + h;
    if p.len() <= cap {
        p
    } else {
        p.take(cap as int)
    }
}

/// The prefix of `h` of length `limit`, or all of `h` when it is shorter.
pub open spec fn hist_take(h: Seq<SnapshotView>, limit: nat) -> Seq<SnapshotView> {
    if h.len() <= limit {
        h
    } else {
        h.take(limit as int)
    }
}

/// Thread-safe in-memory state store over sharded concurrent maps.
pub struct MemoryStore {
    latest: dashmap::DashMap<String, StateSnapshot>,
    history: Option<dashmap::DashMap<String, Vec<StateSnapshot>>>,
    config: MemoryStoreConfig,
}

impl MemoryStore {
    /// The map from user id to latest snapshot.
    pub closed spec fn latest_view(&self) -> Map<Seq<char>, SnapshotView> {
        snapshot_entries(self.latest)
    }

    /// The map from user id to history, most-recent-first; empty when
    /// history is disabled.
    pub closed spec fn history_view(&self) -> Map<Seq<char>, Seq<SnapshotView>> {
        match self.history {
            Some(h) => history_entries(h),
            None => Map::empty(),
        }
    }

    /// Whether this store keeps history.
    pub closed spec fn history_enabled(&self) -> bool {
        self.config.enable_history
    }

    /// The most historical snapshots kept per user.
    pub closed spec fn max_history(&self) -> nat {
        self.config.max_history_per_user as nat
    }

    /// The store's internal invariant: finite contents, history present
    /// exactly when enabled and bounded by the cap, and only validated
    /// snapshots stored.
    pub closed spec fn wf(&self) -> bool {
        &&& self.latest_view().dom().finite()
        &&& self.history_view().dom().finite()
        &&& (self.history is Some <==> self.config.enable_history)
        &&& forall|k: Seq<char>|
            self.history_view().dom().contains(k) ==> #[trigger] self.history_view()[k].len()
                <= self.max_history()
        &&& forall|k: Seq<char>|
            self.latest_view().dom().contains(k) ==> valid_snapshot(
                #[trigger] self.latest_view()[k],
            )
    }

    /// A new store with the given configuration and nothing in it.
    pub fn new(config: MemoryStoreConfig) -> (r: Self)
        ensures
            r.wf(),
            r.latest_view() == no_snapshots(),
            r.history_view() == no_histories(),
            r.history_enabled() == config.enable_history,
            r.max_history() == config.max_history_per_user as nat,
    {
        let history = if config.enable_history {
            Some(history_map_new())
        } else {
            None
        };
        let r = MemoryStore { latest: snapshot_map_new(), history, config };
        proof {
            assert(r.history_view() =~= no_histories());
        }
        r
    }

    /// How many users have stored state.
    pub fn len(&self) -> (r: usize)
        ensures
            r == self.latest_view().dom().len(),
    {
        snapshot_map_len(&self.latest)
    }

    /// Whether no user has stored state.
    pub fn is_empty(&self) -> (r: bool)
        ensures
            r == (self.latest_view() == no_snapshots()),
    {
        snapshot_map_is_empty(&self.latest)
    }

    /// Removes all stored state for all users.
    pub fn clear(&mut self)
        requires
            old(self).wf(),
        ensures
            final(self).wf(),
            final(self).latest_view() == no_snapshots(),
            final(self).history_view() == no_histories(),
            final(self).history_enabled() == old(self).history_enabled(),
            final(self).max_history() == old(self).max_history(),
    {
        snapshot_map_clear(&mut self.latest);
        if let Some(h) = &mut self.history {
            history_map_clear(h);
        }
        proof {
            assert(self.history_view() =~= no_histories());
        }
    }

    /// Validates the snapshot and, on success, pushes it to the front of
    /// the user's history (when history is kept, trimming to the cap) and
    /// replaces the user's latest snapshot. An invalid snapshot is
    /// rejected without any change to the store.
    pub fn upsert_latest(&mut self, snapshot: StateSnapshot) -> (r: Result<(), StoreError>)
        requires
            old(self).wf(),
        ensures
            final(self).wf(),
            final(self).history_enabled() == old(self).history_enabled(),
            final(self).max_history() == old(self).max_history(),
            r is Ok <==> valid_snapshot(snapshot@),
            r matches Err(se) ==> se matches StoreError::Validation(e) && error_reflects_issue(
                e,
                snapshot@,
            ) && *final(self) == *old(self),
            r is Ok ==> final(self).latest_view() == old(self).latest_view().insert(
                snapshot@.user_id,
                snapshot@,
            ),
            r is Ok && old(self).history_enabled() ==> final(self).history_view() == old(
                self,
            ).history_view().insert(
                snapshot@.user_id,
                hist_push(
                    if old(self).history_view().dom().contains(snapshot@.user_id) {
                        old(self).history_view()[snapshot@.user_id]
                    } else {
                        Seq::empty()
                    },
                    snapshot@,
                    old(self).max_history(),
                ),
            ),
            r is Ok && !old(self).history_enabled() ==> final(self).history_view() == old(
                self,
            ).history_view(),
    {
        match snapshot.validate() {
            Err(e) => {
                return Err(StoreError::Validation(e));
            },
            Ok(()) => {},
        }
        let max = self.config.max_history_per_user;
        let user_id = snapshot.user_id.clone();
        assert(user_id@ == snapshot@.user_id);
        if let Some(h) = &mut self.history {
            let ghost old_hist = if history_entries(*h).dom().contains(user_id@) {
                history_entries(*h)[user_id@]
            } else {
                Seq::empty()
            };
            let prior: Vec<StateSnapshot> = match history_map_get(h, user_id.as_str()) {
                Some(v) => v,
                None => Vec::new(),
            };
            proof {
                assert(snapshots_view(prior@) =~= old_hist);
            }
            let mut trimmed: Vec<StateSnapshot> = Vec::new();
            if max > 0 {
                trimmed.push(snapshot.clone());
                let mut i: usize = 0;
                while i < prior.len() && trimmed.len() < max
                    invariant
                        i <= prior@.len(),
                        max > 0,
                        snapshots_view(prior@) == old_hist,
                        trimmed@.len() == i + 1,
                        trimmed@.len() <= max,
                        snapshots_view(trimmed@) =~= (seq![snapshot@] + old_hist).take(
                            i + 1,
                        ),
                    decreases prior@.len() - i,
                {
                    trimmed.push(prior[i].clone());
                    proof {
                        assert(prior@[i as int]@ == old_hist[i as int]);
                        assert(snapshots_view(trimmed@) =~= (seq![snapshot@] + old_hist).take(
                            i + 2,
                        ));
                    }
                    i = i + 1;
                }
                proof {
                    assert(snapshots_view(trimmed@) =~= hist_push(
                        old_hist,
                        snapshot@,
                        max as nat,
                    ));
                }
            } else {
                proof {
                    assert(snapshots_view(trimmed@) =~= hist_push(
                        old_hist,
                        snapshot@,
                        max as nat,
                    ));
                }
            }
            history_map_insert(h, user_id.clone(), trimmed);
        }
        snapshot_map_insert(&mut self.latest, user_id, snapshot);
        Ok(())
    }

    /// The latest snapshot stored for the user, if any.
    pub fn get_latest(&self, user_id: &str) -> (r: Result<Option<StateSnapshot>, StoreError>)
        ensures
            r is Ok,
            r matches Ok(o) ==> (o is Some <==> self.latest_view().dom().contains(user_id@)),
            r matches Ok(o) && o matches Some(s) ==> s@ == self.latest_view()[user_id@],
    {
        Ok(snapshot_map_get(&self.latest, user_id))
    }

    /// Removes the latest snapshot and the history for the user. Succeeds
    /// whether or not the user had any state.
    pub fn delete(&mut self, user_id: &str) -> (r: Result<(), StoreError>)
        requires
            old(self).wf(),
        ensures
            final(self).wf(),
            r is Ok,
            final(self).latest_view() == old(self).latest_view().remove(user_id@),
            final(self).history_view() == old(self).history_view().remove(user_id@),
            final(self).history_enabled() == old(self).history_enabled(),
            final(self).max_history() == old(self).max_history(),
    {
        snapshot_map_remove(&mut self.latest, user_id);
        if let Some(h) = &mut self.history {
            history_map_remove(h, user_id);
        }
        proof {
            if self.history is None {
                assert(self.history_view() =~= old(self).history_view().remove(user_id@));
            }
        }
        Ok(())
    }

    /// Up to `limit` historical snapshots for the user, most-recent-first;
    /// empty when history is disabled or the user has none.
    pub fn get_history(&self, user_id: &str, limit: usize) -> (r: Result<
        Vec<StateSnapshot>,
        StoreError,
    >)
        ensures
            r is Ok,
            r matches Ok(v) ==> snapshots_view(v@) == hist_take(
                if self.history_view().dom().contains(user_id@) {
                    self.history_view()[user_id@]
                } else {
                    Seq::empty()
                },
                limit as nat,
            ),
    {
        let stored: Option<Vec<StateSnapshot>> = match &self.history {
            Some(h) => history_map_get(h, user_id),
            None => None,
        };
        match stored {
            None => {
                let r: Vec<StateSnapshot> = Vec::new();
                proof {
                    assert(snapshots_view(r@) =~= Seq::<SnapshotView>::empty());
                    assert(hist_take(Seq::empty(), limit as nat) =~= Seq::<
                        SnapshotView,
                    >::empty());
                }
                Ok(r)
            },
            Some(v) => {
                let ghost full = snapshots_view(v@);
                let mut r: Vec<StateSnapshot> = Vec::new();
                let mut i: usize = 0;
                while i < v.len() && i < limit
                    invariant
                        i <= v@.len(),
                        i <= limit,
                        full == snapshots_view(v@),
                        r@.len() == i,
                        snapshots_view(r@) =~= full.take(i as int),
                    decreases v@.len() - i,
                {
                    r.push(v[i].clone());
                    proof {
                        assert(v@[i as int]@ == full[i as int]);
                        assert(snapshots_view(r@) =~= full.take(i + 1));
                    }
                    i = i + 1;
                }
                proof {
                    assert(snapshots_view(r@) =~= hist_take(full, limit as nat));
                }
                Ok(r)
            },
        }
    }

    /// Whether the store can accept requests; the in-memory store always
    /// can.
    pub fn health_check(&self) -> (r: Result<bool, StoreError>)
        ensures
            r matches Ok(b) && b,
    {
        Ok(true)
    }
}

impl Default for MemoryStore {
    /// A store with the default configuration and nothing in it.
    fn default() -> (r: Self)
        ensures
            r.wf(),
            r.latest_view() == no_snapshots(),
            r.history_view() == no_histories(),
            r.history_enabled() == false,
    {
        MemoryStore::new(MemoryStoreConfig::default())
    }
}

} // verus!
