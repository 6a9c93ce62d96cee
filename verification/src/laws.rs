//! The store's laws, proved over the same models its contracts use: a
//! write is read back, deletion is idempotent, a bounded history keeps
//! exactly the newest entries most-recent-first, and distinct writers
//! each get their own slot.

use vstd::prelude::*;
use crate::snapshot::SnapshotView;
use crate::store::hist_push;

verus! {

/// Read-after-write: once `MemoryStore::upsert_latest` has stored a
/// snapshot — its ensures makes the latest map `m.insert(s.user_id, s)` —
/// `MemoryStore::get_latest` on that user, whose ensures reads that map,
/// returns exactly the stored snapshot.
pub proof fn lemma_read_after_write(m: Map<Seq<char>, SnapshotView>, s: SnapshotView)
    ensures
        m.insert(s.user_id, s).dom().contains(s.user_id),
        m.insert(s.user_id, s)[s.user_id] == s,
{
}

/// Deleting twice leaves what deleting once leaves: the maps
/// `MemoryStore::delete` produces, `m.remove(user_id)` by its ensures,
/// are unchanged by a second removal of the same user — and by its
/// ensures `delete` succeeds whether or not the user was ever seen.
pub proof fn lemma_delete_idempotent<V>(m: Map<Seq<char>, V>, user_id: Seq<char>)
    ensures
        m.remove(user_id).remove(user_id) == m.remove(user_id),
{
    assert(m.remove(user_id).remove(user_id) =~= m.remove(user_id));
}

/// The history one user accumulates when the snapshots in `inserts` are
/// stored in order, each step being the `hist_push` that
/// `MemoryStore::upsert_latest` promises.
pub open spec fn hist_after(inserts: Seq<SnapshotView>, cap: nat) -> Seq<SnapshotView>
    decreases inserts.len(),
{
    if inserts.len() == 0 {
        Seq::empty()
    } else {
        hist_push(hist_after(inserts.drop_last(), cap), inserts.last(), cap)
    }
}

/// One more stored snapshot extends the accumulated history by one
/// `hist_push`, the step `MemoryStore::upsert_latest` promises.
pub proof fn lemma_hist_after_step(inserts: Seq<SnapshotView>, s: SnapshotView, cap: nat)
    ensures
        hist_after(inserts.push(s), cap) == hist_push(hist_after(inserts, cap), s, cap),
{
    assert(inserts.push(s).drop_last() =~= inserts);
    assert(inserts.push(s).last() == s);
}

/// A history with cap `N` holds, after `M` snapshots are stored for one
/// user, exactly `min(M, N)` entries, most-recent-first: entry `i` is the
/// `i`-th-newest of the stored snapshots.
pub proof fn lemma_history_bounded_order(inserts: Seq<SnapshotView>, cap: nat)
    ensures
        hist_after(inserts, cap).len() == if inserts.len() <= cap {
            inserts.len()
        } else {
            cap
        },
        forall|i: int|
            0 <= i < hist_after(inserts, cap).len() ==> #[trigger] hist_after(inserts, cap)[i]
                == inserts[inserts.len() - 1 - i],
    decreases inserts.len(),
{
    if inserts.len() > 0 {
        let shorter = inserts.drop_last();
        lemma_history_bounded_order(shorter, cap);
        let h = hist_after(shorter, cap);
        let p = seq![inserts.last()] + h;
        assert(p[0] == inserts.last());
        assert forall|i: int| 0 <= i < hist_after(inserts, cap).len() implies #[trigger]
            hist_after(inserts, cap)[i] == inserts[inserts.len() - 1 - i] by {
            if p.len() <= cap {
                assert(hist_after(inserts, cap) == p);
            } else {
                assert(hist_after(inserts, cap) == p.take(cap as int));
                assert(p.take(cap as int)[i] == p[i]);
            }
            if i == 0 {
                assert(p[0] == inserts[inserts.len() - 1]);
            } else {
                assert(p[i] == h[i - 1]);
                assert(h[i - 1] == shorter[shorter.len() - 1 - (i - 1)]);
                assert(shorter[shorter.len() - 1 - (i - 1)] == inserts[inserts.len() - 1 - i]);
            }
        }
    }
}

/// When more snapshots are stored for one user than the cap `N` admits,
/// the oldest ones are exactly what the history no longer holds: with all
/// stored snapshots distinct, none of the first `M - N` appears in it.
pub proof fn lemma_history_evicts_oldest(inserts: Seq<SnapshotView>, cap: nat)
    requires
        forall|i: int, j: int| 0 <= i < j < inserts.len() ==> inserts[i] != inserts[j],
        cap < inserts.len(),
    ensures
        forall|i: int|
            0 <= i < inserts.len() - cap ==> !hist_after(inserts, cap).contains(
                #[trigger] inserts[i],
            ),
{
    lemma_history_bounded_order(inserts, cap);
    let h = hist_after(inserts, cap);
    assert forall|i: int| 0 <= i < inserts.len() - cap implies !h.contains(
        #[trigger] inserts[i],
    ) by {
        if h.contains(inserts[i]) {
            let j = choose|j: int| 0 <= j < h.len() && h[j] == inserts[i];
            assert(h[j] == inserts[inserts.len() - 1 - j]);
            assert(inserts.len() - 1 - j > i);
        }
    }
}

/// The map `inserts` produces when each snapshot in turn takes its
/// user's slot, the step `MemoryStore::upsert_latest` promises.
pub open spec fn latest_after(
    m: Map<Seq<char>, SnapshotView>,
    inserts: Seq<SnapshotView>,
) -> Map<Seq<char>, SnapshotView>
    decreases inserts.len(),
{
    if inserts.len() == 0 {
        m
    } else {
        latest_after(m, inserts.drop_last()).insert(inserts.last().user_id, inserts.last())
    }
}

/// Writers for distinct users each get their own slot: storing `N`
/// snapshots with pairwise distinct, previously unseen user ids grows the
/// latest map by exactly `N` users. With `MemoryStore::upsert_latest`'s
/// ensures that every valid snapshot is accepted, all `N` writes succeed
/// and a store that began empty reports size `N` afterward.
pub proof fn lemma_distinct_users_each_counted(
    m: Map<Seq<char>, SnapshotView>,
    inserts: Seq<SnapshotView>,
)
    requires
        m.dom().finite(),
        forall|i: int, j: int|
            0 <= i < j < inserts.len() ==> (#[trigger] inserts[i]).user_id != (
            #[trigger] inserts[j]).user_id,
        forall|i: int| 0 <= i < inserts.len() ==> !m.dom().contains((#[trigger] inserts[i]).user_id),
    ensures
        latest_after(m, inserts).dom().finite(),
        latest_after(m, inserts).dom().len() == m.dom().len() + inserts.len(),
    decreases inserts.len(),
{
    if inserts.len() > 0 {
        let shorter = inserts.drop_last();
        lemma_distinct_users_each_counted(m, shorter);
        let before = latest_after(m, shorter);
        let last = inserts.last();
        assert(!m.dom().contains(last.user_id));
        lemma_latest_after_dom(m, shorter);
        assert(!before.dom().contains(last.user_id)) by {
            if before.dom().contains(last.user_id) {
                if !m.dom().contains(last.user_id) {
                    let j = choose|j: int|
                        0 <= j < shorter.len() && (#[trigger] shorter[j]).user_id == last.user_id;
                    assert(inserts[j].user_id == inserts[inserts.len() - 1].user_id);
                }
            }
        }
        assert(before.insert(last.user_id, last).dom() =~= before.dom().insert(last.user_id));
        vstd::set::axiom_set_insert_len(before.dom(), last.user_id);
    }
}

/// The users a run of stores reaches: those already present and those
/// written.
proof fn lemma_latest_after_dom(m: Map<Seq<char>, SnapshotView>, inserts: Seq<SnapshotView>)
    ensures
        forall|k: Seq<char>|
            #![trigger latest_after(m, inserts).dom().contains(k)]
            latest_after(m, inserts).dom().contains(k) <==> (m.dom().contains(k) || exists|j: int|
                0 <= j < inserts.len() && (#[trigger] inserts[j]).user_id == k),
    decreases inserts.len(),
{
    if inserts.len() > 0 {
        let shorter = inserts.drop_last();
        lemma_latest_after_dom(m, shorter);
        let last = inserts.last();
        assert forall|k: Seq<char>|
            latest_after(m, inserts).dom().contains(k) implies (m.dom().contains(k) || exists|
            j: int,
        | 0 <= j < inserts.len() && (#[trigger] inserts[j]).user_id == k) by {
            if k == last.user_id {
                assert(inserts[inserts.len() - 1].user_id == k);
            } else {
                assert(latest_after(m, shorter).dom().contains(k));
                if !m.dom().contains(k) {
                    let j = choose|j: int|
                        0 <= j < shorter.len() && (#[trigger] shorter[j]).user_id == k;
                    assert(inserts[j].user_id == k);
                }
            }
        }
        assert forall|k: Seq<char>|
            (m.dom().contains(k) || exists|j: int|
                0 <= j < inserts.len() && (#[trigger] inserts[j]).user_id == k) implies latest_after(
            m,
            inserts,
        ).dom().contains(k) by {
            if m.dom().contains(k) {
                assert(latest_after(m, shorter).dom().contains(k));
            } else {
                let j = choose|j: int|
                    0 <= j < inserts.len() && (#[trigger] inserts[j]).user_id == k;
                if j < inserts.len() - 1 {
                    assert(shorter[j].user_id == k);
                    assert(latest_after(m, shorter).dom().contains(k));
                } else {
                    assert(k == last.user_id);
                }
            }
        }
    }
}

} // verus!
