//! What holds of every registry: its invariant under each operation, and
//! the laws of reference counting, admission and garbage collection.

use vstd::prelude::*;
use crate::snap::error::SnapError;
use crate::snap::key::SnapKey;
use crate::snap::registry::{
    key_and_role,
    key_of,
    keys_occur_once,
    lemma_position_unique,
    reclaim_pred,
    state_pred,
    Entry,
    RegistryView,
};
use crate::snap::state::{Role, SnapshotState};

verus! {

/// Putting an entry in keeps the registry's invariant, provided that an
/// entry that is being received holds a permit.
pub proof fn lemma_with_entry_wf(r: RegistryView, e: Entry)
    requires
        r.wf(),
        e.state == SnapshotState::Receiving ==> r.is_admitted(e.key),
    ensures
        r.with_entry(e).wf(),
        r.with_entry(e).get(e.key) == Some(e),
        forall|k: SnapKey| k != e.key ==> r.with_entry(e).get(k) == r.get(k),
{
    let n = r.with_entry(e);
    if r.has(e.key) {
        let p = r.position(e.key);
        assert(n.entries[p] == e);
        assert forall|i: int, j: int| 0 <= i < j < n.entries.len() implies (
        #[trigger] n.entries[i]).key != (#[trigger] n.entries[j]).key by {
            assert(r.entries[i].key != r.entries[j].key);
        }
        assert forall|i: int|
            0 <= i < n.entries.len() && (#[trigger] n.entries[i]).state
                == SnapshotState::Receiving implies n.admitted.contains(n.entries[i].key) by {
            if i != p {
                assert(r.entries[i] == n.entries[i]);
            }
        }
        lemma_position_unique(n, p);
        assert forall|k: SnapKey| k != e.key implies n.get(k) == r.get(k) by {
            if r.has(k) {
                let q = r.position(k);
                assert(n.entries[q] == r.entries[q]);
                lemma_position_unique(n, q);
            } else if n.has(k) {
                let q = n.position(k);
                assert(r.entries[q].key == k);
            }
        }
    } else {
        let p = r.entries.len() as int;
        assert(n.entries[p] == e);
        assert forall|i: int, j: int| 0 <= i < j < n.entries.len() implies (
        #[trigger] n.entries[i]).key != (#[trigger] n.entries[j]).key by {
            if j < p {
                assert(r.entries[i].key != r.entries[j].key);
            } else {
                assert(r.entries[i].key != e.key);
            }
        }
        assert forall|i: int|
            0 <= i < n.entries.len() && (#[trigger] n.entries[i]).state
                == SnapshotState::Receiving implies n.admitted.contains(n.entries[i].key) by {
            if i != p {
                assert(r.entries[i] == n.entries[i]);
            }
        }
        lemma_position_unique(n, p);
        assert forall|k: SnapKey| k != e.key implies n.get(k) == r.get(k) by {
            if r.has(k) {
                let q = r.position(k);
                assert(n.entries[q] == r.entries[q]);
                lemma_position_unique(n, q);
            } else if n.has(k) {
                let q = n.position(k);
                assert(r.entries[q].key == k);
            }
        }
    }
}

/// Taking an entry out keeps the registry's invariant and leaves every
/// other key as it was.
pub proof fn lemma_without_wf(r: RegistryView, key: SnapKey)
    requires
        r.wf(),
    ensures
        r.without(key).wf(),
        !r.without(key).has(key),
        forall|k: SnapKey| k != key ==> r.without(key).get(k) == r.get(k),
{
    let n = r.without(key);
    if r.has(key) {
        let p = r.position(key);
        assert forall|i: int| 0 <= i < n.entries.len() implies #[trigger] n.entries[i] == r.entries[if i
            < p {
            i
        } else {
            i + 1
        }] by {}
        assert forall|i: int, j: int| 0 <= i < j < n.entries.len() implies (
        #[trigger] n.entries[i]).key != (#[trigger] n.entries[j]).key by {
            let a = if i < p { i } else { i + 1 };
            let b = if j < p { j } else { j + 1 };
            assert(r.entries[a].key != r.entries[b].key);
        }
        assert forall|i: int|
            0 <= i < n.entries.len() && (#[trigger] n.entries[i]).state
                == SnapshotState::Receiving implies n.admitted.contains(n.entries[i].key) by {
            let a = if i < p { i } else { i + 1 };
            assert(r.entries[a] == n.entries[i]);
        }
        if n.has(key) {
            let q = n.position(key);
            let a = if q < p { q } else { q + 1 };
            assert(r.entries[a].key == key);
            lemma_position_unique(r, a);
        }
        assert forall|k: SnapKey| k != key implies n.get(k) == r.get(k) by {
            if r.has(k) {
                let q = r.position(k);
                let b = if q < p { q } else { q - 1 };
                assert(n.entries[b] == r.entries[q]);
                lemma_position_unique(n, b);
            } else if n.has(k) {
                let q = n.position(k);
                let a = if q < p { q } else { q + 1 };
                assert(r.entries[a].key == k);
            }
        }
    }
}

/// Handing out a permit keeps the registry's invariant.
pub proof fn lemma_after_admit_wf(r: RegistryView, key: SnapKey)
    requires
        r.wf(),
    ensures
        r.after_admit(key).wf(),
{
    let n = r.after_admit(key);
    if r.admits(key) {
        assert forall|i: int|
            0 <= i < n.entries.len() && (#[trigger] n.entries[i]).state
                == SnapshotState::Receiving implies n.admitted.contains(n.entries[i].key) by {
            let k = n.entries[i].key;
            assert(r.admitted.contains(k));
            let w = choose|w: int| 0 <= w < r.admitted.len() && r.admitted[w] == k;
            assert(n.admitted[w] == k);
        }
    }
}

/// Taking one permit of a key out of the list leaves those of the other
/// keys, and makes the list shorter by one where the key had a permit.
pub proof fn lemma_remove_value_keeps_others(a: Seq<SnapKey>, key: SnapKey)
    ensures
        a.contains(key) ==> a.remove_value(key).len() == a.len() - 1,
        !a.contains(key) ==> a.remove_value(key) == a,
        forall|k: SnapKey| k != key && a.contains(k) ==> a.remove_value(key).contains(k),
{
    let b = a.remove_value(key);
    a.index_of_first_ensures(key);
    match a.index_of_first(key) {
        Some(p) => {
            assert(b == a.remove(p));
            assert forall|k: SnapKey| k != key && a.contains(k) implies b.contains(k) by {
                let w = choose|w: int| 0 <= w < a.len() && a[w] == k;
                let v = if w < p { w } else { w - 1 };
                assert(b[v] == k);
            }
        },
        None => {},
    }
}

/// Closing a stream keeps the registry's invariant. One permit comes back,
/// and a key that is left without a permit is not being received.
pub proof fn lemma_after_release_receive_wf(r: RegistryView, key: SnapKey)
    requires
        r.wf(),
    ensures
        r.after_release_receive(key).wf(),
        r.is_admitted(key) ==> r.after_release_receive(key).admitted.len() == r.admitted.len() - 1,
        r.closes_unfinished(key) ==> !r.after_release_receive(key).has(key),
        forall|k: SnapKey| k != key ==> r.after_release_receive(key).get(k) == r.get(k),
{
    let n = r.after_release_receive(key);
    lemma_remove_value_keeps_others(r.admitted, key);
    lemma_without_wf(r, key);
    if r.closes_unfinished(key) {
        let m = r.without(key);
        assert(n.entries == m.entries);
        assert forall|i: int|
            0 <= i < n.entries.len() && (#[trigger] n.entries[i]).state
                == SnapshotState::Receiving implies n.admitted.contains(n.entries[i].key) by {
            assert(m.entries[i].key != key) by {
                if m.entries[i].key == key {
                    assert(m.has(key));
                }
            }
            assert(m.admitted.contains(m.entries[i].key));
        }
        assert(!n.has(key)) by {
            if n.has(key) {
                let q = n.position(key);
                assert(m.entries[q].key == key);
                assert(m.has(key));
            }
        }
        assert forall|k: SnapKey| k != key implies n.get(k) == r.get(k) by {
            assert(n.has(k) == m.has(k));
            if n.has(k) {
                assert(n.position(k) == m.position(k));
            }
        }
    } else {
        assert forall|i: int|
            0 <= i < n.entries.len() && (#[trigger] n.entries[i]).state
                == SnapshotState::Receiving implies n.admitted.contains(n.entries[i].key) by {
            if r.entries[i].key == key {
                lemma_position_unique(r, i);
                assert(r.get(key) == Some(r.entries[i]));
            }
        }
        assert forall|k: SnapKey| n.get(k) == r.get(k) by {
            assert(n.has(k) == r.has(k));
            if n.has(k) {
                assert(n.position(k) == r.position(k));
            }
        }
    }
}

/// What a filter leaves of entries with unique keys: the entries that meet
/// the predicate, all of them and no others, still with unique keys.
pub proof fn lemma_filter_entries(s: Seq<Entry>, p: spec_fn(Entry) -> bool)
    requires
        keys_occur_once(s),
    ensures
        keys_occur_once(s.filter(p)),
        forall|i: int|
            0 <= i < s.filter(p).len() ==> s.contains(#[trigger] s.filter(p)[i]) && p(
                s.filter(p)[i],
            ),
        forall|i: int| 0 <= i < s.len() && p(#[trigger] s[i]) ==> s.filter(p).contains(s[i]),
    decreases s.len(),
{
    reveal(Seq::filter);
    if s.len() > 0 {
        let d = s.drop_last();
        let last = s.last();
        let fd = d.filter(p);
        let f = s.filter(p);
        assert(keys_occur_once(d)) by {
            assert forall|i: int, j: int| 0 <= i < j < d.len() implies (#[trigger] d[i]).key != (
            #[trigger] d[j]).key by {
                assert(s[i].key != s[j].key);
            }
        }
        lemma_filter_entries(d, p);
        assert forall|i: int| 0 <= i < fd.len() implies s.contains(#[trigger] fd[i]) && fd[i].key
            != last.key by {
            assert(d.contains(fd[i]));
            let w = choose|w: int| 0 <= w < d.len() && d[w] == fd[i];
            assert(s[w] == fd[i]);
            assert(s[w].key != s[s.len() - 1].key);
        }
        assert forall|i: int| 0 <= i < f.len() implies s.contains(#[trigger] f[i]) && p(f[i]) by {
            if i < fd.len() {
                assert(f[i] == fd[i]);
            } else {
                assert(f[i] == s[s.len() - 1]);
            }
        }
        assert forall|i: int, j: int| 0 <= i < j < f.len() implies (#[trigger] f[i]).key != (
        #[trigger] f[j]).key by {
            if j < fd.len() {
                assert(fd[i].key != fd[j].key);
            } else {
                assert(f[i] == fd[i]);
            }
        }
        assert forall|i: int| 0 <= i < s.len() && p(#[trigger] s[i]) implies f.contains(s[i]) by {
            if i < d.len() {
                assert(d[i] == s[i]);
                assert(fd.contains(d[i]));
                let w = choose|w: int| 0 <= w < fd.len() && fd[w] == d[i];
                assert(f[w] == s[i]);
            } else {
                assert(f[f.len() - 1] == s[i]);
            }
        }
    }
}

/// What a sweep reports is what may be reclaimed: a key is reported
/// exactly when its entry is reclaimable.
pub proof fn law_sweep_reports_reclaimable(r: RegistryView, key: SnapKey, now: u64)
    requires
        r.wf(),
    ensures
        (exists|role: Role| r.reclaimable(now).contains((key, role))) <==> r.can_reclaim(key, now),
{
    let p = reclaim_pred(now, r.grace);
    let f = r.entries.filter(p);
    let out = r.reclaimable(now);
    lemma_filter_entries(r.entries, p);
    if exists|role: Role| out.contains((key, role)) {
        let role = choose|role: Role| out.contains((key, role));
        let i = choose|i: int| 0 <= i < out.len() && out[i] == (key, role);
        assert(out[i] == key_and_role()(f[i]));
        assert(f[i].key == key);
        assert(r.entries.contains(f[i]) && p(f[i]));
        let w = choose|w: int| 0 <= w < r.entries.len() && r.entries[w] == f[i];
        lemma_position_unique(r, w);
        assert(r.get(key) == Some(f[i]));
        assert(f[i].spec_reclaimable(now, r.grace));
    }
    if r.can_reclaim(key, now) {
        let w = r.position(key);
        assert(p(r.entries[w]));
        assert(f.contains(r.entries[w]));
        let i = choose|i: int| 0 <= i < f.len() && f[i] == r.entries[w];
        let role = r.entries[w].state.spec_role();
        assert(out[i] == (key, role));
        assert(out.contains((key, role)));
    }
}

/// Garbage collection never removes a snapshot that somebody holds: at any
/// time, a sweep does not report an entry with a holder, the removal of its
/// key is refused, and the removal of any other key leaves it unchanged.
/// The same is true of an entry whose state is not terminal, and of one
/// that was touched less than the grace period ago.
pub proof fn law_sweep_spares_held(r: RegistryView, key: SnapKey, other: SnapKey, now: u64)
    requires
        r.wf(),
        r.get(key) is Some,
        r.get(key)->0.ref_count > 0 || !r.get(key)->0.state.spec_is_terminal() || now < r.get(
            key,
        )->0.touched || now - r.get(key)->0.touched < r.grace,
    ensures
        forall|role: Role| !r.reclaimable(now).contains((key, role)),
        r.after_reclaim(key, now) == r,
        r.after_reclaim(other, now).get(key) == r.get(key),
{
    law_sweep_reports_reclaimable(r, key, now);
    lemma_without_wf(r, other);
}

/// A removal takes out one entry and no more: the registry keeps its
/// invariant, the key has no entry afterwards, every other key is as it
/// was, and a second removal of the key changes nothing.
pub proof fn law_reclaim_removes_one(r: RegistryView, key: SnapKey, now: u64)
    requires
        r.wf(),
        r.can_reclaim(key, now),
    ensures
        r.after_reclaim(key, now).wf(),
        !r.after_reclaim(key, now).has(key),
        forall|k: SnapKey| k != key ==> r.after_reclaim(key, now).get(k) == r.get(k),
        forall|later: u64|
            r.after_reclaim(key, now).after_reclaim(key, later) == r.after_reclaim(key, now),
{
    lemma_without_wf(r, key);
}

/// An entry that was reported and not removed, because its files could
/// not be deleted, is reported by every later sweep until it is.
pub proof fn law_unreclaimed_is_reported_again(r: RegistryView, key: SnapKey, now: u64, later: u64)
    requires
        r.wf(),
        r.can_reclaim(key, now),
        later >= now,
    ensures
        r.can_reclaim(key, later),
        exists|role: Role| r.reclaimable(later).contains((key, role)),
{
    law_sweep_reports_reclaimable(r, key, later);
}

/// The number of holders never goes below zero: a release takes exactly
/// one holder off an entry that has one, and leaves an entry without
/// holders as it is.
pub proof fn law_release_counts_down(r: RegistryView, key: SnapKey, now: u64)
    requires
        r.wf(),
        r.get(key) is Some,
    ensures
        r.get(key)->0.ref_count == 0 ==> r.after_release(key, now) == r && r.release_outcome(key)
            == Err::<(), SnapError>(SnapError::NotHeld),
        r.get(key)->0.ref_count > 0 ==> r.after_release(key, now).get(key) == Some(
            Entry {
                ref_count: (r.get(key)->0.ref_count - 1) as u64,
                touched: now,
                ..r.get(key)->0
            },
        ),
{
    let e = r.get(key)->0;
    if e.ref_count > 0 {
        lemma_with_entry_wf(r, Entry { ref_count: (e.ref_count - 1) as u64, touched: now, ..e });
    }
}

/// At most as many snapshots are being received as there are permits out,
/// and so at most as many as the receive limit.
pub proof fn law_receiving_within_limit(r: RegistryView)
    requires
        r.wf(),
    ensures
        r.count_in(SnapshotState::Receiving) <= r.admitted.len(),
        r.count_in(SnapshotState::Receiving) <= r.recv_limit,
{
    let p = state_pred(SnapshotState::Receiving);
    let f = r.entries.filter(p);
    let keys = f.map_values(key_of());
    lemma_filter_entries(r.entries, p);
    assert(keys.no_duplicates()) by {
        assert forall|i: int, j: int|
            0 <= i < keys.len() && 0 <= j < keys.len() && i != j implies keys[i] != keys[j] by {
            if i < j {
                assert(f[i].key != f[j].key);
            } else {
                assert(f[j].key != f[i].key);
            }
        }
    }
    keys.unique_seq_to_set();
    r.admitted.lemma_cardinality_of_set();
    assert(keys.to_set().subset_of(r.admitted.to_set())) by {
        assert forall|k: SnapKey| keys.to_set().contains(k) implies r.admitted.to_set().contains(
            k,
        ) by {
            let i = choose|i: int| 0 <= i < keys.len() && keys[i] == k;
            assert(r.entries.contains(f[i]));
            let w = choose|w: int| 0 <= w < r.entries.len() && r.entries[w] == f[i];
            assert(p(f[i]));
            assert(r.entries[w].state == SnapshotState::Receiving);
            assert(r.admitted.contains(r.entries[w].key));
        }
    }
    vstd::set_lib::lemma_len_subset(keys.to_set(), r.admitted.to_set());
}

/// Admission goes by the number of permits that are out and by nothing
/// else: a stream is admitted exactly when fewer than the limit are out,
/// one more is out afterwards, and the limit is never passed.
pub proof fn law_admission_is_by_count(r: RegistryView, key: SnapKey)
    requires
        r.wf(),
    ensures
        r.admits(key) == (r.admitted.len() < r.recv_limit),
        r.after_admit(key).admitted.len() == r.admitted.len() + if r.admits(key) {
            1nat
        } else {
            0nat
        },
        r.after_admit(key).admitted.len() <= r.recv_limit,
        r.after_admit(key).count_in(SnapshotState::Receiving) <= r.recv_limit,
{
    lemma_after_admit_wf(r, key);
    law_receiving_within_limit(r.after_admit(key));
}

/// A stream that waits for a permit gets one as soon as another stream
/// gives its permit back: the limit alone never keeps a stream out for good.
pub proof fn law_release_frees_a_permit(r: RegistryView, closing: SnapKey, waiting: SnapKey)
    requires
        r.wf(),
        r.is_admitted(closing),
    ensures
        r.after_release_receive(closing).admits(waiting),
{
    lemma_remove_value_keeps_others(r.admitted, closing);
    let a = r.admitted.remove_value(closing);
    assert(r.after_release_receive(closing).admitted == a);
}

} // verus!
