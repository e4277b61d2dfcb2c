//! Garbage collection: a periodic sweep that reclaims what nobody holds.

use vstd::prelude::*;
use crate::snap::key::{
    file_name,
    law_file_names_round_trip,
    parse_file_name,
    FileKindView,
    SnapKey,
};
use crate::snap::registry::{Registry, RegistryView};
use crate::snap::registry_laws::law_sweep_spares_held;
use crate::snap::state::Role;

verus! {

/// The clock of the collector: it sweeps once per `interval`.
#[derive(Clone, Copy, Debug, PartialEq, Eq, Structural)]
pub struct GcTicker {
    /// Time between two sweeps.
    pub interval: u64,
    /// Time of the last sweep.
    pub last: u64,
}

impl GcTicker {
    /// A sweep is due when the interval has passed since the last one, and
    /// never while the process shuts down.
    pub open spec fn spec_due(self, now: u64, shutting_down: bool) -> bool {
        !shutting_down && now >= self.last && now - self.last >= self.interval
    }

    /// A ticker whose first sweep is due `interval` after `now`.
    pub fn new(interval: u64, now: u64) -> (t: GcTicker)
        ensures
            t == (GcTicker { interval, last: now }),
    {
        GcTicker { interval, last: now }
    }

    #[verifier::when_used_as_spec(spec_due)]
    pub fn due(self, now: u64, shutting_down: bool) -> (b: bool)
        ensures
            b == self.spec_due(now, shutting_down),
    {
        !shutting_down && now >= self.last && now - self.last >= self.interval
    }

    /// One tick of the collector at time `now`.
    ///
    /// When a sweep is due, the key of every reclaimable entry is reported.
    /// The caller deletes the files of each key and then tells the registry,
    /// with `reclaim`, of each key whose files are gone: files first, entry
    /// last. When no sweep is due nothing is reported. The registry is not
    /// changed either way.
    pub fn tick(&mut self, registry: &Registry, now: u64, shutting_down: bool) -> (found: Vec<
        (SnapKey, Role),
    >)
        ensures
            old(self).spec_due(now, shutting_down) ==> {
                &&& found@ == registry@.reclaimable(now)
                &&& *final(self) == (GcTicker { last: now, ..*old(self) })
            },
            !old(self).spec_due(now, shutting_down) ==> {
                &&& found@ == Seq::<(SnapKey, Role)>::empty()
                &&& *final(self) == *old(self)
            },
    {
        if self.due(now, shutting_down) {
            self.last = now;
            registry.sweep(now)
        } else {
            Vec::new()
        }
    }
}

/// `name` is the name of a file of the snapshot `key`.
pub open spec fn names_file_of(name: Seq<char>, key: SnapKey) -> bool {
    exists|kind: FileKindView| kind.valid() && name == #[trigger] file_name(key, kind)
}

/// `name` is the name of a file of one of the snapshots `found`.
pub open spec fn names_file_among(name: Seq<char>, found: Seq<(SnapKey, Role)>) -> bool {
    exists|j: int| 0 <= j < found.len() && names_file_of(name, (#[trigger] found[j]).0)
}

/// Whether `name` is the name of a file of the snapshot `key`.
pub fn is_file_of(name: &str, key: SnapKey) -> (b: bool)
    ensures
        b == names_file_of(name@, key),
{
    match parse_file_name(name) {
        Some((k, kind)) => {
            proof {
                if k != key {
                    assert forall|other: FileKindView| other.valid() implies name@
                        != #[trigger] file_name(key, other) by {
                        law_file_names_round_trip(k, kind@, key, other);
                    }
                }
            }
            k == key
        },
        None => false,
    }
}

/// The places, in a listing of the snapshot directory, of the files that
/// belong to the snapshots `found`: the files to delete for what a sweep
/// found. The places come in rising order.
pub fn files_to_delete(listing: &Vec<String>, found: &Vec<(SnapKey, Role)>) -> (doomed: Vec<usize>)
    ensures
        forall|i: usize|
            i < listing.len() ==> (#[trigger] doomed@.contains(i) <==> names_file_among(
                listing@[i as int]@,
                found@,
            )),
        forall|a: int| 0 <= a < doomed.len() ==> (#[trigger] doomed@[a]) < listing.len(),
        forall|a: int, b: int| 0 <= a < b < doomed.len() ==> doomed@[a] < doomed@[b],
{
    let mut doomed: Vec<usize> = Vec::new();
    let mut i: usize = 0;
    while i < listing.len()
        invariant
            i <= listing.len(),
            forall|k: usize|
                k < i ==> (#[trigger] doomed@.contains(k) <==> names_file_among(
                    listing@[k as int]@,
                    found@,
                )),
            forall|a: int| 0 <= a < doomed.len() ==> (#[trigger] doomed@[a]) < i,
            forall|a: int, b: int| 0 <= a < b < doomed.len() ==> doomed@[a] < doomed@[b],
        decreases listing.len() - i,
    {
        let mut hit = false;
        let mut j: usize = 0;
        while j < found.len()
            invariant
                j <= found.len(),
                i < listing.len(),
                hit ==> names_file_among(listing@[i as int]@, found@),
                !hit ==> forall|k: int|
                    0 <= k < j ==> !names_file_of(listing@[i as int]@, (#[trigger] found@[k]).0),
            decreases found.len() - j,
        {
            if is_file_of(listing[i].as_str(), found[j].0) {
                hit = true;
            }
            j += 1;
        }
        let ghost before = doomed@;
        if hit {
            doomed.push(i);
            proof {
                assert(doomed@[before.len() as int] == i);
                assert forall|k: usize| k < i implies (#[trigger] doomed@.contains(k)
                    <==> before.contains(k)) by {
                    if before.contains(k) {
                        let w = choose|w: int| 0 <= w < before.len() && before[w] == k;
                        assert(doomed@[w] == k);
                    }
                    if doomed@.contains(k) {
                        let w = choose|w: int| 0 <= w < doomed@.len() && doomed@[w] == k;
                        assert(w < before.len());
                        assert(before[w] == k);
                    }
                }
            }
        } else {
            proof {
                if doomed@.contains(i) {
                    let w = choose|w: int| 0 <= w < doomed@.len() && doomed@[w] == i;
                    assert(doomed@[w] < i);
                }
            }
        }
        i += 1;
    }
    doomed
}

/// The files of a snapshot that somebody holds are never deleted: whatever
/// a sweep finds, at any time, no file of a held snapshot is among the
/// files to delete. The same is true of a snapshot whose state is not
/// terminal, and of one that was touched less than the grace period ago.
pub proof fn law_held_files_are_kept(r: RegistryView, key: SnapKey, now: u64, name: Seq<char>)
    requires
        r.wf(),
        r.get(key) is Some,
        r.get(key)->0.ref_count > 0 || !r.get(key)->0.state.spec_is_terminal() || now < r.get(
            key,
        )->0.touched || now - r.get(key)->0.touched < r.grace,
        names_file_of(name, key),
    ensures
        !names_file_among(name, r.reclaimable(now)),
{
    let found = r.reclaimable(now);
    law_sweep_spares_held(r, key, key, now);
    if names_file_among(name, found) {
        let j = choose|j: int| 0 <= j < found.len() && names_file_of(name, (#[trigger] found[j]).0);
        let kind = choose|kind: FileKindView| kind.valid() && name == #[trigger] file_name(key, kind);
        let other = choose|other: FileKindView|
            other.valid() && name == #[trigger] file_name(found[j].0, other);
        law_file_names_round_trip(key, kind, found[j].0, other);
        assert(found[j] == (key, found[j].1));
        assert(found.contains((key, found[j].1)));
    }
}

} // verus!
