//! The registry: the one place where every snapshot's state, holders and
//! receive admission are recorded.
//!
//! The registry is a plain value. A process keeps one of it behind a lock;
//! every operation here touches at most one entry, so each call is one
//! atomic step for the components that share it.

use vstd::prelude::*;
use crate::snap::error::SnapError;
use crate::snap::key::SnapKey;
use crate::snap::registry_laws::{
    law_receiving_within_limit,
    lemma_after_admit_wf,
    lemma_after_release_receive_wf,
    lemma_with_entry_wf,
    lemma_without_wf,
};
use crate::snap::state::{Role, SnapshotState};

verus! {

/// What the registry records of one snapshot.
#[derive(Clone, Copy, Debug, PartialEq, Eq, Structural)]
pub struct Entry {
    pub key: SnapKey,
    pub state: SnapshotState,
    /// Number of components that currently hold the snapshot.
    pub ref_count: u64,
    /// Time at which the entry was registered.
    pub created: u64,
    /// Time of the last change to the entry.
    pub touched: u64,
}

impl Entry {
    /// An entry that garbage collection may remove at time `now`: nobody
    /// holds it, its state is terminal, and `grace` has passed since it was
    /// last touched.
    pub open spec fn spec_reclaimable(self, now: u64, grace: u64) -> bool {
        &&& self.ref_count == 0
        &&& self.state.spec_is_terminal()
        &&& now >= self.touched
        &&& now - self.touched >= grace
    }

    #[verifier::when_used_as_spec(spec_reclaimable)]
    pub fn reclaimable(self, now: u64, grace: u64) -> (b: bool)
        ensures
            b == self.spec_reclaimable(now, grace),
    {
        self.ref_count == 0 && self.state.is_terminal() && now >= self.touched && now
            - self.touched >= grace
    }
}

/// How many snapshots are in each of the busy states.
#[derive(Clone, Copy, Debug, PartialEq, Eq, Structural)]
pub struct SnapStats {
    pub generating_count: usize,
    pub sending_count: usize,
    pub receiving_count: usize,
    pub applying_count: usize,
}

/// Entries that nobody holds.
pub open spec fn idle_pred() -> spec_fn(Entry) -> bool {
    |e: Entry| e.ref_count == 0
}

/// Entries in state `st`.
pub open spec fn state_pred(st: SnapshotState) -> spec_fn(Entry) -> bool {
    |e: Entry| e.state == st
}

/// Entries that a sweep at `now` finds.
pub open spec fn reclaim_pred(now: u64, grace: u64) -> spec_fn(Entry) -> bool {
    |e: Entry| e.spec_reclaimable(now, grace)
}

/// The key of an entry together with the end of the transfer it is on.
pub open spec fn key_and_role() -> spec_fn(Entry) -> (SnapKey, Role) {
    |e: Entry| (e.key, e.state.spec_role())
}

/// The key of an entry.
pub open spec fn key_of() -> spec_fn(Entry) -> SnapKey {
    |e: Entry| e.key
}

/// `e` is an applied snapshot of the region of `key`, taken at the index
/// of `key` or later.
pub open spec fn supersedes(e: Entry, key: SnapKey) -> bool {
    e.state == SnapshotState::Applied && e.key.region_id == key.region_id && key.idx <= e.key.idx
}

/// No two entries of `s` have the same key.
pub open spec fn keys_occur_once(s: Seq<Entry>) -> bool {
    forall|i: int, j: int| 0 <= i < j < s.len() ==> (#[trigger] s[i]).key != (#[trigger] s[j]).key
}

/// The mathematical content of a registry.
pub struct RegistryView {
    /// The entries, in the order in which their keys were first registered.
    pub entries: Seq<Entry>,
    /// The receive permits that are out: the key of each inbound stream
    /// that holds one. Two streams may carry the same key.
    pub admitted: Seq<SnapKey>,
    /// Number of receive permits.
    pub recv_limit: usize,
    /// Time an unheld terminal entry is kept before it may be reclaimed.
    pub grace: u64,
}

impl RegistryView {
    pub open spec fn empty(recv_limit: usize, grace: u64) -> RegistryView {
        RegistryView { entries: Seq::empty(), admitted: Seq::empty(), recv_limit, grace }
    }

    /// Some entry has this key.
    pub open spec fn has(self, key: SnapKey) -> bool {
        exists|i: int| 0 <= i < self.entries.len() && (#[trigger] self.entries[i]).key == key
    }

    /// The place of the entry with this key, where there is one.
    pub open spec fn position(self, key: SnapKey) -> int {
        choose|i: int| 0 <= i < self.entries.len() && (#[trigger] self.entries[i]).key == key
    }

    /// The entry with this key.
    pub open spec fn get(self, key: SnapKey) -> Option<Entry> {
        if self.has(key) {
            Some(self.entries[self.position(key)])
        } else {
            None
        }
    }

    /// The key has an entry whose state is not terminal.
    pub open spec fn has_live(self, key: SnapKey) -> bool {
        self.has(key) && !self.entries[self.position(key)].state.spec_is_terminal()
    }

    pub open spec fn is_admitted(self, key: SnapKey) -> bool {
        self.admitted.contains(key)
    }

    pub open spec fn unique_keys(self) -> bool {
        keys_occur_once(self.entries)
    }

    /// What holds of every registry: keys occur once, permits are within
    /// the limit, and every snapshot that is being received holds a permit.
    pub open spec fn wf(self) -> bool {
        &&& self.unique_keys()
        &&& self.admitted.len() <= self.recv_limit
        &&& forall|i: int|
            0 <= i < self.entries.len() && (#[trigger] self.entries[i]).state
                == SnapshotState::Receiving ==> self.admitted.contains(self.entries[i].key)
    }

    /// The region of `key` has applied a snapshot taken at the index of
    /// `key` or later.
    pub open spec fn superseded(self, key: SnapKey) -> bool {
        exists|i: int| 0 <= i < self.entries.len() && supersedes(#[trigger] self.entries[i], key)
    }

    /// Number of entries in state `st`.
    pub open spec fn count_in(self, st: SnapshotState) -> nat {
        self.entries.filter(state_pred(st)).len()
    }

    pub open spec fn stats(self) -> SnapStats {
        SnapStats {
            generating_count: self.count_in(SnapshotState::Generating) as usize,
            sending_count: self.count_in(SnapshotState::Sending) as usize,
            receiving_count: self.count_in(SnapshotState::Receiving) as usize,
            applying_count: self.count_in(SnapshotState::Applying) as usize,
        }
    }

    /// The registry with `e` in the place of the entry of the same key, or
    /// at the end where the key is new.
    pub open spec fn with_entry(self, e: Entry) -> RegistryView {
        if self.has(e.key) {
            RegistryView { entries: self.entries.update(self.position(e.key), e), ..self }
        } else {
            RegistryView { entries: self.entries.push(e), ..self }
        }
    }

    /// The registry without the entry of `key`.
    pub open spec fn without(self, key: SnapKey) -> RegistryView {
        if self.has(key) {
            RegistryView { entries: self.entries.remove(self.position(key)), ..self }
        } else {
            self
        }
    }

    pub open spec fn register_outcome(self, key: SnapKey, st: SnapshotState) -> Result<
        (),
        SnapError,
    > {
        if self.has_live(key) {
            Err(SnapError::AlreadyExists)
        } else if st == SnapshotState::Receiving && !self.is_admitted(key) {
            Err(SnapError::AdmissionRejected)
        } else {
            Ok(())
        }
    }

    pub open spec fn after_register(self, key: SnapKey, st: SnapshotState, now: u64) -> RegistryView {
        if self.register_outcome(key, st) is Ok {
            self.with_entry(Entry { key, state: st, ref_count: 1, created: now, touched: now })
        } else {
            self
        }
    }

    /// Whether a snapshot whose files were found in the directory after a
    /// restart is taken into the registry: its key has no entry yet, and it
    /// could be registered in state `st`.
    pub open spec fn adopts(self, key: SnapKey, st: SnapshotState) -> bool {
        !self.has(key) && self.register_outcome(key, st) is Ok
    }

    /// The registry after a snapshot found in the directory was offered.
    /// Nobody holds an adopted snapshot, and its grace period runs from
    /// `now`.
    pub open spec fn after_adopt(self, key: SnapKey, st: SnapshotState, now: u64) -> RegistryView {
        if self.adopts(key, st) {
            self.with_entry(Entry { key, state: st, ref_count: 0, created: now, touched: now })
        } else {
            self
        }
    }

    pub open spec fn transition_outcome(
        self,
        key: SnapKey,
        from: SnapshotState,
        to: SnapshotState,
    ) -> Result<(), SnapError> {
        if self.get(key) matches Some(e) && e.state == from && from.spec_can_step_to(to) {
            Ok(())
        } else {
            Err(SnapError::InvalidTransition)
        }
    }

    pub open spec fn after_transition(
        self,
        key: SnapKey,
        from: SnapshotState,
        to: SnapshotState,
        now: u64,
    ) -> RegistryView {
        if self.transition_outcome(key, from, to) is Ok {
            self.with_entry(Entry { state: to, touched: now, ..self.get(key)->0 })
        } else {
            self
        }
    }

    pub open spec fn acquire_outcome(self, key: SnapKey) -> Result<(), SnapError> {
        match self.get(key) {
            None => Err(SnapError::NotFound),
            Some(e) => if e.ref_count == u64::MAX {
                Err(SnapError::TooManyHolders)
            } else {
                Ok(())
            },
        }
    }

    pub open spec fn after_acquire(self, key: SnapKey, now: u64) -> RegistryView {
        if self.acquire_outcome(key) is Ok {
            let e = self.get(key)->0;
            self.with_entry(Entry { ref_count: (e.ref_count + 1) as u64, touched: now, ..e })
        } else {
            self
        }
    }

    pub open spec fn release_outcome(self, key: SnapKey) -> Result<(), SnapError> {
        match self.get(key) {
            None => Err(SnapError::NotFound),
            Some(e) => if e.ref_count == 0 {
                Err(SnapError::NotHeld)
            } else {
                Ok(())
            },
        }
    }

    pub open spec fn after_release(self, key: SnapKey, now: u64) -> RegistryView {
        if self.release_outcome(key) is Ok {
            let e = self.get(key)->0;
            self.with_entry(Entry { ref_count: (e.ref_count - 1) as u64, touched: now, ..e })
        } else {
            self
        }
    }

    /// Whether a stream for `key` gets a receive permit: whether one is
    /// left, whatever the key.
    pub open spec fn admits(self, key: SnapKey) -> bool {
        self.admitted.len() < self.recv_limit
    }

    pub open spec fn after_admit(self, key: SnapKey) -> RegistryView {
        if self.admits(key) {
            RegistryView { admitted: self.admitted.push(key), ..self }
        } else {
            self
        }
    }

    /// The last stream of `key` closes while its snapshot is still being
    /// received: the partial receipt is to be discarded.
    pub open spec fn closes_unfinished(self, key: SnapKey) -> bool {
        &&& self.get(key) matches Some(e) && e.state == SnapshotState::Receiving
        &&& !self.admitted.remove_value(key).contains(key)
    }

    pub open spec fn after_release_receive(self, key: SnapKey) -> RegistryView {
        let rest = RegistryView { admitted: self.admitted.remove_value(key), ..self };
        if self.closes_unfinished(key) {
            rest.without(key)
        } else {
            rest
        }
    }

    /// The entries that garbage collection may remove at `now`, as a sweep
    /// reports them.
    pub open spec fn reclaimable(self, now: u64) -> Seq<(SnapKey, Role)> {
        self.entries.filter(reclaim_pred(now, self.grace)).map_values(key_and_role())
    }

    /// Whether garbage collection may remove the entry of `key` at `now`.
    pub open spec fn can_reclaim(self, key: SnapKey, now: u64) -> bool {
        self.get(key) matches Some(e) && e.spec_reclaimable(now, self.grace)
    }

    /// The registry after garbage collection was told, at `now`, that the
    /// files of `key` are deleted.
    pub open spec fn after_reclaim(self, key: SnapKey, now: u64) -> RegistryView {
        if self.can_reclaim(key, now) {
            self.without(key)
        } else {
            self
        }
    }

    pub open spec fn idle(self) -> Seq<(SnapKey, Role)> {
        self.entries.filter(idle_pred()).map_values(key_and_role())
    }

    pub open spec fn keys(self) -> Seq<SnapKey> {
        self.entries.map_values(key_of())
    }
}

/// With unique keys, the entry of a key is found at one place only.
pub proof fn lemma_position_unique(r: RegistryView, i: int)
    requires
        r.unique_keys(),
        0 <= i < r.entries.len(),
    ensures
        r.has(r.entries[i].key),
        r.position(r.entries[i].key) == i,
        r.get(r.entries[i].key) == Some(r.entries[i]),
{
    let key = r.entries[i].key;
    assert(r.has(key));
    let p = r.position(key);
    assert(0 <= p < r.entries.len() && r.entries[p].key == key);
    if p < i {
        assert(r.entries[p].key != r.entries[i].key);
    } else if i < p {
        assert(r.entries[i].key != r.entries[p].key);
    }
}

/// The process-wide table of snapshots.
pub struct Registry {
    entries: Vec<Entry>,
    admitted: Vec<SnapKey>,
    recv_limit: usize,
    grace: u64,
}

impl View for Registry {
    type V = RegistryView;

    closed spec fn view(&self) -> RegistryView {
        RegistryView {
            entries: self.entries@,
            admitted: self.admitted@,
            recv_limit: self.recv_limit,
            grace: self.grace,
        }
    }
}

impl Registry {
    #[verifier::type_invariant]
    spec fn inv(self) -> bool {
        self@.wf()
    }

    /// An empty registry that admits at most `recv_limit` inbound streams
    /// at a time and keeps unheld terminal entries for `grace` time units.
    pub fn new(recv_limit: usize, grace: u64) -> (r: Registry)
        ensures
            r@ == RegistryView::empty(recv_limit, grace),
            r@.wf(),
    {
        Registry { entries: Vec::new(), admitted: Vec::new(), recv_limit, grace }
    }

    /// The invariant of the registry, for callers that reason about its view.
    pub fn check(&self)
        ensures
            self@.wf(),
    {
        proof {
            use_type_invariant(self);
        }
    }

    /// Moves the two tables out, leaving the registry empty for the moment.
    fn take(&mut self) -> (parts: (Vec<Entry>, Vec<SnapKey>))
        ensures
            parts.0@ == old(self)@.entries,
            parts.1@ == old(self)@.admitted,
            old(self)@.wf(),
            final(self)@ == RegistryView::empty(old(self)@.recv_limit, old(self)@.grace),
    {
        proof {
            use_type_invariant(&*self);
        }
        let mut whole = Registry {
            entries: Vec::new(),
            admitted: Vec::new(),
            recv_limit: self.recv_limit,
            grace: self.grace,
        };
        core::mem::swap(self, &mut whole);
        let Registry { entries, admitted, recv_limit: _, grace: _ } = whole;
        (entries, admitted)
    }

    fn find(&self, key: SnapKey) -> (r: Option<usize>)
        ensures
            self@.wf(),
            r is Some <==> self@.has(key),
            r matches Some(i) ==> i < self@.entries.len() && self@.position(key) == i
                && self@.entries[i as int].key == key,
    {
        proof {
            use_type_invariant(self);
        }
        let mut i: usize = 0;
        while i < self.entries.len()
            invariant
                i <= self.entries.len(),
                self@.wf(),
                forall|j: int| 0 <= j < i ==> (#[trigger] self.entries@[j]).key != key,
            decreases self.entries.len() - i,
        {
            if self.entries[i].key == key {
                proof {
                    lemma_position_unique(self@, i as int);
                }
                return Some(i);
            }
            i += 1;
        }
        None
    }

    /// The entry of `key`, where it has one.
    pub fn get(&self, key: SnapKey) -> (r: Option<Entry>)
        ensures
            r == self@.get(key),
    {
        match self.find(key) {
            Some(i) => Some(self.entries[i]),
            None => None,
        }
    }

    /// Number of entries.
    pub fn len(&self) -> (n: usize)
        ensures
            n == self@.entries.len(),
    {
        self.entries.len()
    }

    /// Number of receive permits.
    pub fn recv_limit(&self) -> (n: usize)
        ensures
            n == self@.recv_limit,
    {
        self.recv_limit
    }

    /// Time an unheld terminal entry is kept before it may be reclaimed.
    pub fn grace(&self) -> (g: u64)
        ensures
            g == self@.grace,
    {
        self.grace
    }

    /// Records `key` in state `initial` with one holder, the caller.
    ///
    /// A terminal entry of the same key is replaced; a live one makes the
    /// call fail with `AlreadyExists`. A snapshot can only be registered as
    /// `Receiving` while its stream holds a receive permit.
    pub fn register(&mut self, key: SnapKey, initial: SnapshotState, now: u64) -> (res: Result<
        (),
        SnapError,
    >)
        ensures
            res == old(self)@.register_outcome(key, initial),
            final(self)@ == old(self)@.after_register(key, initial, now),
            final(self)@.wf(),
            res is Ok ==> final(self)@.get(key) == Some(
                Entry { key, state: initial, ref_count: 1, created: now, touched: now },
            ),
    {
        let found = self.find(key);
        let fresh = Entry { key, state: initial, ref_count: 1, created: now, touched: now };
        let admitted = self.holds_permit(key);
        match found {
            Some(i) => {
                if !self.entries[i].state.is_terminal() {
                    return Err(SnapError::AlreadyExists);
                }
                if initial == SnapshotState::Receiving && !admitted {
                    return Err(SnapError::AdmissionRejected);
                }
                proof {
                    lemma_with_entry_wf(self@, fresh);
                }
                let (mut entries, admitted) = self.take();
                entries.set(i, fresh);
                self.admitted = admitted;
                self.entries = entries;
                Ok(())
            },
            None => {
                if initial == SnapshotState::Receiving && !admitted {
                    return Err(SnapError::AdmissionRejected);
                }
                proof {
                    lemma_with_entry_wf(self@, fresh);
                }
                let (mut entries, admitted) = self.take();
                entries.push(fresh);
                self.admitted = admitted;
                self.entries = entries;
                Ok(())
            },
        }
    }

    /// Takes in a snapshot whose files were found in the directory after
    /// a restart, in state `st` and held by nobody, so that garbage
    /// collection reclaims it in time. A key that has an entry is left as it
    /// is, and so is one that could not be registered in that state.
    pub fn adopt(&mut self, key: SnapKey, st: SnapshotState, now: u64) -> (adopted: bool)
        ensures
            adopted == old(self)@.adopts(key, st),
            final(self)@ == old(self)@.after_adopt(key, st, now),
            final(self)@.wf(),
            adopted ==> final(self)@.get(key) == Some(
                Entry { key, state: st, ref_count: 0, created: now, touched: now },
            ),
    {
        let found = self.find(key);
        let admitted = self.holds_permit(key);
        if found.is_some() || (st == SnapshotState::Receiving && !admitted) {
            return false;
        }
        let fresh = Entry { key, state: st, ref_count: 0, created: now, touched: now };
        proof {
            lemma_with_entry_wf(self@, fresh);
        }
        let (mut entries, admitted) = self.take();
        entries.push(fresh);
        self.admitted = admitted;
        self.entries = entries;
        true
    }

    /// Moves the entry of `key` from state `from` to state `to`.
    ///
    /// Fails with `InvalidTransition`, and changes nothing, unless the entry
    /// exists, is in state `from`, and the lifecycle has an edge to `to`.
    pub fn transition(
        &mut self,
        key: SnapKey,
        from: SnapshotState,
        to: SnapshotState,
        now: u64,
    ) -> (res: Result<(), SnapError>)
        ensures
            res == old(self)@.transition_outcome(key, from, to),
            final(self)@ == old(self)@.after_transition(key, from, to, now),
            final(self)@.wf(),
            res is Ok ==> final(self)@.get(key) == Some(
                Entry { state: to, touched: now, ..old(self)@.get(key)->0 },
            ),
    {
        match self.find(key) {
            Some(i) => {
                let e = self.entries[i];
                if e.state == from && from.can_step_to(to) {
                    let next = Entry { state: to, touched: now, ..e };
                    proof {
                        lemma_with_entry_wf(self@, next);
                    }
                    let (mut entries, admitted) = self.take();
                    entries.set(i, next);
                    self.admitted = admitted;
                    self.entries = entries;
                    Ok(())
                } else {
                    Err(SnapError::InvalidTransition)
                }
            },
            None => Err(SnapError::InvalidTransition),
        }
    }

    /// Adds one holder to the entry of `key`.
    pub fn acquire(&mut self, key: SnapKey, now: u64) -> (res: Result<(), SnapError>)
        ensures
            res == old(self)@.acquire_outcome(key),
            final(self)@ == old(self)@.after_acquire(key, now),
            final(self)@.wf(),
            res is Ok ==> final(self)@.get(key) == Some(
                Entry {
                    ref_count: (old(self)@.get(key)->0.ref_count + 1) as u64,
                    touched: now,
                    ..old(self)@.get(key)->0
                },
            ),
    {
        match self.find(key) {
            Some(i) => {
                let e = self.entries[i];
                if e.ref_count == u64::MAX {
                    return Err(SnapError::TooManyHolders);
                }
                let next = Entry { ref_count: e.ref_count + 1, touched: now, ..e };
                proof {
                    lemma_with_entry_wf(self@, next);
                }
                let (mut entries, admitted) = self.take();
                entries.set(i, next);
                self.admitted = admitted;
                self.entries = entries;
                Ok(())
            },
            None => Err(SnapError::NotFound),
        }
    }

    /// Takes one holder off the entry of `key`.
    ///
    /// The count never goes below zero: releasing an entry that nobody
    /// holds fails with `NotHeld`. The release that brings the count to
    /// zero is the entry's last touch, from which the grace period runs.
    pub fn release(&mut self, key: SnapKey, now: u64) -> (res: Result<(), SnapError>)
        ensures
            res == old(self)@.release_outcome(key),
            final(self)@ == old(self)@.after_release(key, now),
            final(self)@.wf(),
            res is Ok ==> final(self)@.get(key) == Some(
                Entry {
                    ref_count: (old(self)@.get(key)->0.ref_count - 1) as u64,
                    touched: now,
                    ..old(self)@.get(key)->0
                },
            ),
    {
        match self.find(key) {
            Some(i) => {
                let e = self.entries[i];
                if e.ref_count == 0 {
                    return Err(SnapError::NotHeld);
                }
                let next = Entry { ref_count: e.ref_count - 1, touched: now, ..e };
                proof {
                    lemma_with_entry_wf(self@, next);
                }
                let (mut entries, admitted) = self.take();
                entries.set(i, next);
                self.admitted = admitted;
                self.entries = entries;
                Ok(())
            },
            None => Err(SnapError::NotFound),
        }
    }

    /// Removes the entry of `key` at once, whatever its state and holders,
    /// and returns it. This is the explicit cancellation of a snapshot.
    pub fn cancel(&mut self, key: SnapKey) -> (res: Option<Entry>)
        ensures
            res == old(self)@.get(key),
            final(self)@ == old(self)@.without(key),
            final(self)@.wf(),
            !final(self)@.has(key),
            forall|k: SnapKey| k != key ==> final(self)@.get(k) == old(self)@.get(k),
    {
        match self.find(key) {
            Some(i) => {
                proof {
                    lemma_without_wf(self@, key);
                }
                let (mut entries, admitted) = self.take();
                let e = entries.remove(i);
                self.admitted = admitted;
                self.entries = entries;
                Some(e)
            },
            None => None,
        }
    }

    fn permit_index(&self, key: SnapKey) -> (r: Option<usize>)
        ensures
            self@.wf(),
            r is Some <==> self@.is_admitted(key),
            r matches Some(i) ==> i < self@.admitted.len() && self@.admitted[i as int] == key
                && self@.admitted.remove_value(key) == self@.admitted.remove(i as int),
            r is None ==> self@.admitted.remove_value(key) == self@.admitted,
    {
        proof {
            use_type_invariant(self);
            self.admitted@.index_of_first_ensures(key);
        }
        let mut i: usize = 0;
        while i < self.admitted.len()
            invariant
                i <= self.admitted.len(),
                self@.wf(),
                forall|j: int| 0 <= j < i ==> self.admitted@[j] != key,
                match self.admitted@.index_of_first(key) {
                    Some(p) => 0 <= p < self.admitted@.len() && self.admitted@[p] == key && (
                    forall|j: int| 0 <= j < p ==> self.admitted@[j] != key),
                    None => !self.admitted@.contains(key),
                },
            decreases self.admitted.len() - i,
        {
            if self.admitted[i] == key {
                return Some(i);
            }
            i += 1;
        }
        None
    }

    /// Whether a stream for `key` holds a receive permit.
    pub fn holds_permit(&self, key: SnapKey) -> (b: bool)
        ensures
            b == self@.is_admitted(key),
            self@.wf(),
    {
        self.permit_index(key).is_some()
    }

    /// Asks for a receive permit for the stream that carries `key`.
    ///
    /// The permit is given, and `true` returned, exactly when fewer than
    /// the limit are out. Otherwise nothing changes and the caller parks
    /// the stream and asks again later.
    pub fn try_admit_receive(&mut self, key: SnapKey) -> (admitted: bool)
        ensures
            admitted == (old(self)@.admitted.len() < old(self)@.recv_limit),
            admitted == old(self)@.admits(key),
            final(self)@ == old(self)@.after_admit(key),
            final(self)@.admitted.len() == old(self)@.admitted.len() + if admitted {
                1nat
            } else {
                0nat
            },
            admitted ==> final(self)@.is_admitted(key),
            final(self)@.entries == old(self)@.entries,
            final(self)@.wf(),
    {
        proof {
            use_type_invariant(&*self);
        }
        if self.admitted.len() >= self.recv_limit {
            return false;
        }
        proof {
            lemma_after_admit_wf(self@, key);
        }
        let (entries, mut admitted) = self.take();
        admitted.push(key);
        assert(admitted@[admitted@.len() - 1] == key);
        self.admitted = admitted;
        self.entries = entries;
        true
    }

    /// Whether `key` holds a permit besides the one at `first`.
    fn holds_second_permit(&self, key: SnapKey, first: usize) -> (b: bool)
        requires
            first < self@.admitted.len(),
        ensures
            b == self@.admitted.remove(first as int).contains(key),
    {
        let ghost rest = self.admitted@.remove(first as int);
        let mut i: usize = 0;
        while i < self.admitted.len()
            invariant
                i <= self.admitted.len(),
                first < self.admitted@.len(),
                rest == self.admitted@.remove(first as int),
                forall|j: int| 0 <= j < i && j != first ==> self.admitted@[j] != key,
            decreases self.admitted.len() - i,
        {
            if i != first && self.admitted[i] == key {
                proof {
                    let q = if i < first { i as int } else { i - 1 };
                    assert(rest[q] == key);
                }
                return true;
            }
            i += 1;
        }
        proof {
            if rest.contains(key) {
                let q = choose|q: int| 0 <= q < rest.len() && rest[q] == key;
                let x = if q < first { q } else { q + 1 };
                assert(rest[q] == self.admitted@[x]);
            }
        }
        false
    }

    /// Gives back one receive permit of `key` when a stream of it closes.
    ///
    /// A snapshot that is still `Receiving` when the last stream of its key
    /// closes was not completed: its entry is dropped, and `true` tells the
    /// caller to delete the partial files.
    pub fn release_receive(&mut self, key: SnapKey) -> (discard: bool)
        ensures
            discard == old(self)@.closes_unfinished(key),
            final(self)@ == old(self)@.after_release_receive(key),
            final(self)@.wf(),
    {
        let found = self.find(key);
        let permit = self.permit_index(key);
        let last = match permit {
            Some(j) => !self.holds_second_permit(key, j),
            None => true,
        };
        proof {
            lemma_after_release_receive_wf(self@, key);
        }
        let (mut entries, mut admitted) = self.take();
        let mut discard = false;
        match found {
            Some(i) => {
                if last && entries[i].state == SnapshotState::Receiving {
                    entries.remove(i);
                    discard = true;
                }
            },
            None => {},
        }
        match permit {
            Some(j) => {
                admitted.remove(j);
            },
            None => {},
        }
        self.admitted = admitted;
        self.entries = entries;
        discard
    }

    /// Whether the region of `key` has applied a snapshot taken at the
    /// index of `key` or later.
    pub fn is_superseded(&self, key: SnapKey) -> (b: bool)
        ensures
            b == self@.superseded(key),
    {
        let mut i: usize = 0;
        while i < self.entries.len()
            invariant
                i <= self.entries.len(),
                forall|j: int| 0 <= j < i ==> !supersedes(#[trigger] self.entries@[j], key),
            decreases self.entries.len() - i,
        {
            let e = self.entries[i];
            if e.state == SnapshotState::Applied && e.key.region_id == key.region_id && key.idx
                <= e.key.idx {
                assert(supersedes(self@.entries[i as int], key));
                return true;
            }
            i += 1;
        }
        false
    }

    /// Finds every entry that is reclaimable at `now` and reports the keys,
    /// in registry order, so that their files can be deleted. Nothing is
    /// removed: an entry stays until `reclaim` is told that its files are
    /// gone, so that files whose deletion failed are reported again.
    ///
    /// An entry with a holder is never reported, nor one whose state is not
    /// terminal or whose grace period is still running.
    pub fn sweep(&self, now: u64) -> (found: Vec<(SnapKey, Role)>)
        ensures
            found@ == self@.reclaimable(now),
    {
        let grace = self.grace;
        let mut found: Vec<(SnapKey, Role)> = Vec::new();
        let mut i: usize = 0;
        proof {
            reveal(Seq::filter);
            assert(self.entries@.take(0) =~= Seq::<Entry>::empty());
            assert(found@ =~= Seq::<Entry>::empty().map_values(key_and_role()));
        }
        while i < self.entries.len()
            invariant
                i <= self.entries.len(),
                grace == self.grace,
                found@ == self.entries@.take(i as int).filter(
                    reclaim_pred(now, grace),
                ).map_values(key_and_role()),
            decreases self.entries.len() - i,
        {
            let e = self.entries[i];
            proof {
                let head = self.entries@.take(i as int);
                self.entries@.lemma_take_succ_push(i as int);
                head.lemma_filter_push(e, reclaim_pred(now, grace));
                head.filter(reclaim_pred(now, grace)).lemma_push_map_commute(key_and_role(), e);
            }
            if e.reclaimable(now, grace) {
                found.push((e.key, e.state.role()));
            }
            i += 1;
        }
        proof {
            self.entries@.lemma_take_len();
        }
        found
    }

    /// Removes the entry of `key`, once its files are deleted, if it is
    /// still reclaimable at `now`. `true` means that the entry is gone. An
    /// entry that has a holder, is not terminal or is within its grace
    /// period stays, and so does every other entry.
    pub fn reclaim(&mut self, key: SnapKey, now: u64) -> (removed: bool)
        ensures
            removed == old(self)@.can_reclaim(key, now),
            final(self)@ == old(self)@.after_reclaim(key, now),
            final(self)@.wf(),
            removed ==> !final(self)@.has(key),
            forall|k: SnapKey| k != key ==> final(self)@.get(k) == old(self)@.get(k),
    {
        match self.find(key) {
            Some(i) => {
                if self.entries[i].reclaimable(now, self.grace) {
                    proof {
                        lemma_without_wf(self@, key);
                    }
                    let (mut entries, admitted) = self.take();
                    entries.remove(i);
                    self.admitted = admitted;
                    self.entries = entries;
                    true
                } else {
                    false
                }
            },
            None => false,
        }
    }

    /// The entries that nobody holds, in registry order, each with the end
    /// of the transfer it is on: the candidates for garbage collection.
    pub fn list_idle(&self) -> (idle: Vec<(SnapKey, Role)>)
        ensures
            idle@ == self@.idle(),
    {
        let mut idle: Vec<(SnapKey, Role)> = Vec::new();
        let mut i: usize = 0;
        proof {
            reveal(Seq::filter);
            assert(self.entries@.take(0) =~= Seq::<Entry>::empty());
            assert(idle@ =~= Seq::<Entry>::empty().map_values(key_and_role()));
        }
        while i < self.entries.len()
            invariant
                i <= self.entries.len(),
                idle@ == self.entries@.take(i as int).filter(idle_pred()).map_values(key_and_role()),
            decreases self.entries.len() - i,
        {
            let e = self.entries[i];
            proof {
                let head = self.entries@.take(i as int);
                self.entries@.lemma_take_succ_push(i as int);
                head.lemma_filter_push(e, idle_pred());
                head.filter(idle_pred()).lemma_push_map_commute(key_and_role(), e);
            }
            if e.ref_count == 0 {
                idle.push((e.key, e.state.role()));
            }
            i += 1;
        }
        proof {
            self.entries@.lemma_take_len();
        }
        idle
    }

    /// The keys of all entries, in registry order.
    pub fn list_all(&self) -> (keys: Vec<SnapKey>)
        ensures
            keys@ == self@.keys(),
    {
        let mut keys: Vec<SnapKey> = Vec::new();
        let mut i: usize = 0;
        while i < self.entries.len()
            invariant
                i <= self.entries.len(),
                keys@ == self.entries@.take(i as int).map_values(key_of()),
            decreases self.entries.len() - i,
        {
            proof {
                self.entries@.lemma_take_succ_push(i as int);
                self.entries@.take(i as int).lemma_push_map_commute(key_of(), self.entries@[i as int]);
            }
            keys.push(self.entries[i].key);
            i += 1;
        }
        proof {
            self.entries@.lemma_take_len();
        }
        keys
    }

    /// How many snapshots are being generated, sent, received and applied.
    pub fn stats(&self) -> (s: SnapStats)
        ensures
            s == self@.stats(),
            s.generating_count == self@.count_in(SnapshotState::Generating),
            s.sending_count == self@.count_in(SnapshotState::Sending),
            s.receiving_count == self@.count_in(SnapshotState::Receiving),
            s.applying_count == self@.count_in(SnapshotState::Applying),
            s.receiving_count <= self@.recv_limit,
    {
        let mut generating: usize = 0;
        let mut sending: usize = 0;
        let mut receiving: usize = 0;
        let mut applying: usize = 0;
        let mut i: usize = 0;
        proof {
            reveal(Seq::filter);
            assert(self.entries@.take(0) =~= Seq::<Entry>::empty());
        }
        while i < self.entries.len()
            invariant
                i <= self.entries.len(),
                generating == self.entries@.take(i as int).filter(
                    state_pred(SnapshotState::Generating),
                ).len(),
                sending == self.entries@.take(i as int).filter(
                    state_pred(SnapshotState::Sending),
                ).len(),
                receiving == self.entries@.take(i as int).filter(
                    state_pred(SnapshotState::Receiving),
                ).len(),
                applying == self.entries@.take(i as int).filter(
                    state_pred(SnapshotState::Applying),
                ).len(),
            decreases self.entries.len() - i,
        {
            let e = self.entries[i];
            proof {
                let head = self.entries@.take(i as int);
                self.entries@.lemma_take_succ_push(i as int);
                head.lemma_filter_push(e, state_pred(SnapshotState::Generating));
                head.lemma_filter_push(e, state_pred(SnapshotState::Sending));
                head.lemma_filter_push(e, state_pred(SnapshotState::Receiving));
                head.lemma_filter_push(e, state_pred(SnapshotState::Applying));
                head.lemma_filter_len(state_pred(SnapshotState::Generating));
                head.lemma_filter_len(state_pred(SnapshotState::Sending));
                head.lemma_filter_len(state_pred(SnapshotState::Receiving));
                head.lemma_filter_len(state_pred(SnapshotState::Applying));
            }
            match e.state {
                SnapshotState::Generating => {
                    generating += 1;
                },
                SnapshotState::Sending => {
                    sending += 1;
                },
                SnapshotState::Receiving => {
                    receiving += 1;
                },
                SnapshotState::Applying => {
                    applying += 1;
                },
                _ => {},
            }
            i += 1;
        }
        proof {
            self.entries@.lemma_take_len();
            use_type_invariant(self);
            law_receiving_within_limit(self@);
        }
        SnapStats {
            generating_count: generating,
            sending_count: sending,
            receiving_count: receiving,
            applying_count: applying,
        }
    }
}

} // verus!
