//! Reception of a snapshot, as a task that the caller drives.
//!
//! The caller owns the stream and the temporary files. The registry admits
//! the stream; the task then checks every range file against the size and
//! checksum that the snapshot declares, while the bytes arrive.

use vstd::prelude::*;
use crate::snap::checksum::{fed, law_fed_in_chunks, start_sums, Checksum};
use crate::snap::error::SnapError;
use crate::snap::fault::{FaultAction, FaultPolicy, Hook};
use crate::snap::key::SnapKey;
use crate::snap::meta::{
    law_description_rejects_changed_byte,
    range_views,
    RangeMeta,
    RangeMetaView,
    SnapshotMeta,
    SnapshotMetaView,
};
use crate::snap::registry::{Entry, Registry, RegistryView};
use crate::snap::registry_laws::{lemma_after_release_receive_wf, lemma_with_entry_wf};
use crate::snap::state::SnapshotState;

verus! {

/// The answer to a stream that asks to be received.
#[derive(Clone, Copy, Debug, PartialEq, Eq, Structural)]
pub enum Admission {
    /// The stream holds a permit; the caller is to wait `delay` first.
    Admitted { delay: u64 },
    /// No permit now: the caller keeps the connection and asks again.
    Parked,
}

/// Where a reception stands.
#[derive(Clone, Copy, Debug, PartialEq, Eq, Structural)]
pub enum RecvPhase {
    /// Range files are arriving.
    Streaming,
    /// Every range file arrived and matched its description.
    Complete,
    /// The snapshot is registered as received.
    Done,
    /// The reception failed; the partial files are to be deleted.
    Failed,
}

/// States of the receiving side that lie past `Receiving`.
pub open spec fn past_receiving(st: SnapshotState) -> bool {
    st == SnapshotState::Received || st == SnapshotState::Applying || st == SnapshotState::Applied
}

/// Whether the stream for `key` repeats what the node already has: the
/// same snapshot, received before, or an older one than the region has
/// applied.
pub open spec fn is_duplicate(r: RegistryView, key: SnapKey) -> bool {
    r.superseded(key) || (r.get(key) matches Some(e) && past_receiving(e.state))
}

/// How the key of an inbound stream stands against what the node knows: a
/// duplicate is stale, which is harmless; the receiver discards it without
/// failing.
pub open spec fn validation(r: RegistryView, key: SnapKey) -> Result<(), SnapError> {
    if is_duplicate(r, key) {
        Err(SnapError::StaleDuplicate)
    } else {
        Ok(())
    }
}

/// Checks the key of an inbound stream against what the node knows of its
/// region. A stream that repeats a snapshot which is past `Receiving`, or
/// that is older than what the region has applied, is a `StaleDuplicate`.
pub fn validate(registry: &Registry, key: SnapKey) -> (res: Result<(), SnapError>)
    ensures
        res == validation(registry@, key),
{
    if registry.is_superseded(key) {
        return Err(SnapError::StaleDuplicate);
    }
    match registry.get(key) {
        Some(e) => {
            match e.state {
                SnapshotState::Received | SnapshotState::Applying | SnapshotState::Applied => Err(
                    SnapError::StaleDuplicate,
                ),
                _ => Ok(()),
            }
        },
        None => Ok(()),
    }
}

/// The two ways in which the reception of an admitted stream begins.
#[derive(Clone, Copy, Debug, PartialEq, Eq, Structural)]
pub enum BeginAs {
    /// The snapshot is new to the node: it is registered and received.
    Reception,
    /// The node has the snapshot, or a newer one: the stream is drained.
    Duplicate,
}

/// How the reception of `key` begins. A duplicate is accepted, not refused.
pub open spec fn begin_outcome(r: RegistryView, key: SnapKey) -> Result<BeginAs, SnapError> {
    if !r.is_admitted(key) {
        Err(SnapError::AdmissionRejected)
    } else if is_duplicate(r, key) {
        Ok(BeginAs::Duplicate)
    } else {
        match r.register_outcome(key, SnapshotState::Receiving) {
            Ok(()) => Ok(BeginAs::Reception),
            Err(e) => Err(e),
        }
    }
}

/// Whether a stream for `key` is admitted under the order at the hook.
pub open spec fn admission(r: RegistryView, key: SnapKey, fault: FaultAction) -> Admission {
    if fault != FaultAction::Fail && r.admits(key) {
        Admission::Admitted { delay: fault.spec_delay() }
    } else {
        Admission::Parked
    }
}

/// Asks the registry to admit the stream that carries `key`.
///
/// A stream that is not admitted is parked, never turned away: the caller
/// asks again when a permit may be free.
pub fn request_admission(registry: &mut Registry, key: SnapKey, policy: FaultPolicy) -> (res: Admission)
    ensures
        res == admission(old(registry)@, key, policy.spec_at(Hook::BeforeReceiveAdmit)),
        final(registry)@ == if res is Admitted {
            old(registry)@.after_admit(key)
        } else {
            old(registry)@
        },
        final(registry)@.wf(),
        res is Admitted ==> final(registry)@.is_admitted(key),
        final(registry)@.entries == old(registry)@.entries,
{
    registry.check();
    let fault = policy.at(Hook::BeforeReceiveAdmit);
    if fault == FaultAction::Fail {
        return Admission::Parked;
    }
    if registry.try_admit_receive(key) {
        Admission::Admitted { delay: fault.delay() }
    } else {
        Admission::Parked
    }
}

/// Gives one permit of `key` back when a stream of it closes, however the
/// reception ended. `true` means that the snapshot was still being
/// received and no other stream of the key is open: its entry is gone and
/// the caller deletes the partial files.
pub fn close(registry: &mut Registry, key: SnapKey) -> (discard: bool)
    ensures
        discard == old(registry)@.closes_unfinished(key),
        final(registry)@ == old(registry)@.after_release_receive(key),
        final(registry)@.wf(),
        old(registry)@.is_admitted(key) ==> final(registry)@.admitted.len() == old(
            registry,
        )@.admitted.len() - 1,
        discard ==> !final(registry)@.has(key),
        forall|k: SnapKey| k != key ==> final(registry)@.get(k) == old(registry)@.get(k),
{
    registry.check();
    proof {
        lemma_after_release_receive_wf(registry@, key);
    }
    registry.release_receive(key)
}

/// The mathematical content of a reception.
pub struct RecvTaskView {
    pub key: SnapKey,
    /// What the snapshot declares of its range files.
    pub ranges: Seq<RangeMetaView>,
    /// The bytes of each range file that arrived in full and matched.
    pub files: Seq<Seq<u8>>,
    /// The bytes of the current range file that arrived so far.
    pub got: Seq<u8>,
    pub phase: RecvPhase,
}

impl RecvTaskView {
    pub open spec fn wf(self) -> bool {
        &&& self.files.len() <= self.ranges.len()
        &&& forall|i: int|
            0 <= i < self.files.len() ==> (#[trigger] self.ranges[i]).describes(self.files[i])
        &&& self.phase == RecvPhase::Streaming ==> self.files.len() < self.ranges.len()
            && self.got.len() <= self.ranges[self.files.len() as int].size
        &&& (self.phase == RecvPhase::Complete || self.phase == RecvPhase::Done)
            ==> self.files.len() == self.ranges.len() && self.got.len() == 0
    }

    /// The reception of the snapshot that `meta` describes, as it begins.
    pub open spec fn fresh(meta: SnapshotMetaView) -> RecvTaskView {
        RecvTaskView {
            key: meta.key,
            ranges: meta.ranges,
            files: Seq::empty(),
            got: Seq::empty(),
            phase: if meta.ranges.len() == 0 {
                RecvPhase::Complete
            } else {
                RecvPhase::Streaming
            },
        }
    }

    /// The description of the range file that is arriving.
    pub open spec fn current(self) -> RangeMetaView {
        self.ranges[self.files.len() as int]
    }

    pub open spec fn feed_outcome(self, chunk: Seq<u8>) -> Result<(), SnapError> {
        if self.phase != RecvPhase::Streaming {
            Err(SnapError::InvalidTransition)
        } else if self.got.len() + chunk.len() > self.current().size {
            Err(SnapError::Corrupted)
        } else {
            Ok(())
        }
    }

    pub open spec fn after_feed(self, chunk: Seq<u8>) -> RecvTaskView {
        match self.feed_outcome(chunk) {
            Ok(()) => RecvTaskView { got: self.got + chunk, ..self },
            Err(SnapError::Corrupted) => RecvTaskView { phase: RecvPhase::Failed, ..self },
            Err(_) => self,
        }
    }

    pub open spec fn end_outcome(self) -> Result<(), SnapError> {
        if self.phase != RecvPhase::Streaming {
            Err(SnapError::InvalidTransition)
        } else if !self.current().describes(self.got) {
            Err(SnapError::Corrupted)
        } else {
            Ok(())
        }
    }

    pub open spec fn after_end(self) -> RecvTaskView {
        match self.end_outcome() {
            Ok(()) => RecvTaskView {
                files: self.files.push(self.got),
                got: Seq::empty(),
                phase: if self.files.len() + 1 == self.ranges.len() {
                    RecvPhase::Complete
                } else {
                    RecvPhase::Streaming
                },
                ..self
            },
            Err(SnapError::Corrupted) => RecvTaskView { phase: RecvPhase::Failed, ..self },
            Err(_) => self,
        }
    }

    /// The task after one whole range file arrived and was judged.
    pub open spec fn after_file(self, file: Seq<u8>) -> RecvTaskView {
        self.after_feed(file).after_end()
    }

    /// The task after the range files of a stream arrived, one after the
    /// other, each judged at its end.
    pub open spec fn after_files(self, files: Seq<Seq<u8>>) -> RecvTaskView
        decreases files.len(),
    {
        if files.len() == 0 {
            self
        } else {
            self.after_files(files.drop_last()).after_file(files.last())
        }
    }
}

/// A snapshot on its way in.
pub struct RecvTask {
    key: SnapKey,
    ranges: Vec<RangeMeta>,
    done: usize,
    got: u64,
    sum: Checksum,
    phase: RecvPhase,
    files: Ghost<Seq<Seq<u8>>>,
    data: Ghost<Seq<u8>>,
}

impl View for RecvTask {
    type V = RecvTaskView;

    closed spec fn view(&self) -> RecvTaskView {
        RecvTaskView {
            key: self.key,
            ranges: range_views(self.ranges@),
            files: self.files@,
            got: self.data@,
            phase: self.phase,
        }
    }
}

impl RecvTask {
    #[verifier::type_invariant]
    spec fn inv(self) -> bool {
        &&& self@.wf()
        &&& self.sum@ == fed(start_sums(), self.data@)
        &&& self.got == self.data@.len()
        &&& self.done == self.files@.len()
    }

    /// Begins the reception of the snapshot that `meta` describes.
    ///
    /// The stream must hold a permit. A stream that repeats a snapshot the
    /// node has received before, or that is older than what the region has
    /// applied, is a duplicate: it is accepted, nothing is registered, no
    /// task is made, and the caller drains the stream. Otherwise the key is
    /// registered as `Receiving`, held once.
    pub fn begin(registry: &mut Registry, meta: SnapshotMeta, now: u64) -> (res: Result<
        Begun,
        SnapError,
    >)
        ensures
            final(registry)@.wf(),
            old(registry)@.is_admitted(meta@.key) && is_duplicate(old(registry)@, meta@.key)
                ==> (res matches Ok(Begun::Duplicate)) && final(registry)@ == old(registry)@,
            match begin_outcome(old(registry)@, meta@.key) {
                Ok(BeginAs::Reception) => {
                    &&& res matches Ok(Begun::Receiving(task))
                    &&& task@ == RecvTaskView::fresh(meta@)
                    &&& task@ == (RecvTaskView {
                        key: meta@.key,
                        ranges: meta@.ranges,
                        files: Seq::empty(),
                        got: Seq::empty(),
                        phase: if meta@.ranges.len() == 0 {
                            RecvPhase::Complete
                        } else {
                            RecvPhase::Streaming
                        },
                    })
                    &&& final(registry)@ == old(registry)@.after_register(
                        meta@.key,
                        SnapshotState::Receiving,
                        now,
                    )
                    &&& final(registry)@.get(meta@.key) == Some(
                        Entry {
                            key: meta@.key,
                            state: SnapshotState::Receiving,
                            ref_count: 1,
                            created: now,
                            touched: now,
                        },
                    )
                },
                Ok(BeginAs::Duplicate) => (res matches Ok(Begun::Duplicate)) && final(registry)@
                    == old(registry)@,
                Err(e) => res matches Err(got) && got == e && final(registry)@ == old(registry)@,
            },
    {
        registry.check();
        let key = meta.key;
        if !registry.holds_permit(key) {
            return Err(SnapError::AdmissionRejected);
        }
        // a stale duplicate is discarded silently: accepted, with nothing done
        if validate(registry, key).is_err() {
            return Ok(Begun::Duplicate);
        }
        let fresh = Entry {
            key,
            state: SnapshotState::Receiving,
            ref_count: 1,
            created: now,
            touched: now,
        };
        proof {
            lemma_with_entry_wf(registry@, fresh);
        }
        match registry.register(key, SnapshotState::Receiving, now) {
            Ok(()) => {
                let phase = if meta.ranges.len() == 0 {
                    RecvPhase::Complete
                } else {
                    RecvPhase::Streaming
                };
                Ok(
                    Begun::Receiving(
                        RecvTask {
                            key,
                            ranges: meta.ranges,
                            done: 0,
                            got: 0,
                            sum: Checksum::new(),
                            phase,
                            files: Ghost(Seq::empty()),
                            data: Ghost(Seq::empty()),
                        },
                    ),
                )
            },
            Err(e) => Err(e),
        }
    }

    /// The invariant of the task, for callers that reason about its view.
    pub fn check(&self)
        ensures
            self@.wf(),
    {
        proof {
            use_type_invariant(self);
        }
    }

    pub fn key(&self) -> (key: SnapKey)
        ensures
            key == self@.key,
    {
        self.key
    }

    pub fn phase(&self) -> (phase: RecvPhase)
        ensures
            phase == self@.phase,
    {
        self.phase
    }

    /// Number of range files that arrived in full and matched.
    pub fn verified_count(&self) -> (n: usize)
        ensures
            n == self@.files.len(),
    {
        proof {
            use_type_invariant(self);
        }
        self.done
    }

    /// Takes the next bytes of the current range file.
    ///
    /// More bytes than the file is declared to have make the snapshot
    /// `Corrupted`, and the reception fails.
    pub fn feed(&mut self, chunk: &[u8]) -> (res: Result<(), SnapError>)
        ensures
            res == old(self)@.feed_outcome(chunk@),
            final(self)@ == old(self)@.after_feed(chunk@),
            final(self)@.wf(),
    {
        proof {
            use_type_invariant(&*self);
        }
        if self.phase != RecvPhase::Streaming {
            return Err(SnapError::InvalidTransition);
        }
        let size: u64 = self.ranges[self.done].size;
        assert(size == self@.current().size);
        let n: usize = chunk.len();
        if n as u64 > size - self.got {
            self.phase = RecvPhase::Failed;
            return Err(SnapError::Corrupted);
        }
        let mut sum = self.sum;
        sum.update(chunk);
        proof {
            law_fed_in_chunks(start_sums(), self.data@, chunk@);
        }
        let ghost data = self.data@ + chunk@;
        let got: u64 = self.got + n as u64;
        let mut whole = RecvTask::blank(self.key);
        core::mem::swap(self, &mut whole);
        let RecvTask { key, ranges, done, got: _, sum: _, phase, files, data: _ } = whole;
        *self = RecvTask { key, ranges, done, got, sum, phase, files, data: Ghost(data) };
        Ok(())
    }

    /// Ends the current range file and judges it.
    ///
    /// The file passes exactly when it has the declared size and the
    /// declared checksum. Otherwise the snapshot is `Corrupted` and the
    /// reception fails.
    pub fn end_range(&mut self) -> (res: Result<(), SnapError>)
        ensures
            res == old(self)@.end_outcome(),
            final(self)@ == old(self)@.after_end(),
            final(self)@.wf(),
    {
        proof {
            use_type_invariant(&*self);
        }
        if self.phase != RecvPhase::Streaming {
            return Err(SnapError::InvalidTransition);
        }
        let declared = &self.ranges[self.done];
        assert(declared@ == self@.current());
        if self.got != declared.size || self.sum.digest() != declared.checksum {
            self.phase = RecvPhase::Failed;
            return Err(SnapError::Corrupted);
        }
        let ghost before = self@;
        let mut whole = RecvTask::blank(self.key);
        core::mem::swap(self, &mut whole);
        let RecvTask { key, ranges, done, got: _, sum: _, phase: _, files, data } = whole;
        assert(done < ranges.len()) by {
            assert(before.ranges.len() == ranges@.len());
        }
        let phase = if done + 1 == ranges.len() {
            RecvPhase::Complete
        } else {
            RecvPhase::Streaming
        };
        let ghost files = files@.push(data@);
        *self = RecvTask {
            key,
            ranges,
            done: done + 1,
            got: 0,
            sum: Checksum::new(),
            phase,
            files: Ghost(files),
            data: Ghost(Seq::empty()),
        };
        Ok(())
    }

    /// Registers the snapshot as received, once every range file passed.
    ///
    /// If the entry is no longer `Receiving` (it was canceled meanwhile)
    /// the reception fails with `Canceled`.
    pub fn finish(&mut self, registry: &mut Registry, now: u64) -> (res: Result<SnapKey, SnapError>)
        ensures
            final(self)@.wf(),
            final(registry)@.wf(),
            old(self)@.phase != RecvPhase::Complete ==> res == Err::<SnapKey, SnapError>(
                SnapError::InvalidTransition,
            ) && final(self)@ == old(self)@ && final(registry)@ == old(registry)@,
            old(self)@.phase == RecvPhase::Complete ==> {
                &&& final(registry)@ == old(registry)@.after_transition(
                    old(self)@.key,
                    SnapshotState::Receiving,
                    SnapshotState::Received,
                    now,
                )
                &&& match old(registry)@.transition_outcome(
                    old(self)@.key,
                    SnapshotState::Receiving,
                    SnapshotState::Received,
                ) {
                    Ok(()) => res == Ok::<SnapKey, SnapError>(old(self)@.key) && final(self)@ == (
                    RecvTaskView { phase: RecvPhase::Done, ..old(self)@ }),
                    Err(_) => res == Err::<SnapKey, SnapError>(SnapError::Canceled) && final(self)@
                        == (RecvTaskView { phase: RecvPhase::Failed, ..old(self)@ }),
                }
            },
    {
        proof {
            use_type_invariant(&*self);
        }
        registry.check();
        if self.phase != RecvPhase::Complete {
            return Err(SnapError::InvalidTransition);
        }
        match registry.transition(
            self.key,
            SnapshotState::Receiving,
            SnapshotState::Received,
            now,
        ) {
            Ok(()) => {
                self.phase = RecvPhase::Done;
                Ok(self.key)
            },
            Err(_) => {
                self.phase = RecvPhase::Failed;
                Err(SnapError::Canceled)
            },
        }
    }

    /// A failed reception of `key` with no ranges: what stands in the place
    /// of a task for the moment in which its parts are taken out.
    fn blank(key: SnapKey) -> (task: RecvTask)
        ensures
            task@ == (RecvTaskView {
                key,
                ranges: Seq::empty(),
                files: Seq::empty(),
                got: Seq::empty(),
                phase: RecvPhase::Failed,
            }),
            task@.wf(),
    {
        let task = RecvTask {
            key,
            ranges: Vec::new(),
            done: 0,
            got: 0,
            sum: Checksum::new(),
            phase: RecvPhase::Failed,
            files: Ghost(Seq::empty()),
            data: Ghost(Seq::empty()),
        };
        assert(task@.ranges =~= Seq::<RangeMetaView>::empty());
        task
    }
}

/// How the reception of an admitted stream began.
pub enum Begun {
    /// The snapshot is registered; its range files are fed to the
    /// reception held here.
    Receiving(RecvTask),
    /// The node has the snapshot, or a newer one. There is nothing to
    /// receive: the caller drains the stream and closes it.
    Duplicate,
}

impl Begun {
    /// The task of the reception, where one was made.
    pub fn into_task(self) -> (task: Option<RecvTask>)
        ensures
            task == match self {
                Begun::Receiving(t) => Some(t),
                Begun::Duplicate => None,
            },
    {
        match self {
            Begun::Receiving(t) => Some(t),
            Begun::Duplicate => None,
        }
    }
}

/// The registry after the reception of `key` began, or failed to begin.
pub open spec fn after_begin(r: RegistryView, key: SnapKey, now: u64) -> RegistryView {
    if begin_outcome(r, key) == Ok::<BeginAs, SnapError>(BeginAs::Reception) {
        r.after_register(key, SnapshotState::Receiving, now)
    } else {
        r
    }
}

/// A stream that repeats a snapshot which the node has received, is
/// applying or has applied is accepted and changes nothing: no reception
/// begins, the registry stays as it is with its one entry for the key, and
/// when the stream closes only its permit is given back.
pub proof fn law_duplicate_is_noop(r: RegistryView, key: SnapKey, now: u64)
    requires
        r.wf(),
        r.is_admitted(key),
        r.get(key) matches Some(e) && past_receiving(e.state),
    ensures
        validation(r, key) == Err::<(), SnapError>(SnapError::StaleDuplicate),
        begin_outcome(r, key) == Ok::<BeginAs, SnapError>(BeginAs::Duplicate),
        after_begin(r, key, now) == r,
        !r.closes_unfinished(key),
        r.after_release_receive(key).entries == r.entries,
{
}

/// What a finished generation wrote is what a reception accepts: each range
/// file, arriving whole and unchanged, passes the check at its end.
pub proof fn law_round_trip(ranges: Seq<RangeMetaView>, files: Seq<Seq<u8>>, t: RecvTaskView)
    requires
        files.len() == ranges.len(),
        forall|i: int| 0 <= i < files.len() ==> (#[trigger] ranges[i]).describes(files[i]),
        t.wf(),
        t.phase == RecvPhase::Streaming,
        t.ranges == ranges,
        t.got == files[t.files.len() as int],
    ensures
        t.end_outcome() == Ok::<(), SnapError>(()),
        t.after_end().wf(),
        t.after_end().files == t.files.push(files[t.files.len() as int]),
{
    let n = t.after_end();
    assert(t.current().describes(t.got));
    assert forall|i: int| 0 <= i < n.files.len() implies (#[trigger] n.ranges[i]).describes(
        n.files[i],
    ) by {
        if i < t.files.len() {
            assert(n.files[i] == t.files[i]);
        }
    }
}

/// A range file that matches its description passes the check at its end,
/// in whatever pieces it arrived; the same file with any one byte changed
/// is found corrupted.
pub proof fn law_range_check_is_exact(t: RecvTaskView, i: int, v: u8)
    requires
        t.wf(),
        t.phase == RecvPhase::Streaming,
    ensures
        t.current().describes(t.got) ==> t.end_outcome() == Ok::<(), SnapError>(()),
        t.current().describes(t.got) && 0 <= i < t.got.len() && v != t.got[i] ==> (RecvTaskView {
            got: t.got.update(i, v),
            ..t
        }).end_outcome() == Err::<(), SnapError>(SnapError::Corrupted),
{
    if t.current().describes(t.got) && 0 <= i < t.got.len() && v != t.got[i] {
        law_description_rejects_changed_byte(t.current(), t.got, i, v);
    }
}

/// A range file may arrive in pieces: as long as it does not grow past its
/// declared size, feeding two pieces one after the other is feeding them
/// as one.
pub proof fn law_pieces_make_the_file(t: RecvTaskView, a: Seq<u8>, b: Seq<u8>)
    requires
        t.wf(),
        t.feed_outcome(a + b) is Ok,
    ensures
        t.feed_outcome(a) is Ok,
        t.after_feed(a).feed_outcome(b) is Ok,
        t.after_feed(a).after_feed(b) == t.after_feed(a + b),
{
    assert((t.got + a) + b =~= t.got + (a + b));
}

/// Where a reception stands after the first `k` range files of a stream
/// arrived unchanged: they are all accepted, and the reception is complete
/// exactly when none is missing.
proof fn lemma_unchanged_prefix(meta: SnapshotMetaView, files: Seq<Seq<u8>>, k: int)
    requires
        meta.describes(files),
        0 <= k <= files.len(),
    ensures
        RecvTaskView::fresh(meta).after_files(files.take(k)) == (RecvTaskView {
            key: meta.key,
            ranges: meta.ranges,
            files: files.take(k),
            got: Seq::empty(),
            phase: if k == files.len() {
                RecvPhase::Complete
            } else {
                RecvPhase::Streaming
            },
        }),
    decreases k,
{
    let start = RecvTaskView::fresh(meta);
    if k == 0 {
        assert(files.take(0) =~= Seq::<Seq<u8>>::empty());
    } else {
        lemma_unchanged_prefix(meta, files, k - 1);
        let head = files.take(k);
        assert(head.drop_last() =~= files.take(k - 1));
        assert(head.last() == files[k - 1]);
        let before = start.after_files(files.take(k - 1));
        assert(before.current() == meta.ranges[k - 1]);
        assert(meta.ranges[k - 1].describes(files[k - 1]));
        let fed = before.after_feed(files[k - 1]);
        assert(fed.got =~= files[k - 1]);
        assert(fed.after_end().files =~= files.take(k));
    }
}

/// Once a reception has failed, the range files that still arrive change
/// nothing.
proof fn lemma_failed_stays(t: RecvTaskView, files: Seq<Seq<u8>>, k: int, j: int)
    requires
        0 <= k <= j <= files.len(),
        t.after_files(files.take(k)).phase == RecvPhase::Failed,
    ensures
        t.after_files(files.take(j)) == t.after_files(files.take(k)),
    decreases j - k,
{
    if k < j {
        lemma_failed_stays(t, files, k, j - 1);
        assert(files.take(j).drop_last() =~= files.take(j - 1));
    }
}

/// What a finished generation wrote is what a reception accepts: a stream
/// that carries the range files which the description describes, byte for
/// byte, is received in full, every file is accepted, and the reception is
/// complete, ready to be registered as received.
pub proof fn law_stream_round_trip(meta: SnapshotMetaView, files: Seq<Seq<u8>>)
    requires
        meta.describes(files),
    ensures
        RecvTaskView::fresh(meta).after_files(files) == (RecvTaskView {
            key: meta.key,
            ranges: meta.ranges,
            files,
            got: Seq::empty(),
            phase: RecvPhase::Complete,
        }),
        RecvTaskView::fresh(meta).after_files(files).wf(),
{
    lemma_unchanged_prefix(meta, files, files.len() as int);
    assert(files.take(files.len() as int) =~= files);
}

/// A stream in which one byte of one range file differs from what was
/// generated, whichever file and whichever byte, is found corrupted: the
/// reception fails at the end of that file and stays failed, so that the
/// snapshot is never registered as received.
pub proof fn law_stream_detects_changed_byte(
    meta: SnapshotMetaView,
    files: Seq<Seq<u8>>,
    k: int,
    i: int,
    v: u8,
)
    requires
        meta.describes(files),
        0 <= k < files.len(),
        0 <= i < files[k].len(),
        v != files[k][i],
    ensures
        RecvTaskView::fresh(meta).after_files(files.take(k)).after_feed(
            files[k].update(i, v),
        ).end_outcome() == Err::<(), SnapError>(SnapError::Corrupted),
        RecvTaskView::fresh(meta).after_files(files.update(k, files[k].update(i, v))).phase
            == RecvPhase::Failed,
{
    let start = RecvTaskView::fresh(meta);
    let changed = files[k].update(i, v);
    let bad = files.update(k, changed);
    lemma_unchanged_prefix(meta, files, k);
    assert(bad.take(k) =~= files.take(k));
    let before = start.after_files(files.take(k));
    assert(before.current() == meta.ranges[k]);
    assert(meta.ranges[k].describes(files[k]));
    law_description_rejects_changed_byte(meta.ranges[k], files[k], i, v);
    let fed = before.after_feed(changed);
    assert(fed.got =~= changed);
    assert(bad.take(k + 1).drop_last() =~= bad.take(k));
    assert(bad.take(k + 1).last() == changed);
    assert(start.after_files(bad.take(k + 1)).phase == RecvPhase::Failed);
    lemma_failed_stays(start, bad, k + 1, bad.len() as int);
    assert(bad.take(bad.len() as int) =~= bad);
}

} // verus!
