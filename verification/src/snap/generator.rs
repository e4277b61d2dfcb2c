//! Generation of a snapshot, as a task that the caller drives.
//!
//! The caller owns the storage view and the files. The task decides what
//! happens next at each range boundary, sums every file while it is
//! streamed, and keeps the registry in step. Cancellation is looked for at
//! range boundaries only.

use vstd::prelude::*;
use crate::snap::checksum::{checksum_of, fed, start_sums, Checksum};
use crate::snap::error::SnapError;
use crate::snap::fault::{FaultAction, FaultPolicy, Hook};
use crate::snap::key::SnapKey;
use crate::snap::meta::{range_views, RangeMeta, RangeMetaView, SnapshotMeta, SnapshotMetaView};
use crate::snap::registry::{Entry, Registry, RegistryView};
use crate::snap::state::{Role, SnapshotState};

verus! {

/// What a task looks at to learn that its work is no longer wanted.
#[derive(Clone, Copy, Debug, PartialEq, Eq, Structural)]
pub struct CancelToken {
    /// The oldest log index that the region still retains.
    pub truncated_index: u64,
    /// The peer that asked for the snapshot was destroyed.
    pub destroyed: bool,
}

impl CancelToken {
    /// A snapshot is stale once the log is truncated up to its index; its
    /// generation is also void once the peer is gone.
    pub open spec fn spec_cancels(self, key: SnapKey) -> bool {
        self.destroyed || key.idx <= self.truncated_index
    }

    #[verifier::when_used_as_spec(spec_cancels)]
    pub fn cancels(self, key: SnapKey) -> (b: bool)
        ensures
            b == self.spec_cancels(key),
    {
        self.destroyed || key.idx <= self.truncated_index
    }
}

/// Where a generation task stands.
#[derive(Clone, Copy, Debug, PartialEq, Eq, Structural)]
pub enum GenPhase {
    /// Between two range files.
    Boundary,
    /// A range file is open and being written.
    InRange,
    /// All range files are written; the metadata file is being written.
    Sealing,
    /// The snapshot is generated.
    Done,
    /// The task was canceled or abandoned.
    Canceled,
}

/// What the caller is to do next.
#[derive(Clone, Copy, Debug, PartialEq, Eq, Structural)]
pub enum GenStep {
    /// Open the file of range `index` and stream the range into it.
    Build { index: usize },
    /// Write the metadata file, then complete the task.
    Seal,
    /// Delete the files of the first `range_files` ranges, and the
    /// metadata file if `meta_file` says so. The task is over.
    Abort { range_files: usize, meta_file: bool },
    /// Nothing: the task is not at a boundary.
    Wait,
}

/// The mathematical content of a generation task.
pub struct GenTaskView {
    pub key: SnapKey,
    /// The ranges to build, in order.
    pub names: Seq<Seq<char>>,
    /// The descriptions of the ranges built so far.
    pub built: Seq<RangeMetaView>,
    /// The bytes of each range file built so far.
    pub files: Seq<Seq<u8>>,
    /// The bytes written so far to the open range file.
    pub open: Seq<u8>,
    /// The entries written so far to the open range file.
    pub open_kvs: u64,
    pub phase: GenPhase,
}

impl GenTaskView {
    pub open spec fn wf(self) -> bool {
        &&& self.built.len() == self.files.len()
        &&& self.built.len() <= self.names.len()
        &&& forall|i: int|
            0 <= i < self.built.len() ==> (#[trigger] self.built[i]).name == self.names[i]
                && self.built[i].describes(self.files[i])
        &&& self.phase == GenPhase::InRange ==> self.built.len() < self.names.len()
        &&& (self.phase == GenPhase::Sealing || self.phase == GenPhase::Done) ==> self.built.len()
            == self.names.len()
        &&& self.phase != GenPhase::InRange ==> self.open.len() == 0 && self.open_kvs == 0
        &&& self.open.len() <= u64::MAX
    }

    /// Number of range files of the snapshot that exist on disk.
    pub open spec fn range_files(self) -> nat {
        if self.phase == GenPhase::InRange {
            self.built.len() + 1
        } else {
            self.built.len()
        }
    }

    /// Whether the task has work left.
    pub open spec fn running(self) -> bool {
        self.phase == GenPhase::Boundary || self.phase == GenPhase::InRange || self.phase
            == GenPhase::Sealing
    }

    /// The description of the snapshot as built so far.
    pub open spec fn meta(self) -> SnapshotMetaView {
        SnapshotMetaView { key: self.key, ranges: self.built }
    }

    /// The order that tells the caller to delete every file of the task.
    pub open spec fn abort_step(self) -> GenStep {
        GenStep::Abort {
            range_files: self.range_files() as usize,
            meta_file: self.phase == GenPhase::Sealing,
        }
    }

    /// The decision at a boundary: give up if the token says so, else build
    /// the next range, else seal.
    pub open spec fn next(self, token: CancelToken) -> (GenTaskView, GenStep) {
        if self.phase != GenPhase::Boundary {
            (self, GenStep::Wait)
        } else if token.spec_cancels(self.key) {
            (GenTaskView { phase: GenPhase::Canceled, ..self }, self.abort_step())
        } else if self.built.len() < self.names.len() {
            (
                GenTaskView { phase: GenPhase::InRange, ..self },
                GenStep::Build { index: self.built.len() as usize },
            )
        } else {
            (GenTaskView { phase: GenPhase::Sealing, ..self }, GenStep::Seal)
        }
    }

    /// Whether `n` more bytes and `entries` more entries can be written.
    pub open spec fn accepts(self, n: nat, entries: u64) -> bool {
        &&& self.phase == GenPhase::InRange
        &&& self.open.len() + n <= u64::MAX
        &&& self.open_kvs + entries <= u64::MAX
    }

    pub open spec fn after_write(self, chunk: Seq<u8>, entries: u64) -> GenTaskView {
        if self.accepts(chunk.len(), entries) {
            GenTaskView {
                open: self.open + chunk,
                open_kvs: (self.open_kvs + entries) as u64,
                ..self
            }
        } else {
            self
        }
    }

    /// The description of the open range file as it stands.
    pub open spec fn open_meta(self) -> RangeMetaView {
        RangeMetaView {
            name: self.names[self.built.len() as int],
            size: self.open.len() as u64,
            kv_count: self.open_kvs,
            checksum: checksum_of(self.open),
        }
    }

    pub open spec fn after_close(self) -> GenTaskView {
        if self.phase == GenPhase::InRange {
            GenTaskView {
                built: self.built.push(self.open_meta()),
                files: self.files.push(self.open),
                open: Seq::empty(),
                open_kvs: 0,
                phase: GenPhase::Boundary,
                ..self
            }
        } else {
            self
        }
    }

    pub open spec fn after_abandon(self) -> (GenTaskView, GenStep) {
        if self.running() {
            (
                GenTaskView {
                    open: Seq::empty(),
                    open_kvs: 0,
                    phase: GenPhase::Canceled,
                    ..self
                },
                self.abort_step(),
            )
        } else {
            (self, GenStep::Wait)
        }
    }
}

/// How a request for generation starts.
pub enum GenStart {
    /// A new task runs; the caller is to wait `delay` first.
    Run { task: GenTask, delay: u64 },
    /// A live entry of the key exists on the sending side: the caller holds
    /// it now too and waits for the result of the work that is under way.
    Join,
}

/// A snapshot in the making.
pub struct GenTask {
    key: SnapKey,
    names: Vec<String>,
    built: Vec<RangeMeta>,
    phase: GenPhase,
    sum: Checksum,
    size: u64,
    kvs: u64,
    files: Ghost<Seq<Seq<u8>>>,
    open: Ghost<Seq<u8>>,
}

impl View for GenTask {
    type V = GenTaskView;

    closed spec fn view(&self) -> GenTaskView {
        GenTaskView {
            key: self.key,
            names: self.names@.map_values(|s: String| s@),
            built: range_views(self.built@),
            files: self.files@,
            open: self.open@,
            open_kvs: self.kvs,
            phase: self.phase,
        }
    }
}

fn copy_ranges(v: &Vec<RangeMeta>) -> (r: Vec<RangeMeta>)
    ensures
        range_views(r@) == range_views(v@),
{
    let mut r: Vec<RangeMeta> = Vec::new();
    let mut i: usize = 0;
    while i < v.len()
        invariant
            i <= v.len(),
            r@.len() == i,
            forall|j: int| 0 <= j < i ==> (#[trigger] r@[j])@ == v@[j]@,
        decreases v.len() - i,
    {
        r.push(v[i].duplicate());
        i += 1;
    }
    assert(range_views(r@) =~= range_views(v@));
    r
}

impl GenTask {
    #[verifier::type_invariant]
    spec fn inv(self) -> bool {
        &&& self@.wf()
        &&& self.sum@ == fed(start_sums(), self.open@)
        &&& self.size == self.open@.len()
    }

    /// A task that will build the ranges `names`, in that order, for `key`.
    pub fn new(key: SnapKey, names: Vec<String>) -> (task: GenTask)
        ensures
            task@ == (GenTaskView {
                key,
                names: names@.map_values(|s: String| s@),
                built: Seq::empty(),
                files: Seq::empty(),
                open: Seq::empty(),
                open_kvs: 0,
                phase: GenPhase::Boundary,
            }),
            task@.wf(),
    {
        let task = GenTask {
            key,
            names,
            built: Vec::new(),
            phase: GenPhase::Boundary,
            sum: Checksum::new(),
            size: 0,
            kvs: 0,
            files: Ghost(Seq::empty()),
            open: Ghost(Seq::empty()),
        };
        assert(task@.built =~= Seq::empty());
        task
    }

    /// The invariant of the task, for callers that reason about its view.
    pub fn check(&self)
        ensures
            self@.wf(),
    {
        proof {
            use_type_invariant(self);
        }
    }

    pub fn key(&self) -> (key: SnapKey)
        ensures
            key == self@.key,
    {
        self.key
    }

    pub fn phase(&self) -> (phase: GenPhase)
        ensures
            phase == self@.phase,
    {
        self.phase
    }

    /// Number of ranges built so far.
    pub fn built_count(&self) -> (n: usize)
        ensures
            n == self@.built.len(),
    {
        self.built.len()
    }

    /// The description of the snapshot as built so far: what the metadata
    /// file is to hold once every range is built.
    pub fn description(&self) -> (meta: SnapshotMeta)
        ensures
            meta@ == self@.meta(),
    {
        SnapshotMeta { key: self.key, ranges: copy_ranges(&self.built) }
    }

    /// Number of range files of the snapshot that exist on disk.
    pub fn range_files(&self) -> (n: usize)
        ensures
            n == self@.range_files(),
    {
        proof {
            use_type_invariant(self);
            assert(self@.names.len() == self.names@.len());
            assert(self@.built.len() == self.built@.len());
        }
        let limit: usize = self.names.len();
        if self.phase == GenPhase::InRange {
            assert(self.built@.len() < limit);
            self.built.len() + 1
        } else {
            self.built.len()
        }
    }

    /// At a range boundary, decides what comes next.
    ///
    /// If the token cancels the snapshot, the task ends here: its entry
    /// leaves the registry and the step names every file written so far.
    /// Otherwise the next range is to be built, or, after the last range,
    /// the metadata file. Anywhere but at a boundary the call does nothing.
    pub fn next(&mut self, registry: &mut Registry, token: CancelToken) -> (step: GenStep)
        ensures
            (final(self)@, step) == old(self)@.next(token),
            final(self)@.wf(),
            final(registry)@ == if step is Abort {
                old(registry)@.without(old(self)@.key)
            } else {
                old(registry)@
            },
            final(registry)@.wf(),
    {
        proof {
            use_type_invariant(&*self);
        }
        registry.check();
        if self.phase != GenPhase::Boundary {
            return GenStep::Wait;
        }
        if token.cancels(self.key) {
            registry.cancel(self.key);
            self.phase = GenPhase::Canceled;
            GenStep::Abort { range_files: self.built.len(), meta_file: false }
        } else if self.built.len() < self.names.len() {
            self.phase = GenPhase::InRange;
            GenStep::Build { index: self.built.len() }
        } else {
            self.phase = GenPhase::Sealing;
            GenStep::Seal
        }
    }

    /// Records that `chunk` was written to the open range file, and with it
    /// `entries` more entries. Refused, with nothing changed, when no range
    /// is open or a counter would pass its largest value.
    pub fn write(&mut self, chunk: &[u8], entries: u64) -> (ok: bool)
        ensures
            ok == old(self)@.accepts(chunk@.len(), entries),
            final(self)@ == old(self)@.after_write(chunk@, entries),
            final(self)@.wf(),
    {
        proof {
            use_type_invariant(&*self);
        }
        if self.phase != GenPhase::InRange {
            return false;
        }
        let n: usize = chunk.len();
        if n as u64 > u64::MAX - self.size || entries > u64::MAX - self.kvs {
            return false;
        }
        let mut sum = self.sum;
        sum.update(chunk);
        proof {
            crate::snap::checksum::law_fed_in_chunks(start_sums(), self.open@, chunk@);
        }
        let ghost open = self.open@ + chunk@;
        let size: u64 = self.size + n as u64;
        let kvs: u64 = self.kvs + entries;
        let mut whole = GenTask::new(self.key, Vec::new());
        core::mem::swap(self, &mut whole);
        let GenTask { key, names, built, phase, sum: _, size: _, kvs: _, files, open: _ } = whole;
        *self = GenTask { key, names, built, phase, sum, size, kvs, files, open: Ghost(open) };
        true
    }

    /// Closes the open range file: its description joins those built so
    /// far, and the task is at a boundary again. Without an open range the
    /// call does nothing and returns `false`.
    pub fn close_range(&mut self) -> (ok: bool)
        ensures
            ok == (old(self)@.phase == GenPhase::InRange),
            final(self)@ == old(self)@.after_close(),
            final(self)@.wf(),
    {
        proof {
            use_type_invariant(&*self);
        }
        if self.phase != GenPhase::InRange {
            return false;
        }
        let ghost before = self@;
        let index: usize = self.built.len();
        let meta = RangeMeta {
            name: self.names[index].clone(),
            size: self.size,
            kv_count: self.kvs,
            checksum: self.sum.digest(),
        };
        assert(meta@ == before.open_meta());
        let mut whole = GenTask::new(self.key, Vec::new());
        core::mem::swap(self, &mut whole);
        let GenTask { key, names, mut built, phase: _, sum: _, size: _, kvs: _, files, open } = whole;
        built.push(meta);
        let ghost files = files@.push(open@);
        proof {
            assert(range_views(built@) =~= before.built.push(before.open_meta()));
        }
        *self = GenTask {
            key,
            names,
            built,
            phase: GenPhase::Boundary,
            sum: Checksum::new(),
            size: 0,
            kvs: 0,
            files: Ghost(files),
            open: Ghost(Seq::empty()),
        };
        true
    }

    /// Ends the task after the metadata file is written.
    ///
    /// The snapshot is generated when the task is sealing, the token does
    /// not cancel it, and its entry is still `Generating`: the entry then
    /// becomes `Generated` and the description is returned. A token that
    /// cancels removes the entry; an entry that is gone or in another state
    /// is left alone. Either way the task is canceled, and the step that
    /// comes with the error names every file of the task, the metadata file
    /// among them, for the caller to delete. In any other phase nothing
    /// happens. Where there is nothing to delete the step is `Wait`.
    pub fn complete(&mut self, registry: &mut Registry, token: CancelToken, now: u64) -> (done: (
        Result<SnapshotMeta, SnapError>,
        GenStep,
    ))
        ensures
            final(self)@.wf(),
            final(registry)@.wf(),
            ({
                let (res, step) = done;
                &&& old(self)@.phase != GenPhase::Sealing ==> res == Err::<SnapshotMeta, SnapError>(
                    SnapError::InvalidTransition,
                ) && step == GenStep::Wait && final(self)@ == old(self)@ && final(registry)@
                    == old(registry)@
                &&& old(self)@.phase == GenPhase::Sealing ==> (res is Ok <==> !token.spec_cancels(
                    old(self)@.key,
                ) && old(registry)@.transition_outcome(
                    old(self)@.key,
                    SnapshotState::Generating,
                    SnapshotState::Generated,
                ) is Ok)
                &&& old(self)@.phase == GenPhase::Sealing && res is Err ==> res == Err::<
                    SnapshotMeta,
                    SnapError,
                >(SnapError::Canceled) && step == (GenStep::Abort {
                    range_files: old(self)@.names.len() as usize,
                    meta_file: true,
                }) && step == old(self)@.abort_step() && final(self)@ == (GenTaskView {
                    phase: GenPhase::Canceled,
                    ..old(self)@
                }) && final(registry)@ == if token.spec_cancels(old(self)@.key) {
                    old(registry)@.without(old(self)@.key)
                } else {
                    old(registry)@
                }
                &&& res matches Ok(meta) ==> step == GenStep::Wait && meta@ == old(self)@.meta()
                    && meta@.describes(old(self)@.files) && meta@.ranges.len()
                    == old(self)@.names.len() && final(self)@ == (GenTaskView {
                    phase: GenPhase::Done,
                    ..old(self)@
                }) && final(registry)@ == old(registry)@.after_transition(
                    old(self)@.key,
                    SnapshotState::Generating,
                    SnapshotState::Generated,
                    now,
                )
            }),
    {
        proof {
            use_type_invariant(&*self);
        }
        registry.check();
        if self.phase != GenPhase::Sealing {
            return (Err(SnapError::InvalidTransition), GenStep::Wait);
        }
        let abort = GenStep::Abort { range_files: self.range_files(), meta_file: true };
        if token.cancels(self.key) {
            registry.cancel(self.key);
            self.phase = GenPhase::Canceled;
            return (Err(SnapError::Canceled), abort);
        }
        match registry.transition(
            self.key,
            SnapshotState::Generating,
            SnapshotState::Generated,
            now,
        ) {
            Ok(()) => {
                let ranges = copy_ranges(&self.built);
                self.phase = GenPhase::Done;
                (Ok(SnapshotMeta { key: self.key, ranges }), GenStep::Wait)
            },
            Err(_) => {
                self.phase = GenPhase::Canceled;
                (Err(SnapError::Canceled), abort)
            },
        }
    }

    /// Gives the task up, as after an I/O failure: its entry leaves the
    /// registry and the step names every file written so far. A task that
    /// is done or canceled is left as it is.
    pub fn abandon(&mut self, registry: &mut Registry) -> (step: GenStep)
        ensures
            (final(self)@, step) == old(self)@.after_abandon(),
            final(self)@.wf(),
            final(registry)@ == if old(self)@.running() {
                old(registry)@.without(old(self)@.key)
            } else {
                old(registry)@
            },
            final(registry)@.wf(),
    {
        proof {
            use_type_invariant(&*self);
        }
        registry.check();
        match self.phase {
            GenPhase::Done | GenPhase::Canceled => GenStep::Wait,
            _ => {
                let step = GenStep::Abort {
                    range_files: self.range_files(),
                    meta_file: self.phase == GenPhase::Sealing,
                };
                registry.cancel(self.key);
                let mut whole = GenTask::new(self.key, Vec::new());
                core::mem::swap(self, &mut whole);
                let GenTask { key, names, built, phase: _, sum: _, size: _, kvs: _, files, open: _ } =
                    whole;
                *self = GenTask {
                    key,
                    names,
                    built,
                    phase: GenPhase::Canceled,
                    sum: Checksum::new(),
                    size: 0,
                    kvs: 0,
                    files,
                    open: Ghost(Seq::empty()),
                };
                step
            },
        }
    }
}

/// The answer to a request for the snapshot `key`, as it follows from the
/// registry, the token and the order at the generation hook.
pub open spec fn request_outcome(
    r: RegistryView,
    key: SnapKey,
    token: CancelToken,
    fault: FaultAction,
) -> Result<bool, SnapError> {
    if token.spec_cancels(key) || fault == FaultAction::Fail {
        Err(SnapError::Canceled)
    } else if r.has_live(key) {
        if r.get(key)->0.state.spec_role() == Role::Sender {
            match r.acquire_outcome(key) {
                Ok(()) => Ok(false),
                Err(e) => Err(e),
            }
        } else {
            Err(SnapError::AlreadyExists)
        }
    } else {
        Ok(true)
    }
}

/// Asks for the snapshot `key` to be generated from the ranges `names`.
///
/// A request that the token already cancels, or that the policy fails, is
/// turned down with `Canceled`. If the key has a live entry on the sending
/// side, no second task runs: the caller becomes one more holder of that
/// entry and joins the work under way. Otherwise the key is registered as
/// `Generating`, held once, and a new task is handed out.
pub fn request_generate(
    registry: &mut Registry,
    key: SnapKey,
    names: Vec<String>,
    token: CancelToken,
    policy: FaultPolicy,
    now: u64,
) -> (res: Result<GenStart, SnapError>)
    ensures
        final(registry)@.wf(),
        match request_outcome(old(registry)@, key, token, policy.spec_at(Hook::BeforeGenerate)) {
            Ok(fresh) => if fresh {
                &&& res matches Ok(GenStart::Run { task, delay })
                &&& task@ == (GenTaskView {
                    key,
                    names: names@.map_values(|s: String| s@),
                    built: Seq::empty(),
                    files: Seq::empty(),
                    open: Seq::empty(),
                    open_kvs: 0,
                    phase: GenPhase::Boundary,
                })
                &&& delay == policy.spec_at(Hook::BeforeGenerate).spec_delay()
                &&& final(registry)@ == old(registry)@.after_register(
                    key,
                    SnapshotState::Generating,
                    now,
                )
                &&& final(registry)@.get(key) == Some(
                    Entry {
                        key,
                        state: SnapshotState::Generating,
                        ref_count: 1,
                        created: now,
                        touched: now,
                    },
                )
            } else {
                &&& res matches Ok(GenStart::Join)
                &&& final(registry)@ == old(registry)@.after_acquire(key, now)
            },
            Err(e) => res matches Err(got) && got == e && final(registry)@ == old(registry)@,
        },
{
    registry.check();
    let fault = policy.at(Hook::BeforeGenerate);
    if token.cancels(key) || fault == FaultAction::Fail {
        return Err(SnapError::Canceled);
    }
    match registry.get(key) {
        Some(e) => {
            if !e.state.is_terminal() {
                if e.state.role() == Role::Sender {
                    return match registry.acquire(key, now) {
                        Ok(()) => Ok(GenStart::Join),
                        Err(err) => Err(err),
                    };
                } else {
                    return Err(SnapError::AlreadyExists);
                }
            }
        },
        None => {},
    }
    let fresh = Entry {
        key,
        state: SnapshotState::Generating,
        ref_count: 1,
        created: now,
        touched: now,
    };
    proof {
        crate::snap::registry_laws::lemma_with_entry_wf(registry@, fresh);
    }
    match registry.register(key, SnapshotState::Generating, now) {
        Ok(()) => Ok(GenStart::Run { task: GenTask::new(key, names), delay: fault.delay() }),
        Err(err) => Err(err),
    }
}

/// A generation that finds, at a boundary, that the log is truncated up to
/// its index (or that its peer is gone) ends there as canceled. The step
/// names every range file written so far, so that none is left behind, and
/// from then on the task asks for nothing and accepts nothing.
pub proof fn law_cancel_ends_generation(
    t: GenTaskView,
    token: CancelToken,
    later: CancelToken,
    chunk: Seq<u8>,
    entries: u64,
)
    requires
        t.wf(),
        t.phase == GenPhase::Boundary,
        t.key.idx <= token.truncated_index || token.destroyed,
    ensures
        t.next(token).1 == (GenStep::Abort {
            range_files: t.range_files() as usize,
            meta_file: false,
        }),
        t.range_files() == t.files.len(),
        t.next(token).0.phase == GenPhase::Canceled,
        t.next(token).0.wf(),
        t.next(token).0.next(later) == (t.next(token).0, GenStep::Wait),
        t.next(token).0.after_write(chunk, entries) == t.next(token).0,
        t.next(token).0.after_close() == t.next(token).0,
{
}

/// However a running task ends as canceled (at a boundary, while sealing
/// or given up in the middle of a range), the step that ends it names every
/// file that the task has on disk: each range file begun so far, and the
/// metadata file once sealing began.
pub proof fn law_cancel_names_every_file(t: GenTaskView, token: CancelToken)
    requires
        t.wf(),
        t.running(),
    ensures
        t.after_abandon().1 == t.abort_step(),
        t.after_abandon().0.phase == GenPhase::Canceled,
        t.phase == GenPhase::Boundary && token.spec_cancels(t.key) ==> t.next(token).1
            == t.abort_step(),
        t.abort_step() == (GenStep::Abort {
            range_files: (t.files.len() + if t.phase == GenPhase::InRange {
                1nat
            } else {
                0nat
            }) as usize,
            meta_file: t.phase == GenPhase::Sealing,
        }),
{
}

/// Every step keeps the task well formed, and with it the promise that each
/// range built so far is described by its size and checksum.
pub proof fn law_steps_keep_descriptions(
    t: GenTaskView,
    token: CancelToken,
    chunk: Seq<u8>,
    entries: u64,
)
    requires
        t.wf(),
    ensures
        t.next(token).0.wf(),
        t.after_write(chunk, entries).wf(),
        t.after_close().wf(),
        t.after_abandon().0.wf(),
        t.built.len() == t.names.len() ==> t.meta().describes(t.files),
{
    let c = t.after_close();
    if t.phase == GenPhase::InRange {
        assert forall|i: int| 0 <= i < c.built.len() implies (#[trigger] c.built[i]).name
            == c.names[i] && c.built[i].describes(c.files[i]) by {
            if i < t.built.len() {
                assert(c.built[i] == t.built[i]);
            }
        }
    }
}

} // verus!
